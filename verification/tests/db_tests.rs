use chrono::{NaiveDate, NaiveDateTime};
use mankeli_chat::api::{FriendRequestStatus, Message as WireMessage};
use mankeli_chat::db::{
    batch_ingest, delete_message, delete_user, fetch_active_friends, fetch_inbox,
    fetch_messages_for_user, fetch_outgoing, fetch_unsent_friend_updt, fetch_users, init_db,
    mark_messages_as_sent, retr_user, send_invite, send_message_to_que, setup_db,
    step_relationship, update_friend_status_as_sent, DbError, Friend, FriendRequest, InboxMessage,
    Message, Outgoing, StepError, Store, User,
};
use mankeli_chat::relationship::{transition, Refusal, Transition, Trigger};
use mankeli_chat::{status_code, StatusLabel};

fn at(hour: u32) -> NaiveDateTime {
    NaiveDate::from_ymd_opt(2024, 5, 17).unwrap().and_hms_opt(hour, 0, 0).unwrap()
}

fn test_user() -> User {
    User { id: 0, username: "testuser".to_string(), address: "127.0.0.1".to_string() }
}

fn invite(store: &mut Store, username: &str, address: &str) -> Result<(), DbError> {
    send_invite(
        store,
        &FriendRequest { username: username.to_string(), address: address.to_string() },
        at(0),
    )
}

fn friend(id: i64, username: &str, status: i64, sent: bool) -> Friend {
    Friend {
        id,
        username: username.to_string(),
        address: format!("{}.example", username),
        status,
        sent,
        added_at: None,
    }
}

fn wire(sender: &str, subject: &str, body: &str) -> WireMessage {
    WireMessage { sender: sender.to_string(), subject: subject.to_string(), body: body.to_string() }
}

#[test]
fn test_user_init() {
    let mut store = Store::new();

    let uname: String = "foobar".to_string();

    let user: User = retr_user(&store).unwrap_or_else(|_| init_db(&mut store, uname));

    assert_eq!(user.address, "127.0.0.1");
    assert_eq!(user.username, "foobar");

    let stored = retr_user(&store).unwrap();
    assert_eq!(stored.username, "foobar");
    assert_eq!(stored.address, "127.0.0.1");
    assert_eq!(stored.id, 1);
}

#[test]
fn test_fetch_users_with_data() {
    let mut store = Store::new();
    setup_db(&mut store, &test_user()).unwrap();
    invite(&mut store, "user1", "1.1.1.1").unwrap();
    invite(&mut store, "user2", "2.2.2.2").unwrap();
    invite(&mut store, "user3", "3.3.3.3").unwrap();

    let result = fetch_users(&store);
    assert!(result.is_ok());
    let users = result.unwrap();

    assert_eq!(users.len(), 3);
    assert_eq!(users[0].username, "user1");
    assert_eq!(users[0].address, "1.1.1.1");
}

#[test]
fn test_fetch_outgoing_with_data() {
    let row = Outgoing {
        id: 1,
        sender: "testuser".to_string(),
        recipient: "charlie@example.com".to_string(),
        recipient_address: "1.2.3.4".to_string(),
        subject: "Test subject".to_string(),
        body: "Test message".to_string(),
        queued_at: None,
        sent: Some(false),
    };
    let store = Store::from_rows(Some(test_user()), vec![], vec![row], vec![]).unwrap();

    let result = fetch_outgoing(&store);
    assert!(result.is_ok(), "Error fetching outgoing: {:?}", result);
    let outgoing = result.unwrap();

    assert_eq!(outgoing.len(), 1);
    assert_eq!(outgoing[0].recipient, "charlie@example.com");
    assert_eq!(outgoing[0].body, "Test message");
    assert_eq!(outgoing[0].sent, Some(false));
}

#[test]
fn test_send_message() {
    let mut store = Store::new();
    setup_db(&mut store, &test_user()).unwrap();
    invite(&mut store, "user3", "3.3.3.3").unwrap();

    let message = Message {
        send_to: "user3".to_string(),
        subject: "test message".to_string(),
        content: "Hello world!".to_string(),
    };

    let result = send_message_to_que(&mut store, &message, at(7));
    assert!(result.is_ok());

    let queue = fetch_outgoing(&store).unwrap();
    let sent_message = queue.iter().find(|row| row.recipient == message.send_to).unwrap();

    assert_eq!(sent_message.recipient, message.send_to);
    assert_eq!(sent_message.body, message.content);
    assert_eq!(sent_message.id, 1);
    assert_eq!(sent_message.sender, "testuser");
    assert_eq!(sent_message.recipient_address, "3.3.3.3");
    assert_eq!(sent_message.subject, "test message");
    assert_eq!(sent_message.queued_at, Some(at(7)));
    assert_eq!(sent_message.sent, Some(false));
}

#[test]
fn test_send_invite() {
    let mut store = Store::new();
    setup_db(&mut store, &test_user()).unwrap();

    let request =
        FriendRequest { username: "alice".to_string(), address: "alice@example.com".to_string() };

    let result = send_invite(&mut store, &request, at(3));
    assert!(result.is_ok());

    let friends = fetch_users(&store).unwrap();
    let friend = friends.iter().find(|row| row.username == request.username).unwrap();

    assert_eq!(friend.username, "alice");
    assert_eq!(friend.address, "alice@example.com");
    assert_eq!(friend.id, 1);
    assert_eq!(friend.status, 0);
    assert!(!friend.sent);
    assert_eq!(friend.added_at, Some(at(3)));
}

#[test]
fn a_new_store_is_empty() {
    let store = Store::new();
    assert_eq!(retr_user(&store).unwrap_err(), DbError::RowNotFound);
    assert!(fetch_users(&store).unwrap().is_empty());
    assert!(fetch_outgoing(&store).unwrap().is_empty());
    assert!(fetch_inbox(&store).unwrap().is_empty());
    assert!(fetch_active_friends(&store).unwrap().is_empty());
    assert_eq!(fetch_unsent_friend_updt(&store).unwrap_err(), DbError::RowNotFound);
}

#[test]
fn the_first_identity_stays() {
    let mut store = Store::new();
    setup_db(&mut store, &test_user()).unwrap();
    let other = User { id: 9, username: "other".to_string(), address: "10.0.0.1".to_string() };
    setup_db(&mut store, &other).unwrap();
    let user = retr_user(&store).unwrap();
    assert_eq!(
        (user.id, user.username.as_str(), user.address.as_str()),
        (1, "testuser", "127.0.0.1")
    );

    let asked = init_db(&mut store, "third".to_string());
    assert_eq!(
        (asked.id, asked.username.as_str(), asked.address.as_str()),
        (0, "third", "127.0.0.1")
    );
    assert_eq!(retr_user(&store).unwrap().username, "testuser");
}

#[test]
fn status_codes_and_labels() {
    assert_eq!(0i64.status_enum(), FriendRequestStatus::InviteSent);
    assert_eq!(1i64.status_enum(), FriendRequestStatus::InviteReceived);
    assert_eq!(2i64.status_enum(), FriendRequestStatus::Accepted);
    assert_eq!(3i64.status_enum(), FriendRequestStatus::Rejected);
    assert_eq!(4i64.status_enum(), FriendRequestStatus::Rejected);
    assert_eq!((-1i64).status_enum(), FriendRequestStatus::Rejected);
    assert_eq!(0i64.status_str(), "invite_sent");
    assert_eq!(1i64.status_str(), "invite_received");
    assert_eq!(2i64.status_str(), "accepted");
    assert_eq!(3i64.status_str(), "rejected");
    assert_eq!(4i64.status_str(), "unknown");
    assert_eq!(i64::MIN.status_str(), "unknown");
    for status in [
        FriendRequestStatus::InviteSent,
        FriendRequestStatus::InviteReceived,
        FriendRequestStatus::Accepted,
        FriendRequestStatus::Rejected,
    ] {
        assert_eq!(status_code(status).status_enum(), status);
    }
    assert_eq!(status_code(FriendRequestStatus::Accepted), 2);
}

#[test]
fn the_transition_table() {
    let (invite_sent, invite_received, accepted, rejected) = (
        FriendRequestStatus::InviteSent,
        FriendRequestStatus::InviteReceived,
        FriendRequestStatus::Accepted,
        FriendRequestStatus::Rejected,
    );
    let local = Trigger::LocalInvite;
    assert_eq!(transition(None, local), Ok(Transition::Create));
    assert_eq!(transition(Some(rejected), local), Ok(Transition::Reinvite));
    assert_eq!(transition(Some(invite_sent), local), Err(Refusal::AlreadyRelated));
    assert_eq!(transition(Some(invite_received), local), Err(Refusal::AlreadyRelated));
    assert_eq!(transition(Some(accepted), local), Err(Refusal::AlreadyRelated));

    let invite = Trigger::Inbound(invite_sent);
    assert_eq!(transition(None, invite), Ok(Transition::Create));
    assert_eq!(transition(Some(invite_sent), invite), Ok(Transition::Keep));
    assert_eq!(transition(Some(invite_received), invite), Ok(Transition::Reinvite));
    assert_eq!(transition(Some(accepted), invite), Ok(Transition::Reinvite));
    assert_eq!(transition(Some(rejected), invite), Ok(Transition::Reinvite));

    let on_record =
        [None, Some(invite_sent), Some(invite_received), Some(accepted), Some(rejected)];
    for existing in on_record {
        assert_eq!(
            transition(existing, Trigger::Inbound(invite_received)),
            Err(Refusal::NeverRequested)
        );
    }

    let accept = Trigger::Inbound(accepted);
    assert_eq!(transition(None, accept), Err(Refusal::NoInvitation));
    assert_eq!(transition(Some(invite_sent), accept), Ok(Transition::Accept));
    assert_eq!(transition(Some(accepted), accept), Ok(Transition::Keep));
    assert_eq!(transition(Some(invite_received), accept), Err(Refusal::NothingToAccept));
    assert_eq!(transition(Some(rejected), accept), Err(Refusal::NothingToAccept));

    let reject = Trigger::Inbound(rejected);
    assert_eq!(transition(None, reject), Err(Refusal::NothingToReject));
    assert_eq!(transition(Some(invite_sent), reject), Ok(Transition::Reject));
    assert_eq!(transition(Some(rejected), reject), Ok(Transition::Keep));
    assert_eq!(transition(Some(invite_received), reject), Err(Refusal::NothingToReject));
    assert_eq!(transition(Some(accepted), reject), Err(Refusal::NothingToReject));
}

#[test]
fn a_second_invite_is_a_unique_violation() {
    let mut store = Store::new();
    invite(&mut store, "alice", "a.example").unwrap();
    assert_eq!(invite(&mut store, "alice", "elsewhere"), Err(DbError::UniqueViolation));
    let friends = fetch_users(&store).unwrap();
    assert_eq!(friends.len(), 1);
    assert_eq!(friends[0].address, "a.example");
}

#[test]
fn a_rejected_peer_can_be_invited_again() {
    let rows = vec![friend(4, "alice", 3, true), friend(6, "bob", 2, true)];
    let mut store = Store::from_rows(None, rows, vec![], vec![]).unwrap();
    let made = step_relationship(
        &mut store,
        &"alice".to_string(),
        &"new.example".to_string(),
        Trigger::LocalInvite,
        at(5),
    );
    assert_eq!(made, Ok(Transition::Reinvite));
    let friends = fetch_users(&store).unwrap();
    assert_eq!(friends[0].id, 4);
    assert_eq!(friends[0].status, 0);
    assert!(!friends[0].sent);
    assert_eq!(friends[0].address, "alice.example");
    assert_eq!(friends[0].added_at, Some(at(5)));
    assert_eq!(friends[1].status, 2);

    let refused = step_relationship(
        &mut store,
        &"bob".to_string(),
        &"b".to_string(),
        Trigger::LocalInvite,
        at(6),
    );
    assert_eq!(refused, Err(StepError::Refused(Refusal::AlreadyRelated)));

    invite(&mut store, "carol", "c.example").unwrap();
    let friends = fetch_users(&store).unwrap();
    assert_eq!(friends[2].id, 7);
}

#[test]
fn a_full_table_takes_no_new_relationship() {
    let rows = vec![friend(i64::MAX - 1, "alice", 0, true)];
    let mut store = Store::from_rows(None, rows, vec![], vec![]).unwrap();
    assert_eq!(invite(&mut store, "bob", "b.example"), Err(DbError::Full));
    assert_eq!(fetch_users(&store).unwrap().len(), 1);
    assert_eq!(
        step_relationship(
            &mut store,
            &"bob".to_string(),
            &"b".to_string(),
            Trigger::Inbound(FriendRequestStatus::InviteSent),
            at(1)
        ),
        Err(StepError::Full)
    );
}

#[test]
fn queueing_needs_an_identity_and_a_relationship() {
    let message = Message {
        send_to: "bob".to_string(),
        subject: "hi".to_string(),
        content: "hello".to_string(),
    };
    let mut store = Store::new();
    invite(&mut store, "bob", "b.example").unwrap();
    assert_eq!(send_message_to_que(&mut store, &message, at(1)), Err(DbError::RowNotFound));

    let mut store = Store::new();
    setup_db(&mut store, &test_user()).unwrap();
    assert_eq!(send_message_to_que(&mut store, &message, at(1)), Err(DbError::RowNotFound));
    assert!(fetch_outgoing(&store).unwrap().is_empty());

    invite(&mut store, "bob", "b.example").unwrap();
    assert_eq!(send_message_to_que(&mut store, &message, at(1)), Ok(()));
    assert_eq!(send_message_to_que(&mut store, &message, at(2)), Ok(()));
    let ids: Vec<i64> = fetch_outgoing(&store).unwrap().iter().map(|row| row.id).collect();
    assert_eq!(ids, vec![1, 2]);
}

#[test]
fn a_full_queue_takes_no_message() {
    let row = Outgoing {
        id: i64::MAX - 1,
        sender: "testuser".to_string(),
        recipient: "bob".to_string(),
        recipient_address: "b".to_string(),
        subject: "s".to_string(),
        body: "b".to_string(),
        queued_at: None,
        sent: None,
    };
    let mut store =
        Store::from_rows(Some(test_user()), vec![friend(1, "bob", 2, true)], vec![row], vec![])
            .unwrap();
    let message =
        Message { send_to: "bob".to_string(), subject: "x".to_string(), content: "y".to_string() };
    assert_eq!(send_message_to_que(&mut store, &message, at(1)), Err(DbError::Full));
    assert_eq!(fetch_outgoing(&store).unwrap().len(), 1);
}

#[test]
fn the_address_is_copied_when_the_message_is_queued() {
    let mut store = Store::new();
    setup_db(&mut store, &test_user()).unwrap();
    invite(&mut store, "bob", "old.example").unwrap();
    let message =
        Message { send_to: "bob".to_string(), subject: "x".to_string(), content: "y".to_string() };
    send_message_to_que(&mut store, &message, at(1)).unwrap();
    let id = fetch_users(&store).unwrap()[0].id;
    delete_user(&mut store, id).unwrap();
    invite(&mut store, "bob", "new.example").unwrap();
    send_message_to_que(&mut store, &message, at(2)).unwrap();
    let addresses: Vec<String> =
        fetch_outgoing(&store).unwrap().into_iter().map(|row| row.recipient_address).collect();
    assert_eq!(addresses, vec!["old.example", "new.example"]);
}

#[test]
fn marking_by_id() {
    let mut store = Store::new();
    setup_db(&mut store, &test_user()).unwrap();
    invite(&mut store, "bob", "b.example").unwrap();
    for subject in ["a", "b", "c", "d"] {
        let message = Message {
            send_to: "bob".to_string(),
            subject: subject.to_string(),
            content: "".to_string(),
        };
        send_message_to_que(&mut store, &message, at(1)).unwrap();
    }
    assert_eq!(mark_messages_as_sent(&mut store, &[]), Ok(()));
    assert!(fetch_outgoing(&store).unwrap().iter().all(|row| row.sent == Some(false)));

    assert_eq!(mark_messages_as_sent(&mut store, &[4, 2, 2, 99]), Ok(()));
    let flags: Vec<(i64, Option<bool>)> =
        fetch_outgoing(&store).unwrap().iter().map(|row| (row.id, row.sent)).collect();
    assert_eq!(flags, vec![(1, Some(false)), (2, Some(true)), (3, Some(false)), (4, Some(true))]);

    let pending = fetch_messages_for_user(&store, "bob".to_string()).unwrap();
    let subjects: Vec<&str> = pending.iter().map(|row| row.subject.as_str()).collect();
    assert_eq!(subjects, vec!["a", "c"]);
    assert!(fetch_messages_for_user(&store, "carol".to_string()).unwrap().is_empty());
}

#[test]
fn a_message_never_marked_counts_as_pending() {
    let row = Outgoing {
        id: 3,
        sender: "testuser".to_string(),
        recipient: "bob".to_string(),
        recipient_address: "b".to_string(),
        subject: "s".to_string(),
        body: "b".to_string(),
        queued_at: None,
        sent: None,
    };
    let store = Store::from_rows(None, vec![], vec![row], vec![]).unwrap();
    let pending = fetch_messages_for_user(&store, "bob".to_string()).unwrap();
    assert_eq!(pending.len(), 1);
    assert_eq!(pending[0].id, 3);
}

#[test]
fn active_and_unsent_friends() {
    let rows = vec![
        friend(1, "a", 0, false),
        friend(2, "b", 2, true),
        friend(3, "c", 2, false),
        friend(4, "d", 3, true),
        friend(5, "e", 1, false),
        friend(6, "f", 7, true),
    ];
    let mut store = Store::from_rows(Some(test_user()), rows, vec![], vec![]).unwrap();
    let active: Vec<String> =
        fetch_active_friends(&store).unwrap().into_iter().map(|row| row.username).collect();
    assert_eq!(active, vec!["b", "c"]);
    let (me, unsent) = fetch_unsent_friend_updt(&store).unwrap();
    assert_eq!(me, "testuser");
    let names: Vec<&str> = unsent.iter().map(|row| row.username.as_str()).collect();
    assert_eq!(names, vec!["a", "c", "e"]);

    assert_eq!(update_friend_status_as_sent(&mut store, &"c".to_string()), Ok(()));
    assert_eq!(update_friend_status_as_sent(&mut store, &"nobody".to_string()), Ok(()));
    let (_, unsent) = fetch_unsent_friend_updt(&store).unwrap();
    let names: Vec<&str> = unsent.iter().map(|row| row.username.as_str()).collect();
    assert_eq!(names, vec!["a", "e"]);
    let friends = fetch_users(&store).unwrap();
    assert_eq!(friends[2].status, 2);
    assert!(friends[2].sent);
    assert_eq!(friends.len(), 6);
}

#[test]
fn ingesting_a_batch() {
    let mut store = Store::new();
    assert_eq!(batch_ingest(&mut store, vec![], at(1)), Ok(()));
    assert!(fetch_inbox(&store).unwrap().is_empty());
    let batch = vec![wire("alice", "hi", "hello"), wire("alice", "again", "still there?")];
    assert_eq!(batch_ingest(&mut store, batch, at(2)), Ok(()));
    assert_eq!(batch_ingest(&mut store, vec![wire("bob", "yo", "")], at(3)), Ok(()));
    let inbox = fetch_inbox(&store).unwrap();
    let rows: Vec<(i64, &str, &str, &str, Option<NaiveDateTime>)> = inbox
        .iter()
        .map(|row| {
            let text = (row.sender.as_str(), row.subject.as_str(), row.message.as_str());
            (row.id, text.0, text.1, text.2, row.received_at)
        })
        .collect();
    assert_eq!(
        rows,
        vec![
            (1, "alice", "hi", "hello", Some(at(2))),
            (2, "alice", "again", "still there?", Some(at(2))),
            (3, "bob", "yo", "", Some(at(3))),
        ]
    );
}

#[test]
fn a_batch_goes_in_whole_or_not_at_all() {
    let row = InboxMessage {
        id: i64::MAX - 2,
        sender: "a".to_string(),
        subject: "s".to_string(),
        message: "m".to_string(),
        received_at: None,
    };
    let mut store = Store::from_rows(None, vec![], vec![], vec![row]).unwrap();
    let two = vec![wire("a", "1", ""), wire("a", "2", "")];
    assert_eq!(batch_ingest(&mut store, two, at(1)), Err(DbError::Full));
    assert_eq!(fetch_inbox(&store).unwrap().len(), 1);
    assert_eq!(batch_ingest(&mut store, vec![wire("a", "1", "")], at(1)), Ok(()));
    let inbox = fetch_inbox(&store).unwrap();
    assert_eq!(inbox.len(), 2);
    assert_eq!(inbox[1].id, i64::MAX - 1);
    assert_eq!(batch_ingest(&mut store, vec![wire("a", "2", "")], at(1)), Err(DbError::Full));
}

#[test]
fn deleting_rows() {
    let mut store = Store::new();
    batch_ingest(
        &mut store,
        vec![wire("a", "1", ""), wire("a", "2", ""), wire("a", "3", "")],
        at(1),
    )
    .unwrap();
    assert_eq!(delete_message(&mut store, 2), Ok(()));
    assert_eq!(delete_message(&mut store, 42), Ok(()));
    let ids: Vec<i64> = fetch_inbox(&store).unwrap().iter().map(|row| row.id).collect();
    assert_eq!(ids, vec![1, 3]);
    batch_ingest(&mut store, vec![wire("a", "4", "")], at(1)).unwrap();
    let ids: Vec<i64> = fetch_inbox(&store).unwrap().iter().map(|row| row.id).collect();
    assert_eq!(ids, vec![1, 3, 4]);

    invite(&mut store, "x", "x").unwrap();
    invite(&mut store, "y", "y").unwrap();
    assert_eq!(delete_user(&mut store, 1), Ok(()));
    assert_eq!(delete_user(&mut store, 1), Ok(()));
    let names: Vec<String> =
        fetch_users(&store).unwrap().into_iter().map(|row| row.username).collect();
    assert_eq!(names, vec!["y"]);
    assert_eq!(invite(&mut store, "x", "x2"), Ok(()));
    let friends = fetch_users(&store).unwrap();
    assert_eq!((friends[1].id, friends[1].address.as_str()), (3, "x2"));
}

#[test]
fn opening_a_store_from_rows() {
    let store = Store::from_rows(None, vec![], vec![], vec![]).unwrap();
    assert!(fetch_users(&store).unwrap().is_empty());

    let unordered = vec![friend(2, "a", 0, true), friend(1, "b", 0, true)];
    assert_eq!(
        Store::from_rows(None, unordered, vec![], vec![]).unwrap_err(),
        DbError::UniqueViolation
    );
    let same_id = vec![friend(1, "a", 0, true), friend(1, "b", 0, true)];
    assert_eq!(
        Store::from_rows(None, same_id, vec![], vec![]).unwrap_err(),
        DbError::UniqueViolation
    );
    let same_name = vec![friend(1, "a", 0, true), friend(2, "b", 0, true), friend(3, "a", 2, true)];
    assert_eq!(
        Store::from_rows(None, same_name, vec![], vec![]).unwrap_err(),
        DbError::UniqueViolation
    );
    let last = vec![friend(i64::MAX, "a", 0, true)];
    assert_eq!(Store::from_rows(None, last, vec![], vec![]).unwrap_err(), DbError::Full);

    let negative = vec![friend(-5, "a", 0, true), friend(-2, "b", 0, true)];
    let mut store = Store::from_rows(None, negative, vec![], vec![]).unwrap();
    invite(&mut store, "c", "c").unwrap();
    assert_eq!(fetch_users(&store).unwrap()[2].id, 1);
}

#[test]
fn saved_rows_open_again() {
    let mut store = Store::new();
    setup_db(&mut store, &test_user()).unwrap();
    invite(&mut store, "bob", "b.example").unwrap();
    invite(&mut store, "carol", "c.example").unwrap();
    let message =
        Message { send_to: "bob".to_string(), subject: "x".to_string(), content: "y".to_string() };
    send_message_to_que(&mut store, &message, at(1)).unwrap();
    batch_ingest(&mut store, vec![wire("bob", "re", "z")], at(2)).unwrap();

    let mut again = Store::from_rows(
        retr_user(&store).ok(),
        fetch_users(&store).unwrap(),
        fetch_outgoing(&store).unwrap(),
        fetch_inbox(&store).unwrap(),
    )
    .unwrap();
    assert_eq!(retr_user(&again).unwrap().username, "testuser");
    assert_eq!(fetch_users(&again).unwrap().len(), 2);
    assert_eq!(fetch_outgoing(&again).unwrap()[0].queued_at, Some(at(1)));
    assert_eq!(fetch_inbox(&again).unwrap()[0].message, "z");
    invite(&mut again, "dave", "d.example").unwrap();
    assert_eq!(fetch_users(&again).unwrap()[2].id, 3);
}

#[test]
fn errors_have_a_text() {
    assert_eq!(DbError::RowNotFound.message(), "no row found where one was expected");
    assert_eq!(DbError::UniqueViolation.message(), "a relationship with this node exists already");
    assert_eq!(DbError::Full.message(), "the table has no row id left");
}
