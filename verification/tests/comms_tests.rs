use chrono::{NaiveDate, NaiveDateTime};
use mankeli_chat::api::{FetchMessageResponse, FriendRequestStatus, Message};
use mankeli_chat::comms::{
    fetch_messages_call, friend_fetcher, friend_request_call, is_success, message_fetcher,
    process_friend_messages, send_friend_request, FetchReply, PollError, PushReply, Tick,
    FRIEND_CALLS_AT_ONCE, MESSAGE_CALLS_AT_ONCE, RETRY_AFTER_FAILED_READ, RETRY_WITHOUT_FRIENDS,
    RETRY_WITHOUT_UPDATES,
};
use mankeli_chat::db::{
    fetch_active_friends, fetch_inbox, fetch_unsent_friend_updt, fetch_users, DbError, Friend,
    InboxMessage, Store, User,
};

fn at(hour: u32) -> NaiveDateTime {
    NaiveDate::from_ymd_opt(2024, 5, 17).unwrap().and_hms_opt(hour, 0, 0).unwrap()
}

fn friend(id: i64, username: &str, address: &str, status: i64, sent: bool) -> Friend {
    Friend {
        id,
        username: username.to_string(),
        address: address.to_string(),
        status,
        sent,
        added_at: None,
    }
}

fn bob() -> User {
    User { id: 1, username: "bob".to_string(), address: "1.2.3.4".to_string() }
}

fn one_message() -> FetchMessageResponse {
    FetchMessageResponse {
        messages: vec![Message {
            sender: "alice".into(),
            subject: "hi".into(),
            body: "hello".into(),
        }],
    }
}

#[test]
fn test_process_friend_messages_success() {
    let friend = Friend {
        id: 1,
        username: "alice".into(),
        address: "127.0.0.1:5000".to_string(),
        status: 2,
        sent: true,
        added_at: None,
    };
    let call = fetch_messages_call("bob", "1.2.3.4", &friend);
    assert_eq!(call.url, "http://127.0.0.1:5000/fetch_messages");
    assert_eq!(call.friend.username, "alice");
    assert_eq!(call.body.username, "bob");
    assert_eq!(call.body.address, "1.2.3.4");

    let reply = FetchReply::Answered { code: 200, body: Ok(one_message()) };

    let mut store = Store::new();

    let result = process_friend_messages(&mut store, reply, at(1));
    assert!(result.is_ok());

    let inbox = fetch_inbox(&store).unwrap();
    assert_eq!(inbox.len(), 1);
    assert_eq!(inbox[0].id, 1);
    assert_eq!(inbox[0].sender, "alice");
    assert_eq!(inbox[0].subject, "hi");
    assert_eq!(inbox[0].message, "hello");
    assert_eq!(inbox[0].received_at, Some(at(1)));
}

#[test]
fn test_send_friend_request_success() {
    let friend = Friend {
        id: 2,
        username: "carol".into(),
        address: "127.0.0.1:5000".to_string(),
        status: 1,
        sent: false,
        added_at: None,
    };
    let call = friend_request_call("bob", "1.2.3.4", &friend);
    assert_eq!(call.url, "http://127.0.0.1:5000/friend_request");
    assert_eq!(call.friend.username, "carol");
    assert_eq!(call.body.username, "carol");
    assert_eq!(call.body.hostname, "bob");
    assert_eq!(call.body.address.as_deref(), Some("1.2.3.4"));
    assert_eq!(call.body.req_type, FriendRequestStatus::InviteReceived);

    let mut store = Store::from_rows(Some(bob()), vec![friend.clone()], vec![], vec![]).unwrap();

    let result = send_friend_request(&mut store, &friend, PushReply::Answered { code: 200 });

    assert!(result.is_ok());
    let rows = fetch_users(&store).unwrap();
    assert!(rows[0].sent);
    assert_eq!(rows[0].status, 1);
}

#[test]
fn success_is_200_to_299() {
    for code in [0u16, 100, 199, 300, 301, 404, 500, 999, u16::MAX] {
        assert!(!is_success(code), "{}", code);
    }
    for code in [200u16, 201, 204, 250, 299] {
        assert!(is_success(code), "{}", code);
    }
}

#[test]
fn message_tick_backs_off_after_a_failed_read() {
    match message_fetcher(Err(DbError::RowNotFound), "bob", "1.2.3.4", 7) {
        Tick::Backoff { secs } => assert_eq!(secs, 60),
        other => panic!("unexpected tick {:?}", other),
    }
    assert_eq!(RETRY_AFTER_FAILED_READ, 60);
}

#[test]
fn message_tick_backs_off_without_friends() {
    match message_fetcher(Ok(vec![]), "bob", "1.2.3.4", 7) {
        Tick::Backoff { secs } => assert_eq!(secs, 30),
        other => panic!("unexpected tick {:?}", other),
    }
    assert_eq!(RETRY_WITHOUT_FRIENDS, 30);
}

#[test]
fn message_tick_calls_every_active_friend() {
    let rows = vec![
        friend(1, "alice", "10.0.0.1:80", 2, true),
        friend(2, "carol", "10.0.0.2", 0, false),
        friend(3, "dave", "dave.example", 2, false),
    ];
    let store = Store::from_rows(Some(bob()), rows, vec![], vec![]).unwrap();
    match message_fetcher(fetch_active_friends(&store), "bob", "1.2.3.4", 7) {
        Tick::FanOut { calls, limit, sleep_secs } => {
            assert_eq!(limit, 10);
            assert_eq!(limit, MESSAGE_CALLS_AT_ONCE);
            assert_eq!(sleep_secs, 7);
            let urls: Vec<(&str, &str)> = calls
                .iter()
                .map(|call| (call.friend.username.as_str(), call.url.as_str()))
                .collect();
            assert_eq!(
                urls,
                vec![
                    ("alice", "http://10.0.0.1:80/fetch_messages"),
                    ("dave", "http://dave.example/fetch_messages"),
                ]
            );
            assert!(calls.iter().all(|call| call.body.username == "bob"));
            assert!(calls.iter().all(|call| call.body.address == "1.2.3.4"));
        },
        other => panic!("unexpected tick {:?}", other),
    }
}

#[test]
fn friend_tick_backs_off() {
    match friend_fetcher(Err(DbError::RowNotFound), "1.2.3.4", 9) {
        Tick::Backoff { secs } => assert_eq!(secs, 60),
        other => panic!("unexpected tick {:?}", other),
    }
    match friend_fetcher(Ok(("bob".to_string(), vec![])), "1.2.3.4", 9) {
        Tick::Backoff { secs } => assert_eq!(secs, 15),
        other => panic!("unexpected tick {:?}", other),
    }
    assert_eq!(RETRY_WITHOUT_UPDATES, 15);
}

#[test]
fn friend_tick_calls_every_undelivered_relationship() {
    let rows = vec![
        friend(1, "alice", "10.0.0.1", 0, false),
        friend(2, "carol", "10.0.0.2", 2, true),
        friend(3, "dave", "10.0.0.3", 3, false),
        friend(4, "erin", "10.0.0.4", 2, false),
    ];
    let store = Store::from_rows(Some(bob()), rows, vec![], vec![]).unwrap();
    match friend_fetcher(fetch_unsent_friend_updt(&store), "1.2.3.4", 9) {
        Tick::FanOut { calls, limit, sleep_secs } => {
            assert_eq!(limit, 5);
            assert_eq!(limit, FRIEND_CALLS_AT_ONCE);
            assert_eq!(sleep_secs, 9);
            let sent: Vec<(&str, &str, FriendRequestStatus)> = calls
                .iter()
                .map(|call| (call.body.username.as_str(), call.url.as_str(), call.body.req_type))
                .collect();
            assert_eq!(
                sent,
                vec![
                    ("alice", "http://10.0.0.1/friend_request", FriendRequestStatus::InviteSent),
                    ("dave", "http://10.0.0.3/friend_request", FriendRequestStatus::Rejected),
                    ("erin", "http://10.0.0.4/friend_request", FriendRequestStatus::Accepted),
                ]
            );
            assert!(calls.iter().all(|call| call.body.hostname == "bob"));
            assert!(calls.iter().all(|call| call.body.address.as_deref() == Some("1.2.3.4")));
        },
        other => panic!("unexpected tick {:?}", other),
    }
}

#[test]
fn a_failed_fetch_changes_nothing() {
    let mut store = Store::new();
    match process_friend_messages(&mut store, FetchReply::Failed("timed out".to_string()), at(1)) {
        Err(PollError::Request(why)) => assert_eq!(why, "timed out"),
        other => panic!("unexpected end {:?}", other),
    }
    let reply = FetchReply::Answered { code: 500, body: Ok(one_message()) };
    match process_friend_messages(&mut store, reply, at(1)) {
        Err(PollError::BadStatus(code)) => assert_eq!(code, 500),
        other => panic!("unexpected end {:?}", other),
    }
    let reply = FetchReply::Answered { code: 200, body: Err("expected value".to_string()) };
    match process_friend_messages(&mut store, reply, at(1)) {
        Err(PollError::Parse(why)) => assert_eq!(why, "expected value"),
        other => panic!("unexpected end {:?}", other),
    }
    let reply = FetchReply::Answered { code: 404, body: Err("no body".to_string()) };
    match process_friend_messages(&mut store, reply, at(1)) {
        Err(PollError::BadStatus(code)) => assert_eq!(code, 404),
        other => panic!("unexpected end {:?}", other),
    }
    assert!(fetch_inbox(&store).unwrap().is_empty());
}

#[test]
fn an_empty_answer_is_a_success() {
    let mut store = Store::new();
    let nothing = FetchMessageResponse { messages: vec![] };
    let reply = FetchReply::Answered { code: 204, body: Ok(nothing) };
    assert!(process_friend_messages(&mut store, reply, at(1)).is_ok());
    assert!(fetch_inbox(&store).unwrap().is_empty());
}

#[test]
fn a_full_inbox_fails_that_peer_only() {
    let last = InboxMessage {
        id: i64::MAX - 1,
        sender: "x".to_string(),
        subject: "s".to_string(),
        message: "m".to_string(),
        received_at: None,
    };
    let mut store = Store::from_rows(None, vec![], vec![], vec![last]).unwrap();
    let reply = FetchReply::Answered { code: 200, body: Ok(one_message()) };
    match process_friend_messages(&mut store, reply, at(1)) {
        Err(PollError::Db(error)) => assert_eq!(error, DbError::Full),
        other => panic!("unexpected end {:?}", other),
    }
    assert_eq!(fetch_inbox(&store).unwrap().len(), 1);
}

#[test]
fn a_failed_push_stays_undelivered() {
    let carol = friend(2, "carol", "10.0.0.2", 0, false);
    let mut store = Store::from_rows(Some(bob()), vec![carol.clone()], vec![], vec![]).unwrap();
    match send_friend_request(&mut store, &carol, PushReply::Failed("refused".to_string())) {
        Err(PollError::Request(why)) => assert_eq!(why, "refused"),
        other => panic!("unexpected end {:?}", other),
    }
    match send_friend_request(&mut store, &carol, PushReply::Answered { code: 400 }) {
        Err(PollError::BadStatus(code)) => assert_eq!(code, 400),
        other => panic!("unexpected end {:?}", other),
    }
    assert!(!fetch_users(&store).unwrap()[0].sent);
    let (_, unsent) = fetch_unsent_friend_updt(&store).unwrap();
    assert_eq!(unsent.len(), 1);
}

#[test]
fn one_dead_peer_does_not_touch_the_others() {
    let rows = vec![
        friend(1, "alice", "10.0.0.1", 2, true),
        friend(2, "carol", "10.0.0.2", 2, true),
        friend(3, "dave", "10.0.0.3", 2, true),
    ];
    let mut store = Store::from_rows(Some(bob()), rows, vec![], vec![]).unwrap();
    let tick = message_fetcher(fetch_active_friends(&store), "bob", "1.2.3.4", 5);
    let calls = match tick {
        Tick::FanOut { calls, .. } => calls,
        other => panic!("unexpected tick {:?}", other),
    };
    assert_eq!(calls.len(), 3);
    let mut ends = Vec::new();
    for call in &calls {
        let reply = if call.friend.username == "carol" {
            FetchReply::Failed("deadline elapsed".to_string())
        } else {
            FetchReply::Answered {
                code: 200,
                body: Ok(FetchMessageResponse {
                    messages: vec![Message {
                        sender: call.friend.username.clone(),
                        subject: "hi".to_string(),
                        body: format!("from {}", call.friend.username),
                    }],
                }),
            }
        };
        ends.push(process_friend_messages(&mut store, reply, at(4)).is_ok());
    }
    assert_eq!(ends, vec![true, false, true]);
    let inbox = fetch_inbox(&store).unwrap();
    let got: Vec<(i64, &str, &str)> =
        inbox.iter().map(|row| (row.id, row.sender.as_str(), row.message.as_str())).collect();
    assert_eq!(got, vec![(1, "alice", "from alice"), (2, "dave", "from dave")]);
}

#[test]
fn a_second_friend_tick_pushes_nothing() {
    let rows = vec![
        friend(1, "alice", "10.0.0.1", 0, false),
        friend(2, "carol", "10.0.0.2", 2, false),
    ];
    let mut store = Store::from_rows(Some(bob()), rows, vec![], vec![]).unwrap();
    let (_, unsent) = fetch_unsent_friend_updt(&store).unwrap();
    assert_eq!(unsent.len(), 2);
    for row in &unsent {
        send_friend_request(&mut store, row, PushReply::Answered { code: 200 }).unwrap();
    }
    match friend_fetcher(fetch_unsent_friend_updt(&store), "1.2.3.4", 9) {
        Tick::Backoff { secs } => assert_eq!(secs, 15),
        other => panic!("unexpected tick {:?}", other),
    }
}
