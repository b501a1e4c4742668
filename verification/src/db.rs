//! The local store: the node's identity, its relationships, the outgoing
//! mail queue and the inbox, with the operations that read and change them.

use vstd::prelude::*;
use vstd::string::*;

use crate::api::{FriendRequestStatus, Message as WireMessage};
use crate::model::{
    active_among, ascending, distinct, friend_ids, friend_names, id_values, inbox_ids,
    invite_outcome, lemma_active_among_push, lemma_friend_index, lemma_opened_is_wf,
    lemma_pending_among_push, lemma_step_is_local, lemma_unsent_among_push, lemma_without_friend,
    lemma_without_inbox_message, next_id_after, opened_from, outgoing_ids, pending_among,
    unsent_among, StoreView,
};
use crate::relationship::{status_after, transition, Refusal, Transition, Trigger};
use crate::{status_code, StatusLabel};

verus! {

/// `chrono::NaiveDateTime`, a date and time without a zone. The store only
/// carries such values; nothing here looks inside one.
#[verifier::external_type_specification]
#[verifier::external_body]
pub struct ExNaiveDateTime(chrono::NaiveDateTime);

/// The identity of this node.
#[derive(Debug)]
pub struct User {
    pub id: i64,
    pub username: String,
    pub address: String,
}

/// A `User` as a mathematical value.
pub struct UserView {
    pub id: int,
    pub username: Seq<char>,
    pub address: Seq<char>,
}

impl View for User {
    type V = UserView;

    open spec fn view(&self) -> UserView {
        UserView { id: self.id as int, username: self.username@, address: self.address@ }
    }
}

impl Clone for User {
    fn clone(&self) -> (copy: Self)
        ensures
            copy == *self,
    {
        User { id: self.id, username: self.username.clone(), address: self.address.clone() }
    }
}

/// The relationship with one remote node.
#[derive(Debug)]
pub struct Friend {
    pub id: i64,
    pub username: String,
    pub address: String,
    pub status: i64,
    /// Whether the peer has been told of `status`.
    pub sent: bool,
    pub added_at: Option<chrono::NaiveDateTime>,
}

/// A `Friend` as a mathematical value.
pub struct FriendView {
    pub id: int,
    pub username: Seq<char>,
    pub address: Seq<char>,
    pub status: int,
    pub sent: bool,
    pub added_at: Option<chrono::NaiveDateTime>,
}

impl View for Friend {
    type V = FriendView;

    open spec fn view(&self) -> FriendView {
        FriendView {
            id: self.id as int,
            username: self.username@,
            address: self.address@,
            status: self.status as int,
            sent: self.sent,
            added_at: self.added_at,
        }
    }
}

impl Clone for Friend {
    fn clone(&self) -> (copy: Self)
        ensures
            copy == *self,
    {
        Friend {
            id: self.id,
            username: self.username.clone(),
            address: self.address.clone(),
            status: self.status,
            sent: self.sent,
            added_at: self.added_at,
        }
    }
}

/// A message that arrived from a peer.
#[derive(Debug)]
pub struct InboxMessage {
    pub id: i64,
    pub sender: String,
    pub subject: String,
    pub message: String,
    pub received_at: Option<chrono::NaiveDateTime>,
}

/// An `InboxMessage` as a mathematical value.
pub struct InboxMessageView {
    pub id: int,
    pub sender: Seq<char>,
    pub subject: Seq<char>,
    pub message: Seq<char>,
    pub received_at: Option<chrono::NaiveDateTime>,
}

impl View for InboxMessage {
    type V = InboxMessageView;

    open spec fn view(&self) -> InboxMessageView {
        InboxMessageView {
            id: self.id as int,
            sender: self.sender@,
            subject: self.subject@,
            message: self.message@,
            received_at: self.received_at,
        }
    }
}

impl Clone for InboxMessage {
    fn clone(&self) -> (copy: Self)
        ensures
            copy == *self,
    {
        InboxMessage {
            id: self.id,
            sender: self.sender.clone(),
            subject: self.subject.clone(),
            message: self.message.clone(),
            received_at: self.received_at,
        }
    }
}

/// A message queued for a peer to pull. `recipient_address` is the address
/// the recipient had when the message was queued.
#[derive(Debug)]
pub struct Outgoing {
    pub id: i64,
    pub sender: String,
    pub recipient: String,
    pub recipient_address: String,
    pub subject: String,
    pub body: String,
    pub queued_at: Option<chrono::NaiveDateTime>,
    /// `Some(true)` once the recipient has pulled the message.
    pub sent: Option<bool>,
}

/// An `Outgoing` as a mathematical value.
pub struct OutgoingView {
    pub id: int,
    pub sender: Seq<char>,
    pub recipient: Seq<char>,
    pub recipient_address: Seq<char>,
    pub subject: Seq<char>,
    pub body: Seq<char>,
    pub queued_at: Option<chrono::NaiveDateTime>,
    pub sent: Option<bool>,
}

impl OutgoingView {
    /// Whether the recipient has pulled this message.
    pub open spec fn delivered(self) -> bool {
        self.sent == Some(true)
    }

    /// This message, pulled.
    pub open spec fn mark_sent(self) -> OutgoingView {
        OutgoingView { sent: Some(true), ..self }
    }

    /// Whether a pull by `username` takes this message.
    pub open spec fn pending_for(self, username: Seq<char>) -> bool {
        self.recipient == username && !self.delivered()
    }
}

impl View for Outgoing {
    type V = OutgoingView;

    open spec fn view(&self) -> OutgoingView {
        OutgoingView {
            id: self.id as int,
            sender: self.sender@,
            recipient: self.recipient@,
            recipient_address: self.recipient_address@,
            subject: self.subject@,
            body: self.body@,
            queued_at: self.queued_at,
            sent: self.sent,
        }
    }
}

impl Clone for Outgoing {
    fn clone(&self) -> (copy: Self)
        ensures
            copy == *self,
    {
        Outgoing {
            id: self.id,
            sender: self.sender.clone(),
            recipient: self.recipient.clone(),
            recipient_address: self.recipient_address.clone(),
            subject: self.subject.clone(),
            body: self.body.clone(),
            queued_at: self.queued_at,
            sent: self.sent,
        }
    }
}

/// A message as the local user writes it.
#[derive(Debug)]
pub struct Message {
    pub send_to: String,
    pub subject: String,
    pub content: String,
}

/// A `Message` as a mathematical value.
pub struct MessageView {
    pub send_to: Seq<char>,
    pub subject: Seq<char>,
    pub content: Seq<char>,
}

impl View for Message {
    type V = MessageView;

    open spec fn view(&self) -> MessageView {
        MessageView { send_to: self.send_to@, subject: self.subject@, content: self.content@ }
    }
}

/// The local user's wish to befriend the node `username` at `address`.
#[derive(Debug)]
pub struct FriendRequest {
    pub username: String,
    pub address: String,
}

/// A `FriendRequest` as a mathematical value.
pub struct FriendRequestView {
    pub username: Seq<char>,
    pub address: Seq<char>,
}

impl View for FriendRequest {
    type V = FriendRequestView;

    open spec fn view(&self) -> FriendRequestView {
        FriendRequestView { username: self.username@, address: self.address@ }
    }
}

/// Why the store refused an operation.
#[derive(Debug, PartialEq, Eq, Clone, Copy, Structural)]
pub enum DbError {
    /// A row that the operation needs is not there.
    RowNotFound,
    /// The row would be a second relationship with the same node.
    UniqueViolation,
    /// The table has handed out its last row id.
    Full,
}

/// Why a step of a relationship did not happen.
#[derive(Debug, PartialEq, Eq, Clone, Copy, Structural)]
pub enum StepError {
    /// The state machine refused the trigger.
    Refused(Refusal),
    /// The relationship would be new, and the table is full.
    Full,
}

impl DbError {
    /// What this error says.
    pub open spec fn text(self) -> Seq<char> {
        match self {
            DbError::RowNotFound => "no row found where one was expected"@,
            DbError::UniqueViolation => "a relationship with this node exists already"@,
            DbError::Full => "the table has no row id left"@,
        }
    }

    /// What this error says, for a log or an error body.
    pub fn message(&self) -> (text: String)
        ensures
            text@ == self.text(),
    {
        match self {
            DbError::RowNotFound => String::from_str("no row found where one was expected"),
            DbError::UniqueViolation => String::from_str(
                "a relationship with this node exists already",
            ),
            DbError::Full => String::from_str("the table has no row id left"),
        }
    }
}

/// The views of the rows of `rows`, in order.
pub open spec fn views<T: View>(rows: Seq<T>) -> Seq<T::V> {
    rows.map_values(|row: T| row@)
}

/// The view of the identity `user`, if there is one.
pub open spec fn identity_view(user: Option<User>) -> Option<UserView> {
    match user {
        Some(user) => Some(user@),
        None => None,
    }
}

/// The local store. It is the only writer of the four tables, and every
/// operation leaves it well formed.
#[derive(Debug)]
pub struct Store {
    user: Option<User>,
    friends: Vec<Friend>,
    outgoing: Vec<Outgoing>,
    inbox: Vec<InboxMessage>,
    next_friend_id: i64,
    next_outgoing_id: i64,
    next_inbox_id: i64,
}

impl View for Store {
    type V = StoreView;

    closed spec fn view(&self) -> StoreView {
        StoreView {
            user: identity_view(self.user),
            friends: views(self.friends@),
            outgoing: views(self.outgoing@),
            inbox: views(self.inbox@),
            next_friend_id: self.next_friend_id as int,
            next_outgoing_id: self.next_outgoing_id as int,
            next_inbox_id: self.next_inbox_id as int,
        }
    }
}

impl Store {
    /// Whether the store is one that the operations below can have made.
    pub open spec fn wf(&self) -> bool {
        self@.wf()
    }

    /// A store with nothing in it.
    pub fn new() -> (store: Store)
        ensures
            store.wf(),
            store@ == StoreView::empty(),
    {
        let store = Store {
            user: None,
            friends: Vec::new(),
            outgoing: Vec::new(),
            inbox: Vec::new(),
            next_friend_id: 1,
            next_outgoing_id: 1,
            next_inbox_id: 1,
        };
        assert(store@.friends =~= Seq::empty());
        assert(store@.outgoing =~= Seq::empty());
        assert(store@.inbox =~= Seq::empty());
        store
    }

    /// Opens a store from saved rows: the identity, if there is one, and the
    /// rows of the three tables, each in the order of its ids. Rows that are
    /// out of order, or two relationships with one node, are refused.
    pub fn from_rows(
        user: Option<User>,
        friends: Vec<Friend>,
        outgoing: Vec<Outgoing>,
        inbox: Vec<InboxMessage>,
    ) -> (opened: Result<Store, DbError>)
        ensures
            opened is Ok ==> opened->Ok_0.wf(),
            match opened {
                Ok(store) => Ok(store@),
                Err(error) => Err(error),
            } == opened_from(
                identity_view(user),
                views(friends@),
                views(outgoing@),
                views(inbox@),
            ),
    {
        let friend_id_list = friend_id_list(&friends);
        let outgoing_id_list = outgoing_id_list(&outgoing);
        let inbox_id_list = inbox_id_list(&inbox);
        if !ids_ascend(friend_id_list.as_slice()) || !names_differ(&friends) || !ids_ascend(
            outgoing_id_list.as_slice(),
        ) || !ids_ascend(inbox_id_list.as_slice()) {
            return Err(DbError::UniqueViolation);
        }
        let next_friend_id = match next_id(friend_id_list.as_slice()) {
            Some(id) => id,
            None => {
                return Err(DbError::Full);
            },
        };
        let next_outgoing_id = match next_id(outgoing_id_list.as_slice()) {
            Some(id) => id,
            None => {
                return Err(DbError::Full);
            },
        };
        let next_inbox_id = match next_id(inbox_id_list.as_slice()) {
            Some(id) => id,
            None => {
                return Err(DbError::Full);
            },
        };
        proof {
            lemma_opened_is_wf(
                identity_view(user),
                views(friends@),
                views(outgoing@),
                views(inbox@),
            );
        }
        Ok(
            Store {
                user,
                friends,
                outgoing,
                inbox,
                next_friend_id,
                next_outgoing_id,
                next_inbox_id,
            },
        )
    }

    /// The row of the relationship with `username`.
    fn find_friend(&self, username: &String) -> (found: Option<usize>)
        requires
            self.wf(),
        ensures
            match found {
                Some(i) => {
                    &&& i < self.friends.len()
                    &&& self@.is_friend_at(username@, i as int)
                    &&& self@.friend_index(username@) == i
                    &&& self@.relationship(username@) == Some(self.friends[i as int]@)
                },
                None => !self@.has_friend(username@),
            },
    {
        let mut i: usize = 0;
        while i < self.friends.len()
            invariant
                self.wf(),
                i <= self.friends.len(),
                forall|j: int| 0 <= j < i ==> !self@.is_friend_at(username@, j),
            decreases self.friends.len() - i,
        {
            if self.friends[i].username == *username {
                proof {
                    lemma_friend_index(self@, username@, i as int);
                }
                return Some(i);
            }
            i += 1;
        }
        None
    }
}

/// Records who this node is, unless it knows already.
pub fn setup_db(store: &mut Store, initial_user: &User) -> (done: Result<(), DbError>)
    requires
        old(store).wf(),
    ensures
        final(store).wf(),
        done is Ok,
        final(store)@ == old(store)@.setup(initial_user@),
{
    if store.user.is_none() {
        store.user = Some(
            User {
                id: 1,
                username: initial_user.username.clone(),
                address: initial_user.address.clone(),
            },
        );
    }
    Ok(())
}

/// Gives the node the name `username` and the address of the local host,
/// unless it knows who it is already, and returns the identity asked for.
pub fn init_db(store: &mut Store, username: String) -> (user: User)
    requires
        old(store).wf(),
    ensures
        final(store).wf(),
        user@ == (UserView { id: 0, username: username@, address: "127.0.0.1"@ }),
        final(store)@ == old(store)@.setup(user@),
{
    let user = User { id: 0, username, address: String::from_str("127.0.0.1") };
    let _ = setup_db(store, &user);
    user
}

/// Who this node is.
pub fn retr_user(store: &Store) -> (user: Result<User, DbError>)
    ensures
        match user {
            Ok(user) => store@.user == Some(user@),
            Err(error) => store@.user is None && error == DbError::RowNotFound,
        },
{
    match &store.user {
        Some(user) => Ok(user.clone()),
        None => Err(DbError::RowNotFound),
    }
}

/// One step of the relationship with `username`, for a local action or a
/// peer's request: looks up the status on record, asks the state machine, and
/// makes the transition it allows. `address` is recorded only where the
/// relationship is new. The relationships with other peers stay as they are.
pub fn step_relationship(
    store: &mut Store,
    username: &String,
    address: &String,
    trigger: Trigger,
    now: chrono::NaiveDateTime,
) -> (made: Result<Transition, StepError>)
    requires
        old(store).wf(),
    ensures
        final(store).wf(),
        (final(store)@, made) == old(store)@.step(username@, address@, trigger, now),
        made is Err ==> final(store)@ == old(store)@,
        made is Ok ==> final(store)@.status_of(username@) == status_after(
            old(store)@.status_of(username@),
            made->Ok_0,
        ),
        forall|other: Seq<char>|
            other != username@ ==> #[trigger] final(store)@.relationship(other) == old(
                store,
            )@.relationship(other),
{
    proof {
        lemma_step_is_local(old(store)@, username@, address@, trigger, now);
    }
    match store.find_friend(username) {
        None => match transition(None, trigger) {
            Err(refusal) => Err(StepError::Refused(refusal)),
            Ok(begin) => {
                if store.next_friend_id < i64::MAX {
                    let friend = Friend {
                        id: store.next_friend_id,
                        username: username.clone(),
                        address: address.clone(),
                        status: status_code(FriendRequestStatus::InviteSent),
                        sent: false,
                        added_at: Some(now),
                    };
                    store.friends.push(friend);
                    store.next_friend_id = store.next_friend_id + 1;
                    assert(store@.friends =~= old(store)@.with_new_friend(
                        username@,
                        address@,
                        now,
                    ).friends);
                    Ok(begin)
                } else {
                    Err(StepError::Full)
                }
            },
        },
        Some(i) => {
            let existing = store.friends[i].status.status_enum();
            match transition(Some(existing), trigger) {
                Err(refusal) => Err(StepError::Refused(refusal)),
                Ok(change) => {
                    match change {
                        Transition::Reinvite => {
                            store.friends[i].status = status_code(FriendRequestStatus::InviteSent);
                            store.friends[i].sent = false;
                            store.friends[i].added_at = Some(now);
                        },
                        Transition::Accept => {
                            store.friends[i].status = status_code(FriendRequestStatus::Accepted);
                            store.friends[i].added_at = Some(now);
                        },
                        Transition::Reject => {
                            store.friends[i].status = status_code(FriendRequestStatus::Rejected);
                            store.friends[i].sent = true;
                            store.friends[i].added_at = Some(now);
                        },
                        Transition::Create | Transition::Keep => {},
                    }
                    assert(store@.friends =~= old(store)@.with_friend_changed(
                        i as int,
                        change,
                        now,
                    ).friends);
                    Ok(change)
                },
            }
        },
    }
}

/// The local user invites the node `request.username`. A relationship
/// begins, or one that the peer had rejected starts over; any other
/// relationship with that node stands in the way.
pub fn send_invite(
    store: &mut Store,
    request: &FriendRequest,
    now: chrono::NaiveDateTime,
) -> (done: Result<(), DbError>)
    requires
        old(store).wf(),
    ensures
        final(store).wf(),
        (final(store)@, done) == invite_outcome(old(store)@, request@, now),
        done is Err ==> final(store)@ == old(store)@,
        done is Ok ==> final(store)@.status_of(request.username@) == Some(
            FriendRequestStatus::InviteSent,
        ),
        forall|other: Seq<char>|
            other != request.username@ ==> #[trigger] final(store)@.relationship(other) == old(
                store,
            )@.relationship(other),
{
    match step_relationship(store, &request.username, &request.address, Trigger::LocalInvite, now) {
        Ok(_) => Ok(()),
        Err(StepError::Full) => Err(DbError::Full),
        Err(StepError::Refused(_)) => Err(DbError::UniqueViolation),
    }
}

/// Every relationship, in the order in which they began.
pub fn fetch_users(store: &Store) -> (friends: Result<Vec<Friend>, DbError>)
    ensures
        friends is Ok,
        views(friends->Ok_0@) == store@.friends,
{
    let mut friends: Vec<Friend> = Vec::new();
    let mut i: usize = 0;
    while i < store.friends.len()
        invariant
            i <= store.friends.len(),
            friends.len() == i,
            forall|j: int| 0 <= j < i ==> friends[j] == store.friends[j],
        decreases store.friends.len() - i,
    {
        friends.push(store.friends[i].clone());
        i += 1;
    }
    assert(friends@ =~= store.friends@);
    Ok(friends)
}

/// The relationships that are `Accepted`, in the order in which they began.
pub fn fetch_active_friends(store: &Store) -> (friends: Result<Vec<Friend>, DbError>)
    ensures
        friends is Ok,
        views(friends->Ok_0@) == store@.active_friends(),
{
    let ghost rows = store@.friends;
    let mut friends: Vec<Friend> = Vec::new();
    let mut i: usize = 0;
    assert(rows.take(0) =~= Seq::empty());
    while i < store.friends.len()
        invariant
            i <= store.friends.len(),
            rows == store@.friends,
            views(friends@) == active_among(rows.take(i as int)),
        decreases store.friends.len() - i,
    {
        let row = &store.friends[i];
        proof {
            lemma_active_among_push(rows.take(i as int), row@);
            assert(rows.take(i as int + 1) =~= rows.take(i as int).push(row@));
        }
        if row.status == status_code(FriendRequestStatus::Accepted) {
            let ghost so_far = friends@;
            friends.push(row.clone());
            assert(views(friends@) =~= views(so_far).push(row@));
        }
        i += 1;
    }
    assert(rows.take(i as int) =~= rows);
    Ok(friends)
}

/// The name of this node, and the relationships whose status the peer has
/// not been told, in the order in which they began.
pub fn fetch_unsent_friend_updt(store: &Store) -> (unsent: Result<(String, Vec<Friend>), DbError>)
    ensures
        match unsent {
            Ok((username, friends)) => {
                &&& store@.user is Some
                &&& username@ == store@.user->0.username
                &&& views(friends@) == store@.unsent_friends()
            },
            Err(error) => store@.user is None && error == DbError::RowNotFound,
        },
{
    let username = match &store.user {
        Some(user) => user.username.clone(),
        None => {
            return Err(DbError::RowNotFound);
        },
    };
    let ghost rows = store@.friends;
    let mut friends: Vec<Friend> = Vec::new();
    let mut i: usize = 0;
    assert(rows.take(0) =~= Seq::empty());
    while i < store.friends.len()
        invariant
            i <= store.friends.len(),
            rows == store@.friends,
            views(friends@) == unsent_among(rows.take(i as int)),
        decreases store.friends.len() - i,
    {
        let row = &store.friends[i];
        proof {
            lemma_unsent_among_push(rows.take(i as int), row@);
            assert(rows.take(i as int + 1) =~= rows.take(i as int).push(row@));
        }
        if !row.sent {
            let ghost so_far = friends@;
            friends.push(row.clone());
            assert(views(friends@) =~= views(so_far).push(row@));
        }
        i += 1;
    }
    assert(rows.take(i as int) =~= rows);
    Ok((username, friends))
}

/// Records that the peer `username` has been told the status on record.
pub fn update_friend_status_as_sent(store: &mut Store, username: &String) -> (done: Result<
    (),
    DbError,
>)
    requires
        old(store).wf(),
    ensures
        final(store).wf(),
        done is Ok,
        final(store)@ == old(store)@.mark_friend_sent(username@),
{
    let ghost before = old(store)@;
    let ghost after = before.mark_friend_sent(username@);
    let mut i: usize = 0;
    while i < store.friends.len()
        invariant
            i <= store.friends.len(),
            store.friends.len() == before.friends.len(),
            after == before.mark_friend_sent(username@),
            store@ == (StoreView { friends: store@.friends, ..before }),
            forall|j: int| 0 <= j < i ==> store@.friends[j] == after.friends[j],
            forall|j: int|
                i <= j < store.friends.len() ==> store@.friends[j] == before.friends[j],
        decreases store.friends.len() - i,
    {
        if store.friends[i].username == *username {
            store.friends[i].sent = true;
        }
        i += 1;
    }
    assert(store@.friends =~= after.friends);
    Ok(())
}

/// Deletes the relationship `id`, if there is one.
pub fn delete_user(store: &mut Store, id: i64) -> (done: Result<(), DbError>)
    requires
        old(store).wf(),
    ensures
        final(store).wf(),
        done is Ok,
        final(store)@ == old(store)@.without_friend(id as int),
{
    let mut i: usize = 0;
    while i < store.friends.len() && store.friends[i].id != id
        invariant
            i <= store.friends.len(),
            *store == *old(store),
            forall|j: int| 0 <= j < i ==> store@.friends[j].id != id,
        decreases store.friends.len() - i,
    {
        i += 1;
    }
    proof {
        lemma_without_friend(store@, id as int, i as int);
    }
    if i < store.friends.len() {
        store.friends.remove(i);
        assert(store@.friends =~= old(store)@.friends.remove(i as int));
    }
    Ok(())
}

/// Queues `message` for its recipient to pull. The sender is this node, and
/// the recipient's address is the one on record now.
pub fn send_message_to_que(
    store: &mut Store,
    message: &Message,
    now: chrono::NaiveDateTime,
) -> (done: Result<(), DbError>)
    requires
        old(store).wf(),
    ensures
        final(store).wf(),
        (final(store)@, done) == old(store)@.queue(message@, now),
        done is Err ==> final(store)@ == old(store)@,
{
    let sender = match retr_user(store) {
        Ok(user) => user,
        Err(error) => {
            return Err(error);
        },
    };
    let recipient_address = match store.find_friend(&message.send_to) {
        Some(i) => store.friends[i].address.clone(),
        None => {
            return Err(DbError::RowNotFound);
        },
    };
    if store.next_outgoing_id >= i64::MAX {
        return Err(DbError::Full);
    }
    let row = Outgoing {
        id: store.next_outgoing_id,
        sender: sender.username,
        recipient: message.send_to.clone(),
        recipient_address,
        subject: message.subject.clone(),
        body: message.content.clone(),
        queued_at: Some(now),
        sent: Some(false),
    };
    store.outgoing.push(row);
    store.next_outgoing_id = store.next_outgoing_id + 1;
    assert(store@.outgoing =~= old(store)@.queue(message@, now).0.outgoing);
    Ok(())
}

/// Every message queued, pulled or not, oldest first.
pub fn fetch_outgoing(store: &Store) -> (messages: Result<Vec<Outgoing>, DbError>)
    ensures
        messages is Ok,
        views(messages->Ok_0@) == store@.outgoing,
{
    let mut messages: Vec<Outgoing> = Vec::new();
    let mut i: usize = 0;
    while i < store.outgoing.len()
        invariant
            i <= store.outgoing.len(),
            messages.len() == i,
            forall|j: int| 0 <= j < i ==> messages[j] == store.outgoing[j],
        decreases store.outgoing.len() - i,
    {
        messages.push(store.outgoing[i].clone());
        i += 1;
    }
    assert(messages@ =~= store.outgoing@);
    Ok(messages)
}

/// The queued messages that a pull by `username` takes: those addressed to
/// `username` that it has not pulled before, oldest first.
pub fn fetch_messages_for_user(store: &Store, username: String) -> (messages: Result<
    Vec<Outgoing>,
    DbError,
>)
    ensures
        messages is Ok,
        views(messages->Ok_0@) == store@.pending_for(username@),
{
    let ghost rows = store@.outgoing;
    let mut messages: Vec<Outgoing> = Vec::new();
    let mut i: usize = 0;
    assert(rows.take(0) =~= Seq::empty());
    while i < store.outgoing.len()
        invariant
            i <= store.outgoing.len(),
            rows == store@.outgoing,
            views(messages@) == pending_among(rows.take(i as int), username@),
        decreases store.outgoing.len() - i,
    {
        let row = &store.outgoing[i];
        proof {
            lemma_pending_among_push(rows.take(i as int), row@, username@);
            assert(rows.take(i as int + 1) =~= rows.take(i as int).push(row@));
        }
        let pulled = match row.sent {
            Some(sent) => sent,
            None => false,
        };
        if row.recipient == username && !pulled {
            let ghost so_far = messages@;
            messages.push(row.clone());
            assert(views(messages@) =~= views(so_far).push(row@));
        }
        i += 1;
    }
    assert(rows.take(i as int) =~= rows);
    Ok(messages)
}

/// Marks the queued messages with an id in `message_ids` as pulled by their
/// recipient. The other messages stay as they are, and none leaves the queue.
pub fn mark_messages_as_sent(store: &mut Store, message_ids: &[i64]) -> (done: Result<(), DbError>)
    requires
        old(store).wf(),
    ensures
        final(store).wf(),
        done is Ok,
        final(store)@ == old(store)@.mark_sent(id_values(message_ids@)),
{
    let ghost before = old(store)@;
    let ghost after = before.mark_sent(id_values(message_ids@));
    let mut i: usize = 0;
    while i < store.outgoing.len()
        invariant
            i <= store.outgoing.len(),
            store.outgoing.len() == before.outgoing.len(),
            after == before.mark_sent(id_values(message_ids@)),
            store@ == (StoreView { outgoing: store@.outgoing, ..before }),
            forall|j: int| 0 <= j < i ==> store@.outgoing[j] == after.outgoing[j],
            forall|j: int|
                i <= j < store.outgoing.len() ==> store@.outgoing[j] == before.outgoing[j],
        decreases store.outgoing.len() - i,
    {
        if contains_id(message_ids, store.outgoing[i].id) {
            store.outgoing[i].sent = Some(true);
        }
        i += 1;
    }
    assert(store@.outgoing =~= after.outgoing);
    Ok(())
}

/// Puts `messages`, which a peer handed over, into the inbox, in order: all
/// of them, or none where the inbox cannot take them all.
pub fn batch_ingest(
    store: &mut Store,
    messages: Vec<WireMessage>,
    now: chrono::NaiveDateTime,
) -> (done: Result<(), DbError>)
    requires
        old(store).wf(),
    ensures
        final(store).wf(),
        (final(store)@, done) == old(store)@.ingest(views(messages@), now),
        done is Err ==> final(store)@ == old(store)@,
{
    let ghost before = old(store)@;
    let ghost wire = views(messages@);
    if messages.len() as u64 > (i64::MAX - store.next_inbox_id) as u64 {
        return Err(DbError::Full);
    }
    let ghost after = before.ingest(wire, now).0;
    let mut k: usize = 0;
    while k < messages.len()
        invariant
            k <= messages.len(),
            wire == views(messages@),
            before.wf(),
            before.next_inbox_id + messages.len() <= i64::MAX,
            after == before.ingest(wire, now).0,
            store@ == (StoreView {
                inbox: store@.inbox,
                next_inbox_id: store@.next_inbox_id,
                ..before
            }),
            store@.next_inbox_id == before.next_inbox_id + k,
            store@.inbox.len() == before.inbox.len() + k,
            forall|j: int| 0 <= j < store@.inbox.len() ==> store@.inbox[j] == after.inbox[j],
        decreases messages.len() - k,
    {
        let message = &messages[k];
        let row = InboxMessage {
            id: store.next_inbox_id,
            sender: message.sender.clone(),
            subject: message.subject.clone(),
            message: message.body.clone(),
            received_at: Some(now),
        };
        assert(row@ == after.inbox[before.inbox.len() + k]) by {
            assert(wire[k as int] == message@);
        }
        store.inbox.push(row);
        store.next_inbox_id = store.next_inbox_id + 1;
        k += 1;
    }
    assert(store@.inbox =~= after.inbox);
    Ok(())
}

/// Every message received, oldest first.
pub fn fetch_inbox(store: &Store) -> (messages: Result<Vec<InboxMessage>, DbError>)
    ensures
        messages is Ok,
        views(messages->Ok_0@) == store@.inbox,
{
    let mut messages: Vec<InboxMessage> = Vec::new();
    let mut i: usize = 0;
    while i < store.inbox.len()
        invariant
            i <= store.inbox.len(),
            messages.len() == i,
            forall|j: int| 0 <= j < i ==> messages[j] == store.inbox[j],
        decreases store.inbox.len() - i,
    {
        messages.push(store.inbox[i].clone());
        i += 1;
    }
    assert(messages@ =~= store.inbox@);
    Ok(messages)
}

/// Deletes the inbox message `id`, if there is one.
pub fn delete_message(store: &mut Store, id: i64) -> (done: Result<(), DbError>)
    requires
        old(store).wf(),
    ensures
        final(store).wf(),
        done is Ok,
        final(store)@ == old(store)@.without_inbox_message(id as int),
{
    let mut i: usize = 0;
    while i < store.inbox.len() && store.inbox[i].id != id
        invariant
            i <= store.inbox.len(),
            *store == *old(store),
            forall|j: int| 0 <= j < i ==> store@.inbox[j].id != id,
        decreases store.inbox.len() - i,
    {
        i += 1;
    }
    proof {
        lemma_without_inbox_message(store@, id as int, i as int);
    }
    if i < store.inbox.len() {
        store.inbox.remove(i);
        assert(store@.inbox =~= old(store)@.inbox.remove(i as int));
    }
    Ok(())
}

/// The ids of `friends`, in order.
fn friend_id_list(friends: &Vec<Friend>) -> (ids: Vec<i64>)
    ensures
        id_values(ids@) == friend_ids(views(friends@)),
{
    let mut ids: Vec<i64> = Vec::new();
    let mut i: usize = 0;
    while i < friends.len()
        invariant
            i <= friends.len(),
            ids.len() == i,
            forall|j: int| 0 <= j < i ==> ids[j] == friends[j].id,
        decreases friends.len() - i,
    {
        ids.push(friends[i].id);
        i += 1;
    }
    assert(id_values(ids@) =~= friend_ids(views(friends@)));
    ids
}

/// The ids of `outgoing`, in order.
fn outgoing_id_list(outgoing: &Vec<Outgoing>) -> (ids: Vec<i64>)
    ensures
        id_values(ids@) == outgoing_ids(views(outgoing@)),
{
    let mut ids: Vec<i64> = Vec::new();
    let mut i: usize = 0;
    while i < outgoing.len()
        invariant
            i <= outgoing.len(),
            ids.len() == i,
            forall|j: int| 0 <= j < i ==> ids[j] == outgoing[j].id,
        decreases outgoing.len() - i,
    {
        ids.push(outgoing[i].id);
        i += 1;
    }
    assert(id_values(ids@) =~= outgoing_ids(views(outgoing@)));
    ids
}

/// The ids of `inbox`, in order.
fn inbox_id_list(inbox: &Vec<InboxMessage>) -> (ids: Vec<i64>)
    ensures
        id_values(ids@) == inbox_ids(views(inbox@)),
{
    let mut ids: Vec<i64> = Vec::new();
    let mut i: usize = 0;
    while i < inbox.len()
        invariant
            i <= inbox.len(),
            ids.len() == i,
            forall|j: int| 0 <= j < i ==> ids[j] == inbox[j].id,
        decreases inbox.len() - i,
    {
        ids.push(inbox[i].id);
        i += 1;
    }
    assert(id_values(ids@) =~= inbox_ids(views(inbox@)));
    ids
}

/// Whether `ids` ascend.
fn ids_ascend(ids: &[i64]) -> (yes: bool)
    ensures
        yes == ascending(id_values(ids@)),
{
    let mut k: usize = 1;
    while k < ids.len()
        invariant
            1 <= k,
            forall|i: int, j: int| 0 <= i < j < k && j < ids.len() ==> ids@[i] < ids@[j],
        decreases ids.len() - k,
    {
        if ids[k - 1] >= ids[k] {
            assert(id_values(ids@)[k - 1] >= id_values(ids@)[k as int]);
            return false;
        }
        assert forall|i: int, j: int| 0 <= i < j < k + 1 && j < ids.len() implies ids@[i]
            < ids@[j] by {
            if j == k && i < k - 1 {
                assert(ids@[i] < ids@[k - 1]);
            }
        }
        k += 1;
    }
    true
}

/// Whether no two of `friends` are relationships with the same node.
fn names_differ(friends: &Vec<Friend>) -> (yes: bool)
    ensures
        yes == distinct(friend_names(views(friends@))),
{
    let ghost names = friend_names(views(friends@));
    let mut j: usize = 0;
    while j < friends.len()
        invariant
            j <= friends.len(),
            names == friend_names(views(friends@)),
            forall|a: int, b: int| 0 <= a < b < j ==> names[a] != names[b],
        decreases friends.len() - j,
    {
        let mut i: usize = 0;
        while i < j
            invariant
                i <= j < friends.len(),
                names == friend_names(views(friends@)),
                forall|a: int| 0 <= a < i ==> names[a] != names[j as int],
            decreases j - i,
        {
            if friends[i].username == friends[j].username {
                assert(names[i as int] == names[j as int]);
                return false;
            }
            i += 1;
        }
        j += 1;
    }
    true
}

/// The id for the next row of a table whose row ids are `ids`, if there is
/// one left.
fn next_id(ids: &[i64]) -> (next: Option<i64>)
    ensures
        match next {
            Some(id) => id == next_id_after(id_values(ids@)),
            None => next_id_after(id_values(ids@)) > i64::MAX,
        },
{
    if ids.len() == 0 {
        return Some(1);
    }
    let last = ids[ids.len() - 1];
    assert(id_values(ids@).last() == last);
    if last < 1 {
        Some(1)
    } else if last < i64::MAX {
        Some(last + 1)
    } else {
        None
    }
}

/// Whether `id` is among `ids`.
fn contains_id(ids: &[i64], id: i64) -> (found: bool)
    ensures
        found == id_values(ids@).contains(id as int),
{
    let mut k: usize = 0;
    while k < ids.len()
        invariant
            k <= ids.len(),
            forall|j: int| 0 <= j < k ==> ids@[j] != id,
        decreases ids.len() - k,
    {
        if ids[k] == id {
            assert(id_values(ids@)[k as int] == id as int);
            return true;
        }
        k += 1;
    }
    false
}

} // verus!
