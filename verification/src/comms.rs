//! The two pollers: what a tick does, which request goes to each peer, and
//! what a peer's answer does to the store.
//!
//! A poller never waits and never talks to the network here. Its caller reads
//! the store, asks for the plan of the tick, makes the calls of the plan, and
//! hands each peer's reply back.

use vstd::prelude::*;
use vstd::string::*;

use crate::api::{
    FetchMessageInput, FetchMessageInputView, FetchMessageResponse, FriendInput, FriendInputView,
};
use crate::db::{
    batch_ingest, update_friend_status_as_sent, DbError, Friend, FriendView, Store,
};
use crate::laws::lemma_delivered_status_is_not_pushed_again;
use crate::model::StoreView;
use crate::{status_of_code, StatusLabel};

verus! {

/// How many peers the message poller calls at once.
pub const MESSAGE_CALLS_AT_ONCE: usize = 10;

/// How many peers the friend-request poller calls at once.
pub const FRIEND_CALLS_AT_ONCE: usize = 5;

/// Seconds to wait after the store could not be read.
pub const RETRY_AFTER_FAILED_READ: u64 = 60;

/// Seconds the message poller waits when no relationship is `Accepted`.
pub const RETRY_WITHOUT_FRIENDS: u64 = 30;

/// Seconds the friend-request poller waits when every status is delivered.
pub const RETRY_WITHOUT_UPDATES: u64 = 15;

/// One tick of a poller.
#[derive(Debug)]
pub enum Tick<C> {
    /// Nothing to do now: wait `secs` seconds and read the store again.
    Backoff { secs: u64 },
    /// Make `calls`, at most `limit` of them at a time, and when all have
    /// ended wait `sleep_secs` seconds.
    FanOut { calls: Vec<C>, limit: usize, sleep_secs: u64 },
}

/// A fetch-messages request to one peer.
#[derive(Debug)]
pub struct FetchCall {
    /// The relationship with the peer, as it was when the tick began.
    pub friend: Friend,
    pub url: String,
    pub body: FetchMessageInput,
}

/// A friend request to one peer.
#[derive(Debug)]
pub struct PushCall {
    /// The relationship with the peer, as it was when the tick began.
    pub friend: Friend,
    pub url: String,
    pub body: FriendInput,
}

/// What came back from a fetch-messages request.
#[derive(Debug)]
pub enum FetchReply {
    /// The request did not complete: the peer was not reached, or the time
    /// allowed ran out. The text says which.
    Failed(String),
    /// The peer answered with the HTTP status `code`. `body` is what the body
    /// of the answer parsed to, or why it did not parse.
    Answered { code: u16, body: Result<FetchMessageResponse, String> },
}

/// What came back from a friend request.
#[derive(Debug)]
pub enum PushReply {
    /// The request did not complete.
    Failed(String),
    /// The peer answered with the HTTP status `code`.
    Answered { code: u16 },
}

/// Why a call to one peer came to nothing. It concerns that peer only.
#[derive(Debug)]
pub enum PollError {
    /// The request did not complete.
    Request(String),
    /// The peer answered with a status that is no success.
    BadStatus(u16),
    /// The body of the answer did not parse.
    Parse(String),
    /// The store refused what the answer asked for.
    Db(DbError),
}

/// Whether the HTTP status `code` is a success: 200 to 299.
pub open spec fn success_status(code: u16) -> bool {
    200 <= code < 300
}

/// Whether the HTTP status `code` is a success.
pub fn is_success(code: u16) -> (yes: bool)
    ensures
        yes == success_status(code),
{
    200 <= code && code < 300
}

/// Where the fetch-messages endpoint of the node at `address` is.
pub open spec fn fetch_messages_url(address: Seq<char>) -> Seq<char> {
    "http://"@ + address + "/fetch_messages"@
}

/// Where the friend-request endpoint of the node at `address` is.
pub open spec fn friend_request_url(address: Seq<char>) -> Seq<char> {
    "http://"@ + address + "/friend_request"@
}

/// Whether `call` is the request by which the node `our_username` at
/// `our_address` pulls its mail from `friend`.
pub open spec fn is_fetch_call(
    call: FetchCall,
    our_username: Seq<char>,
    our_address: Seq<char>,
    friend: FriendView,
) -> bool {
    &&& call.friend@ == friend
    &&& call.url@ == fetch_messages_url(friend.address)
    &&& call.body@ == (FetchMessageInputView { username: our_username, address: our_address })
}

/// Whether `call` is the request by which the node `our_username` at
/// `our_address` tells `friend` the status on record for it.
pub open spec fn is_push_call(
    call: PushCall,
    our_username: Seq<char>,
    our_address: Seq<char>,
    friend: FriendView,
) -> bool {
    &&& call.friend@ == friend
    &&& call.url@ == friend_request_url(friend.address)
    &&& call.body@ == (FriendInputView {
        username: friend.username,
        hostname: our_username,
        address: Some(our_address),
        req_type: status_of_code(friend.status),
    })
}

/// The request that pulls this node's mail from `friend`.
pub fn fetch_messages_call(
    our_username: &str,
    our_address: &str,
    friend: &Friend,
) -> (call: FetchCall)
    ensures
        is_fetch_call(call, our_username@, our_address@, friend@),
{
    let mut url = String::from_str("http://");
    url.append(friend.address.as_str());
    url.append("/fetch_messages");
    FetchCall {
        friend: friend.clone(),
        url,
        body: FetchMessageInput {
            username: String::from_str(our_username),
            address: String::from_str(our_address),
        },
    }
}

/// The request that tells `friend` the status on record for it.
pub fn friend_request_call(
    our_username: &str,
    our_address: &str,
    friend: &Friend,
) -> (call: PushCall)
    ensures
        is_push_call(call, our_username@, our_address@, friend@),
{
    let mut url = String::from_str("http://");
    url.append(friend.address.as_str());
    url.append("/friend_request");
    PushCall {
        friend: friend.clone(),
        url,
        body: FriendInput {
            username: friend.username.clone(),
            hostname: String::from_str(our_username),
            address: Some(String::from_str(our_address)),
            req_type: friend.status.status_enum(),
        },
    }
}

/// Whether `tick` is the tick of the message poller after the read of the
/// `Accepted` relationships gave `friends`.
pub open spec fn is_message_tick(
    tick: Tick<FetchCall>,
    friends: Result<Vec<Friend>, DbError>,
    our_username: Seq<char>,
    our_address: Seq<char>,
    sleep_time: u64,
) -> bool {
    match friends {
        Err(_) => tick == (Tick::<FetchCall>::Backoff { secs: RETRY_AFTER_FAILED_READ }),
        Ok(friends) => if friends.len() == 0 {
            tick == (Tick::<FetchCall>::Backoff { secs: RETRY_WITHOUT_FRIENDS })
        } else {
            &&& tick matches Tick::FanOut { calls, limit, sleep_secs }
            &&& limit == MESSAGE_CALLS_AT_ONCE
            &&& sleep_secs == sleep_time
            &&& calls.len() == friends.len()
            &&& forall|i: int|
                0 <= i < calls.len() ==> is_fetch_call(
                    #[trigger] calls[i],
                    our_username,
                    our_address,
                    friends[i]@,
                )
        },
    }
}

/// One tick of the message poller. `friends` is what the read of the
/// `Accepted` relationships gave. A failed read is tried again after a long
/// wait, an empty one after a short wait; otherwise every friend gets one
/// call, in order.
pub fn message_fetcher(
    friends: Result<Vec<Friend>, DbError>,
    our_username: &str,
    our_address: &str,
    sleep_time: u64,
) -> (tick: Tick<FetchCall>)
    ensures
        is_message_tick(tick, friends, our_username@, our_address@, sleep_time),
{
    let friend_list = match &friends {
        Ok(friend_list) => friend_list,
        Err(_) => {
            return Tick::Backoff { secs: RETRY_AFTER_FAILED_READ };
        },
    };
    if friend_list.len() == 0 {
        return Tick::Backoff { secs: RETRY_WITHOUT_FRIENDS };
    }
    let mut calls: Vec<FetchCall> = Vec::new();
    let mut i: usize = 0;
    while i < friend_list.len()
        invariant
            i <= friend_list.len(),
            calls.len() == i,
            forall|j: int|
                0 <= j < i ==> is_fetch_call(
                    #[trigger] calls[j],
                    our_username@,
                    our_address@,
                    friend_list[j]@,
                ),
        decreases friend_list.len() - i,
    {
        calls.push(fetch_messages_call(our_username, our_address, &friend_list[i]));
        i += 1;
    }
    Tick::FanOut { calls, limit: MESSAGE_CALLS_AT_ONCE, sleep_secs: sleep_time }
}

/// Whether `tick` is the tick of the friend-request poller after the read of
/// the undelivered relationships gave `unsent`.
pub open spec fn is_friend_tick(
    tick: Tick<PushCall>,
    unsent: Result<(String, Vec<Friend>), DbError>,
    our_address: Seq<char>,
    sleep_time: u64,
) -> bool {
    match unsent {
        Err(_) => tick == (Tick::<PushCall>::Backoff { secs: RETRY_AFTER_FAILED_READ }),
        Ok((our_username, friends)) => if friends.len() == 0 {
            tick == (Tick::<PushCall>::Backoff { secs: RETRY_WITHOUT_UPDATES })
        } else {
            &&& tick matches Tick::FanOut { calls, limit, sleep_secs }
            &&& limit == FRIEND_CALLS_AT_ONCE
            &&& sleep_secs == sleep_time
            &&& calls.len() == friends.len()
            &&& forall|i: int|
                0 <= i < calls.len() ==> is_push_call(
                    #[trigger] calls[i],
                    our_username@,
                    our_address,
                    friends[i]@,
                )
        },
    }
}

/// One tick of the friend-request poller. `unsent` is what the read of this
/// node's name and of the undelivered relationships gave. A failed read is
/// tried again after a long wait, an empty one after a short wait; otherwise
/// every such relationship gets one call, in order, and no other does.
pub fn friend_fetcher(
    unsent: Result<(String, Vec<Friend>), DbError>,
    our_address: &str,
    sleep_time: u64,
) -> (tick: Tick<PushCall>)
    ensures
        is_friend_tick(tick, unsent, our_address@, sleep_time),
{
    let (our_username, friend_list) = match &unsent {
        Ok((our_username, friend_list)) => (our_username, friend_list),
        Err(_) => {
            return Tick::Backoff { secs: RETRY_AFTER_FAILED_READ };
        },
    };
    if friend_list.len() == 0 {
        return Tick::Backoff { secs: RETRY_WITHOUT_UPDATES };
    }
    let mut calls: Vec<PushCall> = Vec::new();
    let mut i: usize = 0;
    while i < friend_list.len()
        invariant
            i <= friend_list.len(),
            calls.len() == i,
            forall|j: int|
                0 <= j < i ==> is_push_call(
                    #[trigger] calls[j],
                    our_username@,
                    our_address@,
                    friend_list[j]@,
                ),
        decreases friend_list.len() - i,
    {
        calls.push(friend_request_call(our_username.as_str(), our_address, &friend_list[i]));
        i += 1;
    }
    Tick::FanOut { calls, limit: FRIEND_CALLS_AT_ONCE, sleep_secs: sleep_time }
}

/// What a peer's reply to a fetch-messages request does: the store after it,
/// and how the call ended. Only a success whose body parsed and holds
/// messages changes the store.
pub open spec fn fetch_reply_outcome(
    store: StoreView,
    reply: FetchReply,
    now: chrono::NaiveDateTime,
) -> (StoreView, Result<(), PollError>) {
    match reply {
        FetchReply::Failed(why) => (store, Err(PollError::Request(why))),
        FetchReply::Answered { code, body } => if !success_status(code) {
            (store, Err(PollError::BadStatus(code)))
        } else {
            match body {
                Err(why) => (store, Err(PollError::Parse(why))),
                Ok(response) => if response@.len() == 0 {
                    (store, Ok(()))
                } else {
                    match store.ingest(response@, now) {
                        (after, Ok(_)) => (after, Ok(())),
                        (after, Err(error)) => (after, Err(PollError::Db(error))),
                    }
                },
            }
        },
    }
}

/// Takes in what one peer answered to a fetch-messages request. The
/// messages of a good answer go into the inbox; any failure leaves the store
/// as it was.
pub fn process_friend_messages(
    store: &mut Store,
    reply: FetchReply,
    now: chrono::NaiveDateTime,
) -> (done: Result<(), PollError>)
    requires
        old(store).wf(),
    ensures
        final(store).wf(),
        (final(store)@, done) == fetch_reply_outcome(old(store)@, reply, now),
        done is Err ==> final(store)@ == old(store)@,
{
    let (code, body) = match reply {
        FetchReply::Failed(why) => {
            return Err(PollError::Request(why));
        },
        FetchReply::Answered { code, body } => (code, body),
    };
    if !is_success(code) {
        return Err(PollError::BadStatus(code));
    }
    let response = match body {
        Ok(response) => response,
        Err(why) => {
            return Err(PollError::Parse(why));
        },
    };
    if response.messages.len() != 0 {
        match batch_ingest(store, response.messages, now) {
            Ok(()) => {},
            Err(error) => {
                return Err(PollError::Db(error));
            },
        }
    }
    Ok(())
}

/// What a peer's reply to a friend request about `username` does: the store
/// after it, and how the call ended. Only a success marks the status as
/// delivered.
pub open spec fn push_reply_outcome(store: StoreView, username: Seq<char>, reply: PushReply) -> (
    StoreView,
    Result<(), PollError>,
) {
    match reply {
        PushReply::Failed(why) => (store, Err(PollError::Request(why))),
        PushReply::Answered { code } => if success_status(code) {
            (store.mark_friend_sent(username), Ok(()))
        } else {
            (store, Err(PollError::BadStatus(code)))
        },
    }
}

/// Takes in what `friend`'s node answered to the friend request about it. A
/// success marks the status on record as delivered, so that the next tick has
/// no call for that peer; a failure leaves it undelivered, for the next tick
/// to try again.
pub fn send_friend_request(
    store: &mut Store,
    friend: &Friend,
    reply: PushReply,
) -> (done: Result<(), PollError>)
    requires
        old(store).wf(),
    ensures
        final(store).wf(),
        (final(store)@, done) == push_reply_outcome(old(store)@, friend.username@, reply),
        done is Err ==> final(store)@ == old(store)@,
        done is Ok ==> forall|i: int|
            0 <= i < final(store)@.unsent_friends().len() ==> (
            #[trigger] final(store)@.unsent_friends()[i]).username != friend.username@,
{
    proof {
        lemma_delivered_status_is_not_pushed_again(old(store)@, friend.username@);
    }
    match reply {
        PushReply::Failed(why) => Err(PollError::Request(why)),
        PushReply::Answered { code } => {
            if is_success(code) {
                match update_friend_status_as_sent(store, &friend.username) {
                    Ok(()) => Ok(()),
                    Err(error) => Err(PollError::Db(error)),
                }
            } else {
                Err(PollError::BadStatus(code))
            }
        },
    }
}

} // verus!
