//! The wire types of the two inbound endpoints, and the handlers behind them.

use vstd::prelude::*;
use vstd::string::*;

use crate::db::{
    fetch_messages_for_user, mark_messages_as_sent, step_relationship, views, OutgoingView,
    StepError, Store,
};
use crate::laws::lemma_pull_hands_over_once;
use crate::model::{id_values, lemma_mark_pending_is_pull, outgoing_ids, StoreView};
use crate::relationship::{Refusal, Trigger};
use crate::{code_of_status, label_of_code, status_code, StatusLabel};

verus! {

/// The body of a fetch-messages request: who asks, and where they are.
#[derive(Debug)]
pub struct FetchMessageInput {
    pub username: String,
    pub address: String,
}

/// A `FetchMessageInput` as a mathematical value.
pub struct FetchMessageInputView {
    pub username: Seq<char>,
    pub address: Seq<char>,
}

impl View for FetchMessageInput {
    type V = FetchMessageInputView;

    open spec fn view(&self) -> FetchMessageInputView {
        FetchMessageInputView { username: self.username@, address: self.address@ }
    }
}

/// The status of a relationship, as stored and as sent between nodes.
#[derive(Debug, PartialEq, Eq, Hash, Clone, Copy, Structural)]
pub enum FriendRequestStatus {
    InviteSent,
    InviteReceived,
    Accepted,
    Rejected,
}

/// One message on the wire.
#[derive(Debug)]
pub struct Message {
    pub sender: String,
    pub subject: String,
    pub body: String,
}

/// A `Message` as a mathematical value.
pub struct MessageView {
    pub sender: Seq<char>,
    pub subject: Seq<char>,
    pub body: Seq<char>,
}

impl View for Message {
    type V = MessageView;

    open spec fn view(&self) -> MessageView {
        MessageView { sender: self.sender@, subject: self.subject@, body: self.body@ }
    }
}

/// The body of the answer to a fetch-messages request.
#[derive(Debug)]
pub struct FetchMessageResponse {
    pub messages: Vec<Message>,
}

impl View for FetchMessageResponse {
    type V = Seq<MessageView>;

    open spec fn view(&self) -> Seq<MessageView> {
        self.messages@.map_values(|message: Message| message@)
    }
}

/// The body of a friend request. `hostname` names the node that sends it and
/// is the key of the relationship; `username` names the node it is for.
#[derive(Debug)]
pub struct FriendInput {
    pub username: String,
    pub hostname: String,
    pub address: Option<String>,
    pub req_type: FriendRequestStatus,
}

/// A `FriendInput` as a mathematical value.
pub struct FriendInputView {
    pub username: Seq<char>,
    pub hostname: Seq<char>,
    pub address: Option<Seq<char>>,
    pub req_type: FriendRequestStatus,
}

impl View for FriendInput {
    type V = FriendInputView;

    open spec fn view(&self) -> FriendInputView {
        FriendInputView {
            username: self.username@,
            hostname: self.hostname@,
            address: match self.address {
                Some(address) => Some(address@),
                None => None,
            },
            req_type: self.req_type,
        }
    }
}

/// What goes wrong in a handler, each with a text for the caller.
#[derive(Debug)]
pub enum ApiError {
    /// The request is malformed or asks for a transition that is not allowed.
    InvalidInput(String),
    /// The relationship that the request speaks of is not on record.
    NotFound(String),
    /// The store failed.
    InternalServerError(String),
}

/// An `ApiError` as a mathematical value.
pub enum ApiErrorView {
    InvalidInput(Seq<char>),
    NotFound(Seq<char>),
    InternalServerError(Seq<char>),
}

impl View for ApiError {
    type V = ApiErrorView;

    open spec fn view(&self) -> ApiErrorView {
        match self {
            ApiError::InvalidInput(text) => ApiErrorView::InvalidInput(text@),
            ApiError::NotFound(text) => ApiErrorView::NotFound(text@),
            ApiError::InternalServerError(text) => ApiErrorView::InternalServerError(text@),
        }
    }
}

/// An error as it goes back to the caller: the HTTP status code, and the
/// text for the `error` field of the body.
#[derive(Debug)]
pub struct ErrorResponse {
    pub status: u16,
    pub error: String,
}

impl ApiErrorView {
    /// The HTTP status code of this error.
    pub open spec fn status(self) -> int {
        match self {
            ApiErrorView::InvalidInput(_) => 400,
            ApiErrorView::NotFound(_) => 404,
            ApiErrorView::InternalServerError(_) => 500,
        }
    }

    /// The text of this error.
    pub open spec fn text(self) -> Seq<char> {
        match self {
            ApiErrorView::InvalidInput(text) => text,
            ApiErrorView::NotFound(text) => text,
            ApiErrorView::InternalServerError(text) => text,
        }
    }
}

impl ApiError {
    /// The status code and the text under which this error is reported.
    pub fn into_response(self) -> (response: ErrorResponse)
        ensures
            response.status == self@.status(),
            response.error@ == self@.text(),
    {
        match self {
            ApiError::InvalidInput(text) => ErrorResponse { status: 400, error: text },
            ApiError::NotFound(text) => ErrorResponse { status: 404, error: text },
            ApiError::InternalServerError(text) => ErrorResponse { status: 500, error: text },
        }
    }
}

/// The queued messages `rows` as they go over the wire.
pub open spec fn wire_messages(rows: Seq<OutgoingView>) -> Seq<MessageView> {
    rows.map_values(
        |row: OutgoingView|
            MessageView { sender: row.sender, subject: row.subject, body: row.body },
    )
}

/// The fetch-messages endpoint. The caller `input.username` gets every
/// message queued for it that it has not pulled before, oldest first, and
/// those messages are marked as pulled: a second call right away gets none
/// (`laws::lemma_pull_hands_over_once`). The messages stay in the queue.
pub fn fetch_messages_handler(store: &mut Store, input: FetchMessageInput) -> (answer: Result<
    FetchMessageResponse,
    ApiError,
>)
    requires
        old(store).wf(),
    ensures
        final(store).wf(),
        answer is Ok,
        answer->Ok_0@ == wire_messages(old(store)@.pending_for(input.username@)),
        final(store)@ == old(store)@.pulled_by(input.username@),
        final(store)@.pending_for(input.username@) == Seq::<OutgoingView>::empty(),
{
    let ghost username = input.username@;
    proof {
        lemma_pull_hands_over_once(old(store)@, username);
    }
    let db_messages = match fetch_messages_for_user(store, input.username) {
        Ok(rows) => rows,
        Err(error) => {
            return Err(ApiError::InternalServerError(error.message()));
        },
    };
    let ghost rows = views(db_messages@);

    let mut message_ids: Vec<i64> = Vec::new();
    let mut i: usize = 0;
    while i < db_messages.len()
        invariant
            i <= db_messages.len(),
            rows == views(db_messages@),
            message_ids.len() == i,
            forall|j: int| 0 <= j < i ==> message_ids[j] == rows[j].id,
        decreases db_messages.len() - i,
    {
        message_ids.push(db_messages[i].id);
        i += 1;
    }
    assert(id_values(message_ids@) =~= outgoing_ids(rows));

    match mark_messages_as_sent(store, message_ids.as_slice()) {
        Ok(()) => {},
        Err(error) => {
            return Err(ApiError::InternalServerError(error.message()));
        },
    }
    proof {
        lemma_mark_pending_is_pull(old(store)@, username);
    }

    let mut messages: Vec<Message> = Vec::new();
    let mut k: usize = 0;
    while k < db_messages.len()
        invariant
            k <= db_messages.len(),
            rows == views(db_messages@),
            messages.len() == k,
            forall|j: int| 0 <= j < k ==> messages[j]@ == wire_messages(rows)[j],
        decreases db_messages.len() - k,
    {
        let row = &db_messages[k];
        messages.push(
            Message {
                sender: row.sender.clone(),
                subject: row.subject.clone(),
                body: row.body.clone(),
            },
        );
        k += 1;
    }
    let response = FetchMessageResponse { messages };
    assert(response@ =~= wire_messages(rows));
    Ok(response)
}

/// The error with which a handler answers a request that the state machine
/// refused.
pub open spec fn refusal_error(refusal: Refusal) -> ApiErrorView {
    match refusal {
        Refusal::NeverRequested => ApiErrorView::InvalidInput("why would you request this"@),
        Refusal::NoInvitation => ApiErrorView::NotFound("No invitation found."@),
        Refusal::NothingToAccept => ApiErrorView::InvalidInput(
            "No pending invitation to accept."@,
        ),
        Refusal::NothingToReject => ApiErrorView::InvalidInput(
            "No pending invitation to reject."@,
        ),
        Refusal::AlreadyRelated => ApiErrorView::InvalidInput("Relationship already exists."@),
    }
}

/// The address that a friend request gives for its sender, empty if it gives
/// none.
pub open spec fn sender_address(input: FriendInputView) -> Seq<char> {
    match input.address {
        Some(address) => address,
        None => Seq::empty(),
    }
}

/// What a friend request does: the store after it, and the status token or
/// the error that answers it. The relationship is the one with
/// `input.hostname`.
pub open spec fn friend_request_outcome(
    store: StoreView,
    input: FriendInputView,
    now: chrono::NaiveDateTime,
) -> (StoreView, Result<Seq<char>, ApiErrorView>) {
    let (after, made) = store.step(
        input.hostname,
        sender_address(input),
        Trigger::Inbound(input.req_type),
        now,
    );
    match made {
        Ok(_) => (after, Ok(label_of_code(code_of_status(input.req_type)))),
        Err(StepError::Full) => (
            after,
            Err(ApiErrorView::InternalServerError("DB insert failed"@)),
        ),
        Err(StepError::Refused(refusal)) => (after, Err(refusal_error(refusal))),
    }
}

/// Whether `answer` is the answer `expected`, text for text.
pub open spec fn answers(
    answer: Result<&'static str, ApiError>,
    expected: Result<Seq<char>, ApiErrorView>,
) -> bool {
    match answer {
        Ok(token) => expected == Ok::<Seq<char>, ApiErrorView>(token@),
        Err(error) => expected == Err::<Seq<char>, ApiErrorView>(error@),
    }
}

/// The error for a request that the state machine refused.
fn refused(refusal: Refusal) -> (error: ApiError)
    ensures
        error@ == refusal_error(refusal),
{
    match refusal {
        Refusal::NeverRequested => ApiError::InvalidInput(
            String::from_str("why would you request this"),
        ),
        Refusal::NoInvitation => ApiError::NotFound(String::from_str("No invitation found.")),
        Refusal::NothingToAccept => ApiError::InvalidInput(
            String::from_str("No pending invitation to accept."),
        ),
        Refusal::NothingToReject => ApiError::InvalidInput(
            String::from_str("No pending invitation to reject."),
        ),
        Refusal::AlreadyRelated => ApiError::InvalidInput(
            String::from_str("Relationship already exists."),
        ),
    }
}

/// The friend-request endpoint. A peer's node reports the status that the
/// relationship has on its side; the state machine decides what that does to
/// the relationship with `input.hostname` here. The answer is the token of
/// the requested status, or the error; an error leaves the store as it was,
/// and so does a request that arrives a second time
/// (`laws::lemma_redelivery_changes_nothing`).
pub fn friend_request_handler(
    store: &mut Store,
    input: FriendInput,
    now: chrono::NaiveDateTime,
) -> (answer: Result<&'static str, ApiError>)
    requires
        old(store).wf(),
    ensures
        final(store).wf(),
        answers(answer, friend_request_outcome(old(store)@, input@, now).1),
        final(store)@ == friend_request_outcome(old(store)@, input@, now).0,
        answer is Err ==> final(store)@ == old(store)@,
        answer is Ok ==> final(store)@.status_of(input.hostname@) == Some(input.req_type),
        (input.req_type == FriendRequestStatus::Accepted || input.req_type
            == FriendRequestStatus::Rejected) && old(store)@.status_of(input.hostname@) != Some(
            input.req_type,
        ) ==> (answer is Ok <==> old(store)@.status_of(input.hostname@) == Some(
            FriendRequestStatus::InviteSent,
        )),
        forall|other: Seq<char>|
            other != input.hostname@ ==> #[trigger] final(store)@.relationship(other) == old(
                store,
            )@.relationship(other),
{
    let FriendInput { username: _, hostname, address, req_type } = input;
    let address = match address {
        Some(address) => address,
        None => String::new(),
    };
    match step_relationship(store, &hostname, &address, Trigger::Inbound(req_type), now) {
        Ok(_) => Ok(status_code(req_type).status_str()),
        Err(StepError::Full) => Err(
            ApiError::InternalServerError(String::from_str("DB insert failed")),
        ),
        Err(StepError::Refused(refusal)) => Err(refused(refusal)),
    }
}

} // verus!
