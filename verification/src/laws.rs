//! What holds of the store and its operations, whatever the store holds.

use vstd::prelude::*;

use crate::api::{
    friend_request_outcome, sender_address, wire_messages, ApiErrorView, FriendInputView,
    FriendRequestStatus, MessageView as WireMessageView,
};
use crate::comms::{fetch_reply_outcome, push_reply_outcome, FetchReply, PushReply};
use crate::code_of_status;
use crate::db::{FriendRequestView, FriendView, MessageView, OutgoingView, UserView};
use crate::model::{
    invite_outcome, last_id, lemma_friend_index, lemma_pending_among_push, lemma_step_is_local,
    opened_from, StoreView,
};
use crate::relationship::Trigger;

verus! {

/// A peer's `Accepted` or `Rejected` succeeds only against a relationship
/// that is `InviteSent`, and then makes it `Accepted` or `Rejected`. Against
/// anything else the store stays as it was and the answer is the error of
/// the case: not found where the peer accepts and nothing is on record,
/// invalid input otherwise. A request that restates the status on record is
/// left out here: it succeeds and changes nothing.
pub proof fn lemma_accept_and_reject_need_invite_sent(
    store: StoreView,
    input: FriendInputView,
    now: chrono::NaiveDateTime,
)
    requires
        store.wf(),
        input.req_type == FriendRequestStatus::Accepted || input.req_type
            == FriendRequestStatus::Rejected,
        store.status_of(input.hostname) != Some(input.req_type),
    ensures
        ({
            let (after, answer) = friend_request_outcome(store, input, now);
            let on_record = store.status_of(input.hostname);
            &&& answer is Ok <==> on_record == Some(FriendRequestStatus::InviteSent)
            &&& answer is Ok ==> after.status_of(input.hostname) == Some(input.req_type)
            &&& answer is Err ==> after == store
            &&& answer is Err ==> answer->Err_0 == if input.req_type
                == FriendRequestStatus::Rejected {
                ApiErrorView::InvalidInput("No pending invitation to reject."@)
            } else if on_record is None {
                ApiErrorView::NotFound("No invitation found."@)
            } else {
                ApiErrorView::InvalidInput("No pending invitation to accept."@)
            }
        }),
{
    lemma_step_is_local(
        store,
        input.hostname,
        sender_address(input),
        Trigger::Inbound(input.req_type),
        now,
    );
}

/// `InviteReceived` is never a request: whatever is on record, the answer is
/// invalid input and the store stays as it was.
pub proof fn lemma_invite_received_is_refused(
    store: StoreView,
    input: FriendInputView,
    now: chrono::NaiveDateTime,
)
    requires
        input.req_type == FriendRequestStatus::InviteReceived,
    ensures
        friend_request_outcome(store, input, now) == (
            store,
            Err::<Seq<char>, ApiErrorView>(
                ApiErrorView::InvalidInput("why would you request this"@),
            ),
        ),
{
}

/// A friend request that arrives a second time changes nothing and gets the
/// answer it got the first time.
pub proof fn lemma_redelivery_changes_nothing(
    store: StoreView,
    input: FriendInputView,
    first: chrono::NaiveDateTime,
    second: chrono::NaiveDateTime,
)
    requires
        store.wf(),
    ensures
        ({
            let (once, answer) = friend_request_outcome(store, input, first);
            let (twice, again) = friend_request_outcome(once, input, second);
            &&& once.wf()
            &&& twice == once
            &&& again == answer
        }),
{
    let trigger = Trigger::Inbound(input.req_type);
    lemma_step_is_local(store, input.hostname, sender_address(input), trigger, first);
    let (once, _) = friend_request_outcome(store, input, first);
    lemma_step_is_local(once, input.hostname, sender_address(input), trigger, second);
}

/// A friend request about one peer changes the relationship with no other.
pub proof fn lemma_friend_request_is_local(
    store: StoreView,
    input: FriendInputView,
    now: chrono::NaiveDateTime,
    other: Seq<char>,
)
    requires
        store.wf(),
        other != input.hostname,
    ensures
        friend_request_outcome(store, input, now).0.relationship(other) == store.relationship(
            other,
        ),
{
    lemma_step_is_local(
        store,
        input.hostname,
        sender_address(input),
        Trigger::Inbound(input.req_type),
        now,
    );
}

/// After the local user's invitation the relationship is `InviteSent` and
/// undelivered, so the next tick of the friend-request poller has a call
/// for that peer.
pub proof fn lemma_invitation_is_pushed(
    store: StoreView,
    request: FriendRequestView,
    now: chrono::NaiveDateTime,
)
    requires
        store.wf(),
        invite_outcome(store, request, now).1 is Ok,
    ensures
        ({
            let after = invite_outcome(store, request, now).0;
            &&& after.wf()
            &&& after.relationship(request.username) is Some
            &&& after.relationship(request.username)->0.status == code_of_status(
                FriendRequestStatus::InviteSent,
            )
            &&& !after.relationship(request.username)->0.sent
            &&& after.unsent_friends().contains(after.relationship(request.username)->0)
        }),
{
    lemma_step_is_local(store, request.username, request.address, Trigger::LocalInvite, now);
    let after = invite_outcome(store, request, now).0;
    let i = after.friend_index(request.username);
    assert(after.is_friend_at(request.username, i));
    if store.has_friend(request.username) {
        let k = store.friend_index(request.username);
        assert(store.is_friend_at(request.username, k));
        assert(after.is_friend_at(request.username, k));
        lemma_friend_index(after, request.username, k);
    } else {
        let last = store.friends.len() as int;
        assert(after.is_friend_at(request.username, last));
        lemma_friend_index(after, request.username, last);
    }
    after.friends.lemma_filter_contains(|friend: FriendView| !friend.sent, i);
}

/// Once a peer has been told the status on record, the next tick of the
/// friend-request poller has no call for that peer, and none that the tick
/// before did not have.
pub proof fn lemma_delivered_status_is_not_pushed_again(store: StoreView, username: Seq<char>)
    requires
        store.wf(),
    ensures
        ({
            let after = store.mark_friend_sent(username);
            &&& after.wf()
            &&& forall|i: int|
                0 <= i < after.unsent_friends().len() ==> (
                #[trigger] after.unsent_friends()[i]).username != username
            &&& forall|i: int|
                0 <= i < after.unsent_friends().len() ==> store.unsent_friends().contains(
                    #[trigger] after.unsent_friends()[i],
                )
        }),
{
    let after = store.mark_friend_sent(username);
    let unsent = |friend: FriendView| !friend.sent;
    let left = after.unsent_friends();
    assert forall|i: int| 0 <= i < left.len() implies (#[trigger] left[i]).username != username
        && store.unsent_friends().contains(left[i]) by {
        after.friends.lemma_filter_pred(unsent, i);
        assert(left.contains(left[i]));
        after.friends.lemma_filter_contains_rev(unsent, left[i]);
        let j = choose|j: int| 0 <= j < after.friends.len() && after.friends[j] == left[i];
        assert(store.friends[j] == left[i]);
        store.friends.lemma_filter_contains(unsent, j);
    }
}

/// The store after the peers `names` have each been told the status on
/// record, one after the other.
pub open spec fn after_pushes(store: StoreView, names: Seq<Seq<char>>) -> StoreView
    decreases names.len(),
{
    if names.len() == 0 {
        store
    } else {
        after_pushes(store, names.drop_last()).mark_friend_sent(names.last())
    }
}

/// The relationships after the pushes to `names`: those named are delivered,
/// the others are as they were.
proof fn lemma_after_pushes(store: StoreView, names: Seq<Seq<char>>)
    requires
        store.wf(),
    ensures
        after_pushes(store, names).wf(),
        after_pushes(store, names) == (StoreView {
            friends: after_pushes(store, names).friends,
            ..store
        }),
        after_pushes(store, names).friends.len() == store.friends.len(),
        forall|i: int|
            0 <= i < store.friends.len() ==> #[trigger] after_pushes(store, names).friends[i]
                == if names.contains(store.friends[i].username) {
                FriendView { sent: true, ..store.friends[i] }
            } else {
                store.friends[i]
            },
    decreases names.len(),
{
    if names.len() > 0 {
        let front = names.drop_last();
        lemma_after_pushes(store, front);
        assert forall|name: Seq<char>| names.contains(name) == (front.contains(name) || name
            == names.last()) by {
            if names.contains(name) {
                let k = choose|k: int| 0 <= k < names.len() && names[k] == name;
                if k < names.len() - 1 {
                    assert(front[k] == name);
                }
            }
            if front.contains(name) {
                let k = choose|k: int| 0 <= k < front.len() && front[k] == name;
                assert(names[k] == name);
            }
            if name == names.last() {
                assert(names[names.len() - 1] == name);
            }
        }
    }
}

/// A tick of the friend-request poller in which every call succeeds leaves
/// nothing for the next tick to push: with no change of status in between,
/// no relationship is pushed twice.
pub proof fn lemma_second_tick_pushes_nothing(store: StoreView, names: Seq<Seq<char>>)
    requires
        store.wf(),
        forall|i: int|
            0 <= i < store.unsent_friends().len() ==> names.contains(
                (#[trigger] store.unsent_friends()[i]).username,
            ),
    ensures
        after_pushes(store, names).wf(),
        after_pushes(store, names).unsent_friends() == Seq::<FriendView>::empty(),
{
    lemma_after_pushes(store, names);
    let after = after_pushes(store, names);
    let unsent = |friend: FriendView| !friend.sent;
    let left = after.unsent_friends();
    if left.len() > 0 {
        after.friends.lemma_filter_pred(unsent, 0);
        assert(left.contains(left[0]));
        after.friends.lemma_filter_contains_rev(unsent, left[0]);
        let j = choose|j: int| 0 <= j < after.friends.len() && after.friends[j] == left[0];
        assert(!store.friends[j].sent);
        store.friends.lemma_filter_contains(unsent, j);
        let k = choose|k: int|
            0 <= k < store.unsent_friends().len() && store.unsent_friends()[k] == store.friends[j];
        assert(names.contains(store.unsent_friends()[k].username));
    }
    assert(left =~= Seq::<FriendView>::empty());
}

/// A friend request that fails leaves no trace: the status stays
/// undelivered for the next tick, and what the reply of any other peer does
/// is what it would have done without the failed call.
pub proof fn lemma_failed_push_is_isolated(
    store: StoreView,
    failed_peer: Seq<char>,
    failed: PushReply,
    other_peer: Seq<char>,
    other: PushReply,
)
    requires
        push_reply_outcome(store, failed_peer, failed).1 is Err,
    ensures
        push_reply_outcome(store, failed_peer, failed).0 == store,
        push_reply_outcome(push_reply_outcome(store, failed_peer, failed).0, other_peer, other)
            == push_reply_outcome(store, other_peer, other),
{
}

/// A message that was queued is the last that its recipient's next pull
/// hands over, after those that were waiting already, with this node as its
/// sender.
pub proof fn lemma_queued_message_is_pulled(
    store: StoreView,
    message: MessageView,
    now: chrono::NaiveDateTime,
)
    requires
        store.wf(),
        store.queue(message, now).1 is Ok,
    ensures
        ({
            let queued = store.queue(message, now).0;
            &&& queued.wf()
            &&& wire_messages(queued.pending_for(message.send_to)) == wire_messages(
                store.pending_for(message.send_to),
            ).push(
                WireMessageView {
                    sender: store.user->0.username,
                    subject: message.subject,
                    body: message.content,
                },
            )
        }),
{
    let queued = store.queue(message, now).0;
    let row = queued.outgoing.last();
    assert(queued.outgoing =~= store.outgoing.push(row));
    lemma_pending_among_push(store.outgoing, row, message.send_to);
    assert(wire_messages(queued.pending_for(message.send_to)) =~= wire_messages(
        store.pending_for(message.send_to),
    ).push(
        WireMessageView {
            sender: store.user->0.username,
            subject: message.subject,
            body: message.content,
        },
    ));
}

/// A pull hands over every queued message that it takes and marks it as
/// pulled; the other messages stay as they are, none leaves the queue, and a
/// second pull by the same node right away gets nothing.
pub proof fn lemma_pull_hands_over_once(store: StoreView, username: Seq<char>)
    requires
        store.wf(),
    ensures
        ({
            let pulled = store.pulled_by(username);
            let handed = store.pending_for(username);
            &&& pulled.wf()
            &&& pulled.outgoing.len() == store.outgoing.len()
            &&& handed.len() <= store.outgoing.len()
            &&& forall|k: int|
                0 <= k < handed.len() ==> (#[trigger] handed[k]).pending_for(username)
                    && store.outgoing.contains(handed[k])
            &&& forall|i: int|
                0 <= i < store.outgoing.len() && (#[trigger] store.outgoing[i]).pending_for(
                    username,
                ) ==> {
                    &&& store.pending_for(username).contains(store.outgoing[i])
                    &&& pulled.outgoing[i] == store.outgoing[i].mark_sent()
                }
            &&& forall|i: int|
                0 <= i < store.outgoing.len() && !(#[trigger] store.outgoing[i]).pending_for(
                    username,
                ) ==> pulled.outgoing[i] == store.outgoing[i]
            &&& pulled.pending_for(username) == Seq::<OutgoingView>::empty()
        }),
{
    let pulled = store.pulled_by(username);
    let takes = |message: OutgoingView| message.pending_for(username);
    let handed = store.pending_for(username);
    store.outgoing.lemma_filter_len(takes);
    assert forall|k: int| 0 <= k < handed.len() implies (#[trigger] handed[k]).pending_for(
        username,
    ) && store.outgoing.contains(handed[k]) by {
        store.outgoing.lemma_filter_pred(takes, k);
        assert(handed.contains(handed[k]));
        store.outgoing.lemma_filter_contains_rev(takes, handed[k]);
    }
    assert forall|i: int|
        0 <= i < store.outgoing.len() && (#[trigger] store.outgoing[i]).pending_for(
            username,
        ) implies store.pending_for(username).contains(store.outgoing[i]) by {
        store.outgoing.lemma_filter_contains(takes, i);
    }
    let again = pulled.pending_for(username);
    if again.len() > 0 {
        pulled.outgoing.lemma_filter_pred(takes, 0);
        assert(again.contains(again[0]));
        pulled.outgoing.lemma_filter_contains_rev(takes, again[0]);
        let j = choose|j: int| 0 <= j < pulled.outgoing.len() && pulled.outgoing[j] == again[0];
        assert(!pulled.outgoing[j].pending_for(username));
    }
    assert(again =~= Seq::<OutgoingView>::empty());
}

/// Whether the queue `after` is the queue `before` with nothing taken out:
/// every message is where it was, as it was or marked as pulled, and new
/// messages come after the old.
pub open spec fn keeps_queue(before: Seq<OutgoingView>, after: Seq<OutgoingView>) -> bool {
    &&& before.len() <= after.len()
    &&& forall|i: int|
        0 <= i < before.len() ==> #[trigger] after[i] == before[i] || after[i]
            == before[i].mark_sent()
}

/// No operation takes a message out of the queue or marks a pulled message
/// as not pulled. Queueing adds one message at the end; a pull and a marking
/// by id only mark; a step of a relationship and the arrival of mail leave
/// the queue alone.
pub proof fn lemma_queue_keeps_every_message(
    store: StoreView,
    message: MessageView,
    username: Seq<char>,
    address: Seq<char>,
    trigger: Trigger,
    ids: Seq<int>,
    arrived: Seq<WireMessageView>,
    now: chrono::NaiveDateTime,
)
    ensures
        keeps_queue(store.outgoing, store.queue(message, now).0.outgoing),
        keeps_queue(store.outgoing, store.pulled_by(username).outgoing),
        keeps_queue(store.outgoing, store.mark_sent(ids).outgoing),
        store.step(username, address, trigger, now).0.outgoing == store.outgoing,
        store.mark_friend_sent(username).outgoing == store.outgoing,
        store.ingest(arrived, now).0.outgoing == store.outgoing,
{
}

/// A call to one peer that fails leaves no trace: what the reply of any
/// other peer does is what it would have done without the failed call.
pub proof fn lemma_failed_fetch_is_isolated(
    store: StoreView,
    failed: FetchReply,
    other: FetchReply,
    first: chrono::NaiveDateTime,
    second: chrono::NaiveDateTime,
)
    requires
        fetch_reply_outcome(store, failed, first).1 is Err,
    ensures
        fetch_reply_outcome(store, failed, first).0 == store,
        fetch_reply_outcome(fetch_reply_outcome(store, failed, first).0, other, second)
            == fetch_reply_outcome(store, other, second),
{
}

/// The first identity given stays: who the node is does not change once it
/// is known.
pub proof fn lemma_identity_stays(store: StoreView, first: UserView, second: UserView)
    ensures
        store.setup(first).user is Some,
        store.setup(first).setup(second) == store.setup(first),
        store.user is Some ==> store.setup(first) == store,
{
}

/// A store that was saved row by row opens again with every row it had. The
/// ids it hands out next are never ones it has handed to a row still there.
pub proof fn lemma_saved_store_opens_again(store: StoreView)
    requires
        store.wf(),
        store.next_friend_id <= last_id(),
        store.next_outgoing_id <= last_id(),
        store.next_inbox_id <= last_id(),
    ensures
        opened_from(store.user, store.friends, store.outgoing, store.inbox) is Ok,
        ({
            let again = opened_from(store.user, store.friends, store.outgoing, store.inbox)->Ok_0;
            &&& again.wf()
            &&& again.user == store.user
            &&& again.friends == store.friends
            &&& again.outgoing == store.outgoing
            &&& again.inbox == store.inbox
            &&& again.next_friend_id <= store.next_friend_id
            &&& again.next_outgoing_id <= store.next_outgoing_id
            &&& again.next_inbox_id <= store.next_inbox_id
        }),
{
}

} // verus!
