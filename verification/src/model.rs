//! The store as a mathematical value, and each operation on it as a function
//! from the store before to the store after.

use vstd::prelude::*;

use crate::api::{FriendRequestStatus, MessageView as WireMessageView};
use crate::db::{
    DbError, FriendRequestView, FriendView, InboxMessageView, MessageView, OutgoingView,
    StepError, UserView,
};
use crate::relationship::{next_transition, status_after, Transition, Trigger};
use crate::{code_of_status, status_of_code};

verus! {

/// The row id that the first row of a table gets.
pub open spec fn first_id() -> int {
    1
}

/// The largest row id.
pub open spec fn last_id() -> int {
    i64::MAX as int
}

/// The relationships among `friends` that are `Accepted`.
pub open spec fn active_among(friends: Seq<FriendView>) -> Seq<FriendView> {
    friends.filter(
        |friend: FriendView| friend.status == code_of_status(FriendRequestStatus::Accepted),
    )
}

/// The relationships among `friends` whose status the peer has not been told.
pub open spec fn unsent_among(friends: Seq<FriendView>) -> Seq<FriendView> {
    friends.filter(|friend: FriendView| !friend.sent)
}

/// The messages among `outgoing` that a pull by `username` takes.
pub open spec fn pending_among(outgoing: Seq<OutgoingView>, username: Seq<char>) -> Seq<
    OutgoingView,
> {
    outgoing.filter(|message: OutgoingView| message.pending_for(username))
}

/// The ids of the queued messages `rows`, in order.
pub open spec fn outgoing_ids(rows: Seq<OutgoingView>) -> Seq<int> {
    rows.map_values(|message: OutgoingView| message.id)
}

/// The ids `ids` as integers.
pub open spec fn id_values(ids: Seq<i64>) -> Seq<int> {
    ids.map_values(|id: i64| id as int)
}

/// Whether `ids` ascend.
pub open spec fn ascending(ids: Seq<int>) -> bool {
    forall|i: int, j: int| 0 <= i < j < ids.len() ==> ids[i] < ids[j]
}

/// Whether no two of `names` are the same.
pub open spec fn distinct(names: Seq<Seq<char>>) -> bool {
    forall|i: int, j: int| 0 <= i < j < names.len() ==> names[i] != names[j]
}

/// The id that the next row gets in a table whose row ids are `ids`, in
/// order: one more than the last, and never below the first id.
pub open spec fn next_id_after(ids: Seq<int>) -> int {
    if ids.len() == 0 || ids.last() < first_id() {
        first_id()
    } else {
        ids.last() + 1
    }
}

/// The ids of the relationships `rows`, in order.
pub open spec fn friend_ids(rows: Seq<FriendView>) -> Seq<int> {
    rows.map_values(|row: FriendView| row.id)
}

/// The names of the peers of the relationships `rows`, in order.
pub open spec fn friend_names(rows: Seq<FriendView>) -> Seq<Seq<char>> {
    rows.map_values(|row: FriendView| row.username)
}

/// The ids of the inbox messages `rows`, in order.
pub open spec fn inbox_ids(rows: Seq<InboxMessageView>) -> Seq<int> {
    rows.map_values(|row: InboxMessageView| row.id)
}

/// What opening a store from saved rows gives: the store that holds them, or
/// why there is none. The rows of a table must come with ascending ids, and
/// no two relationships may be with the same node; a table whose last id is
/// the largest there is cannot take another row.
pub open spec fn opened_from(
    user: Option<UserView>,
    friends: Seq<FriendView>,
    outgoing: Seq<OutgoingView>,
    inbox: Seq<InboxMessageView>,
) -> Result<StoreView, DbError> {
    let in_order = {
        &&& ascending(friend_ids(friends))
        &&& distinct(friend_names(friends))
        &&& ascending(outgoing_ids(outgoing))
        &&& ascending(inbox_ids(inbox))
    };
    let has_room = {
        &&& next_id_after(friend_ids(friends)) <= last_id()
        &&& next_id_after(outgoing_ids(outgoing)) <= last_id()
        &&& next_id_after(inbox_ids(inbox)) <= last_id()
    };
    if !in_order {
        Err(DbError::UniqueViolation)
    } else if !has_room {
        Err(DbError::Full)
    } else {
        Ok(
            StoreView {
                user,
                friends,
                outgoing,
                inbox,
                next_friend_id: next_id_after(friend_ids(friends)),
                next_outgoing_id: next_id_after(outgoing_ids(outgoing)),
                next_inbox_id: next_id_after(inbox_ids(inbox)),
            },
        )
    }
}

/// Everything a node keeps: who it is, whom it knows, what it has queued for
/// its peers and what it has received from them.
pub struct StoreView {
    pub user: Option<UserView>,
    pub friends: Seq<FriendView>,
    pub outgoing: Seq<OutgoingView>,
    pub inbox: Seq<InboxMessageView>,
    pub next_friend_id: int,
    pub next_outgoing_id: int,
    pub next_inbox_id: int,
}

impl StoreView {
    /// A store with nothing in it.
    pub open spec fn empty() -> StoreView {
        StoreView {
            user: None,
            friends: Seq::empty(),
            outgoing: Seq::empty(),
            inbox: Seq::empty(),
            next_friend_id: first_id(),
            next_outgoing_id: first_id(),
            next_inbox_id: first_id(),
        }
    }

    /// In each table the row ids ascend and lie below the next id to hand out,
    /// which is never below the first, and no two relationships are with the
    /// same node.
    pub open spec fn wf(self) -> bool {
        &&& first_id() <= self.next_friend_id
        &&& first_id() <= self.next_outgoing_id
        &&& first_id() <= self.next_inbox_id
        &&& forall|i: int, j: int|
            #![trigger self.friends[i], self.friends[j]]
            0 <= i < j < self.friends.len() ==> self.friends[i].id < self.friends[j].id
        &&& forall|i: int|
            #![trigger self.friends[i]]
            0 <= i < self.friends.len() ==> self.friends[i].id < self.next_friend_id
        &&& forall|i: int, j: int|
            #![trigger self.friends[i], self.friends[j]]
            0 <= i < j < self.friends.len() ==> self.friends[i].username
                != self.friends[j].username
        &&& forall|i: int, j: int|
            #![trigger self.outgoing[i], self.outgoing[j]]
            0 <= i < j < self.outgoing.len() ==> self.outgoing[i].id < self.outgoing[j].id
        &&& forall|i: int|
            #![trigger self.outgoing[i]]
            0 <= i < self.outgoing.len() ==> self.outgoing[i].id < self.next_outgoing_id
        &&& forall|i: int, j: int|
            #![trigger self.inbox[i], self.inbox[j]]
            0 <= i < j < self.inbox.len() ==> self.inbox[i].id < self.inbox[j].id
        &&& forall|i: int|
            #![trigger self.inbox[i]]
            0 <= i < self.inbox.len() ==> self.inbox[i].id < self.next_inbox_id
    }

    /// Whether row `i` is the relationship with `username`.
    pub open spec fn is_friend_at(self, username: Seq<char>, i: int) -> bool {
        0 <= i < self.friends.len() && self.friends[i].username == username
    }

    /// Whether there is a relationship with `username`.
    pub open spec fn has_friend(self, username: Seq<char>) -> bool {
        exists|i: int| self.is_friend_at(username, i)
    }

    /// The row of the relationship with `username`, where there is one.
    pub open spec fn friend_index(self, username: Seq<char>) -> int {
        choose|i: int| self.is_friend_at(username, i)
    }

    /// The relationship with `username`.
    pub open spec fn relationship(self, username: Seq<char>) -> Option<FriendView> {
        if self.has_friend(username) {
            Some(self.friends[self.friend_index(username)])
        } else {
            None
        }
    }

    /// The status on record for `username`.
    pub open spec fn status_of(self, username: Seq<char>) -> Option<FriendRequestStatus> {
        match self.relationship(username) {
            Some(friend) => Some(status_of_code(friend.status)),
            None => None,
        }
    }

    /// The store once the node knows who it is: the first identity given
    /// stays.
    pub open spec fn setup(self, initial: UserView) -> StoreView {
        if self.user is None {
            StoreView { user: Some(UserView { id: first_id(), ..initial }), ..self }
        } else {
            self
        }
    }

    /// The relationships that are `Accepted`.
    pub open spec fn active_friends(self) -> Seq<FriendView> {
        active_among(self.friends)
    }

    /// The relationships whose status the peer has not been told.
    pub open spec fn unsent_friends(self) -> Seq<FriendView> {
        unsent_among(self.friends)
    }

    /// The store after the peer `username` has been told the status on record.
    pub open spec fn mark_friend_sent(self, username: Seq<char>) -> StoreView {
        StoreView {
            friends: self.friends.map_values(
                |friend: FriendView|
                    if friend.username == username {
                        FriendView { sent: true, ..friend }
                    } else {
                        friend
                    },
            ),
            ..self
        }
    }

    /// The store with a new relationship with `username`, `InviteSent` and
    /// undelivered.
    pub open spec fn with_new_friend(
        self,
        username: Seq<char>,
        address: Seq<char>,
        now: chrono::NaiveDateTime,
    ) -> StoreView {
        StoreView {
            friends: self.friends.push(
                FriendView {
                    id: self.next_friend_id,
                    username,
                    address,
                    status: code_of_status(FriendRequestStatus::InviteSent),
                    sent: false,
                    added_at: Some(now),
                },
            ),
            next_friend_id: self.next_friend_id + 1,
            ..self
        }
    }

    /// The store with `transition` made on row `i` of the relationships.
    pub open spec fn with_friend_changed(
        self,
        i: int,
        transition: Transition,
        now: chrono::NaiveDateTime,
    ) -> StoreView {
        let before = self.friends[i];
        let after = match transition {
            Transition::Create | Transition::Keep => before,
            Transition::Reinvite => FriendView {
                status: code_of_status(FriendRequestStatus::InviteSent),
                sent: false,
                added_at: Some(now),
                ..before
            },
            Transition::Accept => FriendView {
                status: code_of_status(FriendRequestStatus::Accepted),
                added_at: Some(now),
                ..before
            },
            Transition::Reject => FriendView {
                status: code_of_status(FriendRequestStatus::Rejected),
                sent: true,
                added_at: Some(now),
                ..before
            },
        };
        StoreView { friends: self.friends.update(i, after), ..self }
    }

    /// One step of the relationship with `username`: the store after it, and
    /// the transition made or why none was. `address` is where the peer is
    /// reached, and is recorded only when the relationship is new.
    pub open spec fn step(
        self,
        username: Seq<char>,
        address: Seq<char>,
        trigger: Trigger,
        now: chrono::NaiveDateTime,
    ) -> (StoreView, Result<Transition, StepError>) {
        match next_transition(self.status_of(username), trigger) {
            Err(refusal) => (self, Err(StepError::Refused(refusal))),
            Ok(Transition::Create) => if self.next_friend_id < last_id() {
                (self.with_new_friend(username, address, now), Ok(Transition::Create))
            } else {
                (self, Err(StepError::Full))
            },
            Ok(Transition::Keep) => (self, Ok(Transition::Keep)),
            Ok(transition) => (
                self.with_friend_changed(self.friend_index(username), transition, now),
                Ok(transition),
            ),
        }
    }

    /// The store after the local user has queued `message`, or why the
    /// message was not queued: the node must know who it is and must have a
    /// relationship with the recipient, whose address is copied into the row.
    pub open spec fn queue(self, message: MessageView, now: chrono::NaiveDateTime) -> (
        StoreView,
        Result<(), DbError>,
    ) {
        if self.user is None || !self.has_friend(message.send_to) {
            (self, Err(DbError::RowNotFound))
        } else if self.next_outgoing_id >= last_id() {
            (self, Err(DbError::Full))
        } else {
            (
                StoreView {
                    outgoing: self.outgoing.push(
                        OutgoingView {
                            id: self.next_outgoing_id,
                            sender: self.user->0.username,
                            recipient: message.send_to,
                            recipient_address: self.relationship(message.send_to)->0.address,
                            subject: message.subject,
                            body: message.content,
                            queued_at: Some(now),
                            sent: Some(false),
                        },
                    ),
                    next_outgoing_id: self.next_outgoing_id + 1,
                    ..self
                },
                Ok(()),
            )
        }
    }

    /// The queued messages that a pull by `username` takes.
    pub open spec fn pending_for(self, username: Seq<char>) -> Seq<OutgoingView> {
        pending_among(self.outgoing, username)
    }

    /// The store after the queued messages with an id in `ids` are marked as
    /// pulled.
    pub open spec fn mark_sent(self, ids: Seq<int>) -> StoreView {
        StoreView {
            outgoing: self.outgoing.map_values(
                |message: OutgoingView|
                    if ids.contains(message.id) {
                        message.mark_sent()
                    } else {
                        message
                    },
            ),
            ..self
        }
    }

    /// The store after `username` has pulled its mail.
    pub open spec fn pulled_by(self, username: Seq<char>) -> StoreView {
        StoreView {
            outgoing: self.outgoing.map_values(
                |message: OutgoingView|
                    if message.pending_for(username) {
                        message.mark_sent()
                    } else {
                        message
                    },
            ),
            ..self
        }
    }

    /// The store after `messages` from a peer went into the inbox, or why
    /// they did not. All of them go in, in order, or none.
    pub open spec fn ingest(
        self,
        messages: Seq<WireMessageView>,
        now: chrono::NaiveDateTime,
    ) -> (StoreView, Result<(), DbError>) {
        if self.next_inbox_id + messages.len() > last_id() {
            (self, Err(DbError::Full))
        } else {
            (
                StoreView {
                    inbox: self.inbox + Seq::new(
                        messages.len(),
                        |k: int|
                            InboxMessageView {
                                id: self.next_inbox_id + k,
                                sender: messages[k].sender,
                                subject: messages[k].subject,
                                message: messages[k].body,
                                received_at: Some(now),
                            },
                    ),
                    next_inbox_id: self.next_inbox_id + messages.len(),
                    ..self
                },
                Ok(()),
            )
        }
    }

    /// The store without the inbox message `id`.
    pub open spec fn without_inbox_message(self, id: int) -> StoreView {
        StoreView {
            inbox: self.inbox.filter(|message: InboxMessageView| message.id != id),
            ..self
        }
    }

    /// The store without the relationship `id`.
    pub open spec fn without_friend(self, id: int) -> StoreView {
        StoreView { friends: self.friends.filter(|friend: FriendView| friend.id != id), ..self }
    }
}

/// What the local user's invitation is to the state machine.
pub open spec fn invite_outcome(
    store: StoreView,
    request: FriendRequestView,
    now: chrono::NaiveDateTime,
) -> (StoreView, Result<(), DbError>) {
    let (after, made) = store.step(request.username, request.address, Trigger::LocalInvite, now);
    match made {
        Ok(_) => (after, Ok(())),
        Err(StepError::Full) => (after, Err(DbError::Full)),
        Err(StepError::Refused(_)) => (after, Err(DbError::UniqueViolation)),
    }
}

/// Selecting from one more row: the row comes last if it is `Accepted`.
pub proof fn lemma_active_among_push(friends: Seq<FriendView>, friend: FriendView)
    ensures
        active_among(friends.push(friend)) == if friend.status == code_of_status(
            FriendRequestStatus::Accepted,
        ) {
            active_among(friends).push(friend)
        } else {
            active_among(friends)
        },
{
    friends.lemma_filter_push(
        friend,
        |friend: FriendView| friend.status == code_of_status(FriendRequestStatus::Accepted),
    );
}

/// Selecting from one more row: the row comes last if it is undelivered.
pub proof fn lemma_unsent_among_push(friends: Seq<FriendView>, friend: FriendView)
    ensures
        unsent_among(friends.push(friend)) == if !friend.sent {
            unsent_among(friends).push(friend)
        } else {
            unsent_among(friends)
        },
{
    friends.lemma_filter_push(friend, |friend: FriendView| !friend.sent);
}

/// Selecting from one more row: the row comes last if the pull takes it.
pub proof fn lemma_pending_among_push(
    outgoing: Seq<OutgoingView>,
    message: OutgoingView,
    username: Seq<char>,
)
    ensures
        pending_among(outgoing.push(message), username) == if message.pending_for(username) {
            pending_among(outgoing, username).push(message)
        } else {
            pending_among(outgoing, username)
        },
{
    outgoing.lemma_filter_push(message, |message: OutgoingView| message.pending_for(username));
}

/// Marking by id what a pull takes marks just that: no other queued message
/// has one of those ids.
pub proof fn lemma_mark_pending_is_pull(store: StoreView, username: Seq<char>)
    requires
        store.wf(),
    ensures
        store.mark_sent(outgoing_ids(store.pending_for(username))) == store.pulled_by(username),
{
    let rows = store.outgoing;
    let takes = |message: OutgoingView| message.pending_for(username);
    let taken = store.pending_for(username);
    let ids = outgoing_ids(taken);
    assert forall|j: int| 0 <= j < rows.len() implies ids.contains(rows[j].id)
        == rows[j].pending_for(username) by {
        if rows[j].pending_for(username) {
            rows.lemma_filter_contains(takes, j);
            let k = choose|k: int| 0 <= k < taken.len() && taken[k] == rows[j];
            assert(ids[k] == rows[j].id);
        }
        if ids.contains(rows[j].id) {
            let k = choose|k: int| 0 <= k < ids.len() && ids[k] == rows[j].id;
            rows.lemma_filter_pred(takes, k);
            assert(taken.contains(taken[k]));
            rows.lemma_filter_contains_rev(takes, taken[k]);
            let found = choose|found: int| 0 <= found < rows.len() && rows[found] == taken[k];
            if found < j {
                assert(rows[found].id < rows[j].id);
            } else if j < found {
                assert(rows[j].id < rows[found].id);
            }
        }
    }
    assert(store.mark_sent(ids).outgoing =~= store.pulled_by(username).outgoing);
}

/// Keeping every row but row `i` is removing row `i`.
pub proof fn lemma_filter_drops_one<A>(rows: Seq<A>, keep: spec_fn(A) -> bool, i: int)
    requires
        0 <= i < rows.len(),
        !keep(rows[i]),
        forall|j: int| 0 <= j < rows.len() && j != i ==> keep(#[trigger] rows[j]),
    ensures
        rows.filter(keep) == rows.remove(i),
    decreases rows.len(),
{
    let front = rows.drop_last();
    assert(rows =~= front.push(rows.last()));
    front.lemma_filter_push(rows.last(), keep);
    if i == rows.len() - 1 {
        lemma_filter_drops_none(front, keep);
        assert(rows.remove(i) =~= front);
    } else {
        lemma_filter_drops_one(front, keep, i);
        assert(rows.remove(i) =~= front.remove(i).push(rows.last()));
    }
}

/// Keeping every row is changing nothing.
pub proof fn lemma_filter_drops_none<A>(rows: Seq<A>, keep: spec_fn(A) -> bool)
    requires
        forall|j: int| 0 <= j < rows.len() ==> keep(#[trigger] rows[j]),
    ensures
        rows.filter(keep) == rows,
    decreases rows.len(),
{
    if rows.len() == 0 {
        assert(rows.filter(keep).len() <= 0) by {
            rows.lemma_filter_len(keep);
        }
        assert(rows.filter(keep) =~= rows);
    } else {
        let front = rows.drop_last();
        assert(rows =~= front.push(rows.last()));
        front.lemma_filter_push(rows.last(), keep);
        lemma_filter_drops_none(front, keep);
    }
}

/// Deleting the inbox message `id` removes row `i`, where that row has the
/// id; `i` past the end stands for no such row.
pub proof fn lemma_without_inbox_message(store: StoreView, id: int, i: int)
    requires
        store.wf(),
        0 <= i <= store.inbox.len(),
        i < store.inbox.len() ==> store.inbox[i].id == id,
        i == store.inbox.len() ==> forall|j: int|
            0 <= j < store.inbox.len() ==> (#[trigger] store.inbox[j]).id != id,
    ensures
        store.without_inbox_message(id).inbox == if i < store.inbox.len() {
            store.inbox.remove(i)
        } else {
            store.inbox
        },
        store.without_inbox_message(id).wf(),
{
    let keep = |message: InboxMessageView| message.id != id;
    if i < store.inbox.len() {
        assert forall|j: int| 0 <= j < store.inbox.len() && j != i implies keep(
            #[trigger] store.inbox[j],
        ) by {
            if j < i {
                assert(store.inbox[j].id < store.inbox[i].id);
            } else {
                assert(store.inbox[i].id < store.inbox[j].id);
            }
        }
        lemma_filter_drops_one(store.inbox, keep, i);
    } else {
        lemma_filter_drops_none(store.inbox, keep);
    }
}

/// Deleting the relationship `id` removes row `i`, where that row has the
/// id; `i` past the end stands for no such row.
pub proof fn lemma_without_friend(store: StoreView, id: int, i: int)
    requires
        store.wf(),
        0 <= i <= store.friends.len(),
        i < store.friends.len() ==> store.friends[i].id == id,
        i == store.friends.len() ==> forall|j: int|
            0 <= j < store.friends.len() ==> (#[trigger] store.friends[j]).id != id,
    ensures
        store.without_friend(id).friends == if i < store.friends.len() {
            store.friends.remove(i)
        } else {
            store.friends
        },
        store.without_friend(id).wf(),
{
    let keep = |friend: FriendView| friend.id != id;
    if i < store.friends.len() {
        assert forall|j: int| 0 <= j < store.friends.len() && j != i implies keep(
            #[trigger] store.friends[j],
        ) by {
            if j < i {
                assert(store.friends[j].id < store.friends[i].id);
            } else {
                assert(store.friends[i].id < store.friends[j].id);
            }
        }
        lemma_filter_drops_one(store.friends, keep, i);
    } else {
        lemma_filter_drops_none(store.friends, keep);
    }
}

/// A store opened from saved rows is well formed.
pub proof fn lemma_opened_is_wf(
    user: Option<UserView>,
    friends: Seq<FriendView>,
    outgoing: Seq<OutgoingView>,
    inbox: Seq<InboxMessageView>,
)
    requires
        opened_from(user, friends, outgoing, inbox) is Ok,
    ensures
        opened_from(user, friends, outgoing, inbox)->Ok_0.wf(),
{
    let store = opened_from(user, friends, outgoing, inbox)->Ok_0;
    let ids = friend_ids(friends);
    let names = friend_names(friends);
    assert forall|i: int, j: int| 0 <= i < j < friends.len() implies (#[trigger] friends[i]).id < (
    #[trigger] friends[j]).id && friends[i].username != friends[j].username by {
        assert(ids[i] < ids[j]);
        assert(names[i] != names[j]);
    }
    assert forall|i: int| 0 <= i < friends.len() implies (#[trigger] friends[i]).id
        < store.next_friend_id by {
        assert(ids[i] <= ids[ids.len() - 1]);
    }
    let queued = outgoing_ids(outgoing);
    assert forall|i: int, j: int| 0 <= i < j < outgoing.len() implies (#[trigger] outgoing[i]).id
        < (#[trigger] outgoing[j]).id by {
        assert(queued[i] < queued[j]);
    }
    assert forall|i: int| 0 <= i < outgoing.len() implies (#[trigger] outgoing[i]).id
        < store.next_outgoing_id by {
        assert(queued[i] <= queued[queued.len() - 1]);
    }
    let received = inbox_ids(inbox);
    assert forall|i: int, j: int| 0 <= i < j < inbox.len() implies (#[trigger] inbox[i]).id < (
    #[trigger] inbox[j]).id by {
        assert(received[i] < received[j]);
    }
    assert forall|i: int| 0 <= i < inbox.len() implies (#[trigger] inbox[i]).id
        < store.next_inbox_id by {
        assert(received[i] <= received[received.len() - 1]);
    }
}

/// Where a change leaves every row with the peer it was with, leaves the
/// rows of the peers other than `username` as they were, and adds rows for
/// `username` only, the relationships with the other peers are as before.
proof fn lemma_others_stay(store: StoreView, after: StoreView, username: Seq<char>)
    requires
        store.wf(),
        after.wf(),
        store.friends.len() <= after.friends.len(),
        forall|k: int|
            0 <= k < store.friends.len() ==> (#[trigger] after.friends[k]).username
                == store.friends[k].username,
        forall|k: int|
            0 <= k < store.friends.len() && store.friends[k].username != username
                ==> #[trigger] after.friends[k] == store.friends[k],
        forall|k: int|
            store.friends.len() <= k < after.friends.len() ==> (
            #[trigger] after.friends[k]).username == username,
    ensures
        forall|other: Seq<char>|
            other != username ==> #[trigger] after.relationship(other) == store.relationship(
                other,
            ),
{
    assert forall|other: Seq<char>| other != username implies #[trigger] after.relationship(
        other,
    ) == store.relationship(other) by {
        if store.has_friend(other) {
            let k = store.friend_index(other);
            assert(store.is_friend_at(other, k));
            assert(after.is_friend_at(other, k));
            lemma_friend_index(after, other, k);
        } else if after.has_friend(other) {
            let k = after.friend_index(other);
            assert(after.is_friend_at(other, k));
            assert(store.is_friend_at(other, k));
        }
    }
}

/// A step of the relationship with `username` leaves the store well formed,
/// changes nothing where it fails or keeps the status, leaves the
/// relationship with the status that the transition names, and touches no
/// other relationship and no message.
pub proof fn lemma_step_is_local(
    store: StoreView,
    username: Seq<char>,
    address: Seq<char>,
    trigger: Trigger,
    now: chrono::NaiveDateTime,
)
    requires
        store.wf(),
    ensures
        ({
            let (after, made) = store.step(username, address, trigger, now);
            &&& after.wf()
            &&& after.user == store.user
            &&& after.outgoing == store.outgoing
            &&& after.inbox == store.inbox
            &&& made is Err ==> after == store
            &&& made == Ok::<Transition, StepError>(Transition::Keep) ==> after == store
            &&& made is Ok ==> after.status_of(username) == status_after(
                store.status_of(username),
                made->Ok_0,
            )
            &&& forall|other: Seq<char>|
                other != username ==> #[trigger] after.relationship(other) == store.relationship(
                    other,
                )
        }),
{
    let (after, made) = store.step(username, address, trigger, now);
    if made is Ok {
        if store.has_friend(username) {
            let i = store.friend_index(username);
            assert(store.is_friend_at(username, i));
            assert(after.is_friend_at(username, i));
            lemma_friend_index(after, username, i);
        } else {
            let last = store.friends.len() as int;
            assert forall|i: int, j: int| 0 <= i < j < after.friends.len() implies (
            #[trigger] after.friends[i]).username != (#[trigger] after.friends[j]).username by {
                if j == last {
                    assert(!store.is_friend_at(username, i));
                }
            }
            assert(after.is_friend_at(username, last));
            lemma_friend_index(after, username, last);
        }
        lemma_others_stay(store, after, username);
    }
}

/// With no two relationships with the same node, the row that holds
/// `username` is the one that `friend_index` names.
pub proof fn lemma_friend_index(store: StoreView, username: Seq<char>, i: int)
    requires
        store.wf(),
        store.is_friend_at(username, i),
    ensures
        store.has_friend(username),
        store.friend_index(username) == i,
        store.relationship(username) == Some(store.friends[i]),
{
    let j = store.friend_index(username);
    assert(store.is_friend_at(username, j));
    if j < i {
        assert(store.friends[j].username != store.friends[i].username);
    } else if i < j {
        assert(store.friends[i].username != store.friends[j].username);
    }
}

} // verus!
