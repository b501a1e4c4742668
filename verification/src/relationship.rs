//! The relationship state machine: which change of status a local action or
//! a peer's request may make, given the status on record.

use vstd::prelude::*;

use crate::api::FriendRequestStatus;

verus! {

/// What asks for a change of a relationship.
#[derive(Debug, PartialEq, Eq, Clone, Copy, Structural)]
pub enum Trigger {
    /// The local user invites the peer.
    LocalInvite,
    /// The peer's node sent a friend request with this status.
    Inbound(FriendRequestStatus),
}

/// What a trigger does to the relationship on record.
#[derive(Debug, PartialEq, Eq, Clone, Copy, Structural)]
pub enum Transition {
    /// There was no relationship: one begins, `InviteSent` and undelivered.
    Create,
    /// The relationship goes back to `InviteSent`, undelivered.
    Reinvite,
    /// `InviteSent` becomes `Accepted`; the delivered flag stays.
    Accept,
    /// `InviteSent` becomes `Rejected`, delivered.
    Reject,
    /// The relationship already is what the trigger asks for.
    Keep,
}

/// Why a trigger changes nothing.
#[derive(Debug, PartialEq, Eq, Clone, Copy, Structural)]
pub enum Refusal {
    /// `InviteReceived` is a local view of a relationship and never a request.
    NeverRequested,
    /// Nothing is on record for the peer who accepts.
    NoInvitation,
    /// The peer accepts, but no invitation is pending.
    NothingToAccept,
    /// The peer rejects, but no invitation is pending.
    NothingToReject,
    /// The local user invites a peer with whom a relationship is under way.
    AlreadyRelated,
}

/// The transition table. `existing` is the status on record for the peer, if
/// any. A request that restates the status on record keeps it.
pub open spec fn next_transition(
    existing: Option<FriendRequestStatus>,
    trigger: Trigger,
) -> Result<Transition, Refusal> {
    match trigger {
        Trigger::LocalInvite => match existing {
            None => Ok(Transition::Create),
            Some(FriendRequestStatus::Rejected) => Ok(Transition::Reinvite),
            Some(_) => Err(Refusal::AlreadyRelated),
        },
        Trigger::Inbound(FriendRequestStatus::InviteSent) => match existing {
            None => Ok(Transition::Create),
            Some(FriendRequestStatus::InviteSent) => Ok(Transition::Keep),
            Some(_) => Ok(Transition::Reinvite),
        },
        Trigger::Inbound(FriendRequestStatus::InviteReceived) => Err(Refusal::NeverRequested),
        Trigger::Inbound(FriendRequestStatus::Accepted) => match existing {
            None => Err(Refusal::NoInvitation),
            Some(FriendRequestStatus::InviteSent) => Ok(Transition::Accept),
            Some(FriendRequestStatus::Accepted) => Ok(Transition::Keep),
            Some(_) => Err(Refusal::NothingToAccept),
        },
        Trigger::Inbound(FriendRequestStatus::Rejected) => match existing {
            Some(FriendRequestStatus::InviteSent) => Ok(Transition::Reject),
            Some(FriendRequestStatus::Rejected) => Ok(Transition::Keep),
            _ => Err(Refusal::NothingToReject),
        },
    }
}

/// The status on record after `transition`, where `existing` was there before.
pub open spec fn status_after(
    existing: Option<FriendRequestStatus>,
    transition: Transition,
) -> Option<FriendRequestStatus> {
    match transition {
        Transition::Create | Transition::Reinvite => Some(FriendRequestStatus::InviteSent),
        Transition::Accept => Some(FriendRequestStatus::Accepted),
        Transition::Reject => Some(FriendRequestStatus::Rejected),
        Transition::Keep => existing,
    }
}

/// Decides what `trigger` does to a relationship whose status on record is
/// `existing`.
pub fn transition(existing: Option<FriendRequestStatus>, trigger: Trigger) -> (decision: Result<
    Transition,
    Refusal,
>)
    ensures
        decision == next_transition(existing, trigger),
{
    match trigger {
        Trigger::LocalInvite => match existing {
            None => Ok(Transition::Create),
            Some(FriendRequestStatus::Rejected) => Ok(Transition::Reinvite),
            Some(_) => Err(Refusal::AlreadyRelated),
        },
        Trigger::Inbound(FriendRequestStatus::InviteSent) => match existing {
            None => Ok(Transition::Create),
            Some(FriendRequestStatus::InviteSent) => Ok(Transition::Keep),
            Some(_) => Ok(Transition::Reinvite),
        },
        Trigger::Inbound(FriendRequestStatus::InviteReceived) => Err(Refusal::NeverRequested),
        Trigger::Inbound(FriendRequestStatus::Accepted) => match existing {
            None => Err(Refusal::NoInvitation),
            Some(FriendRequestStatus::InviteSent) => Ok(Transition::Accept),
            Some(FriendRequestStatus::Accepted) => Ok(Transition::Keep),
            Some(_) => Err(Refusal::NothingToAccept),
        },
        Trigger::Inbound(FriendRequestStatus::Rejected) => match existing {
            Some(FriendRequestStatus::InviteSent) => Ok(Transition::Reject),
            Some(FriendRequestStatus::Rejected) => Ok(Transition::Keep),
            _ => Err(Refusal::NothingToReject),
        },
    }
}

} // verus!
