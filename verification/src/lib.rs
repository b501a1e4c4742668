//! A peer-to-peer mail node: the friend-relationship state machine, the
//! store-and-forward mail queue, and the two pollers that reconcile a node
//! with its peers.
//!
//! Everything here is a function from plain values to plain values. The
//! network, the clock and durable storage live with the caller.
//!
//! - `relationship`: which change of status a trigger may make.
//! - `db`: the store, and the operations that read and change it.
//! - `api`: the two endpoints that other nodes call.
//! - `comms`: the two pollers that call other nodes.
//! - `model`: the store as a mathematical value. Every contract says what an
//!   operation does to that value.
//! - `laws`: what holds of the model whatever the store holds.

use vstd::prelude::*;

pub mod api;
pub mod comms;
pub mod db;
pub mod laws;
pub mod model;
pub mod relationship;

use crate::api::FriendRequestStatus;

verus! {

/// The status that the stored code `code` stands for. Codes outside `0..=3`
/// read as `Rejected`.
pub open spec fn status_of_code(code: int) -> FriendRequestStatus {
    if code == 0 {
        FriendRequestStatus::InviteSent
    } else if code == 1 {
        FriendRequestStatus::InviteReceived
    } else if code == 2 {
        FriendRequestStatus::Accepted
    } else {
        FriendRequestStatus::Rejected
    }
}

/// The code under which `status` is stored.
pub open spec fn code_of_status(status: FriendRequestStatus) -> int {
    match status {
        FriendRequestStatus::InviteSent => 0,
        FriendRequestStatus::InviteReceived => 1,
        FriendRequestStatus::Accepted => 2,
        FriendRequestStatus::Rejected => 3,
    }
}

/// The short token that names the stored code `code`.
pub open spec fn label_of_code(code: int) -> Seq<char> {
    if code == 0 {
        "invite_sent"@
    } else if code == 1 {
        "invite_received"@
    } else if code == 2 {
        "accepted"@
    } else if code == 3 {
        "rejected"@
    } else {
        "unknown"@
    }
}

/// The code under which `status` is stored. `status_enum` reads it back.
pub fn status_code(status: FriendRequestStatus) -> (code: i64)
    ensures
        code == code_of_status(status),
        status_of_code(code as int) == status,
{
    match status {
        FriendRequestStatus::InviteSent => 0,
        FriendRequestStatus::InviteReceived => 1,
        FriendRequestStatus::Accepted => 2,
        FriendRequestStatus::Rejected => 3,
    }
}

/// Reading a stored status code.
pub trait StatusLabel {
    fn status_str(&self) -> &'static str;

    fn status_enum(&self) -> FriendRequestStatus;
}

impl StatusLabel for i64 {
    fn status_enum(&self) -> (status: FriendRequestStatus)
        ensures
            status == status_of_code(*self as int),
    {
        match *self {
            0 => FriendRequestStatus::InviteSent,
            1 => FriendRequestStatus::InviteReceived,
            2 => FriendRequestStatus::Accepted,
            3 => FriendRequestStatus::Rejected,
            _ => FriendRequestStatus::Rejected,
        }
    }

    fn status_str(&self) -> (label: &'static str)
        ensures
            label@ == label_of_code(*self as int),
    {
        match *self {
            0 => "invite_sent",
            1 => "invite_received",
            2 => "accepted",
            3 => "rejected",
            _ => "unknown",
        }
    }
}

} // verus!
