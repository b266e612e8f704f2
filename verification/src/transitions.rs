//! Status transition authority: the finite-state-machine rules shared by
//! the inventory and request subsystems.
//!
//! The unit table:
//!   Available -> {Reserved, Expired, Discarded}
//!   Reserved  -> {Available, InTransit, Expired, Discarded}
//!   InTransit -> {Delivered, Expired, Discarded}
//!   Delivered, Expired, Discarded -> none (terminal)
//!
//! The request table:
//!   Pending    -> {Approved, Rejected, Cancelled}
//!   Approved   -> {InProgress, Fulfilled, Cancelled}
//!   InProgress -> {Fulfilled, Cancelled}
//!   Fulfilled, Cancelled, Rejected -> none (terminal)

use vstd::prelude::*;

use crate::types::BloodStatus;
use crate::types::RequestStatus;

verus! {

/// Whether a blood unit may move from `from` to `to`.
pub open spec fn unit_transition_allowed(from: BloodStatus, to: BloodStatus) -> bool {
    match (from, to) {
        (BloodStatus::Available, BloodStatus::Reserved) => true,
        (BloodStatus::Available, BloodStatus::Expired) => true,
        (BloodStatus::Available, BloodStatus::Discarded) => true,
        (BloodStatus::Reserved, BloodStatus::Available) => true,
        (BloodStatus::Reserved, BloodStatus::InTransit) => true,
        (BloodStatus::Reserved, BloodStatus::Expired) => true,
        (BloodStatus::Reserved, BloodStatus::Discarded) => true,
        (BloodStatus::InTransit, BloodStatus::Delivered) => true,
        (BloodStatus::InTransit, BloodStatus::Expired) => true,
        (BloodStatus::InTransit, BloodStatus::Discarded) => true,
        _ => false,
    }
}

/// Whether a unit status admits no further transition.
pub open spec fn unit_status_terminal(s: BloodStatus) -> bool {
    match s {
        BloodStatus::Delivered => true,
        BloodStatus::Expired => true,
        BloodStatus::Discarded => true,
        _ => false,
    }
}

/// Whether a blood request may move from `from` to `to`.
pub open spec fn request_transition_allowed(from: RequestStatus, to: RequestStatus) -> bool {
    match (from, to) {
        (RequestStatus::Pending, RequestStatus::Approved) => true,
        (RequestStatus::Pending, RequestStatus::Rejected) => true,
        (RequestStatus::Pending, RequestStatus::Cancelled) => true,
        (RequestStatus::Approved, RequestStatus::InProgress) => true,
        (RequestStatus::Approved, RequestStatus::Fulfilled) => true,
        (RequestStatus::Approved, RequestStatus::Cancelled) => true,
        (RequestStatus::InProgress, RequestStatus::Fulfilled) => true,
        (RequestStatus::InProgress, RequestStatus::Cancelled) => true,
        _ => false,
    }
}

/// Whether a request status admits no further transition.
pub open spec fn request_status_terminal(s: RequestStatus) -> bool {
    match s {
        RequestStatus::Fulfilled => true,
        RequestStatus::Cancelled => true,
        RequestStatus::Rejected => true,
        _ => false,
    }
}

/// Runtime check of the unit transition table.
pub fn is_valid_unit_transition(from: BloodStatus, to: BloodStatus) -> (r: bool)
    ensures
        r == unit_transition_allowed(from, to),
{
    match (from, to) {
        (BloodStatus::Available, BloodStatus::Reserved) => true,
        (BloodStatus::Available, BloodStatus::Expired) => true,
        (BloodStatus::Available, BloodStatus::Discarded) => true,
        (BloodStatus::Reserved, BloodStatus::Available) => true,
        (BloodStatus::Reserved, BloodStatus::InTransit) => true,
        (BloodStatus::Reserved, BloodStatus::Expired) => true,
        (BloodStatus::Reserved, BloodStatus::Discarded) => true,
        (BloodStatus::InTransit, BloodStatus::Delivered) => true,
        (BloodStatus::InTransit, BloodStatus::Expired) => true,
        (BloodStatus::InTransit, BloodStatus::Discarded) => true,
        _ => false,
    }
}

/// Runtime check for terminal unit statuses.
pub fn is_unit_status_terminal(s: BloodStatus) -> (r: bool)
    ensures
        r == unit_status_terminal(s),
{
    match s {
        BloodStatus::Delivered => true,
        BloodStatus::Expired => true,
        BloodStatus::Discarded => true,
        _ => false,
    }
}

/// Runtime check of the request transition table.
pub fn is_valid_request_transition(from: RequestStatus, to: RequestStatus) -> (r: bool)
    ensures
        r == request_transition_allowed(from, to),
{
    match (from, to) {
        (RequestStatus::Pending, RequestStatus::Approved) => true,
        (RequestStatus::Pending, RequestStatus::Rejected) => true,
        (RequestStatus::Pending, RequestStatus::Cancelled) => true,
        (RequestStatus::Approved, RequestStatus::InProgress) => true,
        (RequestStatus::Approved, RequestStatus::Fulfilled) => true,
        (RequestStatus::Approved, RequestStatus::Cancelled) => true,
        (RequestStatus::InProgress, RequestStatus::Fulfilled) => true,
        (RequestStatus::InProgress, RequestStatus::Cancelled) => true,
        _ => false,
    }
}

/// Runtime check for terminal request statuses.
pub fn is_request_status_terminal(s: RequestStatus) -> (r: bool)
    ensures
        r == request_status_terminal(s),
{
    match s {
        RequestStatus::Fulfilled => true,
        RequestStatus::Cancelled => true,
        RequestStatus::Rejected => true,
        _ => false,
    }
}

/// Law: a terminal unit status has no outgoing edge, so once a unit is
/// Delivered, Expired or Discarded, no transition out of it is ever legal.
pub proof fn lemma_terminal_unit_status_is_final(from: BloodStatus, to: BloodStatus)
    requires
        unit_status_terminal(from),
    ensures
        !unit_transition_allowed(from, to),
{
}

/// Law: a terminal request status has no outgoing edge, so once a request
/// is Fulfilled, Cancelled or Rejected, no transition out of it is ever
/// legal.
pub proof fn lemma_terminal_request_status_is_final(from: RequestStatus, to: RequestStatus)
    requires
        request_status_terminal(from),
    ensures
        !request_transition_allowed(from, to),
{
}

} // verus!
