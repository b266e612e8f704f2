//! Data model of the ledger.
//!
//! Identities (banks, hospitals, donors, storage locations) are opaque
//! numeric handles: the host's address and signature machinery stays outside
//! this crate, which only ever compares identities for equality.

use vstd::prelude::*;

verus! {

/// ABO blood group crossed with Rh factor.
#[derive(Clone, Copy, Debug, PartialEq, Eq, Structural)]
pub enum BloodType {
    APositive,
    ANegative,
    BPositive,
    BNegative,
    ABPositive,
    ABNegative,
    OPositive,
    ONegative,
}

/// Lifecycle state of a blood unit.  `Delivered`, `Expired` and `Discarded`
/// are terminal: no transition leaves them.
#[derive(Clone, Copy, Debug, PartialEq, Eq, Structural)]
pub enum BloodStatus {
    Available,
    Reserved,
    InTransit,
    Delivered,
    Expired,
    Discarded,
}

/// Why a unit was withdrawn from inventory.
#[derive(Clone, Copy, Debug, PartialEq, Eq, Structural)]
pub enum WithdrawalReason {
    Used,
    Contaminated,
    Damaged,
    Other,
}

/// Urgency classification of a blood request on the combined surface.
#[derive(Clone, Copy, Debug, PartialEq, Eq, Structural)]
pub enum UrgencyLevel {
    Low,
    Medium,
    Routine,
    High,
    Urgent,
    Critical,
}

/// Lifecycle state of a blood request.  `Fulfilled`, `Cancelled` and
/// `Rejected` are terminal.
#[derive(Clone, Copy, Debug, PartialEq, Eq, Structural)]
pub enum RequestStatus {
    Pending,
    Approved,
    InProgress,
    Fulfilled,
    Cancelled,
    Rejected,
}

/// One inventory record: a donated quantity of a blood type with an
/// expiration timestamp.  Units are created by registration, mutated only
/// through status transitions, and never deleted.
#[derive(Clone, Copy, Debug, PartialEq, Eq)]
pub struct BloodUnit {
    pub id: u64,
    pub blood_type: BloodType,
    pub quantity: u32,
    pub expiration_date: u64,
    pub donor_id: Option<u64>,
    pub location: u64,
    pub bank_id: u64,
    pub registration_timestamp: u64,
    pub status: BloodStatus,
    pub recipient_hospital: Option<u64>,
    pub allocation_timestamp: Option<u64>,
    pub transfer_timestamp: Option<u64>,
    pub delivery_timestamp: Option<u64>,
}

/// Allocation summary of one unit, from allocation to delivery.
#[derive(Clone, Copy, Debug)]
pub struct TransferRecord {
    pub blood_unit_id: u64,
    pub from_bank: u64,
    pub to_hospital: u64,
    pub allocation_timestamp: u64,
    pub transfer_timestamp: Option<u64>,
    pub delivery_timestamp: Option<u64>,
    pub status: BloodStatus,
}

/// One audit record: a unit's status moved from `old_status` to
/// `new_status`, authorized by `actor` at `timestamp`.
#[derive(Clone, Copy, Debug)]
pub struct StatusChangeEvent {
    pub blood_unit_id: u64,
    pub old_status: BloodStatus,
    pub new_status: BloodStatus,
    pub actor: u64,
    pub timestamp: u64,
}

/// A hospital's ask for blood of a given type, quantity and urgency by a
/// deadline.
#[derive(Clone, Debug)]
pub struct BloodRequest {
    pub id: u64,
    pub hospital_id: u64,
    pub blood_type: BloodType,
    pub quantity_ml: u32,
    pub urgency: UrgencyLevel,
    pub required_by: u64,
    pub delivery_address: String,
    pub created_at: u64,
    pub status: RequestStatus,
    pub fulfillment_timestamp: Option<u64>,
    pub reserved_unit_ids: Vec<u64>,
}

/// The tuple that identifies a request for duplicate detection: two
/// requests with equal keys are duplicates of each other.
#[derive(Clone, Debug)]
pub struct RequestKey {
    pub hospital_id: u64,
    pub blood_type: BloodType,
    pub quantity_ml: u32,
    pub urgency: UrgencyLevel,
    pub required_by: u64,
    pub delivery_address: String,
}

/// Event payload: a unit entered the inventory.
#[derive(Clone, Copy, Debug)]
pub struct BloodRegisteredEvent {
    pub unit_id: u64,
    pub bank_id: u64,
    pub blood_type: BloodType,
    pub quantity_ml: u32,
    pub expiration_timestamp: u64,
    pub donor_id: Option<u64>,
    pub registration_timestamp: u64,
}

/// Event payload: a request was created.
#[derive(Clone, Debug)]
pub struct RequestCreatedEvent {
    pub request_id: u64,
    pub hospital_id: u64,
    pub blood_type: BloodType,
    pub quantity_ml: u32,
    pub urgency: UrgencyLevel,
    pub required_by: u64,
    pub delivery_address: String,
    pub created_at: u64,
}

/// Event payload: summary of a request, as carried by request events.
#[derive(Clone, Copy, Debug)]
pub struct BloodRequestEvent {
    pub request_id: u64,
    pub hospital_id: u64,
    pub blood_type: BloodType,
    pub quantity_ml: u32,
    pub urgency: UrgencyLevel,
}

/// Event payload: a request's status changed.
#[derive(Clone, Debug)]
pub struct RequestStatusChangeEvent {
    pub request_id: u64,
    pub old_status: RequestStatus,
    pub new_status: RequestStatus,
    pub actor: u64,
    pub timestamp: u64,
    pub reason: Option<String>,
}

/// One entry of the combined surface's event log.  Every successful
/// mutation appends the events it would publish to the host's event
/// transport, so the log is a plain-value record of what was emitted.
#[derive(Clone, Debug)]
pub enum EmittedEvent {
    BloodRegistered(BloodRegisteredEvent),
    StatusChange(StatusChangeEvent),
    Allocated { unit_id: u64, hospital: u64, timestamp: u64 },
    AllocationCancelled { unit_id: u64 },
    TransferInitiated { unit_id: u64, timestamp: u64 },
    DeliveryConfirmed { unit_id: u64, timestamp: u64 },
    Withdrawn { unit_id: u64, reason: WithdrawalReason, timestamp: u64 },
    RequestCreated(RequestCreatedEvent),
    RequestStatusChange(RequestStatusChangeEvent),
}

} // verus!
