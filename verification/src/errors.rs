//! Error taxonomy of the two contract surfaces.
//!
//! Every fallible operation returns one of these as an explicit result
//! value; the specific kind tells the caller exactly which check failed.

use vstd::prelude::*;

verus! {

/// Errors of the combined ledger surface (`HealthChainContract`).
#[derive(Clone, Copy, Debug, PartialEq, Eq, Structural)]
pub enum Error {
    Unauthorized,
    InvalidQuantity,
    InvalidExpiration,
    DuplicateRegistration,
    StorageError,
    InvalidStatus,
    UnitNotFound,
    UnitExpired,
    UnauthorizedHospital,
    InvalidTransition,
    AlreadyAllocated,
    BatchSizeExceeded,
    DuplicateRequest,
    InvalidDeliveryAddress,
    InvalidRequiredBy,
    AlreadyInitialized,
}

/// Errors of the split inventory and request surfaces
/// (`InventoryContract`, `RequestContract`).
#[derive(Clone, Copy, Debug, PartialEq, Eq, Structural)]
pub enum ContractError {
    AlreadyInitialized,
    NotInitialized,
    Unauthorized,
    InvalidInput,
    InvalidStatus,
    InvalidTimestamp,
    InvalidQuantity,
    InvalidRequiredBy,
    InvalidDeliveryAddress,
    InvalidExpiration,
    NotFound,
    RequestNotFound,
    RequestExpired,
    BloodUnitExpired,
    DuplicateRequest,
    NotAuthorizedHospital,
    NotAuthorizedBloodBank,
    InvalidStatusTransition,
    CannotCancelRequest,
}

} // verus!
