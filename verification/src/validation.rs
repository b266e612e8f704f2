//! Validation engine: pure, side-effect-free checks of quantities,
//! timestamps and text, shared by both contract surfaces.
//!
//! Each surface fixes its own numeric policy (minimum and maximum
//! quantities, shelf-life windows, lead times) and passes it in as
//! arguments, so the rules here state the checks once, exactly.

use vstd::prelude::*;

verus! {

/// A quantity is acceptable when it lies in `[min, max]`, both ends
/// inclusive.
pub open spec fn quantity_in_range(q: u32, min: u32, max: u32) -> bool {
    min <= q && q <= max
}

/// An expiration timestamp is acceptable when it is strictly in the
/// future and the remaining shelf life lies in `[min_shelf_life,
/// max_shelf_life]`, both ends inclusive.
pub open spec fn expiration_in_range(
    expiration: u64,
    now: u64,
    min_shelf_life: u64,
    max_shelf_life: u64,
) -> bool {
    expiration > now && expiration - now >= min_shelf_life && expiration - now <= max_shelf_life
}

/// A deadline is acceptable when it is strictly in the future, leaves at
/// least `min_lead` seconds of lead time, and lies at most `max_window`
/// seconds ahead.
pub open spec fn required_by_in_range(
    required_by: u64,
    now: u64,
    min_lead: u64,
    max_window: u64,
) -> bool {
    required_by > now && required_by - now >= min_lead && required_by - now <= max_window
}

/// Checks `quantity_in_range`.
pub fn validate_quantity(q: u32, min: u32, max: u32) -> (r: bool)
    ensures
        r == quantity_in_range(q, min, max),
{
    min <= q && q <= max
}

/// Checks `expiration_in_range`.
pub fn validate_expiration(expiration: u64, now: u64, min_shelf_life: u64, max_shelf_life: u64) -> (
    r: bool)
    ensures
        r == expiration_in_range(expiration, now, min_shelf_life, max_shelf_life),
{
    expiration > now && expiration - now >= min_shelf_life && expiration - now <= max_shelf_life
}

/// Checks `required_by_in_range`.
pub fn validate_required_by(required_by: u64, now: u64, min_lead: u64, max_window: u64) -> (r:
    bool)
    ensures
        r == required_by_in_range(required_by, now, min_lead, max_window),
{
    required_by > now && required_by - now >= min_lead && required_by - now <= max_window
}

/// Checks that a piece of text (a delivery address) is non-empty.
pub fn validate_non_empty_text(s: &String) -> (r: bool)
    ensures
        r == (s@.len() > 0),
{
    !s.as_str().is_empty()
}

/// Every well-typed blood type value is acceptable; the check exists for
/// symmetry with the other validators.
pub fn validate_blood_type(_blood_type: &crate::types::BloodType) -> (r: bool)
    ensures
        r,
{
    true
}

} // verus!
