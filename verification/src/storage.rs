//! The storage layer of the inventory surface: raw reads and writes of
//! the contract state.
//!
//! These functions say exactly which field they touch and how; none of
//! them promises to keep the contract's well-formedness on its own — the
//! operations in `inventory` compose them and re-establish it.

use vstd::prelude::*;

use crate::inventory::BloodUnit;
use crate::inventory::InventoryContract;
use crate::inventory::StatusChangeHistory;
use crate::sorting::lemma_filter_take_step;
use crate::sorting::lemma_take_all;
use crate::types::BloodStatus;

verus! {

/// The admin identity; callers must know the contract is initialized.
pub fn get_admin(s: &InventoryContract) -> (r: u64)
    requires
        s.admin is Some,
    ensures
        s.admin == Some(r),
{
    match s.admin {
        Some(a) => a,
        None => vstd::pervasive::unreached(),
    }
}

/// Record the admin identity.
pub fn set_admin(s: &mut InventoryContract, admin: u64)
    ensures
        *final(s) == (InventoryContract { admin: Some(admin), ..*old(s) }),
{
    s.admin = Some(admin);
}

/// Whether `bank` is the authorized blood bank (the admin).
pub fn is_authorized_bank(s: &InventoryContract, bank: u64) -> (r: bool)
    requires
        s.admin is Some,
    ensures
        r == (s.admin == Some(bank)),
{
    let admin = get_admin(s);
    bank == admin
}

/// The current unit id counter.
pub fn get_blood_unit_counter(s: &InventoryContract) -> (r: u64)
    ensures
        r == s.unit_counter,
{
    s.unit_counter
}

/// Advance the unit id counter and hand out the next id.
pub fn increment_blood_unit_id(s: &mut InventoryContract) -> (r: u64)
    requires
        old(s).unit_counter < u64::MAX,
    ensures
        r == old(s).unit_counter + 1,
        *final(s) == (InventoryContract { unit_counter: r, ..*old(s) }),
{
    let next = s.unit_counter + 1;
    s.unit_counter = next;
    next
}

/// Write a unit under its id: an update in place for an existing id, an
/// append for the next fresh one.
pub fn set_blood_unit(s: &mut InventoryContract, blood_unit: &BloodUnit)
    requires
        1 <= blood_unit.id && blood_unit.id <= old(s).units@.len() + 1,
    ensures
        blood_unit.id <= old(s).units@.len() ==> final(s).units@ == old(s).units@.update(
            blood_unit.id - 1,
            *blood_unit,
        ),
        blood_unit.id == old(s).units@.len() + 1 ==> final(s).units@ == old(s).units@.push(
            *blood_unit,
        ),
        final(s).admin == old(s).admin,
        final(s).unit_counter == old(s).unit_counter,
        final(s).blood_type_index == old(s).blood_type_index,
        final(s).bank_index == old(s).bank_index,
        final(s).status_index == old(s).status_index,
        final(s).donor_index == old(s).donor_index,
        final(s).history == old(s).history,
        final(s).history_counter == old(s).history_counter,
        final(s).events == old(s).events,
{
    proof {
        assert(old(s).units.len() == old(s).units@.len());
    }
    if blood_unit.id <= s.units.len() as u64 {
        s.units.set((blood_unit.id - 1) as usize, *blood_unit);
    } else {
        s.units.push(*blood_unit);
    }
}

/// Read a unit by id.
pub fn get_blood_unit(s: &InventoryContract, id: u64) -> (r: Option<BloodUnit>)
    ensures
        s.has_unit(id) ==> r == Some(s.unit(id)),
        !s.has_unit(id) ==> r is None,
{
    if 1 <= id && id <= s.units.len() as u64 {
        Some(s.units[(id - 1) as usize])
    } else {
        None
    }
}

/// Whether a unit with this id exists.
pub fn blood_unit_exists(s: &InventoryContract, id: u64) -> (r: bool)
    ensures
        r == s.has_unit(id),
{
    1 <= id && id <= s.units.len() as u64
}

/// Append a unit's id under its blood type.
pub fn add_to_blood_type_index(s: &mut InventoryContract, blood_unit: &BloodUnit)
    ensures
        final(s).blood_type_index@ == old(s).blood_type_index@.push(
            (blood_unit.blood_type, blood_unit.id),
        ),
        final(s).admin == old(s).admin,
        final(s).unit_counter == old(s).unit_counter,
        final(s).units == old(s).units,
        final(s).bank_index == old(s).bank_index,
        final(s).status_index == old(s).status_index,
        final(s).donor_index == old(s).donor_index,
        final(s).history == old(s).history,
        final(s).history_counter == old(s).history_counter,
        final(s).events == old(s).events,
{
    s.blood_type_index.push((blood_unit.blood_type, blood_unit.id));
}

/// Append a unit's id under its owning bank.
pub fn add_to_bank_index(s: &mut InventoryContract, blood_unit: &BloodUnit)
    ensures
        final(s).bank_index@ == old(s).bank_index@.push((blood_unit.bank_id, blood_unit.id)),
        final(s).admin == old(s).admin,
        final(s).unit_counter == old(s).unit_counter,
        final(s).units == old(s).units,
        final(s).blood_type_index == old(s).blood_type_index,
        final(s).status_index == old(s).status_index,
        final(s).donor_index == old(s).donor_index,
        final(s).history == old(s).history,
        final(s).history_counter == old(s).history_counter,
        final(s).events == old(s).events,
{
    s.bank_index.push((blood_unit.bank_id, blood_unit.id));
}

/// Append a unit's id under its current status.
pub fn add_to_status_index(s: &mut InventoryContract, blood_unit: &BloodUnit)
    ensures
        final(s).status_index@ == old(s).status_index@.push((blood_unit.status, blood_unit.id)),
        final(s).admin == old(s).admin,
        final(s).unit_counter == old(s).unit_counter,
        final(s).units == old(s).units,
        final(s).blood_type_index == old(s).blood_type_index,
        final(s).bank_index == old(s).bank_index,
        final(s).donor_index == old(s).donor_index,
        final(s).history == old(s).history,
        final(s).history_counter == old(s).history_counter,
        final(s).events == old(s).events,
{
    s.status_index.push((blood_unit.status, blood_unit.id));
}

/// Append a unit's id under its donor, for units that name one.
pub fn add_to_donor_index(s: &mut InventoryContract, blood_unit: &BloodUnit)
    ensures
        final(s).donor_index@ == (match blood_unit.donor_id {
            Some(d) => old(s).donor_index@.push((d, blood_unit.id)),
            None => old(s).donor_index@,
        }),
        final(s).admin == old(s).admin,
        final(s).unit_counter == old(s).unit_counter,
        final(s).units == old(s).units,
        final(s).blood_type_index == old(s).blood_type_index,
        final(s).bank_index == old(s).bank_index,
        final(s).status_index == old(s).status_index,
        final(s).history == old(s).history,
        final(s).history_counter == old(s).history_counter,
        final(s).events == old(s).events,
{
    match blood_unit.donor_id {
        Some(d) => {
            s.donor_index.push((d, blood_unit.id));
        },
        None => {},
    }
}

/// Append one audit record, with the next history id, and advance the
/// change counter.
pub fn record_status_change(
    s: &mut InventoryContract,
    blood_unit_id: u64,
    from_status: BloodStatus,
    to_status: BloodStatus,
    authorized_by: u64,
    reason: Option<String>,
    now: u64,
)
    requires
        old(s).history@.len() < u64::MAX,
        old(s).history_counter == old(s).history@.len(),
    ensures
        final(s).history@ == old(s).history@.push(
            (StatusChangeHistory {
                id: (old(s).history@.len() + 1) as u64,
                blood_unit_id,
                from_status,
                to_status,
                authorized_by,
                changed_at: now,
                reason,
            }),
        ),
        final(s).history_counter == old(s).history_counter + 1,
        final(s).admin == old(s).admin,
        final(s).unit_counter == old(s).unit_counter,
        final(s).units == old(s).units,
        final(s).blood_type_index == old(s).blood_type_index,
        final(s).bank_index == old(s).bank_index,
        final(s).status_index == old(s).status_index,
        final(s).donor_index == old(s).donor_index,
        final(s).events == old(s).events,
{
    let history_id = s.history_counter + 1;
    s.history_counter = history_id;
    let record = StatusChangeHistory {
        id: history_id,
        blood_unit_id,
        from_status,
        to_status,
        authorized_by,
        changed_at: now,
        reason,
    };
    s.history.push(record);
}

/// An owned copy of an optional reason text.
fn clone_reason(o: &Option<String>) -> (r: Option<String>)
    ensures
        r == *o,
{
    match o {
        Some(text) => Some(text.clone()),
        None => None,
    }
}

/// An owned copy of one audit record.
fn clone_history_record(h: &StatusChangeHistory) -> (r: StatusChangeHistory)
    ensures
        r == *h,
{
    StatusChangeHistory {
        id: h.id,
        blood_unit_id: h.blood_unit_id,
        from_status: h.from_status,
        to_status: h.to_status,
        authorized_by: h.authorized_by,
        changed_at: h.changed_at,
        reason: clone_reason(&h.reason),
    }
}

/// The audit trail of one unit, oldest first.
pub fn get_status_history(s: &InventoryContract, blood_unit_id: u64) -> (r: Vec<
    StatusChangeHistory,
>)
    ensures
        r@ == s.history@.filter(|h: StatusChangeHistory| h.blood_unit_id == blood_unit_id),
{
    let ghost p = |h: StatusChangeHistory| h.blood_unit_id == blood_unit_id;
    let ghost hs = s.history@;
    let mut out: Vec<StatusChangeHistory> = Vec::new();
    let mut i: usize = 0;
    proof {
        reveal(Seq::filter);
        assert(hs.take(0) =~= Seq::<StatusChangeHistory>::empty());
    }
    while i < s.history.len()
        invariant
            0 <= i <= hs.len(),
            hs == s.history@,
            p == (|h: StatusChangeHistory| h.blood_unit_id == blood_unit_id),
            out@ == hs.take(i as int).filter(p),
        decreases hs.len() - i,
    {
        let h = &s.history[i];
        proof {
            lemma_filter_take_step(hs, p, i as int);
        }
        if h.blood_unit_id == blood_unit_id {
            let copy = clone_history_record(h);
            out.push(copy);
        }
        i = i + 1;
    }
    proof {
        lemma_take_all(hs);
    }
    out
}

/// How many audit records name this unit.
pub fn get_blood_unit_status_change_count(s: &InventoryContract, blood_unit_id: u64) -> (r: u64)
    ensures
        r == s.history@.filter(|h: StatusChangeHistory| h.blood_unit_id == blood_unit_id).len(),
{
    let ghost p = |h: StatusChangeHistory| h.blood_unit_id == blood_unit_id;
    let ghost hs = s.history@;
    let mut count: u64 = 0;
    let mut i: usize = 0;
    proof {
        reveal(Seq::filter);
        assert(hs.take(0) =~= Seq::<StatusChangeHistory>::empty());
    }
    while i < s.history.len()
        invariant
            0 <= i <= hs.len(),
            hs == s.history@,
            p == (|h: StatusChangeHistory| h.blood_unit_id == blood_unit_id),
            count == hs.take(i as int).filter(p).len(),
            count <= i,
        decreases hs.len() - i,
    {
        proof {
            lemma_filter_take_step(hs, p, i as int);
            assert(hs.len() <= u64::MAX) by {
                assert(s.history.len() == hs.len());
            }
        }
        if s.history[i].blood_unit_id == blood_unit_id {
            count = count + 1;
        }
        i = i + 1;
    }
    proof {
        lemma_take_all(hs);
    }
    count
}

} // verus!
