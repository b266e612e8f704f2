//! The split inventory surface: blood-unit registration and status
//! tracking with a per-unit audit history and secondary indexes.
//!
//! On this surface the admin identity doubles as the only authorized
//! blood bank, and every status change must be authorized by the admin.
//! The secondary indexes are flat association lists of `(key, unit id)`
//! pairs; the status index is kept synchronized with the primary store on
//! every status change (the pair under the old status is removed, the
//! pair under the new one appended).

use vstd::prelude::*;

use crate::errors::ContractError;
use crate::transitions::unit_transition_allowed;
use crate::transitions::is_valid_unit_transition;
use crate::types::BloodStatus;
use crate::types::BloodType;
use crate::validation::quantity_in_range;
use crate::validation::expiration_in_range;
use crate::validation::validate_quantity;
use crate::validation::validate_expiration;

verus! {

/// Smallest unit quantity this surface accepts, in milliliters.
pub const INV_MIN_QUANTITY_ML: u32 = 100;

/// Largest unit quantity this surface accepts, in milliliters.
pub const INV_MAX_QUANTITY_ML: u32 = 600;

/// Smallest remaining shelf life at registration, in seconds.
pub const INV_MIN_SHELF_LIFE_SECONDS: u64 = 86400;

/// Largest remaining shelf life at registration, in seconds (42 days).
pub const INV_MAX_SHELF_LIFE_SECONDS: u64 = 42 * 86400;

/// One inventory record of this surface.
#[derive(Clone, Copy, Debug, PartialEq, Eq)]
pub struct BloodUnit {
    pub id: u64,
    pub blood_type: BloodType,
    pub quantity_ml: u32,
    pub bank_id: u64,
    pub donor_id: Option<u64>,
    pub donation_timestamp: u64,
    pub expiration_timestamp: u64,
    pub status: BloodStatus,
}

/// One audit record: unit `blood_unit_id` moved from `from_status` to
/// `to_status`, authorized by `authorized_by` at `changed_at`, with an
/// optional free-text reason.
#[derive(Clone, Debug)]
pub struct StatusChangeHistory {
    pub id: u64,
    pub blood_unit_id: u64,
    pub from_status: BloodStatus,
    pub to_status: BloodStatus,
    pub authorized_by: u64,
    pub changed_at: u64,
    pub reason: Option<String>,
}

/// One entry of this surface's event log.  Every successful mutation
/// appends the event it would publish to the host's event transport.
#[derive(Clone, Debug)]
pub enum InventoryEvent {
    BloodRegistered {
        unit_id: u64,
        bank_id: u64,
        blood_type: BloodType,
        quantity_ml: u32,
        expiration_timestamp: u64,
    },
    StatusChanged {
        unit_id: u64,
        old_status: BloodStatus,
        new_status: BloodStatus,
        authorized_by: u64,
        reason: Option<String>,
    },
}

/// The character-level view of an optional text, for contracts that pin
/// what a reason says rather than which allocation holds it.
pub open spec fn option_text_view(o: Option<String>) -> Option<Seq<char>> {
    match o {
        Some(s) => Some(s@),
        None => None,
    }
}

/// The association list with the first occurrence of `pair` removed; the
/// list unchanged if the pair is absent.
pub open spec fn remove_first_pair(
    s: Seq<(BloodStatus, u64)>,
    pair: (BloodStatus, u64),
) -> Seq<(BloodStatus, u64)>
    decreases s.len(),
{
    if s.len() == 0 {
        s
    } else if s[0] == pair {
        s.skip(1)
    } else {
        seq![s[0]] + remove_first_pair(s.skip(1), pair)
    }
}

/// Removing the first occurrence found at position `w` is removal at `w`.
proof fn lemma_remove_first_pair_at(s: Seq<(BloodStatus, u64)>, pair: (BloodStatus, u64), w: int)
    requires
        0 <= w < s.len(),
        s[w] == pair,
        forall|t: int| 0 <= t < w ==> s[t] != pair,
    ensures
        remove_first_pair(s, pair) == s.remove(w),
    decreases w,
{
    if w == 0 {
        assert(s.skip(1) =~= s.remove(0));
    } else {
        assert(s[0] != pair);
        lemma_remove_first_pair_at(s.skip(1), pair, w - 1);
        assert(seq![s[0]] + s.skip(1).remove(w - 1) =~= s.remove(w));
    }
}

/// Removing an absent pair changes nothing.
proof fn lemma_remove_first_pair_absent(s: Seq<(BloodStatus, u64)>, pair: (BloodStatus, u64))
    requires
        forall|t: int| 0 <= t < s.len() ==> s[t] != pair,
    ensures
        remove_first_pair(s, pair) == s,
    decreases s.len(),
{
    if s.len() > 0 {
        lemma_remove_first_pair_absent(s.skip(1), pair);
        assert(seq![s[0]] + s.skip(1) =~= s);
    }
}

/// An owned copy of an optional reason text.
fn copy_reason(o: &Option<String>) -> (r: Option<String>)
    ensures
        r == *o,
{
    match o {
        Some(text) => Some(text.clone()),
        None => None,
    }
}

/// Position of the first `(status, id)` pair in an index list.
fn find_status_pair(v: &Vec<(BloodStatus, u64)>, status: BloodStatus, id: u64) -> (r: Option<
    usize,
>)
    ensures
        match r {
            Some(w) => w < v@.len() && v@[w as int] == (status, id) && forall|t: int|
                0 <= t < w ==> v@[t] != (status, id),
            None => forall|t: int| 0 <= t < v@.len() ==> v@[t] != (status, id),
        },
{
    let mut w: usize = 0;
    while w < v.len()
        invariant
            0 <= w <= v@.len(),
            forall|t: int| 0 <= t < w ==> v@[t] != (status, id),
        decreases v@.len() - w,
    {
        let entry = v[w];
        if entry.0 == status && entry.1 == id {
            proof {
                assert(v@[w as int] == (status, id));
            }
            return Some(w);
        }
        w = w + 1;
    }
    None
}

/// The split inventory contract.
pub struct InventoryContract {
    /// Admin identity, once `initialize` has run; also the only
    /// authorized blood bank on this surface.
    pub admin: Option<u64>,
    /// Id counter; equals the number of registered units.
    pub unit_counter: u64,
    /// Primary unit store; the unit with id `i + 1` sits at index `i`.
    pub units: Vec<BloodUnit>,
    /// Index: blood type of each unit, in registration order.
    pub blood_type_index: Vec<(BloodType, u64)>,
    /// Index: owning bank of each unit, in registration order.
    pub bank_index: Vec<(u64, u64)>,
    /// Index: current status of each unit; synchronized on every change.
    pub status_index: Vec<(BloodStatus, u64)>,
    /// Index: donor of each unit that has one, in registration order.
    pub donor_index: Vec<(u64, u64)>,
    /// Append-only audit history, in chronological order.
    pub history: Vec<StatusChangeHistory>,
    /// History id counter; equals the number of history records.
    pub history_counter: u64,
    /// Append-only log of the events each mutation emits.
    pub events: Vec<InventoryEvent>,
}

impl InventoryContract {
    /// Well-formedness: counters match the stores, ids are dense and
    /// positional, and every audited transition is a table edge.
    pub open spec fn wf(self) -> bool {
        &&& self.unit_counter == self.units@.len()
        &&& forall|i: int|
            0 <= i < self.units@.len() ==> (#[trigger] self.units@[i]).id == i + 1
        &&& self.history_counter == self.history@.len()
        &&& forall|i: int|
            0 <= i < self.history@.len() ==> (#[trigger] self.history@[i]).id == i + 1
        &&& forall|i: int|
            0 <= i < self.history@.len() ==> unit_transition_allowed(
                (#[trigger] self.history@[i]).from_status,
                self.history@[i].to_status,
            )
    }

    /// Whether a unit with this id exists.
    pub open spec fn has_unit(self, unit_id: u64) -> bool {
        1 <= unit_id && unit_id <= self.units@.len()
    }

    /// The unit with this id.
    pub open spec fn unit(self, unit_id: u64) -> BloodUnit
        recommends
            self.has_unit(unit_id),
    {
        self.units@[unit_id - 1]
    }

    /// A unit is expired once the clock has reached its expiration.
    pub open spec fn unit_expired(u: BloodUnit, now: u64) -> bool {
        u.expiration_timestamp <= now
    }

    /// Expiry blocks a transition unless the target itself retires the
    /// unit.
    pub open spec fn expiry_blocks(u: BloodUnit, new_status: BloodStatus, now: u64) -> bool {
        Self::unit_expired(u, now) && !(new_status == BloodStatus::Expired || new_status
            == BloodStatus::Discarded)
    }

    /// A fresh, empty inventory.
    pub fn new() -> (s: Self)
        ensures
            s.wf(),
            s.admin is None,
            s.units@.len() == 0,
            s.blood_type_index@.len() == 0,
            s.bank_index@.len() == 0,
            s.status_index@.len() == 0,
            s.donor_index@.len() == 0,
            s.history@.len() == 0,
            s.events@.len() == 0,
    {
        InventoryContract {
            admin: None,
            unit_counter: 0,
            units: Vec::new(),
            blood_type_index: Vec::new(),
            bank_index: Vec::new(),
            status_index: Vec::new(),
            donor_index: Vec::new(),
            history: Vec::new(),
            history_counter: 0,
            events: Vec::new(),
        }
    }

    /// Record the admin identity, exactly once.
    pub fn initialize(&mut self, admin: u64) -> (r: Result<(), ContractError>)
        ensures
            final(self).wf() == old(self).wf(),
            old(self).admin is Some ==> r == Err::<(), ContractError>(
                ContractError::AlreadyInitialized,
            ) && *final(self) == *old(self),
            old(self).admin is None ==> r == Ok::<(), ContractError>(()) && *final(self) == (
            InventoryContract { admin: Some(admin), ..*old(self) }),
    {
        if self.admin.is_some() {
            return Err(ContractError::AlreadyInitialized);
        }
        self.admin = Some(admin);
        Ok(())
    }

    /// The unit value created by a successful registration.
    pub open spec fn fresh_unit(
        id: u64,
        bank_id: u64,
        blood_type: BloodType,
        quantity_ml: u32,
        expiration_timestamp: u64,
        donor_id: Option<u64>,
        now: u64,
    ) -> BloodUnit {
        BloodUnit {
            id,
            blood_type,
            quantity_ml,
            bank_id,
            donor_id,
            donation_timestamp: now,
            expiration_timestamp,
            status: BloodStatus::Available,
        }
    }

    /// Register a donated unit.
    ///
    /// The contract must be initialized and the caller must be the
    /// authorized bank (the admin); the quantity must lie in
    /// `[INV_MIN_QUANTITY_ML, INV_MAX_QUANTITY_ML]` and the remaining
    /// shelf life in `[INV_MIN_SHELF_LIFE_SECONDS,
    /// INV_MAX_SHELF_LIFE_SECONDS]`.  The first failing check decides the
    /// error and nothing is written.  On success the unit takes the next
    /// dense id, enters as `Available`, and every index learns it.
    pub fn register_blood(
        &mut self,
        bank_id: u64,
        blood_type: BloodType,
        quantity_ml: u32,
        expiration_timestamp: u64,
        donor_id: Option<u64>,
        now: u64,
    ) -> (r: Result<u64, ContractError>)
        requires
            old(self).wf(),
            old(self).units@.len() < u64::MAX,
        ensures
            final(self).wf(),
            ({
                let pre = *old(self);
                if pre.admin is None {
                    r == Err::<u64, ContractError>(ContractError::NotInitialized) && *final(self)
                        == pre
                } else if pre.admin != Some(bank_id) {
                    r == Err::<u64, ContractError>(ContractError::NotAuthorizedBloodBank)
                        && *final(self) == pre
                } else if !quantity_in_range(quantity_ml, INV_MIN_QUANTITY_ML, INV_MAX_QUANTITY_ML) {
                    r == Err::<u64, ContractError>(ContractError::InvalidQuantity) && *final(self)
                        == pre
                } else if !expiration_in_range(
                    expiration_timestamp,
                    now,
                    INV_MIN_SHELF_LIFE_SECONDS,
                    INV_MAX_SHELF_LIFE_SECONDS,
                ) {
                    r == Err::<u64, ContractError>(ContractError::InvalidExpiration) && *final(self)
                        == pre
                } else {
                    let id = (pre.units@.len() + 1) as u64;
                    let unit = Self::fresh_unit(
                        id,
                        bank_id,
                        blood_type,
                        quantity_ml,
                        expiration_timestamp,
                        donor_id,
                        now,
                    );
                    &&& r == Ok::<u64, ContractError>(id)
                    &&& final(self).units@ == pre.units@.push(unit)
                    &&& final(self).unit_counter == pre.unit_counter + 1
                    &&& final(self).blood_type_index@ == pre.blood_type_index@.push(
                        (blood_type, id),
                    )
                    &&& final(self).bank_index@ == pre.bank_index@.push((bank_id, id))
                    &&& final(self).status_index@ == pre.status_index@.push(
                        (BloodStatus::Available, id),
                    )
                    &&& final(self).donor_index@ == (match donor_id {
                        Some(d) => pre.donor_index@.push((d, id)),
                        None => pre.donor_index@,
                    })
                    &&& final(self).events@ == pre.events@.push(
                        (InventoryEvent::BloodRegistered {
                            unit_id: id,
                            bank_id,
                            blood_type,
                            quantity_ml,
                            expiration_timestamp,
                        }),
                    )
                    &&& final(self).admin == pre.admin
                    &&& final(self).history == pre.history
                    &&& final(self).history_counter == pre.history_counter
                }
            }),
    {
        match self.admin {
            None => {
                return Err(ContractError::NotInitialized);
            },
            Some(admin) => {
                if admin != bank_id {
                    return Err(ContractError::NotAuthorizedBloodBank);
                }
            },
        }
        if !validate_quantity(quantity_ml, INV_MIN_QUANTITY_ML, INV_MAX_QUANTITY_ML) {
            return Err(ContractError::InvalidQuantity);
        }
        if !validate_expiration(
            expiration_timestamp,
            now,
            INV_MIN_SHELF_LIFE_SECONDS,
            INV_MAX_SHELF_LIFE_SECONDS,
        ) {
            return Err(ContractError::InvalidExpiration);
        }
        let unit_id = crate::storage::increment_blood_unit_id(self);
        let unit = BloodUnit {
            id: unit_id,
            blood_type,
            quantity_ml,
            bank_id,
            donor_id,
            donation_timestamp: now,
            expiration_timestamp,
            status: BloodStatus::Available,
        };
        crate::storage::set_blood_unit(self, &unit);
        crate::storage::add_to_blood_type_index(self, &unit);
        crate::storage::add_to_bank_index(self, &unit);
        crate::storage::add_to_status_index(self, &unit);
        crate::storage::add_to_donor_index(self, &unit);
        self.events.push(
            InventoryEvent::BloodRegistered {
                unit_id,
                bank_id,
                blood_type,
                quantity_ml,
                expiration_timestamp,
            },
        );
        Ok(unit_id)
    }

    /// Look a unit up by id.
    pub fn get_blood_unit(&self, blood_unit_id: u64) -> (r: Result<BloodUnit, ContractError>)
        ensures
            self.has_unit(blood_unit_id) ==> r == Ok::<BloodUnit, ContractError>(
                self.unit(blood_unit_id),
            ),
            !self.has_unit(blood_unit_id) ==> r == Err::<BloodUnit, ContractError>(
                ContractError::NotFound,
            ),
    {
        match crate::storage::get_blood_unit(self, blood_unit_id) {
            Some(u) => Ok(u),
            None => Err(ContractError::NotFound),
        }
    }

    /// The post-state relation of one status update, shared by
    /// `update_status`, `mark_delivered` and `mark_expired`.  The audit
    /// reason is pinned by its text, since which allocation carries the
    /// text is unobservable.
    pub open spec fn update_status_post(
        pre: Self,
        post: Self,
        r: Result<BloodUnit, ContractError>,
        unit_id: u64,
        new_status: BloodStatus,
        authorized_by: u64,
        reason: Option<Seq<char>>,
        now: u64,
    ) -> bool {
        if pre.admin is None {
            r == Err::<BloodUnit, ContractError>(ContractError::NotInitialized) && post == pre
        } else if pre.admin != Some(authorized_by) {
            r == Err::<BloodUnit, ContractError>(ContractError::Unauthorized) && post == pre
        } else if !pre.has_unit(unit_id) {
            r == Err::<BloodUnit, ContractError>(ContractError::NotFound) && post == pre
        } else if Self::expiry_blocks(pre.unit(unit_id), new_status, now) {
            r == Err::<BloodUnit, ContractError>(ContractError::BloodUnitExpired) && post == pre
        } else if !unit_transition_allowed(pre.unit(unit_id).status, new_status) {
            r == Err::<BloodUnit, ContractError>(ContractError::InvalidStatusTransition) && post
                == pre
        } else {
            let updated = BloodUnit { status: new_status, ..pre.unit(unit_id) };
            &&& r == Ok::<BloodUnit, ContractError>(updated)
            &&& post.units@ == pre.units@.update(unit_id - 1, updated)
            &&& post.history@.len() == pre.history@.len() + 1
            &&& forall|t: int| 0 <= t < pre.history@.len() ==> post.history@[t] == pre.history@[t]
            &&& ({
                let rec = post.history@.last();
                &&& rec.id == pre.history@.len() + 1
                &&& rec.blood_unit_id == unit_id
                &&& rec.from_status == pre.unit(unit_id).status
                &&& rec.to_status == new_status
                &&& rec.authorized_by == authorized_by
                &&& rec.changed_at == now
                &&& option_text_view(rec.reason) == reason
            })
            &&& post.history_counter == pre.history_counter + 1
            &&& post.events@.len() == pre.events@.len() + 1
            &&& forall|t: int| 0 <= t < pre.events@.len() ==> post.events@[t] == pre.events@[t]
            &&& (post.events@.last() matches InventoryEvent::StatusChanged {
                unit_id: ev_unit,
                old_status: ev_old,
                new_status: ev_new,
                authorized_by: ev_auth,
                reason: ev_reason,
            } && ev_unit == unit_id && ev_old == pre.unit(unit_id).status && ev_new == new_status
                && ev_auth == authorized_by && option_text_view(ev_reason) == reason)
            &&& post.status_index@ == remove_first_pair(
                pre.status_index@,
                (pre.unit(unit_id).status, unit_id),
            ).push((new_status, unit_id))
            &&& post.admin == pre.admin
            &&& post.unit_counter == pre.unit_counter
            &&& post.blood_type_index == pre.blood_type_index
            &&& post.bank_index == pre.bank_index
            &&& post.donor_index == pre.donor_index
        }
    }

    /// Move a unit along the unit transition table.
    ///
    /// Only the admin may authorize a change.  An expired unit refuses
    /// every transition except into `Expired` or `Discarded`; a
    /// transition outside the table fails with
    /// `InvalidStatusTransition`.  On success the change is audited and
    /// the status index moves the unit's pair under its new status.
    pub fn update_status(
        &mut self,
        unit_id: u64,
        new_status: BloodStatus,
        authorized_by: u64,
        reason: Option<String>,
        now: u64,
    ) -> (r: Result<BloodUnit, ContractError>)
        requires
            old(self).wf(),
            old(self).history@.len() < u64::MAX,
        ensures
            final(self).wf(),
            Self::update_status_post(
                *old(self),
                *final(self),
                r,
                unit_id,
                new_status,
                authorized_by,
                option_text_view(reason),
                now,
            ),
    {
        match self.admin {
            None => {
                return Err(ContractError::NotInitialized);
            },
            Some(admin) => {
                if admin != authorized_by {
                    return Err(ContractError::Unauthorized);
                }
            },
        }
        if !(1 <= unit_id && unit_id <= self.units.len() as u64) {
            return Err(ContractError::NotFound);
        }
        let idx = (unit_id - 1) as usize;
        let u = self.units[idx];
        if u.expiration_timestamp <= now && !(new_status == BloodStatus::Expired || new_status
            == BloodStatus::Discarded) {
            return Err(ContractError::BloodUnitExpired);
        }
        if !is_valid_unit_transition(u.status, new_status) {
            return Err(ContractError::InvalidStatusTransition);
        }
        let updated = BloodUnit { status: new_status, ..u };
        self.units.set(idx, updated);
        let reason_for_event = copy_reason(&reason);
        crate::storage::record_status_change(
            self,
            unit_id,
            u.status,
            new_status,
            authorized_by,
            reason,
            now,
        );
        self.events.push(
            InventoryEvent::StatusChanged {
                unit_id,
                old_status: u.status,
                new_status,
                authorized_by,
                reason: reason_for_event,
            },
        );
        self.reindex_status(unit_id, u.status, new_status);
        Ok(updated)
    }

    /// Move a unit's pair in the status index from its old status to its
    /// new one: the first `(old_status, id)` pair leaves, `(new_status,
    /// id)` is appended.
    fn reindex_status(&mut self, unit_id: u64, old_status: BloodStatus, new_status: BloodStatus)
        ensures
            final(self).status_index@ == remove_first_pair(
                old(self).status_index@,
                (old_status, unit_id),
            ).push((new_status, unit_id)),
            final(self).admin == old(self).admin,
            final(self).unit_counter == old(self).unit_counter,
            final(self).units == old(self).units,
            final(self).blood_type_index == old(self).blood_type_index,
            final(self).bank_index == old(self).bank_index,
            final(self).donor_index == old(self).donor_index,
            final(self).history == old(self).history,
            final(self).history_counter == old(self).history_counter,
            final(self).events == old(self).events,
    {
        let ghost pre_index = self.status_index@;
        let ghost pair = (old_status, unit_id);
        match find_status_pair(&self.status_index, old_status, unit_id) {
            Some(w) => {
                proof {
                    lemma_remove_first_pair_at(pre_index, pair, w as int);
                }
                self.status_index.remove(w);
            },
            None => {
                proof {
                    lemma_remove_first_pair_absent(pre_index, pair);
                }
            },
        }
        self.status_index.push((new_status, unit_id));
    }

    /// Confirm delivery: `update_status` into `Delivered`, with the
    /// delivery location as the audit reason.
    pub fn mark_delivered(
        &mut self,
        unit_id: u64,
        authorized_by: u64,
        delivery_location: String,
        now: u64,
    ) -> (r: Result<BloodUnit, ContractError>)
        requires
            old(self).wf(),
            old(self).history@.len() < u64::MAX,
        ensures
            final(self).wf(),
            Self::update_status_post(
                *old(self),
                *final(self),
                r,
                unit_id,
                BloodStatus::Delivered,
                authorized_by,
                Some(delivery_location@),
                now,
            ),
    {
        self.update_status(unit_id, BloodStatus::Delivered, authorized_by, Some(delivery_location), now)
    }

    /// Retire a unit: `update_status` into `Expired`, with the
    /// conventional audit reason recorded.
    pub fn mark_expired(&mut self, unit_id: u64, authorized_by: u64, now: u64) -> (r: Result<
        BloodUnit,
        ContractError,
    >)
        requires
            old(self).wf(),
            old(self).history@.len() < u64::MAX,
        ensures
            final(self).wf(),
            Self::update_status_post(
                *old(self),
                *final(self),
                r,
                unit_id,
                BloodStatus::Expired,
                authorized_by,
                Some("Marked as expired"@),
                now,
            ),
    {
        let reason = "Marked as expired".to_owned();
        self.update_status(unit_id, BloodStatus::Expired, authorized_by, Some(reason), now)
    }

    /// Element `j` of a batch update is acceptable: its unit exists, is
    /// not blocked by expiry, admits the transition, and is the first
    /// mention of that unit.
    pub open spec fn batch_elem_ok(
        pre: Self,
        ids: Seq<u64>,
        j: int,
        new_status: BloodStatus,
        now: u64,
    ) -> bool {
        &&& pre.has_unit(ids[j])
        &&& !Self::expiry_blocks(pre.unit(ids[j]), new_status, now)
        &&& unit_transition_allowed(pre.unit(ids[j]).status, new_status)
        &&& forall|i: int| 0 <= i < j ==> ids[i] != ids[j]
    }

    /// The error an unacceptable element produces: a missing unit, then
    /// an expiry-blocked one, then a repeated or table-refused
    /// transition.
    pub open spec fn batch_elem_error(
        pre: Self,
        ids: Seq<u64>,
        j: int,
        new_status: BloodStatus,
        now: u64,
    ) -> ContractError {
        if !pre.has_unit(ids[j]) {
            ContractError::NotFound
        } else if Self::expiry_blocks(pre.unit(ids[j]), new_status, now) {
            ContractError::BloodUnitExpired
        } else {
            ContractError::InvalidStatusTransition
        }
    }

    /// The status index after a batch update, processed front to back:
    /// each unit's pair moves from its old status to the new one.
    pub open spec fn sidx_batch(
        sidx: Seq<(BloodStatus, u64)>,
        pre_units: Seq<BloodUnit>,
        ids: Seq<u64>,
        new_status: BloodStatus,
    ) -> Seq<(BloodStatus, u64)>
        decreases ids.len(),
    {
        if ids.len() == 0 {
            sidx
        } else {
            Self::sidx_batch(
                remove_first_pair(sidx, (pre_units[ids[0] - 1].status, ids[0])).push(
                    (new_status, ids[0]),
                ),
                pre_units,
                ids.skip(1),
                new_status,
            )
        }
    }

    /// The audit records a successful batch update appends, in list
    /// order, with sequential history ids.
    pub open spec fn batch_records(
        pre: Self,
        ids: Seq<u64>,
        new_status: BloodStatus,
        authorized_by: u64,
        reason: Option<String>,
        now: u64,
    ) -> Seq<StatusChangeHistory> {
        Seq::new(
            ids.len(),
            |j: int|
                StatusChangeHistory {
                    id: (pre.history@.len() + j + 1) as u64,
                    blood_unit_id: ids[j],
                    from_status: pre.units@[ids[j] - 1].status,
                    to_status: new_status,
                    authorized_by,
                    changed_at: now,
                    reason,
                },
        )
    }

    /// The events a successful batch update emits, in list order.
    pub open spec fn batch_events(
        pre: Self,
        ids: Seq<u64>,
        new_status: BloodStatus,
        authorized_by: u64,
        reason: Option<String>,
    ) -> Seq<InventoryEvent> {
        Seq::new(
            ids.len(),
            |j: int|
                InventoryEvent::StatusChanged {
                    unit_id: ids[j],
                    old_status: pre.units@[ids[j] - 1].status,
                    new_status,
                    authorized_by,
                    reason,
                },
        )
    }

    /// Move every listed unit to `new_status` atomically: either every
    /// element is acceptable and all units change, each change audited
    /// and reindexed, or the first offending element's error is returned
    /// and nothing at all is written.  Returns how many units changed.
    pub fn batch_update_status(
        &mut self,
        unit_ids: Vec<u64>,
        new_status: BloodStatus,
        authorized_by: u64,
        reason: Option<String>,
        now: u64,
    ) -> (r: Result<u64, ContractError>)
        requires
            old(self).wf(),
            old(self).history@.len() + unit_ids@.len() < u64::MAX,
        ensures
            final(self).wf(),
            ({
                let pre = *old(self);
                let ids = unit_ids@;
                if pre.admin is None {
                    r == Err::<u64, ContractError>(ContractError::NotInitialized) && *final(self)
                        == pre
                } else if pre.admin != Some(authorized_by) {
                    r == Err::<u64, ContractError>(ContractError::Unauthorized) && *final(self)
                        == pre
                } else if exists|j: int|
                    0 <= j < ids.len() && !Self::batch_elem_ok(pre, ids, j, new_status, now) {
                    &&& *final(self) == pre
                    &&& exists|j: int|
                        0 <= j < ids.len() && !(#[trigger] Self::batch_elem_ok(
                            pre,
                            ids,
                            j,
                            new_status,
                            now,
                        )) && (forall|i: int| 0 <= i < j ==> Self::batch_elem_ok(
                            pre,
                            ids,
                            i,
                            new_status,
                            now,
                        )) && r == Err::<u64, ContractError>(
                            Self::batch_elem_error(pre, ids, j, new_status, now),
                        )
                } else {
                    &&& r == Ok::<u64, ContractError>(ids.len() as u64)
                    &&& final(self).units@.len() == pre.units@.len()
                    &&& forall|u: int|
                        0 <= u < pre.units@.len() ==> #[trigger] final(self).units@[u] == (
                        if ids.contains((u + 1) as u64) {
                            BloodUnit { status: new_status, ..pre.units@[u] }
                        } else {
                            pre.units@[u]
                        })
                    &&& final(self).history@ == pre.history@ + Self::batch_records(
                        pre,
                        ids,
                        new_status,
                        authorized_by,
                        reason,
                        now,
                    )
                    &&& final(self).history_counter == pre.history_counter + ids.len()
                    &&& final(self).events@ == pre.events@ + Self::batch_events(
                        pre,
                        ids,
                        new_status,
                        authorized_by,
                        reason,
                    )
                    &&& final(self).status_index@ == Self::sidx_batch(
                        pre.status_index@,
                        pre.units@,
                        ids,
                        new_status,
                    )
                    &&& final(self).admin == pre.admin
                    &&& final(self).unit_counter == pre.unit_counter
                    &&& final(self).blood_type_index == pre.blood_type_index
                    &&& final(self).bank_index == pre.bank_index
                    &&& final(self).donor_index == pre.donor_index
                }
            }),
    {
        match self.admin {
            None => {
                return Err(ContractError::NotInitialized);
            },
            Some(admin) => {
                if admin != authorized_by {
                    return Err(ContractError::Unauthorized);
                }
            },
        }
        let ghost pre = *old(self);
        let ghost ids = unit_ids@;

        // Validate the whole list first, so that a bad element aborts
        // the operation with nothing written.
        let mut j: usize = 0;
        while j < unit_ids.len()
            invariant
                0 <= j <= ids.len(),
                pre == *old(self),
                *self == pre,
                pre.wf(),
                ids == unit_ids@,
                pre.admin == Some(authorized_by),
                forall|i: int| 0 <= i < j ==> Self::batch_elem_ok(pre, ids, i, new_status, now),
            decreases ids.len() - j,
        {
            let uid = unit_ids[j];
            if !(1 <= uid && uid <= self.units.len() as u64) {
                assert(!Self::batch_elem_ok(pre, ids, j as int, new_status, now));
                return Err(ContractError::NotFound);
            }
            let u = self.units[(uid - 1) as usize];
            if u.expiration_timestamp <= now && !(new_status == BloodStatus::Expired || new_status
                == BloodStatus::Discarded) {
                assert(!Self::batch_elem_ok(pre, ids, j as int, new_status, now));
                return Err(ContractError::BloodUnitExpired);
            }
            let mut i: usize = 0;
            while i < j
                invariant
                    0 <= i <= j < ids.len(),
                    pre == *old(self),
                    *self == pre,
                    pre.wf(),
                    ids == unit_ids@,
                    pre.admin == Some(authorized_by),
                    uid == ids[j as int],
                    pre.has_unit(uid),
                    !Self::expiry_blocks(pre.unit(uid), new_status, now),
                    forall|t: int| 0 <= t < j ==> Self::batch_elem_ok(pre, ids, t, new_status, now),
                    forall|t: int| 0 <= t < i ==> ids[t] != ids[j as int],
                decreases j - i,
            {
                if unit_ids[i] == uid {
                    assert(ids[i as int] == ids[j as int]);
                    assert(!Self::batch_elem_ok(pre, ids, j as int, new_status, now));
                    return Err(ContractError::InvalidStatusTransition);
                }
                i = i + 1;
            }
            if !is_valid_unit_transition(u.status, new_status) {
                assert(!Self::batch_elem_ok(pre, ids, j as int, new_status, now));
                return Err(ContractError::InvalidStatusTransition);
            }
            assert(Self::batch_elem_ok(pre, ids, j as int, new_status, now));
            j = j + 1;
        }

        // Apply every update, auditing and reindexing each.
        let mut k: usize = 0;
        proof {
            assert(ids.take(0) =~= Seq::<u64>::empty());
            assert(ids.skip(0) =~= ids);
            assert(self.history@ =~= pre.history@ + Self::batch_records(
                pre,
                ids.take(0),
                new_status,
                authorized_by,
                reason,
                now,
            ));
            assert(self.events@ =~= pre.events@ + Self::batch_events(
                pre,
                ids.take(0),
                new_status,
                authorized_by,
                reason,
            ));
        }
        while k < unit_ids.len()
            invariant
                0 <= k <= ids.len(),
                pre == *old(self),
                pre.wf(),
                ids == unit_ids@,
                pre.history@.len() + ids.len() < u64::MAX,
                forall|t: int|
                    0 <= t < ids.len() ==> Self::batch_elem_ok(pre, ids, t, new_status, now),
                self.admin == pre.admin,
                self.unit_counter == pre.unit_counter,
                self.blood_type_index == pre.blood_type_index,
                self.bank_index == pre.bank_index,
                self.donor_index == pre.donor_index,
                self.units@.len() == pre.units@.len(),
                forall|u: int|
                    0 <= u < pre.units@.len() ==> #[trigger] self.units@[u] == (if ids.take(
                        k as int,
                    ).contains((u + 1) as u64) {
                        BloodUnit { status: new_status, ..pre.units@[u] }
                    } else {
                        pre.units@[u]
                    }),
                self.history@ == pre.history@ + Self::batch_records(
                    pre,
                    ids.take(k as int),
                    new_status,
                    authorized_by,
                    reason,
                    now,
                ),
                self.history_counter == pre.history_counter + k,
                self.events@ == pre.events@ + Self::batch_events(
                    pre,
                    ids.take(k as int),
                    new_status,
                    authorized_by,
                    reason,
                ),
                Self::sidx_batch(pre.status_index@, pre.units@, ids, new_status)
                    == Self::sidx_batch(
                    self.status_index@,
                    pre.units@,
                    ids.skip(k as int),
                    new_status,
                ),
            decreases ids.len() - k,
        {
            let uid = unit_ids[k];
            proof {
                assert(Self::batch_elem_ok(pre, ids, k as int, new_status, now));
                assert(pre.units.len() == pre.units@.len());
                assert(1 <= uid <= pre.units@.len());
                assert(!ids.take(k as int).contains(uid)) by {
                    if ids.take(k as int).contains(uid) {
                        let w = choose|w: int| 0 <= w < k && #[trigger] ids.take(k as int)[w]
                            == uid;
                        assert(ids[w] == ids[k as int]);
                    }
                }
            }
            let uidx = (uid - 1) as usize;
            let u = self.units[uidx];
            proof {
                let ui = uidx as int;
                assert((ui + 1) as u64 == uid);
                assert(self.units@[ui] == pre.units@[ui]);
                assert(u == pre.unit(uid));
            }
            let updated = BloodUnit { status: new_status, ..u };
            self.units.set(uidx, updated);
            let reason_copy = copy_reason(&reason);
            let reason_for_event = copy_reason(&reason);
            crate::storage::record_status_change(
                self,
                uid,
                u.status,
                new_status,
                authorized_by,
                reason_copy,
                now,
            );
            self.events.push(
                InventoryEvent::StatusChanged {
                    unit_id: uid,
                    old_status: u.status,
                    new_status,
                    authorized_by,
                    reason: reason_for_event,
                },
            );
            self.reindex_status(uid, u.status, new_status);
            proof {
                let k0 = k as int;
                assert(ids.take(k0 + 1).drop_last() =~= ids.take(k0));
                assert(ids.take(k0 + 1).last() == ids[k0]);
                assert(Self::batch_events(pre, ids.take(k0 + 1), new_status, authorized_by, reason)
                    =~= Self::batch_events(pre, ids.take(k0), new_status, authorized_by, reason).push(
                    (InventoryEvent::StatusChanged {
                        unit_id: uid,
                        old_status: pre.units@[uid - 1].status,
                        new_status,
                        authorized_by,
                        reason,
                    }),
                ));
                assert(self.events@ =~= pre.events@ + Self::batch_events(
                    pre,
                    ids.take(k0 + 1),
                    new_status,
                    authorized_by,
                    reason,
                ));
                assert(self.history@ =~= pre.history@ + Self::batch_records(
                    pre,
                    ids.take(k0 + 1),
                    new_status,
                    authorized_by,
                    reason,
                    now,
                )) by {
                    assert(Self::batch_records(pre, ids.take(k0 + 1), new_status, authorized_by, reason, now)
                        =~= Self::batch_records(pre, ids.take(k0), new_status, authorized_by, reason, now).push(
                        (StatusChangeHistory {
                            id: (pre.history@.len() + k0 + 1) as u64,
                            blood_unit_id: uid,
                            from_status: pre.units@[uid - 1].status,
                            to_status: new_status,
                            authorized_by,
                            changed_at: now,
                            reason,
                        }),
                    ));
                }
                assert(ids.skip(k0)[0] == ids[k0]);
                assert(ids.skip(k0).skip(1) =~= ids.skip(k0 + 1));
                assert forall|x: u64| ids.take(k0 + 1).contains(x) == (ids.take(k0).contains(x)
                    || x == uid) by {
                    if ids.take(k0 + 1).contains(x) {
                        let w = choose|w: int| 0 <= w < k0 + 1 && #[trigger] ids.take(k0 + 1)[w]
                            == x;
                        if w < k0 {
                            assert(ids.take(k0)[w] == x);
                        }
                    }
                    if ids.take(k0).contains(x) {
                        let w = choose|w: int| 0 <= w < k0 && #[trigger] ids.take(k0)[w] == x;
                        assert(ids.take(k0 + 1)[w] == x);
                    }
                    if x == uid {
                        assert(ids.take(k0 + 1)[k0] == x);
                    }
                }
            }
            k = k + 1;
        }
        proof {
            assert(ids.take(ids.len() as int) =~= ids);
            assert(ids.skip(ids.len() as int) =~= Seq::<u64>::empty());
            let recs = Self::batch_records(pre, ids, new_status, authorized_by, reason, now);
            assert forall|t: int| 0 <= t < self.history@.len() implies {
                &&& (#[trigger] self.history@[t]).id == t + 1
                &&& unit_transition_allowed(self.history@[t].from_status, self.history@[t].to_status)
            } by {
                if t < pre.history@.len() {
                    assert(pre.history@[t].id == t + 1);
                } else {
                    let j = t - pre.history@.len();
                    assert(self.history@[t] == recs[j]);
                    assert(Self::batch_elem_ok(pre, ids, j, new_status, now));
                }
            }
        }
        Ok(unit_ids.len() as u64)
    }

    /// Law: every transition the audit history has ever recorded is an
    /// edge of the unit transition table — a well-formed inventory holds
    /// no record of a forbidden move, and every operation preserves
    /// well-formedness.
    pub proof fn lemma_audit_trail_within_table(self)
        requires
            self.wf(),
        ensures
            forall|i: int|
                0 <= i < self.history@.len() ==> unit_transition_allowed(
                    (#[trigger] self.history@[i]).from_status,
                    self.history@[i].to_status,
                ),
    {
    }

    /// The audit trail of one unit, oldest first.
    pub fn get_status_history(&self, unit_id: u64) -> (r: Vec<StatusChangeHistory>)
        ensures
            r@ == self.history@.filter(|h: StatusChangeHistory| h.blood_unit_id == unit_id),
    {
        crate::storage::get_status_history(self, unit_id)
    }

    /// How many times a unit's status has changed.
    pub fn get_status_change_count(&self, unit_id: u64) -> (r: u64)
        ensures
            r == self.history@.filter(|h: StatusChangeHistory| h.blood_unit_id == unit_id).len(),
    {
        crate::storage::get_blood_unit_status_change_count(self, unit_id)
    }
}

} // verus!
