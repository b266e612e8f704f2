//! The combined ledger surface: blood-unit inventory and hospital blood
//! requests in one contract.
//!
//! The contract value owns the whole persistent state: the admin identity,
//! the role registries, the primary unit and request stores, the
//! append-only audit trail, and the log of emitted events.  The host is
//! expected to authenticate callers and to serialize operations; every
//! operation here takes the authenticated caller and the ledger clock as
//! plain arguments and either commits all of its effects or returns an
//! error leaving the state untouched (the one exception, delivery of a
//! unit found expired in transit, records the forced expiry and says so in
//! its contract).

use vstd::prelude::*;

use crate::errors::Error;
use crate::transitions::unit_transition_allowed;
use crate::transitions::request_transition_allowed;
use crate::transitions::request_status_terminal;
use crate::transitions::is_valid_request_transition;
use crate::types::BloodRegisteredEvent;
use crate::types::BloodStatus;
use crate::types::BloodType;
use crate::types::BloodUnit;
use crate::types::BloodRequest;
use crate::types::EmittedEvent;
use crate::types::RequestCreatedEvent;
use crate::types::RequestStatus;
use crate::types::RequestStatusChangeEvent;
use crate::types::StatusChangeEvent;
use crate::types::UrgencyLevel;
use crate::types::WithdrawalReason;
use crate::sorting::capped_take;
use crate::sorting::fifo_sorted;
use crate::sorting::lemma_filter_take_step;
use crate::sorting::lemma_filter_take_is_prefix;
use crate::sorting::lemma_filter_increasing_ids;
use crate::sorting::lemma_fifo_insert_at;
use crate::sorting::lemma_fifo_sorted_ensures;
use crate::sorting::lemma_take_all;
use crate::validation::quantity_in_range;
use crate::validation::expiration_in_range;
use crate::validation::validate_quantity;
use crate::validation::validate_expiration;
use crate::validation::validate_non_empty_text;

verus! {

/// Smallest unit quantity accepted into inventory, in milliliters.
pub const MIN_QUANTITY_ML: u32 = 50;

/// Largest unit quantity accepted into inventory, in milliliters.
pub const MAX_QUANTITY_ML: u32 = 500;

/// Smallest remaining shelf life accepted at registration, in seconds.
pub const MIN_SHELF_LIFE_SECONDS: u64 = 86400;

/// Largest remaining shelf life accepted at registration, in seconds
/// (42 days, the limit for whole blood).
pub const MAX_SHELF_LIFE_SECONDS: u64 = 42 * 86400;

/// Smallest request quantity, in milliliters.
pub const MIN_REQUEST_ML: u32 = 50;

/// Largest request quantity, in milliliters (a request may span several
/// units).
pub const MAX_REQUEST_ML: u32 = 5000;

/// Largest number of units one batch operation may touch.
pub const MAX_BATCH_SIZE: usize = 100;

/// Actor identity recorded when a change is made through an
/// administrative entry point that carries no caller identity.
pub const SYSTEM_ACTOR: u64 = 0;

/// A unit is expired once the clock has reached its expiration timestamp.
pub open spec fn unit_is_expired(u: BloodUnit, now: u64) -> bool {
    u.expiration_date <= now
}

/// The audit record written for one unit status change.
pub open spec fn change_record(
    unit_id: u64,
    old_status: BloodStatus,
    new_status: BloodStatus,
    actor: u64,
    now: u64,
) -> StatusChangeEvent {
    StatusChangeEvent {
        blood_unit_id: unit_id,
        old_status,
        new_status,
        actor,
        timestamp: now,
    }
}

/// `ids` only names existing units of a store with `n_units` entries.
pub open spec fn ids_valid(ids: Seq<u64>, n_units: int) -> bool {
    forall|k: int| 0 <= k < ids.len() ==> 1 <= #[trigger] ids[k] <= n_units
}

/// No unit id appears twice.
pub open spec fn ids_distinct(ids: Seq<u64>) -> bool {
    forall|k1: int, k2: int| 0 <= k1 < k2 < ids.len() ==> ids[k1] != ids[k2]
}

/// The combined ledger contract.
pub struct HealthChainContract {
    /// Admin identity, once `initialize` has run.
    pub admin: Option<u64>,
    /// Identities holding the blood-bank role.
    pub banks: Vec<u64>,
    /// Identities holding the hospital role.
    pub hospitals: Vec<u64>,
    /// Primary unit store; the unit with id `i + 1` sits at index `i`.
    pub units: Vec<BloodUnit>,
    /// Primary request store; the request with id `i + 1` sits at index `i`.
    pub requests: Vec<BloodRequest>,
    /// Append-only audit trail of unit status changes, in chronological
    /// order; one unit's history is the subsequence naming its id.
    pub history: Vec<StatusChangeEvent>,
    /// Append-only log of the events each mutation emits.
    pub events: Vec<EmittedEvent>,
}

impl HealthChainContract {
    /// Well-formedness: ids are dense and positional, every audited
    /// transition is an edge of the unit transition table, and the unit
    /// lists held by requests name existing units, each at most once.
    pub open spec fn wf(self) -> bool {
        &&& forall|i: int|
            0 <= i < self.units@.len() ==> (#[trigger] self.units@[i]).id == i + 1
        &&& forall|i: int|
            0 <= i < self.requests@.len() ==> (#[trigger] self.requests@[i]).id == i + 1
        &&& forall|i: int|
            0 <= i < self.history@.len() ==> unit_transition_allowed(
                (#[trigger] self.history@[i]).old_status,
                self.history@[i].new_status,
            )
        &&& forall|i: int|
            0 <= i < self.requests@.len() ==> ids_valid(
                (#[trigger] self.requests@[i]).reserved_unit_ids@,
                self.units@.len() as int,
            ) && ids_distinct(self.requests@[i].reserved_unit_ids@)
    }

    /// Whether `a` holds the blood-bank role.
    pub open spec fn bank_registered(self, a: u64) -> bool {
        self.banks@.contains(a)
    }

    /// Whether `a` holds the hospital role.
    pub open spec fn hospital_registered(self, a: u64) -> bool {
        self.hospitals@.contains(a)
    }

    /// Whether a unit with this id exists.
    pub open spec fn has_unit(self, unit_id: u64) -> bool {
        1 <= unit_id && unit_id <= self.units@.len()
    }

    /// The unit with this id.
    pub open spec fn unit(self, unit_id: u64) -> BloodUnit
        recommends
            self.has_unit(unit_id),
    {
        self.units@[unit_id - 1]
    }

    /// Whether a request with this id exists.
    pub open spec fn has_request(self, request_id: u64) -> bool {
        1 <= request_id && request_id <= self.requests@.len()
    }

    /// The request with this id.
    pub open spec fn request(self, request_id: u64) -> BloodRequest
        recommends
            self.has_request(request_id),
    {
        self.requests@[request_id - 1]
    }

    /// The admin identity and both role registries are unchanged.
    pub open spec fn roles_unchanged(pre: Self, post: Self) -> bool {
        &&& post.admin == pre.admin
        &&& post.banks == pre.banks
        &&& post.hospitals == pre.hospitals
    }

    /// A fresh, empty ledger: nothing registered, nothing recorded.
    pub fn new() -> (s: Self)
        ensures
            s.wf(),
            s.admin is None,
            s.banks@.len() == 0,
            s.hospitals@.len() == 0,
            s.units@.len() == 0,
            s.requests@.len() == 0,
            s.history@.len() == 0,
            s.events@.len() == 0,
    {
        HealthChainContract {
            admin: None,
            banks: Vec::new(),
            hospitals: Vec::new(),
            units: Vec::new(),
            requests: Vec::new(),
            history: Vec::new(),
            events: Vec::new(),
        }
    }

    /// Record the admin identity, exactly once; a second attempt fails
    /// and changes nothing.  Returns the conventional acknowledgement
    /// text.
    pub fn initialize(&mut self, admin: u64) -> (r: Result<String, Error>)
        ensures
            final(self).wf() == old(self).wf(),
            old(self).admin is Some ==> r == Err::<String, Error>(Error::AlreadyInitialized)
                && *final(self) == *old(self),
            old(self).admin is None ==> {
                &&& r is Ok
                &&& r->Ok_0@ == "init"@
                &&& final(self).admin == Some(admin)
                &&& final(self).banks == old(self).banks
                &&& final(self).hospitals == old(self).hospitals
                &&& final(self).units == old(self).units
                &&& final(self).requests == old(self).requests
                &&& final(self).history == old(self).history
                &&& final(self).events == old(self).events
            },
    {
        if self.admin.is_some() {
            return Err(Error::AlreadyInitialized);
        }
        self.admin = Some(admin);
        Ok("init".to_owned())
    }

    /// Grant `bank_id` the blood-bank role.  Only the admin may do this.
    pub fn register_blood_bank(&mut self, caller: u64, bank_id: u64) -> (r: Result<(), Error>)
        ensures
            final(self).wf() == old(self).wf(),
            old(self).admin != Some(caller) ==> r == Err::<(), Error>(Error::Unauthorized)
                && *final(self) == *old(self),
            old(self).admin == Some(caller) ==> r == Ok::<(), Error>(())
                && final(self).banks@ == old(self).banks@.push(bank_id)
                && final(self).admin == old(self).admin
                && final(self).hospitals == old(self).hospitals
                && final(self).units == old(self).units
                && final(self).requests == old(self).requests
                && final(self).history == old(self).history
                && final(self).events == old(self).events,
    {
        match self.admin {
            Some(admin) => {
                if admin == caller {
                    self.banks.push(bank_id);
                    Ok(())
                } else {
                    Err(Error::Unauthorized)
                }
            },
            None => Err(Error::Unauthorized),
        }
    }

    /// Grant `hospital_id` the hospital role.  Only the admin may do this.
    pub fn register_hospital(&mut self, caller: u64, hospital_id: u64) -> (r: Result<(), Error>)
        ensures
            final(self).wf() == old(self).wf(),
            old(self).admin != Some(caller) ==> r == Err::<(), Error>(Error::Unauthorized)
                && *final(self) == *old(self),
            old(self).admin == Some(caller) ==> r == Ok::<(), Error>(())
                && final(self).hospitals@ == old(self).hospitals@.push(hospital_id)
                && final(self).admin == old(self).admin
                && final(self).banks == old(self).banks
                && final(self).units == old(self).units
                && final(self).requests == old(self).requests
                && final(self).history == old(self).history
                && final(self).events == old(self).events,
    {
        match self.admin {
            Some(admin) => {
                if admin == caller {
                    self.hospitals.push(hospital_id);
                    Ok(())
                } else {
                    Err(Error::Unauthorized)
                }
            },
            None => Err(Error::Unauthorized),
        }
    }

    /// Whether `bank_id` holds the blood-bank role.
    pub fn is_blood_bank(&self, bank_id: u64) -> (r: bool)
        ensures
            r == self.bank_registered(bank_id),
    {
        contains_id(&self.banks, bank_id)
    }

    /// Whether `hospital_id` holds the hospital role.
    pub fn is_hospital(&self, hospital_id: u64) -> (r: bool)
        ensures
            r == self.hospital_registered(hospital_id),
    {
        contains_id(&self.hospitals, hospital_id)
    }

    /// The unit value created by a successful registration.
    pub open spec fn fresh_unit(
        id: u64,
        blood_type: BloodType,
        quantity_ml: u32,
        expiration_timestamp: u64,
        donor_id: Option<u64>,
        location: u64,
        bank_id: u64,
        now: u64,
    ) -> BloodUnit {
        BloodUnit {
            id,
            blood_type,
            quantity: quantity_ml,
            expiration_date: expiration_timestamp,
            donor_id,
            location,
            bank_id,
            registration_timestamp: now,
            status: BloodStatus::Available,
            recipient_hospital: None,
            allocation_timestamp: None,
            transfer_timestamp: None,
            delivery_timestamp: None,
        }
    }

    /// Register a donated unit into inventory.
    ///
    /// The caller must hold the blood-bank role; the quantity must lie in
    /// `[MIN_QUANTITY_ML, MAX_QUANTITY_ML]` (both boundary values are
    /// accepted); the remaining shelf life must be strictly positive and
    /// lie in `[MIN_SHELF_LIFE_SECONDS, MAX_SHELF_LIFE_SECONDS]`.  The
    /// first failing check decides the error and nothing is written.  On
    /// success the unit receives the next dense id, enters as `Available`,
    /// and one registration event is emitted.
    pub fn register_blood(
        &mut self,
        bank_id: u64,
        blood_type: BloodType,
        quantity_ml: u32,
        expiration_timestamp: u64,
        donor_id: Option<u64>,
        now: u64,
    ) -> (r: Result<u64, Error>)
        requires
            old(self).wf(),
            old(self).units@.len() < u64::MAX,
        ensures
            final(self).wf(),
            ({
                let pre = *old(self);
                if !pre.bank_registered(bank_id) {
                    r == Err::<u64, Error>(Error::Unauthorized) && *final(self) == pre
                } else if !quantity_in_range(quantity_ml, MIN_QUANTITY_ML, MAX_QUANTITY_ML) {
                    r == Err::<u64, Error>(Error::InvalidQuantity) && *final(self) == pre
                } else if !expiration_in_range(
                    expiration_timestamp,
                    now,
                    MIN_SHELF_LIFE_SECONDS,
                    MAX_SHELF_LIFE_SECONDS,
                ) {
                    r == Err::<u64, Error>(Error::InvalidExpiration) && *final(self) == pre
                } else {
                    let id = (pre.units@.len() + 1) as u64;
                    let unit = Self::fresh_unit(
                        id,
                        blood_type,
                        quantity_ml,
                        expiration_timestamp,
                        donor_id,
                        0,
                        bank_id,
                        now,
                    );
                    &&& r == Ok::<u64, Error>(id)
                    &&& final(self).units@ == pre.units@.push(unit)
                    &&& final(self).events@ == pre.events@.push(
                        EmittedEvent::BloodRegistered(
                            (BloodRegisteredEvent {
                                unit_id: id,
                                bank_id,
                                blood_type,
                                quantity_ml,
                                expiration_timestamp,
                                donor_id,
                                registration_timestamp: now,
                            }),
                        ),
                    )
                    &&& Self::roles_unchanged(pre, *final(self))
                    &&& final(self).requests == pre.requests
                    &&& final(self).history == pre.history
                }
            }),
    {
        if !self.is_blood_bank(bank_id) {
            return Err(Error::Unauthorized);
        }
        if !validate_quantity(quantity_ml, MIN_QUANTITY_ML, MAX_QUANTITY_ML) {
            return Err(Error::InvalidQuantity);
        }
        if !validate_expiration(
            expiration_timestamp,
            now,
            MIN_SHELF_LIFE_SECONDS,
            MAX_SHELF_LIFE_SECONDS,
        ) {
            return Err(Error::InvalidExpiration);
        }
        let unit_id = (self.units.len() as u64) + 1;
        let unit = BloodUnit {
            id: unit_id,
            blood_type,
            quantity: quantity_ml,
            expiration_date: expiration_timestamp,
            donor_id,
            location: 0,
            bank_id,
            registration_timestamp: now,
            status: BloodStatus::Available,
            recipient_hospital: None,
            allocation_timestamp: None,
            transfer_timestamp: None,
            delivery_timestamp: None,
        };
        self.units.push(unit);
        self.events.push(
            EmittedEvent::BloodRegistered(
                BloodRegisteredEvent {
                    unit_id,
                    bank_id,
                    blood_type,
                    quantity_ml,
                    expiration_timestamp,
                    donor_id,
                    registration_timestamp: now,
                },
            ),
        );
        Ok(unit_id)
    }

    /// Add a unit directly, without role or validation checks: the legacy
    /// entry point kept for inventory seeding.  The owning bank is
    /// recorded as `SYSTEM_ACTOR`.
    pub fn add_blood_unit(
        &mut self,
        blood_type: BloodType,
        quantity: u32,
        expiration_date: u64,
        donor_id: u64,
        location: u64,
        now: u64,
    ) -> (r: u64)
        requires
            old(self).wf(),
            old(self).units@.len() < u64::MAX,
        ensures
            final(self).wf(),
            r == old(self).units@.len() + 1,
            final(self).units@ == old(self).units@.push(
                Self::fresh_unit(
                    r,
                    blood_type,
                    quantity,
                    expiration_date,
                    Some(donor_id),
                    location,
                    SYSTEM_ACTOR,
                    now,
                ),
            ),
            Self::roles_unchanged(*old(self), *final(self)),
            final(self).requests == old(self).requests,
            final(self).history == old(self).history,
            final(self).events == old(self).events,
    {
        let unit_id = (self.units.len() as u64) + 1;
        let unit = BloodUnit {
            id: unit_id,
            blood_type,
            quantity,
            expiration_date,
            donor_id: Some(donor_id),
            location,
            bank_id: SYSTEM_ACTOR,
            registration_timestamp: now,
            status: BloodStatus::Available,
            recipient_hospital: None,
            allocation_timestamp: None,
            transfer_timestamp: None,
            delivery_timestamp: None,
        };
        self.units.push(unit);
        unit_id
    }

    /// Look a unit up by id.
    pub fn get_blood_unit(&self, unit_id: u64) -> (r: Result<BloodUnit, Error>)
        ensures
            self.has_unit(unit_id) ==> r == Ok::<BloodUnit, Error>(self.unit(unit_id)),
            !self.has_unit(unit_id) ==> r == Err::<BloodUnit, Error>(Error::UnitNotFound),
    {
        if 1 <= unit_id && unit_id <= self.units.len() as u64 {
            Ok(self.units[(unit_id - 1) as usize])
        } else {
            Err(Error::UnitNotFound)
        }
    }

    /// Look a unit's current status up by id.
    pub fn get_blood_status(&self, unit_id: u64) -> (r: Result<BloodStatus, Error>)
        ensures
            self.has_unit(unit_id) ==> r == Ok::<BloodStatus, Error>(self.unit(unit_id).status),
            !self.has_unit(unit_id) ==> r == Err::<BloodStatus, Error>(Error::UnitNotFound),
    {
        match self.get_blood_unit(unit_id) {
            Ok(unit) => Ok(unit.status),
            Err(e) => Err(e),
        }
    }

    /// Echo a record reference as the pair handed in.
    pub fn store_record(&self, patient_id: u64, record_hash: u64) -> (r: Vec<u64>)
        ensures
            r@ == seq![patient_id, record_hash],
    {
        let mut v: Vec<u64> = Vec::new();
        v.push(patient_id);
        v.push(record_hash);
        proof {
            assert(v@ =~= seq![patient_id, record_hash]);
        }
        v
    }

    /// Look a stored record handle up; the handle is the identifier
    /// itself.
    pub fn get_record(&self, patient_id: u64) -> (r: u64)
        ensures
            r == patient_id,
    {
        patient_id
    }

    /// Record access control is delegated to the host; every lookup is
    /// permitted here.
    pub fn verify_access(&self, _patient_id: u64, _provider_id: u64) -> (r: bool)
        ensures
            r,
    {
        true
    }

    /// The selection made by `query_by_status`.
    pub open spec fn status_pred(status: BloodStatus) -> spec_fn(BloodUnit) -> bool {
        |u: BloodUnit| u.status == status
    }

    /// The selection made by `query_by_hospital`.
    pub open spec fn hospital_pred(hospital: u64) -> spec_fn(BloodUnit) -> bool {
        |u: BloodUnit| u.recipient_hospital == Some(hospital)
    }

    /// The selection made by the availability queries: `Available`,
    /// unexpired units of the wanted type holding at least `min_quantity`
    /// milliliters.
    pub open spec fn availability_pred(
        blood_type: BloodType,
        min_quantity: u32,
        now: u64,
    ) -> spec_fn(BloodUnit) -> bool {
        |u: BloodUnit|
            u.blood_type == blood_type && u.status == BloodStatus::Available && u.quantity
                >= min_quantity && u.expiration_date > now
    }

    /// The audit records that belong to one unit.
    pub open spec fn history_pred(unit_id: u64) -> spec_fn(StatusChangeEvent) -> bool {
        |e: StatusChangeEvent| e.blood_unit_id == unit_id
    }

    /// Units with the given status, in registration order, capped at
    /// `max_results` entries (zero meaning no cap).
    pub fn query_by_status(&self, status: BloodStatus, max_results: u32) -> (r: Vec<BloodUnit>)
        ensures
            r@ == capped_take(self.units@.filter(Self::status_pred(status)), max_results),
    {
        let ghost p = Self::status_pred(status);
        let ghost s = self.units@;
        let mut out: Vec<BloodUnit> = Vec::new();
        let mut i: usize = 0;
        proof {
            reveal(Seq::filter);
            assert(s.take(0) =~= Seq::<BloodUnit>::empty());
        }
        while i < self.units.len() && (max_results == 0 || (out.len() as u32) < max_results)
            invariant
                0 <= i <= s.len(),
                s == self.units@,
                p == Self::status_pred(status),
                out@ == s.take(i as int).filter(p),
                max_results > 0 ==> out@.len() <= max_results,
            decreases s.len() - i,
        {
            let u = self.units[i];
            proof {
                lemma_filter_take_step(s, p, i as int);
            }
            if u.status == status {
                out.push(u);
            }
            i = i + 1;
        }
        proof {
            let f = s.filter(p);
            lemma_filter_take_is_prefix(s, p, i as int);
            if i == s.len() {
                lemma_take_all(s);
                assert(out@ == f);
                assert(max_results == 0 || max_results >= f.len());
            } else {
                assert(max_results > 0 && out@.len() == max_results);
                assert(out@ == f.take(max_results as int));
            }
            assert(out@ == capped_take(f, max_results));
        }
        out
    }

    /// Units currently allocated to `hospital`, in registration order,
    /// capped at `max_results` entries (zero meaning no cap).
    pub fn query_by_hospital(&self, hospital: u64, max_results: u32) -> (r: Vec<BloodUnit>)
        ensures
            r@ == capped_take(self.units@.filter(Self::hospital_pred(hospital)), max_results),
    {
        let ghost p = Self::hospital_pred(hospital);
        let ghost s = self.units@;
        let mut out: Vec<BloodUnit> = Vec::new();
        let mut i: usize = 0;
        proof {
            reveal(Seq::filter);
            assert(s.take(0) =~= Seq::<BloodUnit>::empty());
        }
        while i < self.units.len() && (max_results == 0 || (out.len() as u32) < max_results)
            invariant
                0 <= i <= s.len(),
                s == self.units@,
                p == Self::hospital_pred(hospital),
                out@ == s.take(i as int).filter(p),
                max_results > 0 ==> out@.len() <= max_results,
            decreases s.len() - i,
        {
            let u = self.units[i];
            proof {
                lemma_filter_take_step(s, p, i as int);
            }
            let matches = match u.recipient_hospital {
                Some(h) => h == hospital,
                None => false,
            };
            if matches {
                out.push(u);
            }
            i = i + 1;
        }
        proof {
            let f = s.filter(p);
            lemma_filter_take_is_prefix(s, p, i as int);
            if i == s.len() {
                lemma_take_all(s);
                assert(out@ == f);
                assert(max_results == 0 || max_results >= f.len());
            } else {
                assert(max_results > 0 && out@.len() == max_results);
                assert(out@ == f.take(max_results as int));
            }
            assert(out@ == capped_take(f, max_results));
        }
        out
    }

    /// The full audit trail of one unit, oldest first.
    pub fn get_transfer_history(&self, unit_id: u64) -> (r: Vec<StatusChangeEvent>)
        ensures
            r@ == self.history@.filter(Self::history_pred(unit_id)),
    {
        let ghost p = Self::history_pred(unit_id);
        let ghost s = self.history@;
        let mut out: Vec<StatusChangeEvent> = Vec::new();
        let mut i: usize = 0;
        proof {
            reveal(Seq::filter);
            assert(s.take(0) =~= Seq::<StatusChangeEvent>::empty());
        }
        while i < self.history.len()
            invariant
                0 <= i <= s.len(),
                s == self.history@,
                p == Self::history_pred(unit_id),
                out@ == s.take(i as int).filter(p),
            decreases s.len() - i,
        {
            let e = self.history[i];
            proof {
                lemma_filter_take_step(s, p, i as int);
            }
            if e.blood_unit_id == unit_id {
                out.push(e);
            }
            i = i + 1;
        }
        proof {
            lemma_take_all(s);
        }
        out
    }

    /// Total milliliters held in `Available`, unexpired units of one
    /// blood type.
    pub open spec fn avail_sum(s: Seq<BloodUnit>, blood_type: BloodType, now: u64) -> int
        decreases s.len(),
    {
        if s.len() == 0 {
            0
        } else {
            Self::avail_sum(s.drop_last(), blood_type, now) + if Self::availability_pred(
                blood_type,
                0,
                now,
            )(s.last()) {
                s.last().quantity as int
            } else {
                0
            }
        }
    }

    /// Scanning one more unit adds its quantity exactly when it counts.
    proof fn lemma_avail_sum_step(s: Seq<BloodUnit>, blood_type: BloodType, now: u64, i: int)
        requires
            0 <= i < s.len(),
        ensures
            Self::avail_sum(s.take(i + 1), blood_type, now) == Self::avail_sum(
                s.take(i),
                blood_type,
                now,
            ) + if Self::availability_pred(blood_type, 0, now)(s[i]) {
                s[i].quantity as int
            } else {
                0
            },
    {
        assert(s.take(i + 1).drop_last() =~= s.take(i));
        assert(s.take(i + 1).last() == s[i]);
    }

    /// The availability sum only grows as more of the store is scanned.
    proof fn lemma_avail_sum_monotone(s: Seq<BloodUnit>, blood_type: BloodType, now: u64, i: int)
        requires
            0 <= i <= s.len(),
        ensures
            Self::avail_sum(s.take(i), blood_type, now) <= Self::avail_sum(s, blood_type, now),
        decreases s.len() - i,
    {
        if i == s.len() {
            lemma_take_all(s);
        } else {
            Self::lemma_avail_sum_step(s, blood_type, now, i);
            Self::lemma_avail_sum_monotone(s, blood_type, now, i + 1);
        }
    }

    /// Whether at least `required_quantity` milliliters of `blood_type`
    /// are held in `Available`, unexpired units.  The scan stops as soon
    /// as the running sum reaches the threshold.
    pub fn check_availability(&self, blood_type: BloodType, required_quantity: u32, now: u64) -> (r:
        bool)
        ensures
            r == (Self::avail_sum(self.units@, blood_type, now) >= required_quantity as int),
    {
        let ghost s = self.units@;
        let mut total: u64 = 0;
        let mut i: usize = 0;
        proof {
            assert(s.take(0) =~= Seq::<BloodUnit>::empty());
        }
        while i < self.units.len() && total < required_quantity as u64
            invariant
                0 <= i <= s.len(),
                s == self.units@,
                total == Self::avail_sum(s.take(i as int), blood_type, now),
                total <= u32::MAX as u64 + u32::MAX as u64,
            decreases s.len() - i,
        {
            let u = self.units[i];
            proof {
                Self::lemma_avail_sum_step(s, blood_type, now, i as int);
            }
            if u.blood_type == blood_type && u.status == BloodStatus::Available
                && u.expiration_date > now {
                total = total + u.quantity as u64;
            }
            i = i + 1;
        }
        proof {
            if i == s.len() {
                lemma_take_all(s);
            } else {
                Self::lemma_avail_sum_monotone(s, blood_type, now, i as int);
            }
        }
        total >= required_quantity as u64
    }

    /// Available, unexpired units of `blood_type` holding at least
    /// `min_quantity` milliliters, soonest expiration first (ties in
    /// registration order), capped at `max_results` entries (zero meaning
    /// no cap).
    pub fn query_by_blood_type(
        &self,
        blood_type: BloodType,
        min_quantity: u32,
        max_results: u32,
        now: u64,
    ) -> (r: Vec<BloodUnit>)
        requires
            self.wf(),
        ensures
            r@ == capped_take(
                fifo_sorted(
                    self.units@.filter(Self::availability_pred(blood_type, min_quantity, now)),
                ),
                max_results,
            ),
    {
        let ghost p = Self::availability_pred(blood_type, min_quantity, now);
        let ghost s = self.units@;

        // Collect the matching units in registration order.
        let mut matching: Vec<BloodUnit> = Vec::new();
        let mut i: usize = 0;
        proof {
            reveal(Seq::filter);
            assert(s.take(0) =~= Seq::<BloodUnit>::empty());
        }
        while i < self.units.len()
            invariant
                0 <= i <= s.len(),
                s == self.units@,
                p == Self::availability_pred(blood_type, min_quantity, now),
                matching@ == s.take(i as int).filter(p),
            decreases s.len() - i,
        {
            let u = self.units[i];
            proof {
                lemma_filter_take_step(s, p, i as int);
            }
            if u.blood_type == blood_type && u.status == BloodStatus::Available && u.quantity
                >= min_quantity && u.expiration_date > now {
                matching.push(u);
            }
            i = i + 1;
        }
        proof {
            lemma_take_all(s);
            assert(matching@ == s.filter(p));
        }

        // Arrange by expiration, earliest first; insertion keeps ties in
        // registration order.
        let mut sorted: Vec<BloodUnit> = Vec::new();
        let mut k: usize = 0;
        while k < matching.len()
            invariant
                0 <= k <= matching@.len(),
                sorted@ == fifo_sorted(matching@.take(k as int)),
                sorted@.len() == k,
            decreases matching@.len() - k,
        {
            let u = matching[k];
            let mut pos: usize = sorted.len();
            while pos > 0 && sorted[pos - 1].expiration_date > u.expiration_date
                invariant
                    0 <= pos <= sorted@.len(),
                    forall|j: int|
                        pos <= j < sorted@.len() ==> (#[trigger] sorted@[j]).expiration_date
                            > u.expiration_date,
                decreases pos,
            {
                pos = pos - 1;
            }
            let ghost pre_sorted = sorted@;
            sorted.insert(pos, u);
            proof {
                lemma_fifo_insert_at(pre_sorted, u, pos as int);
                assert(matching@.take(k + 1).drop_last() =~= matching@.take(k as int));
                assert(matching@.take(k + 1).last() == matching@[k as int]);
                assert(fifo_sorted(matching@.take(k + 1)) == crate::sorting::fifo_insert(
                    fifo_sorted(matching@.take(k as int)),
                    matching@[k as int],
                ));
            }
            k = k + 1;
        }
        proof {
            lemma_take_all(matching@);
            assert(sorted@ == fifo_sorted(s.filter(p)));
        }

        // Apply the result cap.
        if max_results != 0 && (max_results as usize) < sorted.len() {
            sorted.truncate(max_results as usize);
            proof {
                assert(sorted@ == fifo_sorted(s.filter(p)).take(max_results as int));
            }
        }
        sorted
    }

    /// A unit after allocation to `hospital`.
    pub open spec fn reserved_unit(u: BloodUnit, hospital: u64, now: u64) -> BloodUnit {
        BloodUnit {
            status: BloodStatus::Reserved,
            recipient_hospital: Some(hospital),
            allocation_timestamp: Some(now),
            ..u
        }
    }

    /// A unit after its allocation was cancelled.
    pub open spec fn released_unit(u: BloodUnit) -> BloodUnit {
        BloodUnit {
            status: BloodStatus::Available,
            recipient_hospital: None,
            allocation_timestamp: None,
            ..u
        }
    }

    /// A unit after transfer started.
    pub open spec fn in_transit_unit(u: BloodUnit, now: u64) -> BloodUnit {
        BloodUnit { status: BloodStatus::InTransit, transfer_timestamp: Some(now), ..u }
    }

    /// A unit after delivery was confirmed.
    pub open spec fn delivered_unit(u: BloodUnit, now: u64) -> BloodUnit {
        BloodUnit { status: BloodStatus::Delivered, delivery_timestamp: Some(now), ..u }
    }

    /// Append one audit record and the matching status-change event.
    fn record_status_change(
        &mut self,
        unit_id: u64,
        old_status: BloodStatus,
        new_status: BloodStatus,
        actor: u64,
        now: u64,
    )
        requires
            unit_transition_allowed(old_status, new_status),
        ensures
            final(self).history@ == old(self).history@.push(
                change_record(unit_id, old_status, new_status, actor, now),
            ),
            final(self).events@ == old(self).events@.push(
                EmittedEvent::StatusChange(change_record(unit_id, old_status, new_status, actor, now)),
            ),
            final(self).admin == old(self).admin,
            final(self).banks == old(self).banks,
            final(self).hospitals == old(self).hospitals,
            final(self).units == old(self).units,
            final(self).requests == old(self).requests,
    {
        let record = StatusChangeEvent {
            blood_unit_id: unit_id,
            old_status,
            new_status,
            actor,
            timestamp: now,
        };
        self.history.push(record);
        self.events.push(EmittedEvent::StatusChange(record));
    }

    /// Reserve an `Available`, unexpired unit for a hospital.  The caller
    /// must hold the blood-bank role and the hospital must be registered;
    /// the first failing check decides the error and nothing is written.
    pub fn allocate_blood(&mut self, bank_id: u64, unit_id: u64, hospital: u64, now: u64) -> (r:
        Result<(), Error>)
        requires
            old(self).wf(),
        ensures
            final(self).wf(),
            ({
                let pre = *old(self);
                if !pre.bank_registered(bank_id) {
                    r == Err::<(), Error>(Error::Unauthorized) && *final(self) == pre
                } else if !pre.hospital_registered(hospital) {
                    r == Err::<(), Error>(Error::UnauthorizedHospital) && *final(self) == pre
                } else if !pre.has_unit(unit_id) {
                    r == Err::<(), Error>(Error::UnitNotFound) && *final(self) == pre
                } else if unit_is_expired(pre.unit(unit_id), now) {
                    r == Err::<(), Error>(Error::UnitExpired) && *final(self) == pre
                } else if pre.unit(unit_id).status != BloodStatus::Available {
                    r == Err::<(), Error>(Error::InvalidStatus) && *final(self) == pre
                } else {
                    &&& r == Ok::<(), Error>(())
                    &&& final(self).units@ == pre.units@.update(
                        unit_id - 1,
                        Self::reserved_unit(pre.unit(unit_id), hospital, now),
                    )
                    &&& final(self).history@ == pre.history@.push(
                        change_record(
                            unit_id,
                            BloodStatus::Available,
                            BloodStatus::Reserved,
                            bank_id,
                            now,
                        ),
                    )
                    &&& final(self).events@ == pre.events@.push(
                        EmittedEvent::StatusChange(
                            change_record(
                                unit_id,
                                BloodStatus::Available,
                                BloodStatus::Reserved,
                                bank_id,
                                now,
                            ),
                        ),
                    ).push((EmittedEvent::Allocated { unit_id, hospital, timestamp: now }))
                    &&& Self::roles_unchanged(pre, *final(self))
                    &&& final(self).requests == pre.requests
                }
            }),
    {
        if !self.is_blood_bank(bank_id) {
            return Err(Error::Unauthorized);
        }
        if !self.is_hospital(hospital) {
            return Err(Error::UnauthorizedHospital);
        }
        if !(1 <= unit_id && unit_id <= self.units.len() as u64) {
            return Err(Error::UnitNotFound);
        }
        let idx = (unit_id - 1) as usize;
        let u = self.units[idx];
        if u.expiration_date <= now {
            return Err(Error::UnitExpired);
        }
        if u.status != BloodStatus::Available {
            return Err(Error::InvalidStatus);
        }
        let updated = BloodUnit {
            status: BloodStatus::Reserved,
            recipient_hospital: Some(hospital),
            allocation_timestamp: Some(now),
            ..u
        };
        self.units.set(idx, updated);
        self.record_status_change(unit_id, BloodStatus::Available, BloodStatus::Reserved, bank_id, now);
        self.events.push(EmittedEvent::Allocated { unit_id, hospital, timestamp: now });
        Ok(())
    }

    /// Return a `Reserved`, unexpired unit to `Available`, clearing its
    /// allocation.  Only a blood bank may cancel.
    pub fn cancel_allocation(&mut self, bank_id: u64, unit_id: u64, now: u64) -> (r: Result<
        (),
        Error,
    >)
        requires
            old(self).wf(),
        ensures
            final(self).wf(),
            ({
                let pre = *old(self);
                if !pre.bank_registered(bank_id) {
                    r == Err::<(), Error>(Error::Unauthorized) && *final(self) == pre
                } else if !pre.has_unit(unit_id) {
                    r == Err::<(), Error>(Error::UnitNotFound) && *final(self) == pre
                } else if unit_is_expired(pre.unit(unit_id), now) {
                    r == Err::<(), Error>(Error::UnitExpired) && *final(self) == pre
                } else if pre.unit(unit_id).status != BloodStatus::Reserved {
                    r == Err::<(), Error>(Error::InvalidStatus) && *final(self) == pre
                } else {
                    &&& r == Ok::<(), Error>(())
                    &&& final(self).units@ == pre.units@.update(
                        unit_id - 1,
                        Self::released_unit(pre.unit(unit_id)),
                    )
                    &&& final(self).history@ == pre.history@.push(
                        change_record(
                            unit_id,
                            BloodStatus::Reserved,
                            BloodStatus::Available,
                            bank_id,
                            now,
                        ),
                    )
                    &&& final(self).events@ == pre.events@.push(
                        EmittedEvent::StatusChange(
                            change_record(
                                unit_id,
                                BloodStatus::Reserved,
                                BloodStatus::Available,
                                bank_id,
                                now,
                            ),
                        ),
                    ).push((EmittedEvent::AllocationCancelled { unit_id }))
                    &&& Self::roles_unchanged(pre, *final(self))
                    &&& final(self).requests == pre.requests
                }
            }),
    {
        if !self.is_blood_bank(bank_id) {
            return Err(Error::Unauthorized);
        }
        if !(1 <= unit_id && unit_id <= self.units.len() as u64) {
            return Err(Error::UnitNotFound);
        }
        let idx = (unit_id - 1) as usize;
        let u = self.units[idx];
        if u.expiration_date <= now {
            return Err(Error::UnitExpired);
        }
        if u.status != BloodStatus::Reserved {
            return Err(Error::InvalidStatus);
        }
        let updated = BloodUnit {
            status: BloodStatus::Available,
            recipient_hospital: None,
            allocation_timestamp: None,
            ..u
        };
        self.units.set(idx, updated);
        self.record_status_change(unit_id, BloodStatus::Reserved, BloodStatus::Available, bank_id, now);
        self.events.push(EmittedEvent::AllocationCancelled { unit_id });
        Ok(())
    }

    /// Move a `Reserved`, unexpired unit into transit.  Only a blood bank
    /// may start a transfer.
    pub fn initiate_transfer(&mut self, bank_id: u64, unit_id: u64, now: u64) -> (r: Result<
        (),
        Error,
    >)
        requires
            old(self).wf(),
        ensures
            final(self).wf(),
            ({
                let pre = *old(self);
                if !pre.bank_registered(bank_id) {
                    r == Err::<(), Error>(Error::Unauthorized) && *final(self) == pre
                } else if !pre.has_unit(unit_id) {
                    r == Err::<(), Error>(Error::UnitNotFound) && *final(self) == pre
                } else if unit_is_expired(pre.unit(unit_id), now) {
                    r == Err::<(), Error>(Error::UnitExpired) && *final(self) == pre
                } else if pre.unit(unit_id).status != BloodStatus::Reserved {
                    r == Err::<(), Error>(Error::InvalidStatus) && *final(self) == pre
                } else {
                    &&& r == Ok::<(), Error>(())
                    &&& final(self).units@ == pre.units@.update(
                        unit_id - 1,
                        Self::in_transit_unit(pre.unit(unit_id), now),
                    )
                    &&& final(self).history@ == pre.history@.push(
                        change_record(
                            unit_id,
                            BloodStatus::Reserved,
                            BloodStatus::InTransit,
                            bank_id,
                            now,
                        ),
                    )
                    &&& final(self).events@ == pre.events@.push(
                        EmittedEvent::StatusChange(
                            change_record(
                                unit_id,
                                BloodStatus::Reserved,
                                BloodStatus::InTransit,
                                bank_id,
                                now,
                            ),
                        ),
                    ).push((EmittedEvent::TransferInitiated { unit_id, timestamp: now }))
                    &&& Self::roles_unchanged(pre, *final(self))
                    &&& final(self).requests == pre.requests
                }
            }),
    {
        if !self.is_blood_bank(bank_id) {
            return Err(Error::Unauthorized);
        }
        if !(1 <= unit_id && unit_id <= self.units.len() as u64) {
            return Err(Error::UnitNotFound);
        }
        let idx = (unit_id - 1) as usize;
        let u = self.units[idx];
        if u.expiration_date <= now {
            return Err(Error::UnitExpired);
        }
        if u.status != BloodStatus::Reserved {
            return Err(Error::InvalidStatus);
        }
        let updated = BloodUnit {
            status: BloodStatus::InTransit,
            transfer_timestamp: Some(now),
            ..u
        };
        self.units.set(idx, updated);
        self.record_status_change(unit_id, BloodStatus::Reserved, BloodStatus::InTransit, bank_id, now);
        self.events.push(EmittedEvent::TransferInitiated { unit_id, timestamp: now });
        Ok(())
    }

    /// Confirm delivery of a unit in transit to its recipient hospital.
    ///
    /// A unit found expired on arrival is forced to `Expired` — the one
    /// operation that changes state and still returns an error — and the
    /// forced transition is audited like any other.
    pub fn confirm_delivery(&mut self, hospital: u64, unit_id: u64, now: u64) -> (r: Result<
        (),
        Error,
    >)
        requires
            old(self).wf(),
        ensures
            final(self).wf(),
            ({
                let pre = *old(self);
                if !pre.hospital_registered(hospital) {
                    r == Err::<(), Error>(Error::UnauthorizedHospital) && *final(self) == pre
                } else if !pre.has_unit(unit_id) {
                    r == Err::<(), Error>(Error::UnitNotFound) && *final(self) == pre
                } else if pre.unit(unit_id).recipient_hospital != Some(hospital) {
                    r == Err::<(), Error>(Error::Unauthorized) && *final(self) == pre
                } else if pre.unit(unit_id).status != BloodStatus::InTransit {
                    r == Err::<(), Error>(Error::InvalidStatus) && *final(self) == pre
                } else if unit_is_expired(pre.unit(unit_id), now) {
                    &&& r == Err::<(), Error>(Error::UnitExpired)
                    &&& final(self).units@ == pre.units@.update(
                        unit_id - 1,
                        (BloodUnit { status: BloodStatus::Expired, ..pre.unit(unit_id) }),
                    )
                    &&& final(self).history@ == pre.history@.push(
                        change_record(
                            unit_id,
                            BloodStatus::InTransit,
                            BloodStatus::Expired,
                            hospital,
                            now,
                        ),
                    )
                    &&& final(self).events@ == pre.events@.push(
                        EmittedEvent::StatusChange(
                            change_record(
                                unit_id,
                                BloodStatus::InTransit,
                                BloodStatus::Expired,
                                hospital,
                                now,
                            ),
                        ),
                    )
                    &&& Self::roles_unchanged(pre, *final(self))
                    &&& final(self).requests == pre.requests
                } else {
                    &&& r == Ok::<(), Error>(())
                    &&& final(self).units@ == pre.units@.update(
                        unit_id - 1,
                        Self::delivered_unit(pre.unit(unit_id), now),
                    )
                    &&& final(self).history@ == pre.history@.push(
                        change_record(
                            unit_id,
                            BloodStatus::InTransit,
                            BloodStatus::Delivered,
                            hospital,
                            now,
                        ),
                    )
                    &&& final(self).events@ == pre.events@.push(
                        EmittedEvent::StatusChange(
                            change_record(
                                unit_id,
                                BloodStatus::InTransit,
                                BloodStatus::Delivered,
                                hospital,
                                now,
                            ),
                        ),
                    ).push((EmittedEvent::DeliveryConfirmed { unit_id, timestamp: now }))
                    &&& Self::roles_unchanged(pre, *final(self))
                    &&& final(self).requests == pre.requests
                }
            }),
    {
        if !self.is_hospital(hospital) {
            return Err(Error::UnauthorizedHospital);
        }
        if !(1 <= unit_id && unit_id <= self.units.len() as u64) {
            return Err(Error::UnitNotFound);
        }
        let idx = (unit_id - 1) as usize;
        let u = self.units[idx];
        let recipient_matches = match u.recipient_hospital {
            Some(h) => h == hospital,
            None => false,
        };
        if !recipient_matches {
            return Err(Error::Unauthorized);
        }
        if u.status != BloodStatus::InTransit {
            return Err(Error::InvalidStatus);
        }
        if u.expiration_date <= now {
            let updated = BloodUnit { status: BloodStatus::Expired, ..u };
            self.units.set(idx, updated);
            self.record_status_change(
                unit_id,
                BloodStatus::InTransit,
                BloodStatus::Expired,
                hospital,
                now,
            );
            return Err(Error::UnitExpired);
        }
        let updated = BloodUnit {
            status: BloodStatus::Delivered,
            delivery_timestamp: Some(now),
            ..u
        };
        self.units.set(idx, updated);
        self.record_status_change(
            unit_id,
            BloodStatus::InTransit,
            BloodStatus::Delivered,
            hospital,
            now,
        );
        self.events.push(EmittedEvent::DeliveryConfirmed { unit_id, timestamp: now });
        Ok(())
    }

    /// Withdraw a non-terminal unit from circulation (used, contaminated,
    /// damaged).  The caller must hold the blood-bank or hospital role.
    pub fn withdraw_blood(
        &mut self,
        caller: u64,
        unit_id: u64,
        reason: WithdrawalReason,
        now: u64,
    ) -> (r: Result<(), Error>)
        requires
            old(self).wf(),
        ensures
            final(self).wf(),
            ({
                let pre = *old(self);
                if !pre.bank_registered(caller) && !pre.hospital_registered(caller) {
                    r == Err::<(), Error>(Error::Unauthorized) && *final(self) == pre
                } else if !pre.has_unit(unit_id) {
                    r == Err::<(), Error>(Error::UnitNotFound) && *final(self) == pre
                } else if crate::transitions::unit_status_terminal(pre.unit(unit_id).status) {
                    r == Err::<(), Error>(Error::InvalidStatus) && *final(self) == pre
                } else {
                    &&& r == Ok::<(), Error>(())
                    &&& final(self).units@ == pre.units@.update(
                        unit_id - 1,
                        (BloodUnit { status: BloodStatus::Discarded, ..pre.unit(unit_id) }),
                    )
                    &&& final(self).history@ == pre.history@.push(
                        change_record(
                            unit_id,
                            pre.unit(unit_id).status,
                            BloodStatus::Discarded,
                            caller,
                            now,
                        ),
                    )
                    &&& final(self).events@ == pre.events@.push(
                        EmittedEvent::StatusChange(
                            change_record(
                                unit_id,
                                pre.unit(unit_id).status,
                                BloodStatus::Discarded,
                                caller,
                                now,
                            ),
                        ),
                    ).push((EmittedEvent::Withdrawn { unit_id, reason, timestamp: now }))
                    &&& Self::roles_unchanged(pre, *final(self))
                    &&& final(self).requests == pre.requests
                }
            }),
    {
        let is_bank = self.is_blood_bank(caller);
        let is_hosp = self.is_hospital(caller);
        if !is_bank && !is_hosp {
            return Err(Error::Unauthorized);
        }
        if !(1 <= unit_id && unit_id <= self.units.len() as u64) {
            return Err(Error::UnitNotFound);
        }
        let idx = (unit_id - 1) as usize;
        let u = self.units[idx];
        if crate::transitions::is_unit_status_terminal(u.status) {
            return Err(Error::InvalidStatus);
        }
        let updated = BloodUnit { status: BloodStatus::Discarded, ..u };
        self.units.set(idx, updated);
        self.record_status_change(unit_id, u.status, BloodStatus::Discarded, caller, now);
        self.events.push(EmittedEvent::Withdrawn { unit_id, reason, timestamp: now });
        Ok(())
    }

    /// Law: every transition the audit trail has ever recorded is an
    /// edge of the unit transition table — a well-formed ledger holds no
    /// record of a forbidden move, and every operation preserves
    /// well-formedness.
    pub proof fn lemma_audit_trail_within_table(self)
        requires
            self.wf(),
        ensures
            forall|i: int|
                0 <= i < self.history@.len() ==> unit_transition_allowed(
                    (#[trigger] self.history@[i]).old_status,
                    self.history@[i].new_status,
                ),
    {
    }

    /// Law of the availability query: with no cap, the result of
    /// `query_by_blood_type` holds exactly the `Available`, unexpired,
    /// sufficiently large units of the type — each matching the filter —
    /// arranged so that expiration never decreases, with ties left in
    /// registration order; a cap keeps a prefix of that arrangement.
    pub proof fn lemma_availability_query_law(
        self,
        blood_type: BloodType,
        min_quantity: u32,
        max_results: u32,
        now: u64,
    )
        requires
            self.wf(),
        ensures
            ({
                let sel = self.units@.filter(
                    Self::availability_pred(blood_type, min_quantity, now),
                );
                let full = fifo_sorted(sel);
                let rq = capped_take(full, max_results);
                &&& max_results == 0 ==> rq.to_multiset() == sel.to_multiset()
                &&& forall|i: int|
                    0 <= i < rq.len() ==> Self::availability_pred(blood_type, min_quantity, now)(
                        #[trigger] rq[i],
                    )
                &&& forall|i: int, j: int|
                    #![trigger rq[i], rq[j]]
                    0 <= i < j < rq.len() ==> crate::sorting::fifo_before(rq[i], rq[j])
            }),
    {
        let p = Self::availability_pred(blood_type, min_quantity, now);
        let sel = self.units@.filter(p);
        let full = fifo_sorted(sel);
        let rq = capped_take(full, max_results);
        lemma_filter_increasing_ids(self.units@, p);
        lemma_fifo_sorted_ensures(sel);
        broadcast use vstd::seq_lib::group_to_multiset_ensures;

        assert forall|i: int| 0 <= i < full.len() implies p(#[trigger] full[i]) by {
            assert(full.to_multiset().contains(full[i]));
            assert(sel.to_multiset().contains(full[i]));
            assert(sel.contains(full[i]));
            let w = choose|w: int| 0 <= w < sel.len() && sel[w] == full[i];
            Seq::lemma_filter_pred(self.units@, p, w);
        }
        assert forall|i: int| 0 <= i < rq.len() implies p(#[trigger] rq[i]) by {
            assert(rq[i] == full[i]);
        }
        assert forall|i: int, j: int|
            #![trigger rq[i], rq[j]]
            0 <= i < j < rq.len() implies crate::sorting::fifo_before(rq[i], rq[j]) by {
            assert(rq[i] == full[i] && rq[j] == full[j]);
        }
    }

    /// Law: an empty inventory can satisfy no positive demand — the
    /// available sum of any blood type is zero, so `check_availability`
    /// answers `false` for every quantity above zero.
    pub proof fn lemma_empty_inventory_has_no_availability(
        self,
        blood_type: BloodType,
        required_quantity: u32,
        now: u64,
    )
        requires
            self.units@.len() == 0,
            required_quantity > 0,
        ensures
            Self::avail_sum(self.units@, blood_type, now) < required_quantity as int,
    {
    }

    /// One step of a batch allocation: the outcome of allocating `id` on
    /// a given unit store.
    pub open spec fn batch_allocate_step(
        units: Seq<BloodUnit>,
        id: u64,
        hospital: u64,
        now: u64,
    ) -> Result<Seq<BloodUnit>, Error> {
        if !(1 <= id <= units.len()) {
            Err(Error::UnitNotFound)
        } else if units[id - 1].expiration_date <= now {
            Err(Error::UnitExpired)
        } else if units[id - 1].status != BloodStatus::Available {
            Err(Error::InvalidStatus)
        } else {
            Ok(units.update(id - 1, Self::reserved_unit(units[id - 1], hospital, now)))
        }
    }

    /// A batch allocation processed front to back: the store after all
    /// allocations, or the error of the first failing element.  A unit
    /// listed twice fails its second mention, since it is `Reserved` by
    /// then.
    pub open spec fn batch_allocate_fold(
        units: Seq<BloodUnit>,
        ids: Seq<u64>,
        hospital: u64,
        now: u64,
    ) -> Result<Seq<BloodUnit>, Error>
        decreases ids.len(),
    {
        if ids.len() == 0 {
            Ok(units)
        } else {
            match Self::batch_allocate_step(units, ids[0], hospital, now) {
                Ok(u2) => Self::batch_allocate_fold(u2, ids.skip(1), hospital, now),
                Err(e) => Err(e),
            }
        }
    }

    /// The events a successful batch allocation emits: per unit, its
    /// status-change event followed by its allocation event.
    pub open spec fn alloc_events(
        ids: Seq<u64>,
        hospital: u64,
        bank_id: u64,
        now: u64,
    ) -> Seq<EmittedEvent>
        decreases ids.len(),
    {
        if ids.len() == 0 {
            Seq::empty()
        } else {
            Self::alloc_events(ids.drop_last(), hospital, bank_id, now) + seq![
                EmittedEvent::StatusChange(
                    change_record(
                        ids.last(),
                        BloodStatus::Available,
                        BloodStatus::Reserved,
                        bank_id,
                        now,
                    ),
                ),
                (EmittedEvent::Allocated { unit_id: ids.last(), hospital, timestamp: now }),
            ]
        }
    }

    /// Allocate several units to one hospital atomically: either every
    /// listed unit is `Available`, unexpired, and becomes `Reserved`, or
    /// the first failing element's error is returned and no unit's state
    /// changes at all.
    pub fn batch_allocate_blood(
        &mut self,
        bank_id: u64,
        unit_ids: Vec<u64>,
        hospital: u64,
        now: u64,
    ) -> (r: Result<Vec<u64>, Error>)
        requires
            old(self).wf(),
        ensures
            final(self).wf(),
            ({
                let pre = *old(self);
                let ids = unit_ids@;
                if ids.len() > MAX_BATCH_SIZE {
                    r == Err::<Vec<u64>, Error>(Error::BatchSizeExceeded) && *final(self) == pre
                } else if !pre.bank_registered(bank_id) {
                    r == Err::<Vec<u64>, Error>(Error::Unauthorized) && *final(self) == pre
                } else if !pre.hospital_registered(hospital) {
                    r == Err::<Vec<u64>, Error>(Error::UnauthorizedHospital) && *final(self) == pre
                } else {
                    match Self::batch_allocate_fold(pre.units@, ids, hospital, now) {
                        Ok(us) => {
                            &&& r == Ok::<Vec<u64>, Error>(unit_ids)
                            &&& final(self).units@ == us
                            &&& final(self).history@ == pre.history@ + ids.map_values(
                                |id: u64|
                                    change_record(
                                        id,
                                        BloodStatus::Available,
                                        BloodStatus::Reserved,
                                        bank_id,
                                        now,
                                    ),
                            )
                            &&& final(self).events@ == pre.events@ + Self::alloc_events(
                                ids,
                                hospital,
                                bank_id,
                                now,
                            )
                            &&& final(self).requests == pre.requests
                            &&& Self::roles_unchanged(pre, *final(self))
                        },
                        Err(e) => r == Err::<Vec<u64>, Error>(e) && *final(self) == pre,
                    }
                }
            }),
    {
        if unit_ids.len() > MAX_BATCH_SIZE {
            return Err(Error::BatchSizeExceeded);
        }
        if !self.is_blood_bank(bank_id) {
            return Err(Error::Unauthorized);
        }
        if !self.is_hospital(hospital) {
            return Err(Error::UnauthorizedHospital);
        }
        let ghost pre = *old(self);
        let ghost ids = unit_ids@;

        // Work on a scratch copy of the store, so that a failure leaves
        // the ledger untouched.
        let mut scratch = copy_units(&self.units);
        let mut j: usize = 0;
        proof {
            assert(ids.skip(0) =~= ids);
        }
        while j < unit_ids.len()
            invariant
                0 <= j <= ids.len(),
                pre == *old(self),
                *self == pre,
                pre.wf(),
                ids == unit_ids@,
                ids.len() <= MAX_BATCH_SIZE,
                pre.bank_registered(bank_id),
                pre.hospital_registered(hospital),
                scratch@.len() == pre.units@.len(),
                forall|i: int|
                    0 <= i < scratch@.len() ==> (#[trigger] scratch@[i]).id == i + 1,
                Self::batch_allocate_fold(pre.units@, ids, hospital, now)
                    == Self::batch_allocate_fold(scratch@, ids.skip(j as int), hospital, now),
            decreases ids.len() - j,
        {
            let uid = unit_ids[j];
            proof {
                let j0 = j as int;
                assert(ids.skip(j0).len() > 0);
                assert(ids.skip(j0)[0] == ids[j0]);
                assert(ids.skip(j0).skip(1) =~= ids.skip(j0 + 1));
            }
            if !(1 <= uid && uid <= scratch.len() as u64) {
                assert(Self::batch_allocate_step(scratch@, uid, hospital, now)
                    == Err::<Seq<BloodUnit>, Error>(Error::UnitNotFound));
                return Err(Error::UnitNotFound);
            }
            let uidx = (uid - 1) as usize;
            let u = scratch[uidx];
            if u.expiration_date <= now {
                assert(Self::batch_allocate_step(scratch@, uid, hospital, now)
                    == Err::<Seq<BloodUnit>, Error>(Error::UnitExpired));
                return Err(Error::UnitExpired);
            }
            if u.status != BloodStatus::Available {
                assert(Self::batch_allocate_step(scratch@, uid, hospital, now)
                    == Err::<Seq<BloodUnit>, Error>(Error::InvalidStatus));
                return Err(Error::InvalidStatus);
            }
            let ghost old_scratch = scratch@;
            let updated = BloodUnit {
                status: BloodStatus::Reserved,
                recipient_hospital: Some(hospital),
                allocation_timestamp: Some(now),
                ..u
            };
            scratch.set(uidx, updated);
            proof {
                let j0 = j as int;
                assert(scratch@ == old_scratch.update(
                    uid - 1,
                    Self::reserved_unit(old_scratch[uid - 1], hospital, now),
                ));
                assert(Self::batch_allocate_step(old_scratch, uid, hospital, now)
                    == Ok::<Seq<BloodUnit>, Error>(scratch@));
                assert(ids.skip(j0).skip(1) == ids.skip(j0 + 1));
                assert(Self::batch_allocate_fold(old_scratch, ids.skip(j0), hospital, now)
                    == Self::batch_allocate_fold(scratch@, ids.skip(j0 + 1), hospital, now));
            }
            j = j + 1;
        }
        proof {
            assert(ids.skip(ids.len() as int) =~= Seq::<u64>::empty());
            assert(Self::batch_allocate_fold(pre.units@, ids, hospital, now)
                == Ok::<Seq<BloodUnit>, Error>(scratch@));
        }
        self.units = scratch;

        // Commit the audit records and events, one unit at a time.
        let ghost grec = |id: u64|
            change_record(id, BloodStatus::Available, BloodStatus::Reserved, bank_id, now);
        let mut k: usize = 0;
        proof {
            assert(ids.take(0) =~= Seq::<u64>::empty());
            assert(self.history@ =~= pre.history@ + ids.take(0).map_values(grec));
            assert(self.events@ =~= pre.events@ + Self::alloc_events(
                ids.take(0),
                hospital,
                bank_id,
                now,
            ));
        }
        while k < unit_ids.len()
            invariant
                0 <= k <= ids.len(),
                pre == *old(self),
                ids == unit_ids@,
                grec == (|id: u64|
                    change_record(id, BloodStatus::Available, BloodStatus::Reserved, bank_id, now)),
                self.admin == pre.admin,
                self.banks == pre.banks,
                self.hospitals == pre.hospitals,
                self.requests == pre.requests,
                forall|i: int|
                    0 <= i < self.units@.len() ==> (#[trigger] self.units@[i]).id == i + 1,
                Self::batch_allocate_fold(pre.units@, ids, hospital, now)
                    == Ok::<Seq<BloodUnit>, Error>(self.units@),
                self.history@ == pre.history@ + ids.take(k as int).map_values(grec),
                self.events@ == pre.events@ + Self::alloc_events(
                    ids.take(k as int),
                    hospital,
                    bank_id,
                    now,
                ),
            decreases ids.len() - k,
        {
            let uid = unit_ids[k];
            let record = StatusChangeEvent {
                blood_unit_id: uid,
                old_status: BloodStatus::Available,
                new_status: BloodStatus::Reserved,
                actor: bank_id,
                timestamp: now,
            };
            self.history.push(record);
            self.events.push(EmittedEvent::StatusChange(record));
            self.events.push(EmittedEvent::Allocated { unit_id: uid, hospital, timestamp: now });
            proof {
                let k0 = k as int;
                assert(ids.take(k0 + 1).drop_last() =~= ids.take(k0));
                assert(ids.take(k0 + 1).last() == ids[k0]);
                let t0 = ids.take(k0);
                let t1 = ids.take(k0 + 1);
                assert(t1.map_values(grec) =~= t0.map_values(grec).push(grec(uid)));
                assert(Self::alloc_events(t1, hospital, bank_id, now) == Self::alloc_events(
                    t0,
                    hospital,
                    bank_id,
                    now,
                ) + seq![
                    EmittedEvent::StatusChange(grec(uid)),
                    (EmittedEvent::Allocated { unit_id: uid, hospital, timestamp: now }),
                ]);
                assert(self.history@ =~= pre.history@ + t1.map_values(grec));
                assert(self.events@ =~= pre.events@ + Self::alloc_events(
                    t1,
                    hospital,
                    bank_id,
                    now,
                ));
            }
            k = k + 1;
        }
        proof {
            lemma_take_all(ids);
        }
        Ok(unit_ids)
    }

    /// Whether a request transition is an edge of the request table.
    pub fn is_valid_status_transition(old_status: &RequestStatus, new_status: &RequestStatus) -> (r:
        bool)
        ensures
            r == request_transition_allowed(*old_status, *new_status),
    {
        is_valid_request_transition(*old_status, *new_status)
    }

    /// A request just created looks like this: the given parameters, the
    /// next dense id, `Pending`, no fulfillment, no units attached.
    pub open spec fn is_fresh_request(
        q: BloodRequest,
        id: u64,
        hospital_id: u64,
        blood_type: BloodType,
        quantity_ml: u32,
        urgency: UrgencyLevel,
        required_by: u64,
        delivery_address: String,
        now: u64,
    ) -> bool {
        &&& q.id == id
        &&& q.hospital_id == hospital_id
        &&& q.blood_type == blood_type
        &&& q.quantity_ml == quantity_ml
        &&& q.urgency == urgency
        &&& q.required_by == required_by
        &&& q.delivery_address == delivery_address
        &&& q.created_at == now
        &&& q.status == RequestStatus::Pending
        &&& q.fulfillment_timestamp is None
        &&& q.reserved_unit_ids@.len() == 0
    }

    /// An existing request is an active duplicate of the given parameter
    /// tuple when all six identifying fields agree and it has not reached
    /// a terminal status.
    pub open spec fn duplicate_pred(
        hospital_id: u64,
        blood_type: BloodType,
        quantity_ml: u32,
        urgency: UrgencyLevel,
        required_by: u64,
        delivery_address: Seq<char>,
    ) -> spec_fn(BloodRequest) -> bool {
        |q: BloodRequest|
            q.hospital_id == hospital_id && q.blood_type == blood_type && q.quantity_ml
                == quantity_ml && q.urgency == urgency && q.required_by == required_by
                && q.delivery_address@ == delivery_address && !request_status_terminal(q.status)
    }

    /// Whether an active duplicate of the tuple exists in the store.
    pub open spec fn has_active_duplicate(
        self,
        hospital_id: u64,
        blood_type: BloodType,
        quantity_ml: u32,
        urgency: UrgencyLevel,
        required_by: u64,
        delivery_address: Seq<char>,
    ) -> bool {
        exists|j: int|
            0 <= j < self.requests@.len() && Self::duplicate_pred(
                hospital_id,
                blood_type,
                quantity_ml,
                urgency,
                required_by,
                delivery_address,
            )(#[trigger] self.requests@[j])
    }

    /// File a blood request.
    ///
    /// The caller must hold the hospital role; the quantity must lie in
    /// `[MIN_REQUEST_ML, MAX_REQUEST_ML]`; the delivery address must be
    /// non-empty; the deadline must be strictly in the future; and no
    /// active (non-terminal) request with the identical parameter tuple
    /// may exist.  The first failing check decides the error and nothing
    /// is written.
    pub fn create_request(
        &mut self,
        hospital_id: u64,
        blood_type: BloodType,
        quantity_ml: u32,
        urgency: UrgencyLevel,
        required_by: u64,
        delivery_address: String,
        now: u64,
    ) -> (r: Result<u64, Error>)
        requires
            old(self).wf(),
            old(self).requests@.len() < u64::MAX,
        ensures
            final(self).wf(),
            ({
                let pre = *old(self);
                if !pre.hospital_registered(hospital_id) {
                    r == Err::<u64, Error>(Error::Unauthorized) && *final(self) == pre
                } else if !quantity_in_range(quantity_ml, MIN_REQUEST_ML, MAX_REQUEST_ML) {
                    r == Err::<u64, Error>(Error::InvalidQuantity) && *final(self) == pre
                } else if delivery_address@.len() == 0 {
                    r == Err::<u64, Error>(Error::InvalidDeliveryAddress) && *final(self) == pre
                } else if required_by <= now {
                    r == Err::<u64, Error>(Error::InvalidRequiredBy) && *final(self) == pre
                } else if pre.has_active_duplicate(
                    hospital_id,
                    blood_type,
                    quantity_ml,
                    urgency,
                    required_by,
                    delivery_address@,
                ) {
                    r == Err::<u64, Error>(Error::DuplicateRequest) && *final(self) == pre
                } else {
                    let id = (pre.requests@.len() + 1) as u64;
                    &&& r == Ok::<u64, Error>(id)
                    &&& final(self).requests@.len() == pre.requests@.len() + 1
                    &&& forall|j: int|
                        0 <= j < pre.requests@.len() ==> final(self).requests@[j]
                            == pre.requests@[j]
                    &&& Self::is_fresh_request(
                        final(self).requests@.last(),
                        id,
                        hospital_id,
                        blood_type,
                        quantity_ml,
                        urgency,
                        required_by,
                        delivery_address,
                        now,
                    )
                    &&& final(self).events@ == pre.events@.push(
                        EmittedEvent::RequestCreated(
                            (RequestCreatedEvent {
                                request_id: id,
                                hospital_id,
                                blood_type,
                                quantity_ml,
                                urgency,
                                required_by,
                                delivery_address,
                                created_at: now,
                            }),
                        ),
                    )
                    &&& Self::roles_unchanged(pre, *final(self))
                    &&& final(self).units == pre.units
                    &&& final(self).history == pre.history
                }
            }),
    {
        if !self.is_hospital(hospital_id) {
            return Err(Error::Unauthorized);
        }
        if !validate_quantity(quantity_ml, MIN_REQUEST_ML, MAX_REQUEST_ML) {
            return Err(Error::InvalidQuantity);
        }
        if !validate_non_empty_text(&delivery_address) {
            return Err(Error::InvalidDeliveryAddress);
        }
        if required_by <= now {
            return Err(Error::InvalidRequiredBy);
        }
        let ghost dpred = Self::duplicate_pred(
            hospital_id,
            blood_type,
            quantity_ml,
            urgency,
            required_by,
            delivery_address@,
        );
        let mut j: usize = 0;
        while j < self.requests.len()
            invariant
                0 <= j <= self.requests@.len(),
                *self == *old(self),
                old(self).wf(),
                old(self).hospital_registered(hospital_id),
                quantity_in_range(quantity_ml, MIN_REQUEST_ML, MAX_REQUEST_ML),
                delivery_address@.len() > 0,
                required_by > now,
                dpred == Self::duplicate_pred(
                    hospital_id,
                    blood_type,
                    quantity_ml,
                    urgency,
                    required_by,
                    delivery_address@,
                ),
                forall|k: int| 0 <= k < j ==> !dpred(#[trigger] self.requests@[k]),
            decreases self.requests@.len() - j,
        {
            let q = &self.requests[j];
            let same_tuple = q.hospital_id == hospital_id && q.blood_type == blood_type
                && q.quantity_ml == quantity_ml && q.urgency == urgency && q.required_by
                == required_by && q.delivery_address == delivery_address;
            if same_tuple && !crate::transitions::is_request_status_terminal(q.status) {
                assert(dpred(self.requests@[j as int]));
                return Err(Error::DuplicateRequest);
            }
            j = j + 1;
        }
        let request_id = (self.requests.len() as u64) + 1;
        let request = BloodRequest {
            id: request_id,
            hospital_id,
            blood_type,
            quantity_ml,
            urgency,
            required_by,
            delivery_address: delivery_address.clone(),
            created_at: now,
            status: RequestStatus::Pending,
            fulfillment_timestamp: None,
            reserved_unit_ids: Vec::new(),
        };
        self.requests.push(request);
        self.events.push(
            EmittedEvent::RequestCreated(
                RequestCreatedEvent {
                    request_id,
                    hospital_id,
                    blood_type,
                    quantity_ml,
                    urgency,
                    required_by,
                    delivery_address,
                    created_at: now,
                },
            ),
        );
        Ok(request_id)
    }

    /// The request value after a plain status update.
    pub open spec fn restatused_request(q: BloodRequest, new_status: RequestStatus) -> BloodRequest {
        BloodRequest { status: new_status, ..q }
    }

    /// Move a request along the request transition table.  Attempting an
    /// edge outside the table fails with `InvalidTransition` and changes
    /// nothing; a missing request fails with `UnitNotFound`.
    pub fn update_request_status(
        &mut self,
        request_id: u64,
        new_status: RequestStatus,
        now: u64,
    ) -> (r: Result<(), Error>)
        requires
            old(self).wf(),
        ensures
            final(self).wf(),
            ({
                let pre = *old(self);
                if !pre.has_request(request_id) {
                    r == Err::<(), Error>(Error::UnitNotFound) && *final(self) == pre
                } else if !request_transition_allowed(pre.request(request_id).status, new_status) {
                    r == Err::<(), Error>(Error::InvalidTransition) && *final(self) == pre
                } else {
                    &&& r == Ok::<(), Error>(())
                    &&& final(self).requests@ == pre.requests@.update(
                        request_id - 1,
                        Self::restatused_request(pre.request(request_id), new_status),
                    )
                    &&& final(self).events@ == pre.events@.push(
                        EmittedEvent::RequestStatusChange(
                            (RequestStatusChangeEvent {
                                request_id,
                                old_status: pre.request(request_id).status,
                                new_status,
                                actor: SYSTEM_ACTOR,
                                timestamp: now,
                                reason: None,
                            }),
                        ),
                    )
                    &&& Self::roles_unchanged(pre, *final(self))
                    &&& final(self).units == pre.units
                    &&& final(self).history == pre.history
                }
            }),
    {
        if !(1 <= request_id && request_id <= self.requests.len() as u64) {
            return Err(Error::UnitNotFound);
        }
        let idx = (request_id - 1) as usize;
        let old_status = self.requests[idx].status;
        if !is_valid_request_transition(old_status, new_status) {
            return Err(Error::InvalidTransition);
        }
        let ghost pre_requests = self.requests@;
        let mut q = self.requests.remove(idx);
        q.status = new_status;
        self.requests.insert(idx, q);
        proof {
            assert(self.requests@ =~= pre_requests.update(
                request_id - 1,
                Self::restatused_request(pre_requests[request_id - 1], new_status),
            ));
        }
        self.events.push(
            EmittedEvent::RequestStatusChange(
                RequestStatusChangeEvent {
                    request_id,
                    old_status,
                    new_status,
                    actor: SYSTEM_ACTOR,
                    timestamp: now,
                    reason: None,
                },
            ),
        );
        Ok(())
    }

    /// Which reserved unit ids cancellation releases: those whose unit is
    /// currently `Reserved`.
    pub open spec fn release_pred(pre: Self) -> spec_fn(u64) -> bool {
        |id: u64| pre.units@[id - 1].status == BloodStatus::Reserved
    }

    /// `q2` is `q` after cancellation: same request, status `Cancelled`,
    /// unit list cleared.
    pub open spec fn is_cancelled_version(q2: BloodRequest, q: BloodRequest) -> bool {
        &&& q2.id == q.id
        &&& q2.hospital_id == q.hospital_id
        &&& q2.blood_type == q.blood_type
        &&& q2.quantity_ml == q.quantity_ml
        &&& q2.urgency == q.urgency
        &&& q2.required_by == q.required_by
        &&& q2.delivery_address == q.delivery_address
        &&& q2.created_at == q.created_at
        &&& q2.status == RequestStatus::Cancelled
        &&& q2.fulfillment_timestamp == q.fulfillment_timestamp
        &&& q2.reserved_unit_ids@.len() == 0
    }

    /// Cancel a request that is still `Pending`, `Approved` or
    /// `InProgress`.  The requesting hospital or any blood bank may
    /// cancel.  Units on the request's list that are currently `Reserved`
    /// return to `Available` with their allocation cleared, each release
    /// audited; the request's unit list is cleared.
    pub fn cancel_request(&mut self, request_id: u64, caller: u64, reason: String, now: u64) -> (r:
        Result<(), Error>)
        requires
            old(self).wf(),
        ensures
            final(self).wf(),
            ({
                let pre = *old(self);
                if !pre.has_request(request_id) {
                    r == Err::<(), Error>(Error::UnitNotFound) && *final(self) == pre
                } else if !(caller == pre.request(request_id).hospital_id || pre.bank_registered(
                    caller,
                )) {
                    r == Err::<(), Error>(Error::Unauthorized) && *final(self) == pre
                } else if !request_transition_allowed(
                    pre.request(request_id).status,
                    RequestStatus::Cancelled,
                ) {
                    r == Err::<(), Error>(Error::InvalidStatus) && *final(self) == pre
                } else {
                    let req = pre.request(request_id);
                    let rel = req.reserved_unit_ids@.filter(Self::release_pred(pre));
                    &&& r == Ok::<(), Error>(())
                    &&& final(self).units@.len() == pre.units@.len()
                    &&& forall|u: int|
                        0 <= u < pre.units@.len() ==> final(self).units@[u] == (
                        if req.reserved_unit_ids@.contains((u + 1) as u64) && pre.units@[u].status
                            == BloodStatus::Reserved {
                            Self::released_unit(pre.units@[u])
                        } else {
                            pre.units@[u]
                        })
                    &&& final(self).history@ == pre.history@ + rel.map_values(
                        |id: u64|
                            change_record(
                                id,
                                BloodStatus::Reserved,
                                BloodStatus::Available,
                                caller,
                                now,
                            ),
                    )
                    &&& final(self).events@ == pre.events@ + rel.map_values(
                        |id: u64|
                            EmittedEvent::StatusChange(
                                change_record(
                                    id,
                                    BloodStatus::Reserved,
                                    BloodStatus::Available,
                                    caller,
                                    now,
                                ),
                            ),
                    ).push(
                        EmittedEvent::RequestStatusChange(
                            (RequestStatusChangeEvent {
                                request_id,
                                old_status: req.status,
                                new_status: RequestStatus::Cancelled,
                                actor: caller,
                                timestamp: now,
                                reason: Some(reason),
                            }),
                        ),
                    )
                    &&& final(self).requests@.len() == pre.requests@.len()
                    &&& forall|j: int|
                        0 <= j < pre.requests@.len() && j != request_id - 1
                            ==> final(self).requests@[j] == pre.requests@[j]
                    &&& Self::is_cancelled_version(final(self).requests@[request_id - 1], req)
                    &&& Self::roles_unchanged(pre, *final(self))
                }
            }),
    {
        if !(1 <= request_id && request_id <= self.requests.len() as u64) {
            return Err(Error::UnitNotFound);
        }
        let idx = (request_id - 1) as usize;
        let is_owner = caller == self.requests[idx].hospital_id;
        let is_bank = self.is_blood_bank(caller);
        if !is_owner && !is_bank {
            return Err(Error::Unauthorized);
        }
        let old_status = self.requests[idx].status;
        if !is_valid_request_transition(old_status, RequestStatus::Cancelled) {
            return Err(Error::InvalidStatus);
        }
        let ghost pre = *old(self);
        let ghost rp = Self::release_pred(pre);
        let ghost list = pre.requests@[request_id - 1].reserved_unit_ids@;
        let ghost grec = |id: u64|
            change_record(id, BloodStatus::Reserved, BloodStatus::Available, caller, now);
        let ghost gev = |id: u64|
            EmittedEvent::StatusChange(
                change_record(id, BloodStatus::Reserved, BloodStatus::Available, caller, now),
            );
        let n = self.requests[idx].reserved_unit_ids.len();
        let mut k: usize = 0;
        proof {
            reveal(Seq::filter);
            assert(list.take(0) =~= Seq::<u64>::empty());
            assert(self.history@ =~= pre.history@ + list.take(0).filter(rp).map_values(grec));
            assert(self.events@ =~= pre.events@ + list.take(0).filter(rp).map_values(gev));
        }
        while k < n
            invariant
                0 <= k <= n,
                pre == *old(self),
                pre.wf(),
                1 <= request_id && request_id <= pre.requests@.len(),
                idx == request_id - 1,
                rp == Self::release_pred(pre),
                list == pre.requests@[request_id - 1].reserved_unit_ids@,
                grec == (|id: u64|
                    change_record(id, BloodStatus::Reserved, BloodStatus::Available, caller, now)),
                gev == (|id: u64|
                    EmittedEvent::StatusChange(
                        change_record(id, BloodStatus::Reserved, BloodStatus::Available, caller, now),
                    )),
                n == list.len(),
                self.admin == pre.admin,
                self.banks == pre.banks,
                self.hospitals == pre.hospitals,
                self.requests == pre.requests,
                self.units@.len() == pre.units@.len(),
                forall|u: int|
                    0 <= u < pre.units@.len() ==> #[trigger] self.units@[u] == (if list.take(
                        k as int,
                    ).contains((u + 1) as u64) && pre.units@[u].status == BloodStatus::Reserved {
                        Self::released_unit(pre.units@[u])
                    } else {
                        pre.units@[u]
                    }),
                self.history@ == pre.history@ + list.take(k as int).filter(rp).map_values(grec),
                self.events@ == pre.events@ + list.take(k as int).filter(rp).map_values(gev),
            decreases n - k,
        {
            let uid = self.requests[idx].reserved_unit_ids[k];
            proof {
                assert(list[k as int] == uid);
                assert(ids_valid(list, pre.units@.len() as int));
                assert(ids_distinct(list));
                assert(1 <= uid <= pre.units@.len());
                assert(!list.take(k as int).contains(uid)) by {
                    if list.take(k as int).contains(uid) {
                        let w = choose|w: int| 0 <= w < k && list.take(k as int)[w] == uid;
                        assert(list[w] == list[k as int]);
                    }
                }
                lemma_filter_take_step(list, rp, k as int);
                assert(list.take(k + 1) =~= list.take(k as int).push(uid));
                assert forall|x: u64| list.take(k + 1).contains(x) == (list.take(
                    k as int,
                ).contains(x) || x == uid) by {
                    if list.take(k + 1).contains(x) {
                        let w = choose|w: int| 0 <= w < k + 1 && #[trigger] list.take(k + 1)[w]
                            == x;
                        if w < k {
                            assert(list.take(k as int)[w] == x);
                        }
                    }
                    if list.take(k as int).contains(x) {
                        let w = choose|w: int| 0 <= w < k && list.take(k as int)[w] == x;
                        assert(list.take(k + 1)[w] == x);
                    }
                    if x == uid {
                        assert(list.take(k + 1)[k as int] == x);
                    }
                }
            }
            let uidx = (uid - 1) as usize;
            let u = self.units[uidx];
            proof {
                let ui = uidx as int;
                assert(pre.units.len() == pre.units@.len());
                assert(uid - 1 < pre.units@.len());
                assert((ui + 1) as u64 == uid);
                assert(self.units@[ui] == pre.units@[ui]);
                assert(u == pre.units@[uidx as int]);
            }
            if u.status == BloodStatus::Reserved {
                let updated = BloodUnit {
                    status: BloodStatus::Available,
                    recipient_hospital: None,
                    allocation_timestamp: None,
                    ..u
                };
                self.units.set(uidx, updated);
                let record = StatusChangeEvent {
                    blood_unit_id: uid,
                    old_status: BloodStatus::Reserved,
                    new_status: BloodStatus::Available,
                    actor: caller,
                    timestamp: now,
                };
                self.history.push(record);
                self.events.push(EmittedEvent::StatusChange(record));
                proof {
                    assert(rp(uid));
                    let f0 = list.take(k as int).filter(rp);
                    assert(list.take(k + 1).filter(rp) == f0.push(uid));
                    assert(f0.push(uid).map_values(grec) =~= f0.map_values(grec).push(grec(uid)));
                    assert(f0.push(uid).map_values(gev) =~= f0.map_values(gev).push(gev(uid)));
                    assert(self.history@ =~= pre.history@ + list.take(k + 1).filter(rp).map_values(
                        grec,
                    ));
                    assert(self.events@ =~= pre.events@ + list.take(k + 1).filter(rp).map_values(
                        gev,
                    ));
                }
            } else {
                proof {
                    assert(!rp(uid));
                    assert(list.take(k + 1).filter(rp) == list.take(k as int).filter(rp));
                }
            }
            k = k + 1;
        }
        proof {
            lemma_take_all(list);
            assert(list.take(n as int) == list);
        }
        let ghost rel = list.filter(rp);
        let mut q = self.requests.remove(idx);
        q.status = RequestStatus::Cancelled;
        q.reserved_unit_ids = Vec::new();
        let ghost q2 = q;
        self.requests.insert(idx, q);
        proof {
            assert(self.requests@ =~= pre.requests@.update(request_id - 1, q2));
        }
        self.events.push(
            EmittedEvent::RequestStatusChange(
                RequestStatusChangeEvent {
                    request_id,
                    old_status,
                    new_status: RequestStatus::Cancelled,
                    actor: caller,
                    timestamp: now,
                    reason: Some(reason),
                },
            ),
        );
        Ok(())
    }

    /// A single unit qualifies for fulfillment: it exists, is reserved
    /// for the requesting hospital (possibly already in transit), and has
    /// not expired.
    pub open spec fn fulfill_unit_ok(pre: Self, hospital: u64, id: u64, now: u64) -> bool {
        &&& pre.has_unit(id)
        &&& pre.unit(id).recipient_hospital == Some(hospital)
        &&& (pre.unit(id).status == BloodStatus::Reserved || pre.unit(id).status
            == BloodStatus::InTransit)
        &&& !unit_is_expired(pre.unit(id), now)
    }

    /// Element `j` of the fulfillment list is acceptable: its unit
    /// qualifies and it is the first mention of that unit.
    pub open spec fn fulfill_elem_ok(pre: Self, hospital: u64, ids: Seq<u64>, j: int, now: u64) -> bool {
        &&& Self::fulfill_unit_ok(pre, hospital, ids[j], now)
        &&& forall|i: int| 0 <= i < j ==> ids[i] != ids[j]
    }

    /// The error an unacceptable element produces, mirroring the order of
    /// the checks: a missing unit, then one reserved for someone else,
    /// then one not (or no longer) reserved, then one expired.
    pub open spec fn fulfill_elem_error(pre: Self, hospital: u64, ids: Seq<u64>, j: int, now: u64) -> Error {
        if !pre.has_unit(ids[j]) {
            Error::UnitNotFound
        } else if pre.unit(ids[j]).recipient_hospital != Some(hospital) {
            Error::Unauthorized
        } else if (exists|i: int| 0 <= i < j && ids[i] == ids[j]) || !(pre.unit(ids[j]).status
            == BloodStatus::Reserved || pre.unit(ids[j]).status == BloodStatus::InTransit) {
            Error::InvalidStatus
        } else {
            Error::UnitExpired
        }
    }

    /// A unit after fulfillment: delivered now; one still `Reserved`
    /// passes through transit on the spot, so its transfer timestamp is
    /// set as well.
    pub open spec fn fulfilled_unit(u: BloodUnit, now: u64) -> BloodUnit {
        if u.status == BloodStatus::Reserved {
            BloodUnit {
                status: BloodStatus::Delivered,
                transfer_timestamp: Some(now),
                delivery_timestamp: Some(now),
                ..u
            }
        } else {
            BloodUnit { status: BloodStatus::Delivered, delivery_timestamp: Some(now), ..u }
        }
    }

    /// The audit records fulfillment writes for one unit: a `Reserved`
    /// unit cascades through `InTransit` so that every recorded edge lies
    /// in the transition table.
    pub open spec fn unit_delivery_records(
        u: BloodUnit,
        id: u64,
        actor: u64,
        now: u64,
    ) -> Seq<StatusChangeEvent> {
        if u.status == BloodStatus::Reserved {
            seq![
                change_record(id, BloodStatus::Reserved, BloodStatus::InTransit, actor, now),
                change_record(id, BloodStatus::InTransit, BloodStatus::Delivered, actor, now),
            ]
        } else {
            seq![change_record(id, BloodStatus::InTransit, BloodStatus::Delivered, actor, now)]
        }
    }

    /// All audit records fulfillment writes, in list order.
    pub open spec fn delivery_records(
        pre: Self,
        ids: Seq<u64>,
        actor: u64,
        now: u64,
    ) -> Seq<StatusChangeEvent>
        decreases ids.len(),
    {
        if ids.len() == 0 {
            Seq::empty()
        } else {
            Self::delivery_records(pre, ids.drop_last(), actor, now) + Self::unit_delivery_records(
                pre.unit(ids.last()),
                ids.last(),
                actor,
                now,
            )
        }
    }

    /// Every record fulfillment writes is an edge of the unit transition
    /// table.
    proof fn lemma_delivery_records_edges(pre: Self, ids: Seq<u64>, actor: u64, now: u64)
        ensures
            forall|t: int|
                0 <= t < Self::delivery_records(pre, ids, actor, now).len()
                    ==> unit_transition_allowed(
                    (#[trigger] Self::delivery_records(pre, ids, actor, now)[t]).old_status,
                    Self::delivery_records(pre, ids, actor, now)[t].new_status,
                ),
        decreases ids.len(),
    {
        if ids.len() > 0 {
            Self::lemma_delivery_records_edges(pre, ids.drop_last(), actor, now);
        }
    }

    /// Fulfill an `Approved` or `InProgress` request with the listed
    /// units.
    ///
    /// Only a blood bank may fulfill.  Every listed unit must exist, be
    /// reserved for the requesting hospital (or already in transit to
    /// it), be unexpired, and be listed only once; the first offending
    /// element decides the error and nothing at all is written.  On
    /// success every listed unit becomes `Delivered`, each step audited,
    /// and the request becomes `Fulfilled` with the list attached and the
    /// fulfillment time set.
    pub fn fulfill_request(
        &mut self,
        caller: u64,
        request_id: u64,
        unit_ids: Vec<u64>,
        now: u64,
    ) -> (r: Result<(), Error>)
        requires
            old(self).wf(),
        ensures
            final(self).wf(),
            ({
                let pre = *old(self);
                let ids = unit_ids@;
                if !pre.has_request(request_id) {
                    r == Err::<(), Error>(Error::UnitNotFound) && *final(self) == pre
                } else if !pre.bank_registered(caller) {
                    r == Err::<(), Error>(Error::Unauthorized) && *final(self) == pre
                } else if !(pre.request(request_id).status == RequestStatus::Approved || pre.request(
                    request_id,
                ).status == RequestStatus::InProgress) {
                    r == Err::<(), Error>(Error::InvalidStatus) && *final(self) == pre
                } else if exists|j: int|
                    0 <= j < ids.len() && !Self::fulfill_elem_ok(
                        pre,
                        pre.request(request_id).hospital_id,
                        ids,
                        j,
                        now,
                    ) {
                    let hosp = pre.request(request_id).hospital_id;
                    &&& *final(self) == pre
                    &&& exists|j: int|
                        0 <= j < ids.len() && !(#[trigger] Self::fulfill_elem_ok(
                            pre,
                            hosp,
                            ids,
                            j,
                            now,
                        )) && (forall|i: int| 0 <= i < j ==> Self::fulfill_elem_ok(
                            pre,
                            hosp,
                            ids,
                            i,
                            now,
                        )) && r == Err::<(), Error>(Self::fulfill_elem_error(pre, hosp, ids, j, now))
                } else {
                    let hosp = pre.request(request_id).hospital_id;
                    let req = pre.request(request_id);
                    let records = Self::delivery_records(pre, ids, caller, now);
                    &&& r == Ok::<(), Error>(())
                    &&& final(self).units@.len() == pre.units@.len()
                    &&& forall|u: int|
                        0 <= u < pre.units@.len() ==> #[trigger] final(self).units@[u] == (
                        if ids.contains((u + 1) as u64) {
                            Self::fulfilled_unit(pre.units@[u], now)
                        } else {
                            pre.units@[u]
                        })
                    &&& final(self).history@ == pre.history@ + records
                    &&& final(self).events@ == pre.events@ + records.map_values(
                        |rec: StatusChangeEvent| EmittedEvent::StatusChange(rec),
                    ).push(
                        EmittedEvent::RequestStatusChange(
                            (RequestStatusChangeEvent {
                                request_id,
                                old_status: req.status,
                                new_status: RequestStatus::Fulfilled,
                                actor: caller,
                                timestamp: now,
                                reason: None,
                            }),
                        ),
                    )
                    &&& final(self).requests@.len() == pre.requests@.len()
                    &&& forall|j: int|
                        0 <= j < pre.requests@.len() && j != request_id - 1
                            ==> final(self).requests@[j] == pre.requests@[j]
                    &&& ({
                        let q2 = final(self).requests@[request_id - 1];
                        &&& q2.id == req.id
                        &&& q2.hospital_id == req.hospital_id
                        &&& q2.blood_type == req.blood_type
                        &&& q2.quantity_ml == req.quantity_ml
                        &&& q2.urgency == req.urgency
                        &&& q2.required_by == req.required_by
                        &&& q2.delivery_address == req.delivery_address
                        &&& q2.created_at == req.created_at
                        &&& q2.status == RequestStatus::Fulfilled
                        &&& q2.fulfillment_timestamp == Some(now)
                        &&& q2.reserved_unit_ids == unit_ids
                    })
                    &&& Self::roles_unchanged(pre, *final(self))
                }
            }),
    {
        if !(1 <= request_id && request_id <= self.requests.len() as u64) {
            return Err(Error::UnitNotFound);
        }
        if !self.is_blood_bank(caller) {
            return Err(Error::Unauthorized);
        }
        let idx = (request_id - 1) as usize;
        let old_status = self.requests[idx].status;
        if !(old_status == RequestStatus::Approved || old_status == RequestStatus::InProgress) {
            return Err(Error::InvalidStatus);
        }
        let hosp = self.requests[idx].hospital_id;
        let ghost pre = *old(self);
        let ghost ids = unit_ids@;

        // Validate the whole list first, so that a bad element aborts the
        // operation with nothing written.
        let mut j: usize = 0;
        while j < unit_ids.len()
            invariant
                0 <= j <= ids.len(),
                pre == *old(self),
                *self == pre,
                pre.wf(),
                ids == unit_ids@,
                1 <= request_id && request_id <= pre.requests@.len(),
                idx == request_id - 1,
                pre.bank_registered(caller),
                pre.request(request_id).status == RequestStatus::Approved || pre.request(
                    request_id,
                ).status == RequestStatus::InProgress,
                hosp == pre.request(request_id).hospital_id,
                forall|i: int| 0 <= i < j ==> Self::fulfill_elem_ok(pre, hosp, ids, i, now),
            decreases ids.len() - j,
        {
            let uid = unit_ids[j];
            if !(1 <= uid && uid <= self.units.len() as u64) {
                assert(!Self::fulfill_elem_ok(pre, hosp, ids, j as int, now));
                assert(Self::fulfill_elem_error(pre, hosp, ids, j as int, now)
                    == Error::UnitNotFound);
                return Err(Error::UnitNotFound);
            }
            let u = self.units[(uid - 1) as usize];
            let recipient_matches = match u.recipient_hospital {
                Some(h) => h == hosp,
                None => false,
            };
            if !recipient_matches {
                assert(!Self::fulfill_elem_ok(pre, hosp, ids, j as int, now));
                return Err(Error::Unauthorized);
            }
            let mut i: usize = 0;
            while i < j
                invariant
                    0 <= i <= j < ids.len(),
                    pre == *old(self),
                    *self == pre,
                    pre.wf(),
                    ids == unit_ids@,
                    1 <= request_id && request_id <= pre.requests@.len(),
                    pre.bank_registered(caller),
                    pre.request(request_id).status == RequestStatus::Approved || pre.request(
                        request_id,
                    ).status == RequestStatus::InProgress,
                    hosp == pre.request(request_id).hospital_id,
                    uid == ids[j as int],
                    pre.has_unit(uid),
                    pre.unit(uid).recipient_hospital == Some(hosp),
                    forall|t: int| 0 <= t < j ==> Self::fulfill_elem_ok(pre, hosp, ids, t, now),
                    forall|t: int| 0 <= t < i ==> ids[t] != ids[j as int],
                decreases j - i,
            {
                if unit_ids[i] == uid {
                    assert(ids[i as int] == ids[j as int]);
                    assert(!Self::fulfill_elem_ok(pre, hosp, ids, j as int, now));
                    assert(Self::fulfill_elem_error(pre, hosp, ids, j as int, now)
                        == Error::InvalidStatus);
                    return Err(Error::InvalidStatus);
                }
                i = i + 1;
            }
            if !(u.status == BloodStatus::Reserved || u.status == BloodStatus::InTransit) {
                assert(!Self::fulfill_elem_ok(pre, hosp, ids, j as int, now));
                return Err(Error::InvalidStatus);
            }
            if u.expiration_date <= now {
                assert(!Self::fulfill_elem_ok(pre, hosp, ids, j as int, now));
                assert(Self::fulfill_elem_error(pre, hosp, ids, j as int, now)
                    == Error::UnitExpired);
                return Err(Error::UnitExpired);
            }
            assert(Self::fulfill_elem_ok(pre, hosp, ids, j as int, now));
            j = j + 1;
        }

        // Deliver every unit, auditing each step.
        let ghost gse = |rec: StatusChangeEvent| EmittedEvent::StatusChange(rec);
        let mut k: usize = 0;
        proof {
            assert(ids.take(0) =~= Seq::<u64>::empty());
            assert(self.history@ =~= pre.history@ + Self::delivery_records(
                pre,
                ids.take(0),
                caller,
                now,
            ));
            assert(self.events@ =~= pre.events@ + Self::delivery_records(
                pre,
                ids.take(0),
                caller,
                now,
            ).map_values(gse));
        }
        while k < unit_ids.len()
            invariant
                0 <= k <= ids.len(),
                pre == *old(self),
                pre.wf(),
                ids == unit_ids@,
                1 <= request_id && request_id <= pre.requests@.len(),
                idx == request_id - 1,
                hosp == pre.request(request_id).hospital_id,
                gse == (|rec: StatusChangeEvent| EmittedEvent::StatusChange(rec)),
                forall|t: int| 0 <= t < ids.len() ==> Self::fulfill_elem_ok(pre, hosp, ids, t, now),
                self.admin == pre.admin,
                self.banks == pre.banks,
                self.hospitals == pre.hospitals,
                self.requests == pre.requests,
                self.units@.len() == pre.units@.len(),
                forall|u: int|
                    0 <= u < pre.units@.len() ==> #[trigger] self.units@[u] == (if ids.take(
                        k as int,
                    ).contains((u + 1) as u64) {
                        Self::fulfilled_unit(pre.units@[u], now)
                    } else {
                        pre.units@[u]
                    }),
                self.history@ == pre.history@ + Self::delivery_records(
                    pre,
                    ids.take(k as int),
                    caller,
                    now,
                ),
                self.events@ == pre.events@ + Self::delivery_records(
                    pre,
                    ids.take(k as int),
                    caller,
                    now,
                ).map_values(gse),
            decreases ids.len() - k,
        {
            let uid = unit_ids[k];
            proof {
                assert(Self::fulfill_elem_ok(pre, hosp, ids, k as int, now));
                assert(pre.units.len() == pre.units@.len());
                assert(1 <= uid <= pre.units@.len());
                assert(!ids.take(k as int).contains(uid)) by {
                    if ids.take(k as int).contains(uid) {
                        let w = choose|w: int| 0 <= w < k && #[trigger] ids.take(k as int)[w]
                            == uid;
                        assert(ids[w] == ids[k as int]);
                    }
                }
            }
            let uidx = (uid - 1) as usize;
            let u = self.units[uidx];
            proof {
                let ui = uidx as int;
                assert((ui + 1) as u64 == uid);
                assert(self.units@[ui] == pre.units@[ui]);
                assert(u == pre.unit(uid));
            }
            if u.status == BloodStatus::Reserved {
                let updated = BloodUnit {
                    status: BloodStatus::Delivered,
                    transfer_timestamp: Some(now),
                    delivery_timestamp: Some(now),
                    ..u
                };
                self.units.set(uidx, updated);
                let rec1 = StatusChangeEvent {
                    blood_unit_id: uid,
                    old_status: BloodStatus::Reserved,
                    new_status: BloodStatus::InTransit,
                    actor: caller,
                    timestamp: now,
                };
                let rec2 = StatusChangeEvent {
                    blood_unit_id: uid,
                    old_status: BloodStatus::InTransit,
                    new_status: BloodStatus::Delivered,
                    actor: caller,
                    timestamp: now,
                };
                self.history.push(rec1);
                self.events.push(EmittedEvent::StatusChange(rec1));
                self.history.push(rec2);
                self.events.push(EmittedEvent::StatusChange(rec2));
            } else {
                let updated = BloodUnit {
                    status: BloodStatus::Delivered,
                    delivery_timestamp: Some(now),
                    ..u
                };
                self.units.set(uidx, updated);
                let rec = StatusChangeEvent {
                    blood_unit_id: uid,
                    old_status: BloodStatus::InTransit,
                    new_status: BloodStatus::Delivered,
                    actor: caller,
                    timestamp: now,
                };
                self.history.push(rec);
                self.events.push(EmittedEvent::StatusChange(rec));
            }
            proof {
                let k0 = k as int;
                assert(ids.take(k0 + 1).drop_last() =~= ids.take(k0));
                assert(ids.take(k0 + 1).last() == ids[k0]);
                let recs0 = Self::delivery_records(pre, ids.take(k0), caller, now);
                let urecs = Self::unit_delivery_records(pre.unit(uid), uid, caller, now);
                assert(Self::delivery_records(pre, ids.take(k0 + 1), caller, now) == recs0
                    + urecs);
                assert(self.history@ =~= pre.history@ + (recs0 + urecs));
                assert((recs0 + urecs).map_values(gse) =~= recs0.map_values(gse)
                    + urecs.map_values(gse));
                assert(self.events@ =~= pre.events@ + (recs0 + urecs).map_values(gse));
                assert forall|x: u64| ids.take(k0 + 1).contains(x) == (ids.take(k0).contains(x)
                    || x == uid) by {
                    if ids.take(k0 + 1).contains(x) {
                        let w = choose|w: int| 0 <= w < k0 + 1 && #[trigger] ids.take(k0 + 1)[w]
                            == x;
                        if w < k0 {
                            assert(ids.take(k0)[w] == x);
                        }
                    }
                    if ids.take(k0).contains(x) {
                        let w = choose|w: int| 0 <= w < k0 && #[trigger] ids.take(k0)[w] == x;
                        assert(ids.take(k0 + 1)[w] == x);
                    }
                    if x == uid {
                        assert(ids.take(k0 + 1)[k0] == x);
                    }
                }
            }
            k = k + 1;
        }
        proof {
            lemma_take_all(ids);
        }

        // Attach the list and mark the request fulfilled.
        proof {
            Self::lemma_delivery_records_edges(pre, ids, caller, now);
            assert forall|t: int| 0 <= t < ids.len() implies 1 <= #[trigger] ids[t]
                <= pre.units@.len() by {
                assert(Self::fulfill_elem_ok(pre, hosp, ids, t, now));
            }
            assert(ids_valid(ids, pre.units@.len() as int));
            assert forall|k1: int, k2: int| 0 <= k1 < k2 < ids.len() implies ids[k1]
                != ids[k2] by {
                assert(Self::fulfill_elem_ok(pre, hosp, ids, k2, now));
            }
            assert(ids_distinct(ids));
        }
        let ghost pre_requests = self.requests@;
        let mut q = self.requests.remove(idx);
        q.status = RequestStatus::Fulfilled;
        q.fulfillment_timestamp = Some(now);
        q.reserved_unit_ids = unit_ids;
        let ghost q2 = q;
        self.requests.insert(idx, q);
        proof {
            assert(self.requests@ =~= pre_requests.update(request_id - 1, q2));
        }
        self.events.push(
            EmittedEvent::RequestStatusChange(
                RequestStatusChangeEvent {
                    request_id,
                    old_status,
                    new_status: RequestStatus::Fulfilled,
                    actor: caller,
                    timestamp: now,
                    reason: None,
                },
            ),
        );
        Ok(())
    }
}

/// An element-by-element copy of a unit store.
fn copy_units(v: &Vec<BloodUnit>) -> (r: Vec<BloodUnit>)
    ensures
        r@ == v@,
{
    let mut r: Vec<BloodUnit> = Vec::new();
    let mut i: usize = 0;
    while i < v.len()
        invariant
            0 <= i <= v@.len(),
            r@ == v@.take(i as int),
        decreases v@.len() - i,
    {
        r.push(v[i]);
        proof {
            assert(r@ =~= v@.take(i + 1));
        }
        i = i + 1;
    }
    proof {
        assert(v@.take(v@.len() as int) =~= v@);
    }
    r
}

/// Linear membership test over an id list.
fn contains_id(v: &Vec<u64>, x: u64) -> (b: bool)
    ensures
        b == v@.contains(x),
{
    let mut i: usize = 0;
    while i < v.len()
        invariant
            0 <= i <= v@.len(),
            forall|j: int| 0 <= j < i ==> v@[j] != x,
        decreases v@.len() - i,
    {
        if v[i] == x {
            assert(v@[i as int] == x);
            return true;
        }
        i = i + 1;
    }
    false
}

} // verus!
