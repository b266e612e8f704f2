//! The split request surface: hospital blood requests with admin-gated
//! approval, urgency-aware validation, and a filtered, sorted, paginated
//! query engine.
//!
//! Queries read the primary store in id (insertion) order; the pending
//! queue is additionally arranged by urgency, most urgent first, with
//! ties kept in insertion order.  Pagination caps the page size at
//! `MAX_QUERY_LIMIT`, defaults it to `DEFAULT_QUERY_LIMIT`, and an offset
//! beyond the result length yields an empty page.

use vstd::prelude::*;

use crate::errors::ContractError;
use crate::transitions::request_transition_allowed;
use crate::transitions::is_valid_request_transition;
use crate::types::BloodType;
use crate::types::RequestStatus;
use crate::validation::quantity_in_range;
use crate::validation::required_by_in_range;
use crate::validation::validate_quantity;
use crate::validation::validate_required_by;
use crate::validation::validate_non_empty_text;
use crate::sorting::lemma_filter_take_step;
use crate::sorting::lemma_take_all;

verus! {

/// Smallest request quantity, in milliliters.
pub const REQ_MIN_QUANTITY_ML: u32 = 50;

/// Largest request quantity, in milliliters.
pub const REQ_MAX_QUANTITY_ML: u32 = 5000;

/// Furthest ahead a deadline may lie, in seconds (30 days).
pub const MAX_REQUEST_WINDOW_SECONDS: u64 = 30 * 86400;

/// Page size used when the caller names none.
pub const DEFAULT_QUERY_LIMIT: u32 = 50;

/// Largest page size honored, whatever the caller asks for.
pub const MAX_QUERY_LIMIT: u32 = 200;

/// Urgency of a request on this surface: priority for the fulfillment
/// queue and the minimum lead time demanded at creation.
#[derive(Clone, Copy, Debug, PartialEq, Eq, Structural)]
pub enum UrgencyLevel {
    Critical,
    Urgent,
    Normal,
}

/// Sorting weight of an urgency: higher is more urgent.
pub open spec fn spec_priority_weight(u: UrgencyLevel) -> u32 {
    match u {
        UrgencyLevel::Critical => 3,
        UrgencyLevel::Urgent => 2,
        UrgencyLevel::Normal => 1,
    }
}

/// Minimum lead time a request of this urgency must leave before its
/// deadline, in seconds: an hour for critical, four for urgent, a day
/// for routine needs.
pub open spec fn spec_min_lead(u: UrgencyLevel) -> u64 {
    match u {
        UrgencyLevel::Critical => 3600,
        UrgencyLevel::Urgent => 14400,
        UrgencyLevel::Normal => 86400,
    }
}

impl UrgencyLevel {
    /// Sorting weight: higher is more urgent.
    pub fn priority_weight(&self) -> (w: u32)
        ensures
            w == spec_priority_weight(*self),
    {
        match self {
            UrgencyLevel::Critical => 3,
            UrgencyLevel::Urgent => 2,
            UrgencyLevel::Normal => 1,
        }
    }

    /// Whether this urgency outranks another.
    pub fn is_higher_than(&self, other: &UrgencyLevel) -> (r: bool)
        ensures
            r == (spec_priority_weight(*self) > spec_priority_weight(*other)),
    {
        self.priority_weight() > other.priority_weight()
    }

    /// The minimum lead time of this urgency, in seconds.
    pub fn min_lead_seconds(&self) -> (s: u64)
        ensures
            s == spec_min_lead(*self),
    {
        match self {
            UrgencyLevel::Critical => 3600,
            UrgencyLevel::Urgent => 14400,
            UrgencyLevel::Normal => 86400,
        }
    }
}

/// Free-text context a hospital attaches to a request.
#[derive(Clone, Debug, PartialEq, Eq)]
pub struct RequestMetadata {
    pub patient_id: u64,
    pub procedure: String,
    pub notes: String,
}

/// A hospital's blood request on this surface.
#[derive(Clone, Debug, PartialEq, Eq)]
pub struct BloodRequest {
    pub id: u64,
    pub hospital_id: u64,
    pub blood_type: BloodType,
    pub quantity_ml: u32,
    pub urgency: UrgencyLevel,
    pub status: RequestStatus,
    pub created_at: u64,
    pub required_by: u64,
    pub fulfilled_at: Option<u64>,
    pub assigned_units: Vec<u64>,
    pub delivery_address: String,
    pub metadata: RequestMetadata,
}

/// One entry of this surface's event log.
#[derive(Clone, Debug)]
pub enum RequestEvent {
    Created {
        request_id: u64,
        hospital_id: u64,
        blood_type: BloodType,
        quantity_ml: u32,
        urgency: UrgencyLevel,
        required_by: u64,
        created_at: u64,
    },
    Approved { request_id: u64 },
    StatusChanged { request_id: u64, old_status: RequestStatus, new_status: RequestStatus },
    Cancelled { request_id: u64, old_status: RequestStatus },
    UnitsAssigned { request_id: u64, unit_ids: Vec<u64> },
}

/// Two request values carry the same data (their unit lists compared by
/// contents, as a copy cannot be told from its source).
pub open spec fn same_request(a: BloodRequest, b: BloodRequest) -> bool {
    &&& a.id == b.id
    &&& a.hospital_id == b.hospital_id
    &&& a.blood_type == b.blood_type
    &&& a.quantity_ml == b.quantity_ml
    &&& a.urgency == b.urgency
    &&& a.status == b.status
    &&& a.created_at == b.created_at
    &&& a.required_by == b.required_by
    &&& a.fulfilled_at == b.fulfilled_at
    &&& a.assigned_units@ == b.assigned_units@
    &&& a.delivery_address == b.delivery_address
    &&& a.metadata.patient_id == b.metadata.patient_id
    &&& a.metadata.procedure == b.metadata.procedure
    &&& a.metadata.notes == b.metadata.notes
}

/// A page of a result list: `offset` entries skipped, at most the capped
/// `limit` kept, an overlong offset yielding the empty page.
pub open spec fn page<A>(s: Seq<A>, limit: Option<u32>, offset: Option<u32>) -> Seq<A> {
    let off = (match offset {
        Some(o) => o as int,
        None => 0int,
    });
    let lim = (match limit {
        Some(l) => if l <= MAX_QUERY_LIMIT {
            l as int
        } else {
            MAX_QUERY_LIMIT as int
        },
        None => DEFAULT_QUERY_LIMIT as int,
    });
    if off >= s.len() {
        Seq::empty()
    } else if off + lim <= s.len() {
        s.subrange(off, off + lim)
    } else {
        s.subrange(off, s.len() as int)
    }
}

/// Where a request belongs in the urgency queue: strictly less urgent
/// requests move behind it, equally urgent ones stay in front.
pub open spec fn urgency_insert(s: Seq<BloodRequest>, q: BloodRequest) -> Seq<BloodRequest>
    decreases s.len(),
{
    if s.len() == 0 {
        seq![q]
    } else if spec_priority_weight(s.last().urgency) >= spec_priority_weight(q.urgency) {
        s.push(q)
    } else {
        urgency_insert(s.drop_last(), q).push(s.last())
    }
}

/// The urgency-ordered arrangement of a sequence of requests, most
/// urgent first, ties kept in the order given.
pub open spec fn urgency_sorted(s: Seq<BloodRequest>) -> Seq<BloodRequest>
    decreases s.len(),
{
    if s.len() == 0 {
        Seq::empty()
    } else {
        urgency_insert(urgency_sorted(s.drop_last()), s.last())
    }
}

/// Requests `a` before `b` in the pending queue: `a` is strictly more
/// urgent, or equally urgent but filed first.
pub open spec fn urgency_before(a: BloodRequest, b: BloodRequest) -> bool {
    spec_priority_weight(a.urgency) > spec_priority_weight(b.urgency) || (spec_priority_weight(
        a.urgency,
    ) == spec_priority_weight(b.urgency) && a.id < b.id)
}

/// Inserting into a queue ordered by `urgency_before`, where every
/// present request was filed earlier, keeps the ordering and adds
/// exactly the new request.
proof fn lemma_urgency_insert_props(s: Seq<BloodRequest>, q: BloodRequest)
    requires
        forall|i: int, j: int| 0 <= i < j < s.len() ==> urgency_before(s[i], s[j]),
        forall|i: int| 0 <= i < s.len() ==> (#[trigger] s[i]).id < q.id,
    ensures
        urgency_insert(s, q).len() == s.len() + 1,
        urgency_insert(s, q).to_multiset() == s.to_multiset().insert(q),
        forall|i: int, j: int|
            0 <= i < j < urgency_insert(s, q).len() ==> urgency_before(
                urgency_insert(s, q)[i],
                urgency_insert(s, q)[j],
            ),
        forall|i: int|
            0 <= i < urgency_insert(s, q).len() ==> s.contains(#[trigger] urgency_insert(s, q)[i])
                || urgency_insert(s, q)[i] == q,
    decreases s.len(),
{
    broadcast use vstd::seq_lib::group_to_multiset_ensures;

    let out = urgency_insert(s, q);
    if s.len() == 0 {
        assert(out =~= seq![q]);
        assert(seq![q].to_multiset() =~= s.to_multiset().insert(q)) by {
            assert(seq![q] =~= s.push(q));
        }
    } else if spec_priority_weight(s.last().urgency) >= spec_priority_weight(q.urgency) {
        assert(out == s.push(q));
        assert(urgency_before(s.last(), q));
        assert forall|i: int, j: int| 0 <= i < j < out.len() implies urgency_before(
            out[i],
            out[j],
        ) by {
            if j < s.len() as int {
            } else {
                assert(out[j] == q);
                if i < s.len() - 1 {
                    assert(urgency_before(s[i], s.last()));
                }
            }
        }
        assert forall|i: int| 0 <= i < out.len() implies s.contains(#[trigger] out[i]) || out[i]
            == q by {
            if i < s.len() as int {
                assert(out[i] == s[i]);
            }
        }
    } else {
        let t = s.drop_last();
        lemma_urgency_insert_props(t, q);
        let inner = urgency_insert(t, q);
        assert(out == inner.push(s.last()));
        assert(s =~= t.push(s.last()));
        assert(s.to_multiset() == t.to_multiset().insert(s.last()));
        assert(out.to_multiset() == inner.to_multiset().insert(s.last()));
        assert(out.to_multiset() =~= s.to_multiset().insert(q)) by {
            assert(inner.to_multiset() == t.to_multiset().insert(q));
        }
        assert forall|i: int, j: int| 0 <= i < j < out.len() implies urgency_before(
            out[i],
            out[j],
        ) by {
            if j < inner.len() as int {
            } else {
                assert(out[j] == s.last());
                assert(t.contains(inner[i]) || inner[i] == q);
                if inner[i] == q {
                    assert(spec_priority_weight(q.urgency) > spec_priority_weight(
                        s.last().urgency,
                    ));
                } else {
                    let k = choose|k: int| 0 <= k < t.len() && t[k] == inner[i];
                    assert(urgency_before(s[k], s[s.len() - 1]));
                }
            }
        }
        assert forall|i: int| 0 <= i < out.len() implies s.contains(#[trigger] out[i]) || out[i]
            == q by {
            if i < inner.len() as int {
                assert(t.contains(inner[i]) || inner[i] == q);
                if t.contains(inner[i]) {
                    let k = choose|k: int| 0 <= k < t.len() && t[k] == inner[i];
                    assert(s[k] == out[i]);
                }
            } else {
                assert(out[i] == s.last());
                assert(s[s.len() - 1] == s.last());
            }
        }
    }
}

/// Law of the pending-queue ordering: for requests whose ids increase
/// with position (as a filtered store always presents them), the
/// urgency arrangement has the same length and contents, and is sorted
/// by `urgency_before`: most urgent first, ties kept in filing order.
pub proof fn lemma_urgency_sorted_ensures(s: Seq<BloodRequest>)
    requires
        forall|i: int, j: int| 0 <= i < j < s.len() ==> s[i].id < s[j].id,
    ensures
        urgency_sorted(s).len() == s.len(),
        urgency_sorted(s).to_multiset() == s.to_multiset(),
        forall|i: int, j: int|
            0 <= i < j < urgency_sorted(s).len() ==> urgency_before(
                urgency_sorted(s)[i],
                urgency_sorted(s)[j],
            ),
    decreases s.len(),
{
    broadcast use vstd::seq_lib::group_to_multiset_ensures;

    if s.len() == 0 {
        assert(urgency_sorted(s) =~= Seq::<BloodRequest>::empty());
        assert(s.to_multiset() =~= urgency_sorted(s).to_multiset());
    } else {
        let t = s.drop_last();
        let q = s.last();
        lemma_urgency_sorted_ensures(t);
        let inner = urgency_sorted(t);
        assert forall|i: int| 0 <= i < inner.len() implies (#[trigger] inner[i]).id < q.id by {
            assert(inner.to_multiset().contains(inner[i]));
            assert(t.to_multiset().contains(inner[i]));
            assert(t.contains(inner[i]));
            let k = choose|k: int| 0 <= k < t.len() && t[k] == inner[i];
            assert(s[k].id < s[s.len() - 1].id);
        }
        lemma_urgency_insert_props(inner, q);
        assert(s =~= t.push(q));
        assert(s.to_multiset() == t.to_multiset().insert(q));
    }
}

/// Inserting at the position found by scanning back over strictly less
/// urgent entries is exactly `urgency_insert`.
proof fn lemma_urgency_insert_at(s: Seq<BloodRequest>, q: BloodRequest, pos: int)
    requires
        0 <= pos <= s.len(),
        forall|j: int|
            pos <= j < s.len() ==> spec_priority_weight(s[j].urgency) < spec_priority_weight(
                q.urgency,
            ),
        pos > 0 ==> spec_priority_weight(s[pos - 1].urgency) >= spec_priority_weight(q.urgency),
    ensures
        urgency_insert(s, q) == s.insert(pos, q),
    decreases s.len(),
{
    if s.len() == 0 {
        assert(urgency_insert(s, q) =~= s.insert(0, q));
    } else if pos == s.len() {
        assert(spec_priority_weight(s.last().urgency) >= spec_priority_weight(q.urgency));
        assert(s.push(q) =~= s.insert(pos, q));
    } else {
        assert(spec_priority_weight(s[s.len() - 1].urgency) < spec_priority_weight(q.urgency));
        lemma_urgency_insert_at(s.drop_last(), q, pos);
        assert(s.insert(pos, q) =~= s.drop_last().insert(pos, q).push(s.last()));
    }
}

/// An owned copy of a request.
fn clone_request(q: &BloodRequest) -> (r: BloodRequest)
    ensures
        same_request(r, *q),
{
    let mut ids: Vec<u64> = Vec::new();
    let mut i: usize = 0;
    while i < q.assigned_units.len()
        invariant
            0 <= i <= q.assigned_units@.len(),
            ids@ == q.assigned_units@.take(i as int),
        decreases q.assigned_units@.len() - i,
    {
        ids.push(q.assigned_units[i]);
        proof {
            assert(ids@ =~= q.assigned_units@.take(i + 1));
        }
        i = i + 1;
    }
    proof {
        assert(q.assigned_units@.take(q.assigned_units@.len() as int) =~= q.assigned_units@);
    }
    BloodRequest {
        id: q.id,
        hospital_id: q.hospital_id,
        blood_type: q.blood_type,
        quantity_ml: q.quantity_ml,
        urgency: q.urgency,
        status: q.status,
        created_at: q.created_at,
        required_by: q.required_by,
        fulfilled_at: q.fulfilled_at,
        assigned_units: ids,
        delivery_address: q.delivery_address.clone(),
        metadata: RequestMetadata {
            patient_id: q.metadata.patient_id,
            procedure: q.metadata.procedure.clone(),
            notes: q.metadata.notes.clone(),
        },
    }
}

/// Position of the first occurrence of `x` in an id list.
fn find_id(v: &Vec<u64>, x: u64) -> (r: Option<usize>)
    ensures
        match r {
            Some(w) => w < v@.len() && v@[w as int] == x && forall|t: int| 0 <= t < w ==> v@[t] != x,
            None => forall|t: int| 0 <= t < v@.len() ==> v@[t] != x,
        },
{
    let mut w: usize = 0;
    while w < v.len()
        invariant
            0 <= w <= v@.len(),
            forall|t: int| 0 <= t < w ==> v@[t] != x,
        decreases v@.len() - w,
    {
        if v[w] == x {
            return Some(w);
        }
        w = w + 1;
    }
    None
}

/// The split request contract.
pub struct RequestContract {
    /// Admin identity, once `initialize` has run.
    pub admin: Option<u64>,
    /// Authorized hospitals; each identity appears at most once.
    pub hospitals: Vec<u64>,
    /// Primary request store; the request with id `i + 1` sits at index
    /// `i`.
    pub requests: Vec<BloodRequest>,
    /// Append-only log of the events each mutation emits.
    pub events: Vec<RequestEvent>,
}

impl RequestContract {
    /// Well-formedness: ids are dense and positional, and the hospital
    /// registry holds no identity twice.
    pub open spec fn wf(self) -> bool {
        &&& forall|i: int|
            0 <= i < self.requests@.len() ==> (#[trigger] self.requests@[i]).id == i + 1
        &&& forall|i: int, j: int|
            0 <= i < j < self.hospitals@.len() ==> self.hospitals@[i] != self.hospitals@[j]
    }

    /// Whether `a` is an authorized hospital.
    pub open spec fn hospital_authorized(self, a: u64) -> bool {
        self.hospitals@.contains(a)
    }

    /// Whether a request with this id exists.
    pub open spec fn has_request(self, request_id: u64) -> bool {
        1 <= request_id && request_id <= self.requests@.len()
    }

    /// The request with this id.
    pub open spec fn request(self, request_id: u64) -> BloodRequest
        recommends
            self.has_request(request_id),
    {
        self.requests@[request_id - 1]
    }

    /// A fresh, empty contract.
    pub fn new() -> (s: Self)
        ensures
            s.wf(),
            s.admin is None,
            s.hospitals@.len() == 0,
            s.requests@.len() == 0,
            s.events@.len() == 0,
    {
        RequestContract {
            admin: None,
            hospitals: Vec::new(),
            requests: Vec::new(),
            events: Vec::new(),
        }
    }

    /// Record the admin identity, exactly once.
    pub fn initialize(&mut self, admin: u64) -> (r: Result<(), ContractError>)
        requires
            old(self).wf(),
        ensures
            final(self).wf(),
            old(self).admin is Some ==> r == Err::<(), ContractError>(
                ContractError::AlreadyInitialized,
            ) && *final(self) == *old(self),
            old(self).admin is None ==> r == Ok::<(), ContractError>(()) && *final(self) == (
            RequestContract { admin: Some(admin), ..*old(self) }),
    {
        if self.admin.is_some() {
            return Err(ContractError::AlreadyInitialized);
        }
        self.admin = Some(admin);
        Ok(())
    }

    /// Authorize a hospital to create requests.  Only the admin may.
    pub fn authorize_hospital(&mut self, caller: u64, hospital: u64) -> (r: Result<
        (),
        ContractError,
    >)
        requires
            old(self).wf(),
        ensures
            final(self).wf(),
            ({
                let pre = *old(self);
                if pre.admin is None {
                    r == Err::<(), ContractError>(ContractError::NotInitialized) && *final(self)
                        == pre
                } else if pre.admin != Some(caller) {
                    r == Err::<(), ContractError>(ContractError::Unauthorized) && *final(self)
                        == pre
                } else {
                    &&& r == Ok::<(), ContractError>(())
                    &&& final(self).hospitals@ == (if pre.hospital_authorized(hospital) {
                        pre.hospitals@
                    } else {
                        pre.hospitals@.push(hospital)
                    })
                    &&& final(self).hospital_authorized(hospital)
                    &&& final(self).admin == pre.admin
                    &&& final(self).requests == pre.requests
                    &&& final(self).events == pre.events
                }
            }),
    {
        match self.admin {
            None => {
                return Err(ContractError::NotInitialized);
            },
            Some(admin) => {
                if admin != caller {
                    return Err(ContractError::Unauthorized);
                }
            },
        }
        match find_id(&self.hospitals, hospital) {
            Some(_) => {
                proof {
                    let w = choose|w: int|
                        0 <= w < self.hospitals@.len() && self.hospitals@[w] == hospital;
                }
            },
            None => {
                self.hospitals.push(hospital);
                proof {
                    assert(self.hospitals@.last() == hospital);
                }
            },
        }
        Ok(())
    }

    /// Withdraw a hospital's authorization.  Only the admin may.
    pub fn revoke_hospital(&mut self, caller: u64, hospital: u64) -> (r: Result<(), ContractError>)
        requires
            old(self).wf(),
        ensures
            final(self).wf(),
            ({
                let pre = *old(self);
                if pre.admin is None {
                    r == Err::<(), ContractError>(ContractError::NotInitialized) && *final(self)
                        == pre
                } else if pre.admin != Some(caller) {
                    r == Err::<(), ContractError>(ContractError::Unauthorized) && *final(self)
                        == pre
                } else {
                    &&& r == Ok::<(), ContractError>(())
                    &&& !final(self).hospital_authorized(hospital)
                    &&& forall|a: u64|
                        a != hospital ==> final(self).hospital_authorized(a) == pre.hospital_authorized(a)
                    &&& final(self).admin == pre.admin
                    &&& final(self).requests == pre.requests
                    &&& final(self).events == pre.events
                }
            }),
    {
        match self.admin {
            None => {
                return Err(ContractError::NotInitialized);
            },
            Some(admin) => {
                if admin != caller {
                    return Err(ContractError::Unauthorized);
                }
            },
        }
        let ghost pre_hospitals = self.hospitals@;
        match find_id(&self.hospitals, hospital) {
            Some(w) => {
                self.hospitals.remove(w);
                proof {
                    assert forall|a: u64| a != hospital implies self.hospitals@.contains(a)
                        == pre_hospitals.contains(a) by {
                        if self.hospitals@.contains(a) {
                            let t = choose|t: int|
                                0 <= t < self.hospitals@.len() && self.hospitals@[t] == a;
                            if t < w {
                                assert(pre_hospitals[t] == a);
                            } else {
                                assert(pre_hospitals[t + 1] == a);
                            }
                        }
                        if pre_hospitals.contains(a) {
                            let t = choose|t: int|
                                0 <= t < pre_hospitals.len() && pre_hospitals[t] == a;
                            if t < w {
                                assert(self.hospitals@[t] == a);
                            } else {
                                assert(t != w);
                                assert(self.hospitals@[t - 1] == a);
                            }
                        }
                    }
                    assert(!self.hospitals@.contains(hospital)) by {
                        if self.hospitals@.contains(hospital) {
                            let t = choose|t: int|
                                0 <= t < self.hospitals@.len() && self.hospitals@[t] == hospital;
                            if t < w {
                                assert(pre_hospitals[t] == hospital);
                            } else {
                                assert(pre_hospitals[t + 1] == hospital);
                            }
                        }
                    }
                }
            },
            None => {},
        }
        Ok(())
    }

    /// Whether `hospital` is authorized.
    pub fn is_hospital_authorized(&self, hospital: u64) -> (r: bool)
        ensures
            r == self.hospital_authorized(hospital),
    {
        match find_id(&self.hospitals, hospital) {
            Some(w) => {
                proof {
                    assert(self.hospitals@[w as int] == hospital);
                }
                true
            },
            None => false,
        }
    }

    /// A request just created looks like this.
    pub open spec fn is_fresh_request(
        q: BloodRequest,
        id: u64,
        hospital_id: u64,
        blood_type: BloodType,
        quantity_ml: u32,
        urgency: UrgencyLevel,
        required_by: u64,
        delivery_address: String,
        patient_id: u64,
        procedure: String,
        notes: String,
        now: u64,
    ) -> bool {
        &&& q.id == id
        &&& q.hospital_id == hospital_id
        &&& q.blood_type == blood_type
        &&& q.quantity_ml == quantity_ml
        &&& q.urgency == urgency
        &&& q.status == RequestStatus::Pending
        &&& q.created_at == now
        &&& q.required_by == required_by
        &&& q.fulfilled_at is None
        &&& q.assigned_units@.len() == 0
        &&& q.delivery_address == delivery_address
        &&& q.metadata.patient_id == patient_id
        &&& q.metadata.procedure == procedure
        &&& q.metadata.notes == notes
    }

    /// An existing request is an active duplicate of the given tuple.
    pub open spec fn duplicate_pred(
        hospital_id: u64,
        blood_type: BloodType,
        quantity_ml: u32,
        urgency: UrgencyLevel,
        required_by: u64,
        delivery_address: Seq<char>,
    ) -> spec_fn(BloodRequest) -> bool {
        |q: BloodRequest|
            q.hospital_id == hospital_id && q.blood_type == blood_type && q.quantity_ml
                == quantity_ml && q.urgency == urgency && q.required_by == required_by
                && q.delivery_address@ == delivery_address
                && !crate::transitions::request_status_terminal(q.status)
    }

    /// Whether an active duplicate of the tuple exists.
    pub open spec fn has_active_duplicate(
        self,
        hospital_id: u64,
        blood_type: BloodType,
        quantity_ml: u32,
        urgency: UrgencyLevel,
        required_by: u64,
        delivery_address: Seq<char>,
    ) -> bool {
        exists|j: int|
            0 <= j < self.requests@.len() && Self::duplicate_pred(
                hospital_id,
                blood_type,
                quantity_ml,
                urgency,
                required_by,
                delivery_address,
            )(#[trigger] self.requests@[j])
    }

    /// File a blood request.
    ///
    /// The hospital must be authorized; the quantity must lie in
    /// `[REQ_MIN_QUANTITY_ML, REQ_MAX_QUANTITY_ML]`; the deadline must be
    /// strictly future and at most `MAX_REQUEST_WINDOW_SECONDS` ahead;
    /// the delivery address must be non-empty; the lead time must meet
    /// the urgency's minimum; and no active duplicate of the same tuple
    /// may exist.  The first failing check decides the error and nothing
    /// is written.
    pub fn create_request(
        &mut self,
        hospital_id: u64,
        blood_type: BloodType,
        quantity_ml: u32,
        urgency: UrgencyLevel,
        required_by: u64,
        delivery_address: String,
        patient_id: u64,
        procedure: String,
        notes: String,
        now: u64,
    ) -> (r: Result<u64, ContractError>)
        requires
            old(self).wf(),
            old(self).requests@.len() < u64::MAX,
        ensures
            final(self).wf(),
            ({
                let pre = *old(self);
                if pre.admin is None {
                    r == Err::<u64, ContractError>(ContractError::NotInitialized) && *final(self)
                        == pre
                } else if !pre.hospital_authorized(hospital_id) {
                    r == Err::<u64, ContractError>(ContractError::NotAuthorizedHospital)
                        && *final(self) == pre
                } else if !quantity_in_range(quantity_ml, REQ_MIN_QUANTITY_ML, REQ_MAX_QUANTITY_ML) {
                    r == Err::<u64, ContractError>(ContractError::InvalidQuantity) && *final(self)
                        == pre
                } else if required_by <= now {
                    r == Err::<u64, ContractError>(ContractError::InvalidTimestamp) && *final(self)
                        == pre
                } else if delivery_address@.len() == 0 {
                    r == Err::<u64, ContractError>(ContractError::InvalidDeliveryAddress)
                        && *final(self) == pre
                } else if !required_by_in_range(
                    required_by,
                    now,
                    spec_min_lead(urgency),
                    MAX_REQUEST_WINDOW_SECONDS,
                ) {
                    r == Err::<u64, ContractError>(ContractError::InvalidRequiredBy) && *final(self)
                        == pre
                } else if pre.has_active_duplicate(
                    hospital_id,
                    blood_type,
                    quantity_ml,
                    urgency,
                    required_by,
                    delivery_address@,
                ) {
                    r == Err::<u64, ContractError>(ContractError::DuplicateRequest) && *final(self)
                        == pre
                } else {
                    let id = (pre.requests@.len() + 1) as u64;
                    &&& r == Ok::<u64, ContractError>(id)
                    &&& final(self).requests@.len() == pre.requests@.len() + 1
                    &&& forall|j: int|
                        0 <= j < pre.requests@.len() ==> final(self).requests@[j]
                            == pre.requests@[j]
                    &&& Self::is_fresh_request(
                        final(self).requests@.last(),
                        id,
                        hospital_id,
                        blood_type,
                        quantity_ml,
                        urgency,
                        required_by,
                        delivery_address,
                        patient_id,
                        procedure,
                        notes,
                        now,
                    )
                    &&& final(self).events@ == pre.events@.push(
                        (RequestEvent::Created {
                            request_id: id,
                            hospital_id,
                            blood_type,
                            quantity_ml,
                            urgency,
                            required_by,
                            created_at: now,
                        }),
                    )
                    &&& final(self).admin == pre.admin
                    &&& final(self).hospitals == pre.hospitals
                }
            }),
    {
        if self.admin.is_none() {
            return Err(ContractError::NotInitialized);
        }
        if !self.is_hospital_authorized(hospital_id) {
            return Err(ContractError::NotAuthorizedHospital);
        }
        if !validate_quantity(quantity_ml, REQ_MIN_QUANTITY_ML, REQ_MAX_QUANTITY_ML) {
            return Err(ContractError::InvalidQuantity);
        }
        if required_by <= now {
            return Err(ContractError::InvalidTimestamp);
        }
        if !validate_non_empty_text(&delivery_address) {
            return Err(ContractError::InvalidDeliveryAddress);
        }
        if !validate_required_by(required_by, now, urgency.min_lead_seconds(), MAX_REQUEST_WINDOW_SECONDS) {
            return Err(ContractError::InvalidRequiredBy);
        }
        let ghost dpred = Self::duplicate_pred(
            hospital_id,
            blood_type,
            quantity_ml,
            urgency,
            required_by,
            delivery_address@,
        );
        let mut j: usize = 0;
        while j < self.requests.len()
            invariant
                0 <= j <= self.requests@.len(),
                *self == *old(self),
                old(self).wf(),
                old(self).admin is Some,
                old(self).hospital_authorized(hospital_id),
                quantity_in_range(quantity_ml, REQ_MIN_QUANTITY_ML, REQ_MAX_QUANTITY_ML),
                required_by > now,
                delivery_address@.len() > 0,
                required_by_in_range(
                    required_by,
                    now,
                    spec_min_lead(urgency),
                    MAX_REQUEST_WINDOW_SECONDS,
                ),
                dpred == Self::duplicate_pred(
                    hospital_id,
                    blood_type,
                    quantity_ml,
                    urgency,
                    required_by,
                    delivery_address@,
                ),
                forall|k: int| 0 <= k < j ==> !dpred(#[trigger] self.requests@[k]),
            decreases self.requests@.len() - j,
        {
            let q = &self.requests[j];
            let same_tuple = q.hospital_id == hospital_id && q.blood_type == blood_type
                && q.quantity_ml == quantity_ml && q.urgency == urgency && q.required_by
                == required_by && q.delivery_address == delivery_address;
            if same_tuple && !crate::transitions::is_request_status_terminal(q.status) {
                assert(dpred(self.requests@[j as int]));
                return Err(ContractError::DuplicateRequest);
            }
            j = j + 1;
        }
        let request_id = (self.requests.len() as u64) + 1;
        let request = BloodRequest {
            id: request_id,
            hospital_id,
            blood_type,
            quantity_ml,
            urgency,
            status: RequestStatus::Pending,
            created_at: now,
            required_by,
            fulfilled_at: None,
            assigned_units: Vec::new(),
            delivery_address,
            metadata: RequestMetadata { patient_id, procedure, notes },
        };
        self.requests.push(request);
        self.events.push(
            RequestEvent::Created {
                request_id,
                hospital_id,
                blood_type,
                quantity_ml,
                urgency,
                required_by,
                created_at: now,
            },
        );
        Ok(request_id)
    }

    /// Look a request up by id, handing back a copy.
    pub fn get_request(&self, request_id: u64) -> (r: Result<BloodRequest, ContractError>)
        ensures
            self.has_request(request_id) ==> r is Ok && same_request(
                r->Ok_0,
                self.request(request_id),
            ),
            !self.has_request(request_id) ==> r == Err::<BloodRequest, ContractError>(
                ContractError::RequestNotFound,
            ),
    {
        if 1 <= request_id && request_id <= self.requests.len() as u64 {
            Ok(clone_request(&self.requests[(request_id - 1) as usize]))
        } else {
            Err(ContractError::RequestNotFound)
        }
    }

    /// Look a request up by id, handing back a copy if it exists.
    pub fn get_request_by_id(&self, request_id: u64) -> (r: Option<BloodRequest>)
        ensures
            self.has_request(request_id) ==> r is Some && same_request(
                r->0,
                self.request(request_id),
            ),
            !self.has_request(request_id) ==> r is None,
    {
        if 1 <= request_id && request_id <= self.requests.len() as u64 {
            Some(clone_request(&self.requests[(request_id - 1) as usize]))
        } else {
            None
        }
    }

    /// Approve a pending request.  Only the admin may, the transition
    /// must be legal, and the request's deadline must not have passed.
    pub fn approve_request(&mut self, caller: u64, request_id: u64, now: u64) -> (r: Result<
        (),
        ContractError,
    >)
        requires
            old(self).wf(),
        ensures
            final(self).wf(),
            ({
                let pre = *old(self);
                if pre.admin is None {
                    r == Err::<(), ContractError>(ContractError::NotInitialized) && *final(self)
                        == pre
                } else if pre.admin != Some(caller) {
                    r == Err::<(), ContractError>(ContractError::Unauthorized) && *final(self)
                        == pre
                } else if !pre.has_request(request_id) {
                    r == Err::<(), ContractError>(ContractError::NotFound) && *final(self) == pre
                } else if !request_transition_allowed(
                    pre.request(request_id).status,
                    RequestStatus::Approved,
                ) {
                    r == Err::<(), ContractError>(ContractError::InvalidStatusTransition)
                        && *final(self) == pre
                } else if now >= pre.request(request_id).required_by {
                    r == Err::<(), ContractError>(ContractError::RequestExpired) && *final(self)
                        == pre
                } else {
                    &&& r == Ok::<(), ContractError>(())
                    &&& final(self).requests@.len() == pre.requests@.len()
                    &&& forall|j: int|
                        0 <= j < pre.requests@.len() && j != request_id - 1
                            ==> final(self).requests@[j] == pre.requests@[j]
                    &&& same_request(
                        final(self).requests@[request_id - 1],
                        BloodRequest {
                            status: RequestStatus::Approved,
                            ..pre.request(request_id)
                        },
                    )
                    &&& final(self).events@ == pre.events@.push(
                        (RequestEvent::Approved { request_id }),
                    )
                    &&& final(self).admin == pre.admin
                    &&& final(self).hospitals == pre.hospitals
                }
            }),
    {
        match self.admin {
            None => {
                return Err(ContractError::NotInitialized);
            },
            Some(admin) => {
                if admin != caller {
                    return Err(ContractError::Unauthorized);
                }
            },
        }
        if !(1 <= request_id && request_id <= self.requests.len() as u64) {
            return Err(ContractError::NotFound);
        }
        let idx = (request_id - 1) as usize;
        let old_status = self.requests[idx].status;
        if !is_valid_request_transition(old_status, RequestStatus::Approved) {
            return Err(ContractError::InvalidStatusTransition);
        }
        if now >= self.requests[idx].required_by {
            return Err(ContractError::RequestExpired);
        }
        let ghost pre_requests = self.requests@;
        let mut q = self.requests.remove(idx);
        q.status = RequestStatus::Approved;
        let ghost q2 = q;
        self.requests.insert(idx, q);
        proof {
            assert(self.requests@ =~= pre_requests.update(request_id - 1, q2));
        }
        self.events.push(RequestEvent::Approved { request_id });
        Ok(())
    }

    /// Move a request along the request transition table.  Only the
    /// admin may; reaching `Fulfilled` stamps the fulfillment time.
    pub fn update_request_status(
        &mut self,
        caller: u64,
        request_id: u64,
        new_status: RequestStatus,
        now: u64,
    ) -> (r: Result<(), ContractError>)
        requires
            old(self).wf(),
        ensures
            final(self).wf(),
            ({
                let pre = *old(self);
                if pre.admin is None {
                    r == Err::<(), ContractError>(ContractError::NotInitialized) && *final(self)
                        == pre
                } else if pre.admin != Some(caller) {
                    r == Err::<(), ContractError>(ContractError::Unauthorized) && *final(self)
                        == pre
                } else if !pre.has_request(request_id) {
                    r == Err::<(), ContractError>(ContractError::RequestNotFound) && *final(self)
                        == pre
                } else if !request_transition_allowed(pre.request(request_id).status, new_status) {
                    r == Err::<(), ContractError>(ContractError::InvalidStatusTransition)
                        && *final(self) == pre
                } else {
                    &&& r == Ok::<(), ContractError>(())
                    &&& final(self).requests@.len() == pre.requests@.len()
                    &&& forall|j: int|
                        0 <= j < pre.requests@.len() && j != request_id - 1
                            ==> final(self).requests@[j] == pre.requests@[j]
                    &&& same_request(
                        final(self).requests@[request_id - 1],
                        BloodRequest {
                            status: new_status,
                            fulfilled_at: if new_status == RequestStatus::Fulfilled {
                                Some(now)
                            } else {
                                pre.request(request_id).fulfilled_at
                            },
                            ..pre.request(request_id)
                        },
                    )
                    &&& final(self).events@ == pre.events@.push(
                        (RequestEvent::StatusChanged {
                            request_id,
                            old_status: pre.request(request_id).status,
                            new_status,
                        }),
                    )
                    &&& final(self).admin == pre.admin
                    &&& final(self).hospitals == pre.hospitals
                }
            }),
    {
        match self.admin {
            None => {
                return Err(ContractError::NotInitialized);
            },
            Some(admin) => {
                if admin != caller {
                    return Err(ContractError::Unauthorized);
                }
            },
        }
        if !(1 <= request_id && request_id <= self.requests.len() as u64) {
            return Err(ContractError::RequestNotFound);
        }
        let idx = (request_id - 1) as usize;
        let old_status = self.requests[idx].status;
        if !is_valid_request_transition(old_status, new_status) {
            return Err(ContractError::InvalidStatusTransition);
        }
        let ghost pre_requests = self.requests@;
        let mut q = self.requests.remove(idx);
        q.status = new_status;
        if new_status == RequestStatus::Fulfilled {
            q.fulfilled_at = Some(now);
        }
        let ghost q2 = q;
        self.requests.insert(idx, q);
        proof {
            assert(self.requests@ =~= pre_requests.update(request_id - 1, q2));
        }
        self.events.push(RequestEvent::StatusChanged { request_id, old_status, new_status });
        Ok(())
    }

    /// Cancel a request that has not reached a terminal status.  The
    /// requesting hospital or the admin may cancel.
    pub fn cancel_request(&mut self, request_id: u64, caller: u64) -> (r: Result<
        (),
        ContractError,
    >)
        requires
            old(self).wf(),
        ensures
            final(self).wf(),
            ({
                let pre = *old(self);
                if pre.admin is None {
                    r == Err::<(), ContractError>(ContractError::NotInitialized) && *final(self)
                        == pre
                } else if !pre.has_request(request_id) {
                    r == Err::<(), ContractError>(ContractError::NotFound) && *final(self) == pre
                } else if !(caller == pre.request(request_id).hospital_id || pre.admin == Some(
                    caller,
                )) {
                    r == Err::<(), ContractError>(ContractError::Unauthorized) && *final(self)
                        == pre
                } else if !request_transition_allowed(
                    pre.request(request_id).status,
                    RequestStatus::Cancelled,
                ) {
                    r == Err::<(), ContractError>(ContractError::CannotCancelRequest)
                        && *final(self) == pre
                } else {
                    &&& r == Ok::<(), ContractError>(())
                    &&& final(self).requests@.len() == pre.requests@.len()
                    &&& forall|j: int|
                        0 <= j < pre.requests@.len() && j != request_id - 1
                            ==> final(self).requests@[j] == pre.requests@[j]
                    &&& same_request(
                        final(self).requests@[request_id - 1],
                        BloodRequest {
                            status: RequestStatus::Cancelled,
                            ..pre.request(request_id)
                        },
                    )
                    &&& final(self).events@ == pre.events@.push(
                        (RequestEvent::Cancelled {
                            request_id,
                            old_status: pre.request(request_id).status,
                        }),
                    )
                    &&& final(self).admin == pre.admin
                    &&& final(self).hospitals == pre.hospitals
                }
            }),
    {
        if self.admin.is_none() {
            return Err(ContractError::NotInitialized);
        }
        if !(1 <= request_id && request_id <= self.requests.len() as u64) {
            return Err(ContractError::NotFound);
        }
        let idx = (request_id - 1) as usize;
        let is_owner = caller == self.requests[idx].hospital_id;
        let is_admin = match self.admin {
            Some(admin) => admin == caller,
            None => false,
        };
        if !is_owner && !is_admin {
            return Err(ContractError::Unauthorized);
        }
        let old_status = self.requests[idx].status;
        if !is_valid_request_transition(old_status, RequestStatus::Cancelled) {
            return Err(ContractError::CannotCancelRequest);
        }
        let ghost pre_requests = self.requests@;
        let mut q = self.requests.remove(idx);
        q.status = RequestStatus::Cancelled;
        let ghost q2 = q;
        self.requests.insert(idx, q);
        proof {
            assert(self.requests@ =~= pre_requests.update(request_id - 1, q2));
        }
        self.events.push(RequestEvent::Cancelled { request_id, old_status });
        Ok(())
    }

    /// Attach a list of inventory unit ids to a request.  Only the admin
    /// may; the previous list is replaced.
    pub fn assign_blood_units(&mut self, caller: u64, request_id: u64, unit_ids: Vec<u64>) -> (r:
        Result<(), ContractError>)
        requires
            old(self).wf(),
        ensures
            final(self).wf(),
            ({
                let pre = *old(self);
                if pre.admin is None {
                    r == Err::<(), ContractError>(ContractError::NotInitialized) && *final(self)
                        == pre
                } else if pre.admin != Some(caller) {
                    r == Err::<(), ContractError>(ContractError::Unauthorized) && *final(self)
                        == pre
                } else if !pre.has_request(request_id) {
                    r == Err::<(), ContractError>(ContractError::RequestNotFound) && *final(self)
                        == pre
                } else {
                    &&& r == Ok::<(), ContractError>(())
                    &&& final(self).requests@.len() == pre.requests@.len()
                    &&& forall|j: int|
                        0 <= j < pre.requests@.len() && j != request_id - 1
                            ==> final(self).requests@[j] == pre.requests@[j]
                    &&& same_request(
                        final(self).requests@[request_id - 1],
                        BloodRequest { assigned_units: unit_ids, ..pre.request(request_id) },
                    )
                    &&& final(self).events@.len() == pre.events@.len() + 1
                    &&& forall|t: int|
                        0 <= t < pre.events@.len() ==> final(self).events@[t] == pre.events@[t]
                    &&& (final(self).events@.last() matches RequestEvent::UnitsAssigned {
                        request_id: rid,
                        unit_ids: assigned,
                    } && rid == request_id && assigned@ == unit_ids@)
                    &&& final(self).admin == pre.admin
                    &&& final(self).hospitals == pre.hospitals
                }
            }),
    {
        match self.admin {
            None => {
                return Err(ContractError::NotInitialized);
            },
            Some(admin) => {
                if admin != caller {
                    return Err(ContractError::Unauthorized);
                }
            },
        }
        if !(1 <= request_id && request_id <= self.requests.len() as u64) {
            return Err(ContractError::RequestNotFound);
        }
        let idx = (request_id - 1) as usize;
        let ids_for_event = copy_ids(&unit_ids);
        let ghost pre_requests = self.requests@;
        let mut q = self.requests.remove(idx);
        q.assigned_units = unit_ids;
        let ghost q2 = q;
        self.requests.insert(idx, q);
        proof {
            assert(self.requests@ =~= pre_requests.update(request_id - 1, q2));
        }
        self.events.push(RequestEvent::UnitsAssigned { request_id, unit_ids: ids_for_event });
        Ok(())
    }
}

impl RequestContract {
    /// The selection of `query_hospital_requests`.
    pub open spec fn hosp_status_pred(
        hospital: u64,
        status_filter: Option<RequestStatus>,
    ) -> spec_fn(BloodRequest) -> bool {
        |q: BloodRequest|
            q.hospital_id == hospital && (match status_filter {
                Some(s) => q.status == s,
                None => true,
            })
    }

    /// The selection of `query_pending_requests`.
    pub open spec fn pending_pred() -> spec_fn(BloodRequest) -> bool {
        |q: BloodRequest| q.status == RequestStatus::Pending
    }

    /// The selection of `query_requests_by_date_range`.
    pub open spec fn date_pred(
        start_time: u64,
        end_time: u64,
        status_filter: Option<RequestStatus>,
    ) -> spec_fn(BloodRequest) -> bool {
        |q: BloodRequest|
            start_time <= q.created_at && q.created_at <= end_time && (match status_filter {
                Some(s) => q.status == s,
                None => true,
            })
    }

    /// The selection of `query_requests_by_urgency_and_status`.
    pub open spec fn urgency_status_pred(
        urgency: UrgencyLevel,
        status_filter: Option<RequestStatus>,
    ) -> spec_fn(BloodRequest) -> bool {
        |q: BloodRequest|
            q.urgency == urgency && (match status_filter {
                Some(s) => q.status == s,
                None => true,
            })
    }

    /// Ids of this hospital's requests, in creation order.
    pub fn get_hospital_requests(&self, hospital: u64) -> (r: Vec<u64>)
        ensures
            r@ == self.requests@.filter(
                |q: BloodRequest| q.hospital_id == hospital,
            ).map_values(|q: BloodRequest| q.id),
    {
        let ghost p = |q: BloodRequest| q.hospital_id == hospital;
        let ghost f = |q: BloodRequest| q.id;
        let ghost s = self.requests@;
        let mut out: Vec<u64> = Vec::new();
        let mut i: usize = 0;
        proof {
            reveal(Seq::filter);
            assert(s.take(0) =~= Seq::<BloodRequest>::empty());
            assert(out@ =~= s.take(0).filter(p).map_values(f));
        }
        while i < self.requests.len()
            invariant
                0 <= i <= s.len(),
                s == self.requests@,
                p == (|q: BloodRequest| q.hospital_id == hospital),
                f == (|q: BloodRequest| q.id),
                out@ == s.take(i as int).filter(p).map_values(f),
            decreases s.len() - i,
        {
            proof {
                lemma_filter_take_step(s, p, i as int);
            }
            if self.requests[i].hospital_id == hospital {
                out.push(self.requests[i].id);
                proof {
                    assert(s.take(i + 1).filter(p).map_values(f) =~= s.take(i as int).filter(
                        p,
                    ).map_values(f).push(f(s[i as int])));
                }
            }
            i = i + 1;
        }
        proof {
            lemma_take_all(s);
        }
        out
    }

    /// Ids of requests with this status, in creation order.
    pub fn get_requests_by_status(&self, status: RequestStatus) -> (r: Vec<u64>)
        ensures
            r@ == self.requests@.filter(|q: BloodRequest| q.status == status).map_values(
                |q: BloodRequest| q.id,
            ),
    {
        let ghost p = |q: BloodRequest| q.status == status;
        let ghost f = |q: BloodRequest| q.id;
        let ghost s = self.requests@;
        let mut out: Vec<u64> = Vec::new();
        let mut i: usize = 0;
        proof {
            reveal(Seq::filter);
            assert(s.take(0) =~= Seq::<BloodRequest>::empty());
            assert(out@ =~= s.take(0).filter(p).map_values(f));
        }
        while i < self.requests.len()
            invariant
                0 <= i <= s.len(),
                s == self.requests@,
                p == (|q: BloodRequest| q.status == status),
                f == (|q: BloodRequest| q.id),
                out@ == s.take(i as int).filter(p).map_values(f),
            decreases s.len() - i,
        {
            proof {
                lemma_filter_take_step(s, p, i as int);
            }
            if self.requests[i].status == status {
                out.push(self.requests[i].id);
                proof {
                    assert(s.take(i + 1).filter(p).map_values(f) =~= s.take(i as int).filter(
                        p,
                    ).map_values(f).push(f(s[i as int])));
                }
            }
            i = i + 1;
        }
        proof {
            lemma_take_all(s);
        }
        out
    }

    /// Ids of requests for this blood type, in creation order.
    pub fn get_requests_by_blood_type(&self, blood_type: BloodType) -> (r: Vec<u64>)
        ensures
            r@ == self.requests@.filter(|q: BloodRequest| q.blood_type == blood_type).map_values(
                |q: BloodRequest| q.id,
            ),
    {
        let ghost p = |q: BloodRequest| q.blood_type == blood_type;
        let ghost f = |q: BloodRequest| q.id;
        let ghost s = self.requests@;
        let mut out: Vec<u64> = Vec::new();
        let mut i: usize = 0;
        proof {
            reveal(Seq::filter);
            assert(s.take(0) =~= Seq::<BloodRequest>::empty());
            assert(out@ =~= s.take(0).filter(p).map_values(f));
        }
        while i < self.requests.len()
            invariant
                0 <= i <= s.len(),
                s == self.requests@,
                p == (|q: BloodRequest| q.blood_type == blood_type),
                f == (|q: BloodRequest| q.id),
                out@ == s.take(i as int).filter(p).map_values(f),
            decreases s.len() - i,
        {
            proof {
                lemma_filter_take_step(s, p, i as int);
            }
            if self.requests[i].blood_type == blood_type {
                out.push(self.requests[i].id);
                proof {
                    assert(s.take(i + 1).filter(p).map_values(f) =~= s.take(i as int).filter(
                        p,
                    ).map_values(f).push(f(s[i as int])));
                }
            }
            i = i + 1;
        }
        proof {
            lemma_take_all(s);
        }
        out
    }

    /// Ids of requests with this urgency, in creation order.
    pub fn get_requests_by_urgency(&self, urgency: UrgencyLevel) -> (r: Vec<u64>)
        ensures
            r@ == self.requests@.filter(|q: BloodRequest| q.urgency == urgency).map_values(
                |q: BloodRequest| q.id,
            ),
    {
        let ghost p = |q: BloodRequest| q.urgency == urgency;
        let ghost f = |q: BloodRequest| q.id;
        let ghost s = self.requests@;
        let mut out: Vec<u64> = Vec::new();
        let mut i: usize = 0;
        proof {
            reveal(Seq::filter);
            assert(s.take(0) =~= Seq::<BloodRequest>::empty());
            assert(out@ =~= s.take(0).filter(p).map_values(f));
        }
        while i < self.requests.len()
            invariant
                0 <= i <= s.len(),
                s == self.requests@,
                p == (|q: BloodRequest| q.urgency == urgency),
                f == (|q: BloodRequest| q.id),
                out@ == s.take(i as int).filter(p).map_values(f),
            decreases s.len() - i,
        {
            proof {
                lemma_filter_take_step(s, p, i as int);
            }
            if self.requests[i].urgency == urgency {
                out.push(self.requests[i].id);
                proof {
                    assert(s.take(i + 1).filter(p).map_values(f) =~= s.take(i as int).filter(
                        p,
                    ).map_values(f).push(f(s[i as int])));
                }
            }
            i = i + 1;
        }
        proof {
            lemma_take_all(s);
        }
        out
    }
}

impl RequestContract {
    /// Copy out one page of the requests named by `idxs` (store
    /// positions): `offset` entries skipped, at most the capped `limit`
    /// loaded.
    fn page_and_load(&self, idxs: Vec<usize>, limit: Option<u32>, offset: Option<u32>) -> (r: Vec<
        BloodRequest,
    >)
        requires
            forall|t: int| 0 <= t < idxs@.len() ==> #[trigger] idxs@[t] < self.requests@.len(),
        ensures
            ({
                let mapped = idxs@.map_values(|ix: usize| self.requests@[ix as int]);
                let out_spec = page(mapped, limit, offset);
                r@.len() == out_spec.len() && forall|t: int|
                    0 <= t < out_spec.len() ==> same_request(r@[t], #[trigger] out_spec[t])
            }),
    {
        let ghost mapped = idxs@.map_values(|ix: usize| self.requests@[ix as int]);
        let off: usize = match offset {
            Some(o) => o as usize,
            None => 0,
        };
        let lim_u32: u32 = match limit {
            Some(l) => if l <= MAX_QUERY_LIMIT {
                l
            } else {
                MAX_QUERY_LIMIT
            },
            None => DEFAULT_QUERY_LIMIT,
        };
        let lim = lim_u32 as usize;
        if off >= idxs.len() {
            let empty: Vec<BloodRequest> = Vec::new();
            return empty;
        }
        let end: usize = if idxs.len() - off > lim {
            off + lim
        } else {
            idxs.len()
        };
        let ghost out_spec = page(mapped, limit, offset);
        proof {
            assert(out_spec =~= mapped.subrange(off as int, end as int));
        }
        let mut out: Vec<BloodRequest> = Vec::new();
        let mut t: usize = off;
        while t < end
            invariant
                off <= t <= end <= idxs@.len(),
                mapped == idxs@.map_values(|ix: usize| self.requests@[ix as int]),
                forall|u: int| 0 <= u < idxs@.len() ==> #[trigger] idxs@[u] < self.requests@.len(),
                out@.len() == t - off,
                forall|u: int|
                    0 <= u < out@.len() ==> same_request(#[trigger] out@[u], mapped[off + u]),
            decreases end - t,
        {
            let ix = idxs[t];
            let copy = clone_request(&self.requests[ix]);
            proof {
                assert(mapped[t as int] == self.requests@[ix as int]);
            }
            out.push(copy);
            t = t + 1;
        }
        out
    }

    /// Law of the pending queue: the queue behind `query_pending_requests`
    /// holds exactly the pending requests of the store, most urgent
    /// first, with equally urgent requests kept in filing order.
    pub proof fn lemma_pending_queue_law(self)
        requires
            self.wf(),
        ensures
            ({
                let sel = self.requests@.filter(Self::pending_pred());
                let queue = urgency_sorted(sel);
                &&& queue.len() == sel.len()
                &&& queue.to_multiset() == sel.to_multiset()
                &&& forall|i: int, j: int|
                    #![trigger queue[i], queue[j]]
                    0 <= i < j < queue.len() ==> urgency_before(queue[i], queue[j])
            }),
    {
        let sel = self.requests@.filter(Self::pending_pred());
        crate::sorting::lemma_filter_keeps_order(
            self.requests@,
            Self::pending_pred(),
            |a: BloodRequest, b: BloodRequest| a.id < b.id,
        );
        assert forall|i: int, j: int| 0 <= i < j < sel.len() implies sel[i].id < sel[j].id by {
            let lt = |a: BloodRequest, b: BloodRequest| a.id < b.id;
            assert(lt(sel[i], sel[j]));
        }
        lemma_urgency_sorted_ensures(sel);
    }

    /// This hospital's requests, optionally narrowed to one status, in
    /// creation order, paginated.
    pub fn query_hospital_requests(
        &self,
        hospital_id: u64,
        status_filter: Option<RequestStatus>,
        limit: Option<u32>,
        offset: Option<u32>,
    ) -> (r: Vec<BloodRequest>)
        ensures
            ({
                let sel = self.requests@.filter(Self::hosp_status_pred(hospital_id, status_filter));
                let out_spec = page(sel, limit, offset);
                r@.len() == out_spec.len() && forall|t: int|
                    0 <= t < out_spec.len() ==> same_request(r@[t], #[trigger] out_spec[t])
            }),
    {
        let ghost p = Self::hosp_status_pred(hospital_id, status_filter);
        let ghost s = self.requests@;
        let ghost g = |ix: usize| s[ix as int];
        let mut idxs: Vec<usize> = Vec::new();
        let mut i: usize = 0;
        proof {
            reveal(Seq::filter);
            assert(s.take(0) =~= Seq::<BloodRequest>::empty());
            assert(idxs@.map_values(g) =~= s.take(0).filter(p));
        }
        while i < self.requests.len()
            invariant
                0 <= i <= s.len(),
                s == self.requests@,
                p == Self::hosp_status_pred(hospital_id, status_filter),
                g == (|ix: usize| s[ix as int]),
                idxs@.map_values(g) == s.take(i as int).filter(p),
                forall|t: int| 0 <= t < idxs@.len() ==> #[trigger] idxs@[t] < s.len(),
            decreases s.len() - i,
        {
            proof {
                lemma_filter_take_step(s, p, i as int);
            }
            let q = &self.requests[i];
            let matches_status = match status_filter {
                Some(st) => q.status == st,
                None => true,
            };
            if q.hospital_id == hospital_id && matches_status {
                idxs.push(i);
                proof {
                    assert(idxs@.map_values(g) =~= idxs@.drop_last().map_values(g).push(
                        g(i as usize),
                    ));
                }
            }
            i = i + 1;
        }
        proof {
            lemma_take_all(s);
        }
        self.page_and_load(idxs, limit, offset)
    }

    /// All pending requests, most urgent first (ties in creation order),
    /// paginated.
    pub fn query_pending_requests(&self, limit: Option<u32>, offset: Option<u32>) -> (r: Vec<
        BloodRequest,
    >)
        ensures
            ({
                let sel = self.requests@.filter(Self::pending_pred());
                let out_spec = page(urgency_sorted(sel), limit, offset);
                r@.len() == out_spec.len() && forall|t: int|
                    0 <= t < out_spec.len() ==> same_request(r@[t], #[trigger] out_spec[t])
            }),
    {
        let ghost p = Self::pending_pred();
        let ghost s = self.requests@;
        let ghost g = |ix: usize| s[ix as int];
        let mut idxs: Vec<usize> = Vec::new();
        let mut i: usize = 0;
        proof {
            reveal(Seq::filter);
            assert(s.take(0) =~= Seq::<BloodRequest>::empty());
            assert(idxs@.map_values(g) =~= s.take(0).filter(p));
        }
        while i < self.requests.len()
            invariant
                0 <= i <= s.len(),
                s == self.requests@,
                p == Self::pending_pred(),
                g == (|ix: usize| s[ix as int]),
                idxs@.map_values(g) == s.take(i as int).filter(p),
                forall|t: int| 0 <= t < idxs@.len() ==> #[trigger] idxs@[t] < s.len(),
            decreases s.len() - i,
        {
            proof {
                lemma_filter_take_step(s, p, i as int);
            }
            if self.requests[i].status == RequestStatus::Pending {
                idxs.push(i);
                proof {
                    assert(idxs@.map_values(g) =~= idxs@.drop_last().map_values(g).push(
                        g(i as usize),
                    ));
                }
            }
            i = i + 1;
        }
        proof {
            lemma_take_all(s);
        }
        let sorted = self.sort_requests_by_urgency(idxs);
        self.page_and_load(sorted, limit, offset)
    }

    /// Arrange store positions by the urgency of the requests they name,
    /// most urgent first, ties kept in the order given.
    fn sort_requests_by_urgency(&self, idxs: Vec<usize>) -> (r: Vec<usize>)
        requires
            forall|t: int| 0 <= t < idxs@.len() ==> #[trigger] idxs@[t] < self.requests@.len(),
        ensures
            forall|t: int| 0 <= t < r@.len() ==> #[trigger] r@[t] < self.requests@.len(),
            r@.map_values(|ix: usize| self.requests@[ix as int]) == urgency_sorted(
                idxs@.map_values(|ix: usize| self.requests@[ix as int]),
            ),
    {
        let ghost s = self.requests@;
        let ghost g = |ix: usize| s[ix as int];
        let ghost src = idxs@.map_values(g);
        let mut sorted: Vec<usize> = Vec::new();
        let mut k: usize = 0;
        proof {
            assert(src.take(0) =~= Seq::<BloodRequest>::empty());
            assert(sorted@.map_values(g) =~= urgency_sorted(src.take(0)));
        }
        while k < idxs.len()
            invariant
                0 <= k <= idxs@.len(),
                s == self.requests@,
                g == (|ix: usize| s[ix as int]),
                src == idxs@.map_values(g),
                forall|t: int| 0 <= t < idxs@.len() ==> #[trigger] idxs@[t] < s.len(),
                forall|t: int| 0 <= t < sorted@.len() ==> #[trigger] sorted@[t] < s.len(),
                sorted@.map_values(g) == urgency_sorted(src.take(k as int)),
                sorted@.len() == k,
            decreases idxs@.len() - k,
        {
            let ix = idxs[k];
            let w = self.requests[ix].urgency.priority_weight();
            let ghost ms = sorted@.map_values(g);
            let mut pos: usize = sorted.len();
            while pos > 0 && self.requests[sorted[pos - 1]].urgency.priority_weight() < w
                invariant
                    0 <= pos <= sorted@.len(),
                    s == self.requests@,
                    g == (|ix2: usize| s[ix2 as int]),
                    ms == sorted@.map_values(g),
                    forall|t: int| 0 <= t < sorted@.len() ==> #[trigger] sorted@[t] < s.len(),
                    w == spec_priority_weight(s[ix as int].urgency),
                    ix < s.len(),
                    forall|j: int|
                        pos <= j < ms.len() ==> spec_priority_weight((#[trigger] ms[j]).urgency)
                            < spec_priority_weight(s[ix as int].urgency),
                decreases pos,
            {
                proof {
                    assert(ms[pos - 1] == s[sorted@[pos - 1] as int]);
                }
                pos = pos - 1;
            }
            proof {
                if pos > 0 {
                    assert(ms[pos - 1] == s[sorted@[pos - 1] as int]);
                }
            }
            sorted.insert(pos, ix);
            proof {
                lemma_urgency_insert_at(ms, g(ix), pos as int);
                assert(sorted@.map_values(g) =~= ms.insert(pos as int, g(ix)));
                assert(src.take(k + 1).drop_last() =~= src.take(k as int));
                assert(src.take(k + 1).last() == src[k as int]);
                assert(src[k as int] == g(ix));
                assert(urgency_sorted(src.take(k + 1)) == urgency_insert(
                    urgency_sorted(src.take(k as int)),
                    g(ix),
                ));
            }
            k = k + 1;
        }
        proof {
            assert(src.take(src.len() as int) =~= src);
        }
        sorted
    }

    /// Requests created within `[start_time, end_time]`, optionally
    /// narrowed to one status, in creation order, paginated.
    pub fn query_requests_by_date_range(
        &self,
        start_time: u64,
        end_time: u64,
        status_filter: Option<RequestStatus>,
        limit: Option<u32>,
        offset: Option<u32>,
    ) -> (r: Vec<BloodRequest>)
        ensures
            ({
                let sel = self.requests@.filter(
                    Self::date_pred(start_time, end_time, status_filter),
                );
                let out_spec = page(sel, limit, offset);
                r@.len() == out_spec.len() && forall|t: int|
                    0 <= t < out_spec.len() ==> same_request(r@[t], #[trigger] out_spec[t])
            }),
    {
        let ghost p = Self::date_pred(start_time, end_time, status_filter);
        let ghost s = self.requests@;
        let ghost g = |ix: usize| s[ix as int];
        let mut idxs: Vec<usize> = Vec::new();
        let mut i: usize = 0;
        proof {
            reveal(Seq::filter);
            assert(s.take(0) =~= Seq::<BloodRequest>::empty());
            assert(idxs@.map_values(g) =~= s.take(0).filter(p));
        }
        while i < self.requests.len()
            invariant
                0 <= i <= s.len(),
                s == self.requests@,
                p == Self::date_pred(start_time, end_time, status_filter),
                g == (|ix: usize| s[ix as int]),
                idxs@.map_values(g) == s.take(i as int).filter(p),
                forall|t: int| 0 <= t < idxs@.len() ==> #[trigger] idxs@[t] < s.len(),
            decreases s.len() - i,
        {
            proof {
                lemma_filter_take_step(s, p, i as int);
            }
            let q = &self.requests[i];
            let matches_status = match status_filter {
                Some(st) => q.status == st,
                None => true,
            };
            if start_time <= q.created_at && q.created_at <= end_time && matches_status {
                idxs.push(i);
                proof {
                    assert(idxs@.map_values(g) =~= idxs@.drop_last().map_values(g).push(
                        g(i as usize),
                    ));
                }
            }
            i = i + 1;
        }
        proof {
            lemma_take_all(s);
        }
        self.page_and_load(idxs, limit, offset)
    }

    /// Requests of one urgency, optionally narrowed to one status, in
    /// creation order, paginated.
    pub fn query_requests_by_urgency_and_status(
        &self,
        urgency: UrgencyLevel,
        status_filter: Option<RequestStatus>,
        limit: Option<u32>,
        offset: Option<u32>,
    ) -> (r: Vec<BloodRequest>)
        ensures
            ({
                let sel = self.requests@.filter(Self::urgency_status_pred(urgency, status_filter));
                let out_spec = page(sel, limit, offset);
                r@.len() == out_spec.len() && forall|t: int|
                    0 <= t < out_spec.len() ==> same_request(r@[t], #[trigger] out_spec[t])
            }),
    {
        let ghost p = Self::urgency_status_pred(urgency, status_filter);
        let ghost s = self.requests@;
        let ghost g = |ix: usize| s[ix as int];
        let mut idxs: Vec<usize> = Vec::new();
        let mut i: usize = 0;
        proof {
            reveal(Seq::filter);
            assert(s.take(0) =~= Seq::<BloodRequest>::empty());
            assert(idxs@.map_values(g) =~= s.take(0).filter(p));
        }
        while i < self.requests.len()
            invariant
                0 <= i <= s.len(),
                s == self.requests@,
                p == Self::urgency_status_pred(urgency, status_filter),
                g == (|ix: usize| s[ix as int]),
                idxs@.map_values(g) == s.take(i as int).filter(p),
                forall|t: int| 0 <= t < idxs@.len() ==> #[trigger] idxs@[t] < s.len(),
            decreases s.len() - i,
        {
            proof {
                lemma_filter_take_step(s, p, i as int);
            }
            let q = &self.requests[i];
            let matches_status = match status_filter {
                Some(st) => q.status == st,
                None => true,
            };
            if q.urgency == urgency && matches_status {
                idxs.push(i);
                proof {
                    assert(idxs@.map_values(g) =~= idxs@.drop_last().map_values(g).push(
                        g(i as usize),
                    ));
                }
            }
            i = i + 1;
        }
        proof {
            lemma_take_all(s);
        }
        self.page_and_load(idxs, limit, offset)
    }
}

/// An element-by-element copy of an id list.
fn copy_ids(v: &Vec<u64>) -> (r: Vec<u64>)
    ensures
        r@ == v@,
{
    let mut r: Vec<u64> = Vec::new();
    let mut i: usize = 0;
    while i < v.len()
        invariant
            0 <= i <= v@.len(),
            r@ == v@.take(i as int),
        decreases v@.len() - i,
    {
        r.push(v[i]);
        proof {
            assert(r@ =~= v@.take(i + 1));
        }
        i = i + 1;
    }
    proof {
        assert(v@.take(v@.len() as int) =~= v@);
    }
    r
}

} // verus!
