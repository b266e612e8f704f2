use lifebank::errors::ContractError;
use lifebank::requests::RequestContract;
use lifebank::requests::UrgencyLevel;
use lifebank::types::BloodType;
use lifebank::types::RequestStatus;

const DAY: u64 = 86400;

fn setup() -> (u64, u64, RequestContract) {
    let admin = 1u64;
    let hospital = 3u64;
    let mut contract = RequestContract::new();
    contract.initialize(admin).unwrap();
    contract.authorize_hospital(admin, hospital).unwrap();
    (admin, hospital, contract)
}

fn file_request(
    contract: &mut RequestContract,
    hospital: u64,
    blood_type: BloodType,
    quantity_ml: u32,
    urgency: UrgencyLevel,
    required_by: u64,
    now: u64,
) -> u64 {
    contract
        .create_request(
            hospital,
            blood_type,
            quantity_ml,
            urgency,
            required_by,
            "123 Hospital St".to_string(),
            51,
            "Transfusion".to_string(),
            "None".to_string(),
            now,
        )
        .unwrap()
}

#[test]
fn request_initialize_once() {
    let admin = 1u64;
    let mut contract = RequestContract::new();
    contract.initialize(admin).unwrap();
    assert_eq!(contract.initialize(admin), Err(ContractError::AlreadyInitialized));
}

#[test]
fn authorize_and_revoke_hospital() {
    let (admin, hospital, mut contract) = setup();
    assert!(contract.is_hospital_authorized(hospital));

    // Only the admin may grant or revoke.
    assert_eq!(contract.authorize_hospital(9, 4), Err(ContractError::Unauthorized));
    assert_eq!(contract.revoke_hospital(9, hospital), Err(ContractError::Unauthorized));

    contract.revoke_hospital(admin, hospital).unwrap();
    assert!(!contract.is_hospital_authorized(hospital));

    // Authorizing twice leaves a single registration that one revocation
    // removes.
    contract.authorize_hospital(admin, hospital).unwrap();
    contract.authorize_hospital(admin, hospital).unwrap();
    contract.revoke_hospital(admin, hospital).unwrap();
    assert!(!contract.is_hospital_authorized(hospital));
}

#[test]
fn create_request_success_and_fields() {
    let (_admin, hospital, mut contract) = setup();
    let now = 1000u64;
    let required_by = now + 7 * DAY;
    let id = file_request(
        &mut contract,
        hospital,
        BloodType::APositive,
        900,
        UrgencyLevel::Normal,
        required_by,
        now,
    );
    assert_eq!(id, 1);

    let q = contract.get_request(id).unwrap();
    assert_eq!(q.id, 1);
    assert_eq!(q.hospital_id, hospital);
    assert_eq!(q.blood_type, BloodType::APositive);
    assert_eq!(q.quantity_ml, 900);
    assert_eq!(q.urgency, UrgencyLevel::Normal);
    assert_eq!(q.status, RequestStatus::Pending);
    assert_eq!(q.created_at, now);
    assert_eq!(q.required_by, required_by);
    assert_eq!(q.fulfilled_at, None);
    assert_eq!(q.assigned_units.len(), 0);
    assert_eq!(q.delivery_address, "123 Hospital St");
    assert_eq!(q.metadata.patient_id, 51);
}

#[test]
fn create_request_validation_errors() {
    let (_admin, hospital, mut contract) = setup();
    let now = 1_000_000u64;
    let good_deadline = now + 7 * DAY;

    let mut uninitialized = RequestContract::new();
    let r = uninitialized.create_request(
        hospital,
        BloodType::APositive,
        450,
        UrgencyLevel::Normal,
        good_deadline,
        "A".to_string(),
        51,
        "P".to_string(),
        "N".to_string(),
        now,
    );
    assert_eq!(r, Err(ContractError::NotInitialized));

    let r = contract.create_request(
        9,
        BloodType::APositive,
        450,
        UrgencyLevel::Normal,
        good_deadline,
        "A".to_string(),
        51,
        "P".to_string(),
        "N".to_string(),
        now,
    );
    assert_eq!(r, Err(ContractError::NotAuthorizedHospital));

    for bad_quantity in [0u32, 49, 5001, 50000] {
        let r = contract.create_request(
            hospital,
            BloodType::APositive,
            bad_quantity,
            UrgencyLevel::Normal,
            good_deadline,
            "A".to_string(),
            51,
            "P".to_string(),
            "N".to_string(),
            now,
        );
        assert_eq!(r, Err(ContractError::InvalidQuantity));
    }

    // A deadline in the past or at the current instant is no timestamp
    // at all; one beyond the thirty-day window fails the deadline rule.
    for bad_deadline in [now - 100, now] {
        let r = contract.create_request(
            hospital,
            BloodType::APositive,
            450,
            UrgencyLevel::Normal,
            bad_deadline,
            "A".to_string(),
            51,
            "P".to_string(),
            "N".to_string(),
            now,
        );
        assert_eq!(r, Err(ContractError::InvalidTimestamp));
    }
    for far_deadline in [now + 31 * DAY, now + 60 * DAY] {
        let r = contract.create_request(
            hospital,
            BloodType::APositive,
            450,
            UrgencyLevel::Normal,
            far_deadline,
            "A".to_string(),
            51,
            "P".to_string(),
            "N".to_string(),
            now,
        );
        assert_eq!(r, Err(ContractError::InvalidRequiredBy));
    }

    let r = contract.create_request(
        hospital,
        BloodType::APositive,
        450,
        UrgencyLevel::Normal,
        good_deadline,
        "".to_string(),
        51,
        "P".to_string(),
        "N".to_string(),
        now,
    );
    assert_eq!(r, Err(ContractError::InvalidDeliveryAddress));
}

#[test]
fn urgency_lead_time_windows() {
    let (_admin, hospital, mut contract) = setup();
    let now = 1_000_000u64;

    // Critical needs an hour: two hours pass, thirty minutes fail.
    file_request(&mut contract, hospital, BloodType::APositive, 450, UrgencyLevel::Critical, now + 2 * 3600, now);
    let r = contract.create_request(
        hospital,
        BloodType::APositive,
        460,
        UrgencyLevel::Critical,
        now + 1800,
        "A".to_string(),
        51,
        "P".to_string(),
        "N".to_string(),
        now,
    );
    assert_eq!(r, Err(ContractError::InvalidRequiredBy));

    // Urgent needs four hours: five pass, two fail.
    file_request(&mut contract, hospital, BloodType::BPositive, 450, UrgencyLevel::Urgent, now + 5 * 3600, now);
    let r = contract.create_request(
        hospital,
        BloodType::BPositive,
        460,
        UrgencyLevel::Urgent,
        now + 2 * 3600,
        "A".to_string(),
        51,
        "P".to_string(),
        "N".to_string(),
        now,
    );
    assert_eq!(r, Err(ContractError::InvalidRequiredBy));

    // Normal needs a day: two days pass, twelve hours fail.
    file_request(&mut contract, hospital, BloodType::ONegative, 450, UrgencyLevel::Normal, now + 48 * 3600, now);
    let r = contract.create_request(
        hospital,
        BloodType::ONegative,
        460,
        UrgencyLevel::Normal,
        now + 12 * 3600,
        "A".to_string(),
        51,
        "P".to_string(),
        "N".to_string(),
        now,
    );
    assert_eq!(r, Err(ContractError::InvalidRequiredBy));
}

#[test]
fn duplicate_request_detection_on_request_surface() {
    let (_admin, hospital, mut contract) = setup();
    let now = 1000u64;
    let required_by = now + 7 * DAY;

    file_request(&mut contract, hospital, BloodType::OPositive, 450, UrgencyLevel::Normal, required_by, now);
    let r = contract.create_request(
        hospital,
        BloodType::OPositive,
        450,
        UrgencyLevel::Normal,
        required_by,
        "123 Hospital St".to_string(),
        52,
        "Other".to_string(),
        "Note".to_string(),
        now,
    );
    assert_eq!(r, Err(ContractError::DuplicateRequest));
}

#[test]
fn approve_and_update_request_status() {
    let (admin, hospital, mut contract) = setup();
    let now = 1000u64;
    let required_by = now + 7 * DAY;
    let id = file_request(&mut contract, hospital, BloodType::APositive, 450, UrgencyLevel::Normal, required_by, now);

    assert_eq!(contract.approve_request(9, id, now), Err(ContractError::Unauthorized));
    assert_eq!(contract.approve_request(admin, 999, now), Err(ContractError::NotFound));

    // Past the deadline the approval is refused.
    assert_eq!(
        contract.approve_request(admin, id, required_by),
        Err(ContractError::RequestExpired)
    );

    contract.approve_request(admin, id, now + 10).unwrap();
    assert_eq!(contract.get_request(id).unwrap().status, RequestStatus::Approved);

    // Approving again is an illegal edge.
    assert_eq!(
        contract.approve_request(admin, id, now + 20),
        Err(ContractError::InvalidStatusTransition)
    );

    // Reaching Fulfilled stamps the fulfillment time.
    contract
        .update_request_status(admin, id, RequestStatus::Fulfilled, now + 30)
        .unwrap();
    let q = contract.get_request(id).unwrap();
    assert_eq!(q.status, RequestStatus::Fulfilled);
    assert_eq!(q.fulfilled_at, Some(now + 30));

    assert_eq!(
        contract.update_request_status(admin, id, RequestStatus::Pending, now + 40),
        Err(ContractError::InvalidStatusTransition)
    );
    assert_eq!(
        contract.update_request_status(admin, 999, RequestStatus::Approved, now),
        Err(ContractError::RequestNotFound)
    );
}

#[test]
fn cancel_request_authorization_and_state() {
    let (admin, hospital, mut contract) = setup();
    let now = 1000u64;
    let id = file_request(&mut contract, hospital, BloodType::APositive, 450, UrgencyLevel::Normal, now + 7 * DAY, now);

    assert_eq!(contract.cancel_request(id, 9), Err(ContractError::Unauthorized));
    assert_eq!(contract.cancel_request(999, admin), Err(ContractError::NotFound));

    contract.cancel_request(id, hospital).unwrap();
    assert_eq!(contract.get_request(id).unwrap().status, RequestStatus::Cancelled);

    assert_eq!(contract.cancel_request(id, hospital), Err(ContractError::CannotCancelRequest));
}

#[test]
fn assign_blood_units_replaces_list() {
    let (admin, hospital, mut contract) = setup();
    let now = 1000u64;
    let id = file_request(&mut contract, hospital, BloodType::APositive, 450, UrgencyLevel::Normal, now + 7 * DAY, now);

    assert_eq!(
        contract.assign_blood_units(9, id, vec![1, 2]),
        Err(ContractError::Unauthorized)
    );
    assert_eq!(
        contract.assign_blood_units(admin, 999, vec![1, 2]),
        Err(ContractError::RequestNotFound)
    );

    contract.assign_blood_units(admin, id, vec![7, 8, 9]).unwrap();
    assert_eq!(contract.get_request(id).unwrap().assigned_units, vec![7, 8, 9]);
}

#[test]
fn id_index_getters() {
    let (_admin, hospital, mut contract) = setup();
    let now = 1000u64;
    let id1 = file_request(&mut contract, hospital, BloodType::APositive, 450, UrgencyLevel::Normal, now + 7 * DAY, now);
    let id2 = file_request(&mut contract, hospital, BloodType::OPositive, 500, UrgencyLevel::Critical, now + 2 * 3600, now);

    assert_eq!(contract.get_hospital_requests(hospital), vec![id1, id2]);
    assert_eq!(contract.get_hospital_requests(9), Vec::<u64>::new());
    assert_eq!(contract.get_requests_by_status(RequestStatus::Pending), vec![id1, id2]);
    assert_eq!(contract.get_requests_by_blood_type(BloodType::OPositive), vec![id2]);
    assert_eq!(contract.get_requests_by_urgency(UrgencyLevel::Critical), vec![id2]);
}

#[test]
fn pending_queue_is_urgency_sorted_and_stable() {
    let (_admin, hospital, mut contract) = setup();
    let now = 1_000_000u64;

    // Filed in mixed order; quantities tell them apart.
    let _n1 = file_request(&mut contract, hospital, BloodType::APositive, 100, UrgencyLevel::Normal, now + 7 * DAY, now);
    let _c1 = file_request(&mut contract, hospital, BloodType::APositive, 200, UrgencyLevel::Critical, now + 2 * 3600, now);
    let _u1 = file_request(&mut contract, hospital, BloodType::APositive, 300, UrgencyLevel::Urgent, now + 5 * 3600, now);
    let _c2 = file_request(&mut contract, hospital, BloodType::BPositive, 400, UrgencyLevel::Critical, now + 2 * 3600, now);

    let queue = contract.query_pending_requests(None, None);
    assert_eq!(queue.len(), 4);
    // Critical first, in filing order; then urgent; then normal.
    assert_eq!(queue[0].quantity_ml, 200);
    assert_eq!(queue[1].quantity_ml, 400);
    assert_eq!(queue[2].quantity_ml, 300);
    assert_eq!(queue[3].quantity_ml, 100);

    // A non-pending request leaves the queue.
    contract.cancel_request(_c1, hospital).unwrap();
    let queue = contract.query_pending_requests(None, None);
    assert_eq!(queue.len(), 3);
    assert_eq!(queue[0].quantity_ml, 400);
}

#[test]
fn pagination_defaults_caps_and_offsets() {
    let (_admin, hospital, mut contract) = setup();
    let now = 1_000_000u64;
    for i in 0..60u32 {
        file_request(
            &mut contract,
            hospital,
            BloodType::APositive,
            100 + i,
            UrgencyLevel::Normal,
            now + 7 * DAY + i as u64,
            now,
        );
    }

    // The default page holds 50 entries.
    let page = contract.query_hospital_requests(hospital, None, None, None);
    assert_eq!(page.len(), 50);
    assert_eq!(page[0].id, 1);

    // An explicit limit is honored; an oversized one is capped.
    let page = contract.query_hospital_requests(hospital, None, Some(10), None);
    assert_eq!(page.len(), 10);
    let page = contract.query_hospital_requests(hospital, None, Some(1000), None);
    assert_eq!(page.len(), 60);

    // Offsets skip, and one beyond the end yields an empty page.
    let page = contract.query_hospital_requests(hospital, None, Some(10), Some(55));
    assert_eq!(page.len(), 5);
    assert_eq!(page[0].id, 56);
    let page = contract.query_hospital_requests(hospital, None, Some(10), Some(60));
    assert_eq!(page.len(), 0);
    let page = contract.query_hospital_requests(hospital, None, Some(10), Some(1000));
    assert_eq!(page.len(), 0);
}

#[test]
fn date_range_and_urgency_queries() {
    let (admin, hospital, mut contract) = setup();
    let now1 = 1_000_000u64;
    let now2 = now1 + 1000;
    let now3 = now1 + 2000;
    let id1 = file_request(&mut contract, hospital, BloodType::APositive, 450, UrgencyLevel::Normal, now1 + 7 * DAY, now1);
    let id2 = file_request(&mut contract, hospital, BloodType::APositive, 500, UrgencyLevel::Critical, now2 + 3600, now2);
    let id3 = file_request(&mut contract, hospital, BloodType::APositive, 550, UrgencyLevel::Critical, now3 + 3600, now3);
    contract.approve_request(admin, id2, now3).unwrap();

    // Inclusive on both ends.
    let hits = contract.query_requests_by_date_range(now1, now2, None, None, None);
    assert_eq!(hits.len(), 2);
    assert_eq!(hits[0].id, id1);
    assert_eq!(hits[1].id, id2);

    // Optionally narrowed by status.
    let hits = contract.query_requests_by_date_range(
        now1,
        now3,
        Some(RequestStatus::Approved),
        None,
        None,
    );
    assert_eq!(hits.len(), 1);
    assert_eq!(hits[0].id, id2);

    let hits = contract.query_requests_by_urgency_and_status(
        UrgencyLevel::Critical,
        Some(RequestStatus::Pending),
        None,
        None,
    );
    assert_eq!(hits.len(), 1);
    assert_eq!(hits[0].id, id3);

    let hits = contract.query_requests_by_urgency_and_status(UrgencyLevel::Critical, None, None, None);
    assert_eq!(hits.len(), 2);

    // Requests narrowed to one hospital and status.
    let hits = contract.query_hospital_requests(hospital, Some(RequestStatus::Approved), None, None);
    assert_eq!(hits.len(), 1);
    assert_eq!(hits[0].id, id2);
}

#[test]
fn urgency_weights_and_comparison() {
    assert_eq!(UrgencyLevel::Critical.priority_weight(), 3);
    assert_eq!(UrgencyLevel::Urgent.priority_weight(), 2);
    assert_eq!(UrgencyLevel::Normal.priority_weight(), 1);
    assert!(UrgencyLevel::Critical.is_higher_than(&UrgencyLevel::Urgent));
    assert!(UrgencyLevel::Urgent.is_higher_than(&UrgencyLevel::Normal));
    assert!(!UrgencyLevel::Normal.is_higher_than(&UrgencyLevel::Critical));
}

#[test]
fn get_request_by_id_present_and_absent() {
    let (_admin, hospital, mut contract) = setup();
    let now = 1000u64;
    let id = file_request(&mut contract, hospital, BloodType::APositive, 450, UrgencyLevel::Normal, now + 7 * DAY, now);

    let q = contract.get_request_by_id(id).unwrap();
    assert_eq!(q.id, id);
    assert!(contract.get_request_by_id(999).is_none());
    assert_eq!(contract.get_request(999), Err(ContractError::RequestNotFound));
}
