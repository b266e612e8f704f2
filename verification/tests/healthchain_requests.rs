use lifebank::errors::Error;
use lifebank::healthchain::HealthChainContract;
use lifebank::types::BloodStatus;
use lifebank::types::BloodType;
use lifebank::types::EmittedEvent;
use lifebank::types::RequestStatus;
use lifebank::types::UrgencyLevel;

const DAY: u64 = 86400;

fn setup_contract_with_admin() -> (u64, HealthChainContract) {
    let admin = 1u64;
    let mut contract = HealthChainContract::new();
    contract.initialize(admin).unwrap();
    (admin, contract)
}

fn setup_contract_with_hospital() -> (u64, u64, HealthChainContract) {
    let (admin, mut contract) = setup_contract_with_admin();
    let hospital = 3u64;
    contract.register_hospital(admin, hospital).unwrap();
    (admin, hospital, contract)
}

#[test]
fn test_create_request_success() {
    let (_admin, hospital, mut contract) = setup_contract_with_hospital();
    let current_time = 0u64;
    let required_by = current_time + 3600;

    let request_id = contract
        .create_request(
            hospital,
            BloodType::APositive,
            500,
            UrgencyLevel::Urgent,
            required_by,
            "Ward A, City Hospital".to_string(),
            current_time,
        )
        .unwrap();

    assert_eq!(contract.events.len(), 1);
    assert_eq!(request_id, 1);
}

#[test]
fn test_create_blood_request_success() {
    let (admin, mut contract) = setup_contract_with_admin();
    let hospital = 4u64;
    contract.register_hospital(admin, hospital).unwrap();

    let required_by = 0 + DAY;
    let result = contract
        .create_request(
            hospital,
            BloodType::ABNegative,
            500,
            UrgencyLevel::High,
            required_by,
            "Main_Hosp".to_string(),
            0,
        )
        .unwrap();
    assert_eq!(result, 1);
}

#[test]
fn test_create_request_event_payload() {
    let (_admin, hospital, mut contract) = setup_contract_with_hospital();
    let current_time = 0u64;
    let required_by = current_time + 7200;
    let delivery_address = "Ward E, General Hospital".to_string();

    let request_id = contract
        .create_request(
            hospital,
            BloodType::ONegative,
            450,
            UrgencyLevel::Critical,
            required_by,
            delivery_address.clone(),
            current_time,
        )
        .unwrap();

    assert_eq!(contract.events.len(), 1);
    match contract.events.last().unwrap() {
        EmittedEvent::RequestCreated(event) => {
            assert_eq!(event.request_id, request_id);
            assert_eq!(event.hospital_id, hospital);
            assert!(event.blood_type == BloodType::ONegative);
            assert_eq!(event.quantity_ml, 450);
            assert!(event.urgency == UrgencyLevel::Critical);
            assert_eq!(event.required_by, required_by);
            assert_eq!(event.delivery_address, delivery_address);
            assert_eq!(event.created_at, current_time);
        },
        _ => panic!("expected a request creation event"),
    }
}

#[test]
fn test_create_request_emits_event() {
    let (admin, mut contract) = setup_contract_with_admin();
    let hospital = 4u64;
    contract.register_hospital(admin, hospital).unwrap();

    let req_id = contract
        .create_request(
            hospital,
            BloodType::BPositive,
            300,
            UrgencyLevel::Critical,
            0 + 3600,
            "ER_Room".to_string(),
            0,
        )
        .unwrap();

    match contract.events.last().unwrap() {
        EmittedEvent::RequestCreated(event) => {
            assert_eq!(event.request_id, req_id);
            assert_eq!(event.hospital_id, hospital);
        },
        _ => panic!("expected a request creation event"),
    }
}

#[test]
fn test_update_request_status_pending_to_approved() {
    let (_admin, hospital, mut contract) = setup_contract_with_hospital();
    let current_time = 0u64;
    let required_by = current_time + 3600;

    let request_id = contract
        .create_request(
            hospital,
            BloodType::OPositive,
            500,
            UrgencyLevel::Urgent,
            required_by,
            "Ward A".to_string(),
            current_time,
        )
        .unwrap();

    contract
        .update_request_status(request_id, RequestStatus::Approved, current_time)
        .unwrap();
    assert!(contract.events.len() >= 2);
}

#[test]
fn test_update_request_status_approved_to_in_progress() {
    let (_admin, hospital, mut contract) = setup_contract_with_hospital();
    let current_time = 0u64;
    let required_by = current_time + 3600;

    let request_id = contract
        .create_request(
            hospital,
            BloodType::OPositive,
            500,
            UrgencyLevel::Urgent,
            required_by,
            "Ward A".to_string(),
            current_time,
        )
        .unwrap();

    contract
        .update_request_status(request_id, RequestStatus::Approved, current_time)
        .unwrap();
    contract
        .update_request_status(request_id, RequestStatus::InProgress, current_time)
        .unwrap();
    assert!(contract.events.len() >= 3);
}

#[test]
fn test_cancel_request_releases_reservations() {
    let (admin, hospital, mut contract) = setup_contract_with_hospital();
    let bank = 2u64;
    contract.register_blood_bank(admin, bank).unwrap();

    let current_time = 0u64;
    let expiration = current_time + 7 * DAY;
    let unit_id_1 = contract
        .register_blood(bank, BloodType::OPositive, 250, expiration, Some(101), current_time)
        .unwrap();
    let unit_id_2 = contract
        .register_blood(bank, BloodType::OPositive, 250, expiration, Some(102), current_time)
        .unwrap();

    contract.allocate_blood(bank, unit_id_1, hospital, current_time).unwrap();
    contract.allocate_blood(bank, unit_id_2, hospital, current_time).unwrap();

    let unit1 = contract.get_blood_unit(unit_id_1).unwrap();
    assert_eq!(unit1.status, BloodStatus::Reserved);

    let required_by = current_time + 3600;
    let request_id = contract
        .create_request(
            hospital,
            BloodType::OPositive,
            500,
            UrgencyLevel::Urgent,
            required_by,
            "Ward A".to_string(),
            current_time,
        )
        .unwrap();

    // The request never had units attached, so cancelling it releases
    // none: both allocations stay reserved.
    contract
        .cancel_request(request_id, hospital, "No longer needed".to_string(), current_time)
        .unwrap();
    assert_eq!(contract.get_blood_unit(unit_id_1).unwrap().status, BloodStatus::Reserved);
    assert_eq!(contract.get_blood_unit(unit_id_2).unwrap().status, BloodStatus::Reserved);
}

#[test]
fn test_fulfill_request_updates_inventory() {
    let (admin, hospital, mut contract) = setup_contract_with_hospital();
    let bank = 2u64;
    contract.register_blood_bank(admin, bank).unwrap();

    let current_time = 0u64;
    let expiration = current_time + 7 * DAY;
    let unit_id_1 = contract
        .register_blood(bank, BloodType::APositive, 250, expiration, Some(101), current_time)
        .unwrap();
    let unit_id_2 = contract
        .register_blood(bank, BloodType::APositive, 250, expiration, Some(102), current_time)
        .unwrap();

    contract.allocate_blood(bank, unit_id_1, hospital, current_time).unwrap();
    contract.allocate_blood(bank, unit_id_2, hospital, current_time).unwrap();

    let required_by = current_time + 3600;
    let request_id = contract
        .create_request(
            hospital,
            BloodType::APositive,
            500,
            UrgencyLevel::Urgent,
            required_by,
            "Ward B".to_string(),
            current_time,
        )
        .unwrap();

    contract
        .update_request_status(request_id, RequestStatus::Approved, current_time)
        .unwrap();

    let unit_ids = vec![unit_id_1, unit_id_2];
    contract.fulfill_request(bank, request_id, unit_ids, current_time).unwrap();

    let unit1 = contract.get_blood_unit(unit_id_1).unwrap();
    assert_eq!(unit1.status, BloodStatus::Delivered);
    assert!(unit1.delivery_timestamp.is_some());

    let unit2 = contract.get_blood_unit(unit_id_2).unwrap();
    assert_eq!(unit2.status, BloodStatus::Delivered);
    assert!(unit2.delivery_timestamp.is_some());
}

#[test]
fn test_status_transition_pending_to_rejected() {
    let (_admin, hospital, mut contract) = setup_contract_with_hospital();
    let current_time = 0u64;
    let required_by = current_time + 3600;

    let request_id = contract
        .create_request(
            hospital,
            BloodType::OPositive,
            500,
            UrgencyLevel::Low,
            required_by,
            "Ward A".to_string(),
            current_time,
        )
        .unwrap();

    contract
        .update_request_status(request_id, RequestStatus::Rejected, current_time)
        .unwrap();
    assert!(contract.events.len() >= 2);
}

#[test]
fn test_status_transition_approved_to_cancelled() {
    let (_admin, hospital, mut contract) = setup_contract_with_hospital();
    let current_time = 0u64;
    let required_by = current_time + 3600;

    let request_id = contract
        .create_request(
            hospital,
            BloodType::OPositive,
            500,
            UrgencyLevel::Urgent,
            required_by,
            "Ward A".to_string(),
            current_time,
        )
        .unwrap();

    contract
        .update_request_status(request_id, RequestStatus::Approved, current_time)
        .unwrap();
    contract
        .cancel_request(request_id, hospital, "Changed requirements".to_string(), current_time)
        .unwrap();
    assert!(contract.events.len() >= 3);
}

#[test]
fn test_status_transition_in_progress_to_fulfilled() {
    let (admin, hospital, mut contract) = setup_contract_with_hospital();
    let bank = 2u64;
    contract.register_blood_bank(admin, bank).unwrap();

    let current_time = 0u64;
    let expiration = current_time + 7 * DAY;
    let unit_id = contract
        .register_blood(bank, BloodType::BPositive, 500, expiration, Some(101), current_time)
        .unwrap();

    contract.allocate_blood(bank, unit_id, hospital, current_time).unwrap();

    let required_by = current_time + 3600;
    let request_id = contract
        .create_request(
            hospital,
            BloodType::BPositive,
            500,
            UrgencyLevel::Critical,
            required_by,
            "ER".to_string(),
            current_time,
        )
        .unwrap();

    contract
        .update_request_status(request_id, RequestStatus::Approved, current_time)
        .unwrap();
    contract
        .update_request_status(request_id, RequestStatus::InProgress, current_time)
        .unwrap();

    let unit_ids = vec![unit_id];
    contract.fulfill_request(bank, request_id, unit_ids, current_time).unwrap();

    let unit = contract.get_blood_unit(unit_id).unwrap();
    assert_eq!(unit.status, BloodStatus::Delivered);
}

#[test]
fn test_cancel_request_emits_event_with_reason() {
    let (_admin, hospital, mut contract) = setup_contract_with_hospital();
    let current_time = 0u64;
    let required_by = current_time + 3600;

    let request_id = contract
        .create_request(
            hospital,
            BloodType::OPositive,
            500,
            UrgencyLevel::Urgent,
            required_by,
            "Ward A".to_string(),
            current_time,
        )
        .unwrap();

    let cancel_reason = "Patient condition improved".to_string();
    contract
        .cancel_request(request_id, hospital, cancel_reason.clone(), current_time)
        .unwrap();
    assert!(contract.events.len() >= 2);
    match contract.events.last().unwrap() {
        EmittedEvent::RequestStatusChange(event) => {
            assert_eq!(event.request_id, request_id);
            assert_eq!(event.new_status, RequestStatus::Cancelled);
            assert_eq!(event.reason, Some(cancel_reason));
        },
        _ => panic!("expected a request status change event"),
    }
}

// Error paths of the request surface.

#[test]
fn create_request_rejects_unauthorized_hospital() {
    let (_admin, mut contract) = setup_contract_with_admin();
    let rogue = 9u64;
    let r = contract.create_request(
        rogue,
        BloodType::ONegative,
        600,
        UrgencyLevel::Critical,
        3600,
        "ER".to_string(),
        0,
    );
    assert_eq!(r, Err(Error::Unauthorized));
}

#[test]
fn create_request_rejects_bad_quantity() {
    let (_admin, hospital, mut contract) = setup_contract_with_hospital();
    let r = contract.create_request(
        hospital,
        BloodType::OPositive,
        10,
        UrgencyLevel::Routine,
        3600,
        "Ward B".to_string(),
        0,
    );
    assert_eq!(r, Err(Error::InvalidQuantity));
    let r = contract.create_request(
        hospital,
        BloodType::BPositive,
        6000,
        UrgencyLevel::Routine,
        3600,
        "Ward B".to_string(),
        0,
    );
    assert_eq!(r, Err(Error::InvalidQuantity));
}

#[test]
fn create_request_rejects_empty_address_and_past_deadline() {
    let (_admin, hospital, mut contract) = setup_contract_with_hospital();
    let now = 10000u64;
    let r = contract.create_request(
        hospital,
        BloodType::ABNegative,
        200,
        UrgencyLevel::Urgent,
        now + 3600,
        "".to_string(),
        now,
    );
    assert_eq!(r, Err(Error::InvalidDeliveryAddress));
    let r = contract.create_request(
        hospital,
        BloodType::OPositive,
        200,
        UrgencyLevel::High,
        5000,
        "Hosp_1".to_string(),
        now,
    );
    assert_eq!(r, Err(Error::InvalidRequiredBy));
    let r = contract.create_request(
        hospital,
        BloodType::ABPositive,
        200,
        UrgencyLevel::Urgent,
        now,
        "Ward C".to_string(),
        now,
    );
    assert_eq!(r, Err(Error::InvalidRequiredBy));
}

#[test]
fn duplicate_request_rejected_while_active() {
    let (_admin, hospital, mut contract) = setup_contract_with_hospital();
    let now = 0u64;
    let required_by = now + 7200;

    contract
        .create_request(
            hospital,
            BloodType::OPositive,
            350,
            UrgencyLevel::Urgent,
            required_by,
            "Ward D".to_string(),
            now,
        )
        .unwrap();

    // The identical tuple is rejected while the first request is active.
    let r = contract.create_request(
        hospital,
        BloodType::OPositive,
        350,
        UrgencyLevel::Urgent,
        required_by,
        "Ward D".to_string(),
        now,
    );
    assert_eq!(r, Err(Error::DuplicateRequest));

    // A different tuple goes through.
    let id2 = contract
        .create_request(
            hospital,
            BloodType::OPositive,
            400,
            UrgencyLevel::Urgent,
            required_by,
            "Ward D".to_string(),
            now,
        )
        .unwrap();
    assert_eq!(id2, 2);

    // Once the first request reaches a terminal status, the tuple is
    // free again.
    contract
        .cancel_request(1, hospital, "stale".to_string(), now)
        .unwrap();
    let id3 = contract
        .create_request(
            hospital,
            BloodType::OPositive,
            350,
            UrgencyLevel::Urgent,
            required_by,
            "Ward D".to_string(),
            now,
        )
        .unwrap();
    assert_eq!(id3, 3);
}

#[test]
fn update_request_status_rejects_illegal_edges() {
    let (_admin, hospital, mut contract) = setup_contract_with_hospital();
    let now = 0u64;
    let request_id = contract
        .create_request(
            hospital,
            BloodType::OPositive,
            500,
            UrgencyLevel::Urgent,
            now + 3600,
            "Ward A".to_string(),
            now,
        )
        .unwrap();

    // Pending cannot jump straight to Fulfilled.
    let r = contract.update_request_status(request_id, RequestStatus::Fulfilled, now);
    assert_eq!(r, Err(Error::InvalidTransition));

    // A cancelled request accepts no further transition.
    contract
        .cancel_request(request_id, hospital, "Test".to_string(), now)
        .unwrap();
    let r = contract.update_request_status(request_id, RequestStatus::Pending, now);
    assert_eq!(r, Err(Error::InvalidTransition));
    let r = contract.update_request_status(request_id, RequestStatus::Approved, now);
    assert_eq!(r, Err(Error::InvalidTransition));

    // A missing request is reported as such.
    let r = contract.update_request_status(999, RequestStatus::Approved, now);
    assert_eq!(r, Err(Error::UnitNotFound));
    let r = contract.cancel_request(999, hospital, "Test".to_string(), now);
    assert_eq!(r, Err(Error::UnitNotFound));
    let r = contract.fulfill_request(2, 999, vec![1], now);
    assert_eq!(r, Err(Error::UnitNotFound));
}

#[test]
fn cancel_request_rejects_second_cancellation() {
    let (_admin, hospital, mut contract) = setup_contract_with_hospital();
    let now = 0u64;
    let request_id = contract
        .create_request(
            hospital,
            BloodType::OPositive,
            500,
            UrgencyLevel::Urgent,
            now + 3600,
            "Ward A".to_string(),
            now,
        )
        .unwrap();

    contract
        .cancel_request(request_id, hospital, "First cancel".to_string(), now)
        .unwrap();
    let r = contract.cancel_request(request_id, hospital, "Second cancel".to_string(), now);
    assert_eq!(r, Err(Error::InvalidStatus));
}

#[test]
fn fulfillment_scenario_and_refusal_to_refulfill() {
    let (admin, hospital, mut contract) = setup_contract_with_hospital();
    let bank = 2u64;
    contract.register_blood_bank(admin, bank).unwrap();
    let now = 0u64;
    let unit_id = contract
        .register_blood(bank, BloodType::APositive, 450, now + 7 * DAY, Some(101), now)
        .unwrap();
    contract.allocate_blood(bank, unit_id, hospital, now).unwrap();

    let request_id = contract
        .create_request(
            hospital,
            BloodType::APositive,
            450,
            UrgencyLevel::Urgent,
            now + 3600,
            "Ward F".to_string(),
            now,
        )
        .unwrap();
    contract.update_request_status(request_id, RequestStatus::Approved, now).unwrap();

    // A non-bank caller may not fulfill; a pending list with a bad unit
    // is refused outright.
    let r = contract.fulfill_request(hospital, request_id, vec![unit_id], now + 10);
    assert_eq!(r, Err(Error::Unauthorized));

    contract.fulfill_request(bank, request_id, vec![unit_id], now + 10).unwrap();

    let request = &contract.requests[(request_id - 1) as usize];
    assert_eq!(request.status, RequestStatus::Fulfilled);
    assert_eq!(request.fulfillment_timestamp, Some(now + 10));
    assert_eq!(request.reserved_unit_ids, vec![unit_id]);
    assert_eq!(contract.get_blood_unit(unit_id).unwrap().status, BloodStatus::Delivered);

    // Fulfilled is terminal for the request: a second fulfillment fails.
    let r = contract.fulfill_request(bank, request_id, vec![unit_id], now + 20);
    assert_eq!(r, Err(Error::InvalidStatus));
}

#[test]
fn fulfill_request_rejects_pending_status() {
    let (admin, hospital, mut contract) = setup_contract_with_hospital();
    let bank = 2u64;
    contract.register_blood_bank(admin, bank).unwrap();
    let now = 0u64;
    let request_id = contract
        .create_request(
            hospital,
            BloodType::OPositive,
            500,
            UrgencyLevel::Urgent,
            now + 3600,
            "Ward A".to_string(),
            now,
        )
        .unwrap();

    let r = contract.fulfill_request(bank, request_id, vec![1], now);
    assert_eq!(r, Err(Error::InvalidStatus));
}

#[test]
fn batch_allocate_reserves_every_listed_unit() {
    let (admin, hospital, mut contract) = setup_contract_with_hospital();
    let bank = 2u64;
    contract.register_blood_bank(admin, bank).unwrap();
    let now = 0u64;
    let id1 = contract
        .register_blood(bank, BloodType::OPositive, 450, now + 7 * DAY, Some(101), now)
        .unwrap();
    let id2 = contract
        .register_blood(bank, BloodType::OPositive, 400, now + 7 * DAY, Some(102), now)
        .unwrap();

    let allocated = contract
        .batch_allocate_blood(bank, vec![id1, id2], hospital, now)
        .unwrap();
    assert_eq!(allocated, vec![id1, id2]);
    assert_eq!(contract.get_blood_unit(id1).unwrap().status, BloodStatus::Reserved);
    assert_eq!(contract.get_blood_unit(id2).unwrap().status, BloodStatus::Reserved);
    assert_eq!(contract.get_blood_unit(id1).unwrap().recipient_hospital, Some(hospital));
}

#[test]
fn batch_allocate_is_atomic_on_failure() {
    // A batch of [valid, valid, already-reserved] fails entirely: all
    // three units keep their pre-call state.
    let (admin, hospital, mut contract) = setup_contract_with_hospital();
    let bank = 2u64;
    contract.register_blood_bank(admin, bank).unwrap();
    let now = 0u64;
    let id1 = contract
        .register_blood(bank, BloodType::OPositive, 450, now + 7 * DAY, Some(101), now)
        .unwrap();
    let id2 = contract
        .register_blood(bank, BloodType::OPositive, 400, now + 7 * DAY, Some(102), now)
        .unwrap();
    let id3 = contract
        .register_blood(bank, BloodType::OPositive, 350, now + 7 * DAY, Some(103), now)
        .unwrap();
    contract.allocate_blood(bank, id3, hospital, now).unwrap();
    let history_before = contract.history.len();
    let events_before = contract.events.len();

    let r = contract.batch_allocate_blood(bank, vec![id1, id2, id3], hospital, now);
    assert_eq!(r, Err(Error::InvalidStatus));

    assert_eq!(contract.get_blood_unit(id1).unwrap().status, BloodStatus::Available);
    assert_eq!(contract.get_blood_unit(id1).unwrap().recipient_hospital, None);
    assert_eq!(contract.get_blood_unit(id2).unwrap().status, BloodStatus::Available);
    assert_eq!(contract.get_blood_unit(id2).unwrap().recipient_hospital, None);
    assert_eq!(contract.get_blood_unit(id3).unwrap().status, BloodStatus::Reserved);
    assert_eq!(contract.history.len(), history_before);
    assert_eq!(contract.events.len(), events_before);
}

#[test]
fn batch_allocate_rejects_oversized_batch() {
    let (admin, hospital, mut contract) = setup_contract_with_hospital();
    let bank = 2u64;
    contract.register_blood_bank(admin, bank).unwrap();
    let ids: Vec<u64> = (1..=101u64).collect();
    let r = contract.batch_allocate_blood(bank, ids, hospital, 0);
    assert_eq!(r, Err(Error::BatchSizeExceeded));
}

#[test]
fn confirm_delivery_forces_expiry_in_transit() {
    let (admin, hospital, mut contract) = setup_contract_with_hospital();
    let bank = 2u64;
    contract.register_blood_bank(admin, bank).unwrap();
    let now = 0u64;
    let unit_id = contract
        .register_blood(bank, BloodType::OPositive, 450, now + 2 * DAY, Some(101), now)
        .unwrap();
    contract.allocate_blood(bank, unit_id, hospital, now).unwrap();
    contract.initiate_transfer(bank, unit_id, now).unwrap();

    // Delivery confirmed after the expiration date: the unit is forced
    // to Expired and the caller learns why.
    let late = now + 3 * DAY;
    let r = contract.confirm_delivery(hospital, unit_id, late);
    assert_eq!(r, Err(Error::UnitExpired));
    assert_eq!(contract.get_blood_unit(unit_id).unwrap().status, BloodStatus::Expired);
}

#[test]
fn request_transition_table_is_exact() {
    // Every edge of the table, and nothing else.
    let allowed = [
        (RequestStatus::Pending, RequestStatus::Approved),
        (RequestStatus::Pending, RequestStatus::Rejected),
        (RequestStatus::Pending, RequestStatus::Cancelled),
        (RequestStatus::Approved, RequestStatus::InProgress),
        (RequestStatus::Approved, RequestStatus::Fulfilled),
        (RequestStatus::Approved, RequestStatus::Cancelled),
        (RequestStatus::InProgress, RequestStatus::Fulfilled),
        (RequestStatus::InProgress, RequestStatus::Cancelled),
    ];
    let all = [
        RequestStatus::Pending,
        RequestStatus::Approved,
        RequestStatus::InProgress,
        RequestStatus::Fulfilled,
        RequestStatus::Cancelled,
        RequestStatus::Rejected,
    ];
    for from in all {
        for to in all {
            let expected = allowed.iter().any(|&(f, t)| f == from && t == to);
            assert_eq!(HealthChainContract::is_valid_status_transition(&from, &to), expected);
        }
    }
}
