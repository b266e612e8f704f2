use lifebank::errors::ContractError;
use lifebank::inventory::InventoryContract;
use lifebank::inventory::InventoryEvent;
use lifebank::storage;
use lifebank::types::BloodStatus;
use lifebank::types::BloodType;

const DAY: u64 = 86400;

fn create_test_contract() -> (u64, InventoryContract) {
    let admin = 1u64;
    let mut contract = InventoryContract::new();
    contract.initialize(admin).unwrap();
    (admin, contract)
}

#[test]
fn test_initialize_success() {
    let (admin, contract) = create_test_contract();
    let stored_admin = storage::get_admin(&contract);
    assert_eq!(stored_admin, admin);
}

#[test]
fn initialize_twice_is_refused() {
    let (admin, mut contract) = create_test_contract();
    assert_eq!(contract.initialize(admin), Err(ContractError::AlreadyInitialized));
}

#[test]
fn test_test_register_blood_success() {
    let (admin, mut contract) = create_test_contract();
    let bank = admin;
    let blood_type = BloodType::APositive;
    let quantity_ml = 450u32;

    let current_time = 1000u64;
    let expiration = current_time + 30 * DAY;
    let donor = 5u64;

    let blood_unit_id = contract
        .register_blood(bank, blood_type, quantity_ml, expiration, Some(donor), current_time)
        .unwrap();
    assert_eq!(blood_unit_id, 1);

    let stored_unit = contract.get_blood_unit(blood_unit_id).unwrap();
    assert_eq!(stored_unit.id, 1);
    assert_eq!(stored_unit.blood_type, blood_type);
    assert_eq!(stored_unit.quantity_ml, quantity_ml);
    assert_eq!(stored_unit.bank_id, bank);
    assert_eq!(stored_unit.donor_id, Some(donor));
    assert_eq!(stored_unit.donation_timestamp, current_time);
    assert_eq!(stored_unit.expiration_timestamp, expiration);
    assert_eq!(stored_unit.status, BloodStatus::Available);
}

#[test]
fn test_register_blood_anonymous_donor() {
    let (admin, mut contract) = create_test_contract();
    let bank = admin;
    let current_time = 1000u64;

    let blood_unit_id = contract
        .register_blood(
            bank,
            BloodType::ONegative,
            450,
            current_time + 30 * DAY,
            None,
            current_time,
        )
        .unwrap();

    let stored_unit = contract.get_blood_unit(blood_unit_id).unwrap();
    assert_eq!(stored_unit.donor_id, None);
}

#[test]
fn test_register_blood_increments_id() {
    let (admin, mut contract) = create_test_contract();
    let bank = admin;
    let current_time = 1000u64;
    let expiration = current_time + 30 * DAY;

    let id1 = contract
        .register_blood(bank, BloodType::APositive, 450, expiration, None, current_time)
        .unwrap();
    assert_eq!(id1, 1);
    let id2 = contract
        .register_blood(bank, BloodType::BPositive, 450, expiration, None, current_time)
        .unwrap();
    assert_eq!(id2, 2);
    let id3 = contract
        .register_blood(bank, BloodType::ONegative, 450, expiration, None, current_time)
        .unwrap();
    assert_eq!(id3, 3);
}

#[test]
fn test_register_all_blood_types() {
    let (admin, mut contract) = create_test_contract();
    let bank = admin;
    let current_time = 1000u64;
    let expiration = current_time + 30 * DAY;

    let blood_types = vec![
        BloodType::APositive,
        BloodType::ANegative,
        BloodType::BPositive,
        BloodType::BNegative,
        BloodType::ABPositive,
        BloodType::ABNegative,
        BloodType::OPositive,
        BloodType::ONegative,
    ];
    for (i, blood_type) in blood_types.into_iter().enumerate() {
        let id = contract
            .register_blood(bank, blood_type, 450, expiration, None, current_time)
            .unwrap();
        assert_eq!(id, (i + 1) as u64);
        let unit = contract.get_blood_unit(id).unwrap();
        assert_eq!(unit.blood_type, blood_type);
    }
}

#[test]
fn test_register_blood_edge_case_quantities() {
    let (admin, mut contract) = create_test_contract();
    let bank = admin;
    let current_time = 1000u64;
    let expiration = current_time + 30 * DAY;

    let id1 = contract
        .register_blood(bank, BloodType::APositive, 100, expiration, None, current_time)
        .unwrap();
    let unit1 = contract.get_blood_unit(id1).unwrap();
    assert_eq!(unit1.quantity_ml, 100);

    let id2 = contract
        .register_blood(bank, BloodType::BPositive, 600, expiration, None, current_time)
        .unwrap();
    let unit2 = contract.get_blood_unit(id2).unwrap();
    assert_eq!(unit2.quantity_ml, 600);
}

#[test]
fn test_register_blood_edge_case_expiration() {
    let (admin, mut contract) = create_test_contract();
    let bank = admin;
    let current_time = 1000u64;

    let min_expiration = current_time + DAY + 1;
    let id1 = contract
        .register_blood(bank, BloodType::APositive, 450, min_expiration, None, current_time)
        .unwrap();
    let unit1 = contract.get_blood_unit(id1).unwrap();
    assert_eq!(unit1.expiration_timestamp, min_expiration);

    let max_expiration = current_time + 42 * DAY;
    let id2 = contract
        .register_blood(bank, BloodType::BPositive, 450, max_expiration, None, current_time)
        .unwrap();
    let unit2 = contract.get_blood_unit(id2).unwrap();
    assert_eq!(unit2.expiration_timestamp, max_expiration);
}

#[test]
fn register_blood_error_paths() {
    let mut uninitialized = InventoryContract::new();
    let r = uninitialized.register_blood(1, BloodType::APositive, 450, 30 * DAY, None, 0);
    assert_eq!(r, Err(ContractError::NotInitialized));

    let (admin, mut contract) = create_test_contract();
    let current_time = 1000u64;
    let expiration = current_time + 30 * DAY;

    let r = contract.register_blood(9, BloodType::APositive, 450, expiration, None, current_time);
    assert_eq!(r, Err(ContractError::NotAuthorizedBloodBank));
    let r = contract.register_blood(admin, BloodType::APositive, 50, expiration, None, current_time);
    assert_eq!(r, Err(ContractError::InvalidQuantity));
    let r = contract.register_blood(admin, BloodType::APositive, 700, expiration, None, current_time);
    assert_eq!(r, Err(ContractError::InvalidQuantity));
    let r = contract
        .register_blood(admin, BloodType::APositive, 450, current_time - 100, None, current_time);
    assert_eq!(r, Err(ContractError::InvalidExpiration));
    let r = contract
        .register_blood(admin, BloodType::APositive, 450, current_time + 60 * DAY, None, current_time);
    assert_eq!(r, Err(ContractError::InvalidExpiration));
    let r = contract
        .register_blood(admin, BloodType::APositive, 450, current_time + 43200, None, current_time);
    assert_eq!(r, Err(ContractError::InvalidExpiration));
}

#[test]
fn get_blood_unit_not_found() {
    let (_admin, contract) = create_test_contract();
    assert_eq!(contract.get_blood_unit(999), Err(ContractError::NotFound));
}

#[test]
fn test_update_status_available_to_reserved() {
    let (admin, mut contract) = create_test_contract();
    let bank = admin;
    let current_time = 1000u64;
    let expiration = current_time + 30 * DAY;

    let unit_id = contract
        .register_blood(bank, BloodType::APositive, 450, expiration, None, current_time)
        .unwrap();

    let updated_unit = contract
        .update_status(
            unit_id,
            BloodStatus::Reserved,
            admin,
            Some("Reserved for Hospital A".to_string()),
            current_time,
        )
        .unwrap();
    assert_eq!(updated_unit.status, BloodStatus::Reserved);

    let stored = contract.get_blood_unit(unit_id).unwrap();
    assert_eq!(stored.status, BloodStatus::Reserved);
}

#[test]
fn test_update_status_complete_flow() {
    let (admin, mut contract) = create_test_contract();
    let bank = admin;
    let current_time = 1000u64;
    let expiration = current_time + 30 * DAY;

    let unit_id = contract
        .register_blood(bank, BloodType::APositive, 450, expiration, None, current_time)
        .unwrap();

    let unit = contract
        .update_status(unit_id, BloodStatus::Reserved, admin, Some("Reserved".to_string()), current_time)
        .unwrap();
    assert_eq!(unit.status, BloodStatus::Reserved);

    let unit = contract
        .update_status(unit_id, BloodStatus::InTransit, admin, Some("In transit".to_string()), current_time)
        .unwrap();
    assert_eq!(unit.status, BloodStatus::InTransit);

    let unit = contract
        .update_status(
            unit_id,
            BloodStatus::Delivered,
            admin,
            Some("Delivered to Hospital A".to_string()),
            current_time,
        )
        .unwrap();
    assert_eq!(unit.status, BloodStatus::Delivered);
}

#[test]
fn update_status_error_paths() {
    let (admin, mut contract) = create_test_contract();
    let current_time = 1000u64;
    let expiration = current_time + 5 * DAY;
    let unit_id = contract
        .register_blood(admin, BloodType::APositive, 450, expiration, None, current_time)
        .unwrap();

    // Skipping straight to Delivered is outside the table.
    let r = contract.update_status(unit_id, BloodStatus::Delivered, admin, None, current_time);
    assert_eq!(r, Err(ContractError::InvalidStatusTransition));

    // A caller other than the admin is refused.
    let r = contract.update_status(unit_id, BloodStatus::Reserved, 9, None, current_time);
    assert_eq!(r, Err(ContractError::Unauthorized));

    // A missing unit is reported as such.
    let r = contract.update_status(999, BloodStatus::Reserved, admin, None, current_time);
    assert_eq!(r, Err(ContractError::NotFound));

    // Once the clock passes the expiration, ordinary transitions fail...
    let late = expiration + 100;
    let r = contract.update_status(unit_id, BloodStatus::Reserved, admin, None, late);
    assert_eq!(r, Err(ContractError::BloodUnitExpired));
    // ...but retiring the unit still works.
    let unit = contract.update_status(unit_id, BloodStatus::Expired, admin, None, late).unwrap();
    assert_eq!(unit.status, BloodStatus::Expired);
}

#[test]
fn update_status_from_terminal_is_refused() {
    let (admin, mut contract) = create_test_contract();
    let current_time = 1000u64;
    let expiration = current_time + 30 * DAY;
    let unit_id = contract
        .register_blood(admin, BloodType::APositive, 450, expiration, None, current_time)
        .unwrap();

    contract.update_status(unit_id, BloodStatus::Reserved, admin, None, current_time).unwrap();
    contract.update_status(unit_id, BloodStatus::InTransit, admin, None, current_time).unwrap();
    contract.update_status(unit_id, BloodStatus::Delivered, admin, None, current_time).unwrap();

    let r = contract.update_status(unit_id, BloodStatus::Expired, admin, None, current_time);
    assert_eq!(r, Err(ContractError::InvalidStatusTransition));
}

#[test]
fn test_mark_delivered_success() {
    let (admin, mut contract) = create_test_contract();
    let current_time = 1000u64;
    let expiration = current_time + 30 * DAY;
    let unit_id = contract
        .register_blood(admin, BloodType::APositive, 450, expiration, None, current_time)
        .unwrap();

    contract.update_status(unit_id, BloodStatus::Reserved, admin, None, current_time).unwrap();
    contract.update_status(unit_id, BloodStatus::InTransit, admin, None, current_time).unwrap();

    let updated = contract
        .mark_delivered(unit_id, admin, "Hospital A".to_string(), current_time)
        .unwrap();
    assert_eq!(updated.status, BloodStatus::Delivered);
}

#[test]
fn mark_delivered_from_available_is_refused() {
    let (admin, mut contract) = create_test_contract();
    let current_time = 1000u64;
    let expiration = current_time + 30 * DAY;
    let unit_id = contract
        .register_blood(admin, BloodType::APositive, 450, expiration, None, current_time)
        .unwrap();

    let r = contract.mark_delivered(unit_id, admin, "Hospital A".to_string(), current_time);
    assert_eq!(r, Err(ContractError::InvalidStatusTransition));
}

#[test]
fn test_mark_expired_success() {
    let (admin, mut contract) = create_test_contract();
    let current_time = 1000u64;
    let expiration = current_time + 30 * DAY;
    let unit_id = contract
        .register_blood(admin, BloodType::APositive, 450, expiration, None, current_time)
        .unwrap();

    let updated = contract.mark_expired(unit_id, admin, current_time).unwrap();
    assert_eq!(updated.status, BloodStatus::Expired);
}

#[test]
fn mark_expired_records_conventional_reason() {
    let (admin, mut contract) = create_test_contract();
    let current_time = 1000u64;
    let expiration = current_time + 30 * DAY;
    let unit_id = contract
        .register_blood(admin, BloodType::APositive, 450, expiration, None, current_time)
        .unwrap();

    contract.mark_expired(unit_id, admin, current_time).unwrap();

    let history = contract.get_status_history(unit_id);
    assert_eq!(history.len(), 1);
    assert_eq!(history[0].to_status, BloodStatus::Expired);
    assert_eq!(history[0].reason, Some("Marked as expired".to_string()));
}

#[test]
fn inventory_mutations_emit_events() {
    let (admin, mut contract) = create_test_contract();
    let current_time = 1000u64;
    let expiration = current_time + 30 * DAY;
    let unit_id = contract
        .register_blood(admin, BloodType::BNegative, 450, expiration, None, current_time)
        .unwrap();
    assert_eq!(contract.events.len(), 1);
    match &contract.events[0] {
        InventoryEvent::BloodRegistered { unit_id: ev_unit, bank_id, blood_type, quantity_ml, expiration_timestamp } => {
            assert_eq!(*ev_unit, unit_id);
            assert_eq!(*bank_id, admin);
            assert_eq!(*blood_type, BloodType::BNegative);
            assert_eq!(*quantity_ml, 450);
            assert_eq!(*expiration_timestamp, expiration);
        },
        _ => panic!("expected a registration event"),
    }

    contract
        .update_status(unit_id, BloodStatus::Reserved, admin, Some("hold".to_string()), current_time)
        .unwrap();
    assert_eq!(contract.events.len(), 2);
    match &contract.events[1] {
        InventoryEvent::StatusChanged { unit_id: ev_unit, old_status, new_status, authorized_by, reason } => {
            assert_eq!(*ev_unit, unit_id);
            assert_eq!(*old_status, BloodStatus::Available);
            assert_eq!(*new_status, BloodStatus::Reserved);
            assert_eq!(*authorized_by, admin);
            assert_eq!(*reason, Some("hold".to_string()));
        },
        _ => panic!("expected a status change event"),
    }
}

#[test]
fn batch_update_emits_one_event_per_unit() {
    let (admin, mut contract) = create_test_contract();
    let current_time = 1000u64;
    let expiration = current_time + 30 * DAY;
    let id1 = contract
        .register_blood(admin, BloodType::APositive, 450, expiration, None, current_time)
        .unwrap();
    let id2 = contract
        .register_blood(admin, BloodType::BPositive, 450, expiration, None, current_time)
        .unwrap();
    let events_before = contract.events.len();

    contract
        .batch_update_status(vec![id1, id2], BloodStatus::Reserved, admin, None, current_time)
        .unwrap();
    assert_eq!(contract.events.len(), events_before + 2);
    match &contract.events[events_before] {
        InventoryEvent::StatusChanged { unit_id, new_status, .. } => {
            assert_eq!(*unit_id, id1);
            assert_eq!(*new_status, BloodStatus::Reserved);
        },
        _ => panic!("expected a status change event"),
    }
}

#[test]
fn test_mark_expired_from_reserved() {
    let (admin, mut contract) = create_test_contract();
    let current_time = 1000u64;
    let expiration = current_time + 30 * DAY;
    let unit_id = contract
        .register_blood(admin, BloodType::APositive, 450, expiration, None, current_time)
        .unwrap();

    contract.update_status(unit_id, BloodStatus::Reserved, admin, None, current_time).unwrap();

    let updated = contract.mark_expired(unit_id, admin, current_time).unwrap();
    assert_eq!(updated.status, BloodStatus::Expired);
}

#[test]
fn test_status_history_tracking() {
    let (admin, mut contract) = create_test_contract();
    let current_time = 1000u64;
    let expiration = current_time + 30 * DAY;
    let unit_id = contract
        .register_blood(admin, BloodType::APositive, 450, expiration, None, current_time)
        .unwrap();

    contract
        .update_status(unit_id, BloodStatus::Reserved, admin, Some("Reserved".to_string()), current_time)
        .unwrap();
    contract
        .update_status(
            unit_id,
            BloodStatus::InTransit,
            admin,
            Some("In transit".to_string()),
            current_time + 100,
        )
        .unwrap();
    contract
        .update_status(
            unit_id,
            BloodStatus::Delivered,
            admin,
            Some("Delivered".to_string()),
            current_time + 200,
        )
        .unwrap();

    let history = contract.get_status_history(unit_id);
    assert_eq!(history.len(), 3);

    assert_eq!(history[0].from_status, BloodStatus::Available);
    assert_eq!(history[0].to_status, BloodStatus::Reserved);
    assert_eq!(history[0].authorized_by, admin);

    assert_eq!(history[1].from_status, BloodStatus::Reserved);
    assert_eq!(history[1].to_status, BloodStatus::InTransit);

    assert_eq!(history[2].from_status, BloodStatus::InTransit);
    assert_eq!(history[2].to_status, BloodStatus::Delivered);
}

#[test]
fn test_status_change_count() {
    let (admin, mut contract) = create_test_contract();
    let current_time = 1000u64;
    let expiration = current_time + 30 * DAY;
    let unit_id = contract
        .register_blood(admin, BloodType::APositive, 450, expiration, None, current_time)
        .unwrap();

    assert_eq!(contract.get_status_change_count(unit_id), 0);

    contract.update_status(unit_id, BloodStatus::Reserved, admin, None, current_time).unwrap();
    assert_eq!(contract.get_status_change_count(unit_id), 1);

    contract.update_status(unit_id, BloodStatus::InTransit, admin, None, current_time).unwrap();
    assert_eq!(contract.get_status_change_count(unit_id), 2);

    contract.update_status(unit_id, BloodStatus::Delivered, admin, None, current_time).unwrap();
    assert_eq!(contract.get_status_change_count(unit_id), 3);
}

#[test]
fn test_batch_update_status_success() {
    let (admin, mut contract) = create_test_contract();
    let current_time = 1000u64;
    let expiration = current_time + 30 * DAY;

    let id1 = contract
        .register_blood(admin, BloodType::APositive, 450, expiration, None, current_time)
        .unwrap();
    let id2 = contract
        .register_blood(admin, BloodType::BPositive, 450, expiration, None, current_time)
        .unwrap();
    let id3 = contract
        .register_blood(admin, BloodType::ONegative, 450, expiration, None, current_time)
        .unwrap();

    let count = contract
        .batch_update_status(
            vec![id1, id2, id3],
            BloodStatus::Reserved,
            admin,
            Some("Batch reserved".to_string()),
            current_time,
        )
        .unwrap();
    assert_eq!(count, 3);

    assert_eq!(contract.get_blood_unit(id1).unwrap().status, BloodStatus::Reserved);
    assert_eq!(contract.get_blood_unit(id2).unwrap().status, BloodStatus::Reserved);
    assert_eq!(contract.get_blood_unit(id3).unwrap().status, BloodStatus::Reserved);
}

#[test]
fn test_batch_update_status_single_unit() {
    let (admin, mut contract) = create_test_contract();
    let current_time = 1000u64;
    let expiration = current_time + 30 * DAY;
    let unit_id = contract
        .register_blood(admin, BloodType::APositive, 450, expiration, None, current_time)
        .unwrap();

    let count = contract
        .batch_update_status(vec![unit_id], BloodStatus::Reserved, admin, None, current_time)
        .unwrap();
    assert_eq!(count, 1);
    assert_eq!(contract.get_blood_unit(unit_id).unwrap().status, BloodStatus::Reserved);
}

#[test]
fn test_batch_update_status_empty_list() {
    let (admin, mut contract) = create_test_contract();
    let count = contract
        .batch_update_status(vec![], BloodStatus::Reserved, admin, None, 1000)
        .unwrap();
    assert_eq!(count, 0);
}

#[test]
fn batch_update_status_is_atomic_on_failure() {
    let (admin, mut contract) = create_test_contract();
    let current_time = 1000u64;
    let expiration = current_time + 30 * DAY;
    let id1 = contract
        .register_blood(admin, BloodType::APositive, 450, expiration, None, current_time)
        .unwrap();
    let id2 = contract
        .register_blood(admin, BloodType::BPositive, 450, expiration, None, current_time)
        .unwrap();

    // A missing unit in the middle of the batch fails the whole batch.
    let r = contract.batch_update_status(
        vec![id1, 999, id2],
        BloodStatus::Reserved,
        admin,
        None,
        current_time,
    );
    assert_eq!(r, Err(ContractError::NotFound));
    assert_eq!(contract.get_blood_unit(id1).unwrap().status, BloodStatus::Available);
    assert_eq!(contract.get_blood_unit(id2).unwrap().status, BloodStatus::Available);
    assert_eq!(contract.get_status_change_count(id1), 0);

    // An illegal transition for one member fails the whole batch too.
    contract.update_status(id1, BloodStatus::Reserved, admin, None, current_time).unwrap();
    let r = contract.batch_update_status(
        vec![id1, id2],
        BloodStatus::Delivered,
        admin,
        None,
        current_time,
    );
    assert_eq!(r, Err(ContractError::InvalidStatusTransition));
    assert_eq!(contract.get_blood_unit(id1).unwrap().status, BloodStatus::Reserved);
    assert_eq!(contract.get_blood_unit(id2).unwrap().status, BloodStatus::Available);

    // An unauthorized caller changes nothing.
    let r = contract.batch_update_status(
        vec![id2],
        BloodStatus::Reserved,
        9,
        None,
        current_time,
    );
    assert_eq!(r, Err(ContractError::Unauthorized));
    assert_eq!(contract.get_blood_unit(id2).unwrap().status, BloodStatus::Available);
}
