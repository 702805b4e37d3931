use charmcircle::{CircleState, PubKey};

fn test_pubkey(n: u8) -> PubKey {
    let mut key = vec![0u8; 33];
    key[0] = 0x02; // Compressed pubkey prefix
    key[1] = n;
    PubKey(key)
}

#[test]
fn test_create_circle() {
    let circle_id = [1u8; 32];
    let circle = CircleState::new(circle_id, 100_000, 2_592_000, 1234567890);

    assert_eq!(circle.current_round, 0);
    assert_eq!(circle.members.len(), 0);
    assert!(!circle.is_complete);
}

#[test]
fn test_add_members() {
    let circle_id = [1u8; 32];
    let mut circle = CircleState::new(circle_id, 100_000, 2_592_000, 1234567890);

    circle.add_member(test_pubkey(1), 0, 1234567890).unwrap();
    circle.add_member(test_pubkey(2), 1, 1234567891).unwrap();
    circle.add_member(test_pubkey(3), 2, 1234567892).unwrap();

    assert_eq!(circle.members.len(), 3);
    assert_eq!(circle.total_rounds, 3);
    circle.validate().unwrap();
}

#[test]
fn test_validate_new_circle_with_one_member() {
    let circle_id = [1u8; 32];
    let mut circle = CircleState::new(circle_id, 100_000, 2_592_000, 1234567890);

    // The creator joins first, to be paid in round 0.
    circle.add_member(test_pubkey(1), 0, 1234567890).unwrap();

    assert_eq!(circle.members.len(), 1);
    assert_eq!(circle.total_rounds, 1);
    assert_eq!(circle.current_round, 0);
    assert_eq!(circle.current_pool, 0);
    assert_eq!(circle.current_payout_index, 0);
    assert_eq!(circle.members[0].payout_round, 0);

    circle
        .validate()
        .expect("New circle with one member should validate");
}

#[test]
fn test_contribution_and_payout() {
    let circle_id = [1u8; 32];
    let mut circle = CircleState::new(circle_id, 100_000, 2_592_000, 1234567890);

    circle.add_member(test_pubkey(1), 0, 1234567890).unwrap();
    circle.add_member(test_pubkey(2), 1, 1234567891).unwrap();

    let txid = [0u8; 32];
    circle
        .record_contribution(&test_pubkey(1), 100_000, 1234567900, txid)
        .unwrap();
    circle
        .record_contribution(&test_pubkey(2), 100_000, 1234567901, txid)
        .unwrap();

    assert!(circle.is_round_fully_funded());
    assert_eq!(circle.current_pool, 200_000);

    let (recipient, amount) = circle.execute_payout(1234567902).unwrap();
    assert_eq!(recipient, test_pubkey(1));
    assert_eq!(amount, 200_000);
    assert_eq!(circle.current_round, 1);
    assert_eq!(circle.current_pool, 0);

    circle.validate().unwrap();
}

#[test]
fn test_state_transition_validation() {
    let circle_id = [1u8; 32];
    let mut state1 = CircleState::new(circle_id, 100_000, 2_592_000, 1234567890);
    state1.add_member(test_pubkey(1), 0, 1234567890).unwrap();

    let mut state2 = state1.clone();
    state2.current_round = 1;
    state2.current_pool = 0;

    // A step to the next round with an empty pool is accepted.
    state1.validate_transition(&state2).unwrap();

    // Another circle's state is not.
    let mut state3 = state2.clone();
    state3.circle_id = [2u8; 32];
    assert!(state1.validate_transition(&state3).is_err());
}
