use charmcircle::boundary::{apply_add_member, apply_record_contribution, create_circle};
use charmcircle::cbor::CborValue;
use charmcircle::error::{ApplyError, DecodeError, OperationError};
use charmcircle::hashing::digest_encoded;
use charmcircle::{CircleState, ContributionRecord, Member, PubKey};

fn key_for(n: u8) -> PubKey {
    let mut key = [0u8; 33];
    key[0] = 0x02;
    key[1] = n;
    PubKey::from_bytes(key)
}

fn circle_with_creator() -> CircleState {
    let mut circle = CircleState::new([1u8; 32], 100_000, 2_592_000, 1234567890);
    circle.add_member(key_for(1), 0, 1234567890).unwrap();
    circle
}

fn funded_circle() -> CircleState {
    let mut circle = circle_with_creator();
    circle.add_member(key_for(2), 1, 1234567891).unwrap();
    circle
        .record_contribution(&key_for(1), 100_000, 1234567900, [0u8; 32])
        .unwrap();
    circle
        .record_contribution(&key_for(2), 100_000, 1234567901, [0u8; 32])
        .unwrap();
    circle
}

fn text(s: &str) -> CborValue {
    CborValue::Text(s.to_string())
}

const CREATOR_STATE_HEX: &str = "ac69636972636c655f696498200101010101010101010101010101010101010101010101010101010101010101676d656d6265727381a6667075626b6579982102010000000000000000000000000000000000000000000000000000000000000073636f6e747269627574696f6e5f616d6f756e741a000186a074636f6e747269627574696f6e5f686973746f727980736861735f72656365697665645f7061796f7574f46c7061796f75745f726f756e6400696a6f696e65645f61741a499602d26d63757272656e745f726f756e64006c746f74616c5f726f756e64730176636f6e747269627574696f6e5f7065725f726f756e641a000186a07463757272656e745f7061796f75745f696e646578006c63757272656e745f706f6f6c006a637265617465645f61741a499602d270726f756e645f737461727465645f61741a499602d26e726f756e645f6475726174696f6e1a00278d006b69735f636f6d706c657465f46f707265765f73746174655f6861736898200000000000000000000000000000000000000000000000000000000000000000";

#[test]
fn cbor_items_are_written_as_cbor() {
    assert_eq!(CborValue::Unsigned(5).to_bytes(), Some(vec![0x05]));
    assert_eq!(CborValue::Unsigned(1000).to_bytes(), Some(vec![0x19, 0x03, 0xe8]));
    assert_eq!(CborValue::Bool(true).to_bytes(), Some(vec![0xf5]));
    assert_eq!(CborValue::Bool(false).to_bytes(), Some(vec![0xf4]));
    assert_eq!(text("x").to_bytes(), Some(vec![0x61, 0x78]));
    assert_eq!(CborValue::Unsupported.to_bytes(), Some(vec![0xf6]));
    let nested = CborValue::Dict(vec![
        (text("a"), CborValue::Unsigned(1)),
        (
            text("b"),
            CborValue::Array(vec![
                CborValue::Bool(true),
                CborValue::Bool(false),
                text("x"),
                CborValue::Unsigned(1000),
                CborValue::Unsigned(70000),
                CborValue::Unsigned(5000000000),
            ]),
        ),
    ]);
    assert_eq!(
        hex::encode(nested.to_bytes().unwrap()),
        "a2616101616286f5f461781903e81a000111701b000000012a05f200"
    );
}

#[test]
fn cbor_items_are_read_from_cbor() {
    assert_eq!(CborValue::from_bytes(&[0x05]), Some(CborValue::Unsigned(5)));
    assert_eq!(CborValue::from_bytes(&[0x19, 0x03, 0xe8]), Some(CborValue::Unsigned(1000)));
    assert_eq!(CborValue::from_bytes(&[0xf5]), Some(CborValue::Bool(true)));
    assert_eq!(CborValue::from_bytes(&[0x61, 0x78]), Some(text("x")));
    let bytes = hex::decode("a2616101616286f5f461781903e81a000111701b000000012a05f200").unwrap();
    assert_eq!(
        CborValue::from_bytes(&bytes),
        Some(CborValue::Dict(vec![
            (text("a"), CborValue::Unsigned(1)),
            (
                text("b"),
                CborValue::Array(vec![
                    CborValue::Bool(true),
                    CborValue::Bool(false),
                    text("x"),
                    CborValue::Unsigned(1000),
                    CborValue::Unsigned(70000),
                    CborValue::Unsigned(5000000000),
                ]),
            ),
        ]))
    );
}

#[test]
fn other_cbor_items_are_read_as_unsupported() {
    // -1, null, a byte string, a float
    assert_eq!(CborValue::from_bytes(&[0x20]), Some(CborValue::Unsupported));
    assert_eq!(CborValue::from_bytes(&[0xf6]), Some(CborValue::Unsupported));
    assert_eq!(CborValue::from_bytes(&[0x41, 0x00]), Some(CborValue::Unsupported));
    assert_eq!(
        CborValue::from_bytes(&[0xfb, 0x3f, 0xf8, 0, 0, 0, 0, 0, 0]),
        Some(CborValue::Unsupported)
    );
    assert_eq!(
        CborValue::from_bytes(&[0x82, 0x01, 0x20]),
        Some(CborValue::Array(vec![CborValue::Unsigned(1), CborValue::Unsupported]))
    );
}

#[test]
fn bytes_that_hold_no_item_are_not_read() {
    assert_eq!(CborValue::from_bytes(&[]), None);
    // An array of two items of which one is there.
    assert_eq!(CborValue::from_bytes(&[0x82, 0x01]), None);
    // A text of three bytes of which one is there.
    assert_eq!(CborValue::from_bytes(&[0x63, 0x61]), None);
}

#[test]
fn digest_is_sha256() {
    assert_eq!(
        hex::encode(digest_encoded(&Some(b"abc".to_vec()))),
        "ba7816bf8f01cfea414140de5dae2223b00361a396177a9cb410ff61f20015ad"
    );
    assert_eq!(
        hex::encode(digest_encoded(&Some(Vec::new()))),
        "e3b0c44298fc1c149afbf4c8996fb92427ae41e4649b934ca495991b7852b855"
    );
    assert_eq!(digest_encoded(&None), [0u8; 32]);
}

#[test]
fn state_is_encoded_field_by_field_in_order() {
    let circle = circle_with_creator();
    assert_eq!(hex::encode(circle.encode().unwrap()), CREATOR_STATE_HEX);
    let empty = CircleState::new([1u8; 32], 100_000, 2_592_000, 1234567890);
    assert_eq!(
        hex::encode(empty.encode().unwrap()),
        "ac69636972636c655f696498200101010101010101010101010101010101010101010101010101010101010101676d656d62657273806d63757272656e745f726f756e64006c746f74616c5f726f756e64730076636f6e747269627574696f6e5f7065725f726f756e641a000186a07463757272656e745f7061796f75745f696e646578006c63757272656e745f706f6f6c006a637265617465645f61741a499602d270726f756e645f737461727465645f61741a499602d26e726f756e645f6475726174696f6e1a00278d006b69735f636f6d706c657465f46f707265765f73746174655f6861736898200000000000000000000000000000000000000000000000000000000000000000"
    );
}

#[test]
fn state_hash_is_the_digest_of_the_encoding() {
    let circle = circle_with_creator();
    assert_eq!(
        hex::encode(circle.state_hash()),
        "5b45d8a55922b7b5c132e31456b73f788c853e4fd1614f9b4660591f97ff7e29"
    );
    assert_eq!(circle.state_hash(), digest_encoded(&circle.encode()));
    let funded = funded_circle();
    assert_eq!(
        hex::encode(funded.state_hash()),
        "f9b1aee23a18f51313fc93995300c5cd4c3eab714ac0d18d4bd6fe87c5d9d51b"
    );
}

#[test]
fn state_hash_is_stable() {
    let circle = funded_circle();
    let first = circle.state_hash();
    let second = circle.state_hash();
    assert_eq!(first, second);
    assert_eq!(circle.clone().state_hash(), first);
}

#[test]
fn state_hash_changes_with_every_field() {
    let circle = funded_circle();
    let hash = circle.state_hash();

    let mut changed = Vec::new();
    let mut c = circle.clone();
    c.circle_id[0] = 9;
    changed.push(c);
    let mut c = circle.clone();
    c.members.swap(0, 1);
    changed.push(c);
    let mut c = circle.clone();
    c.current_round = 1;
    changed.push(c);
    let mut c = circle.clone();
    c.total_rounds = 3;
    changed.push(c);
    let mut c = circle.clone();
    c.contribution_per_round = 100_001;
    changed.push(c);
    let mut c = circle.clone();
    c.current_payout_index = 1;
    changed.push(c);
    let mut c = circle.clone();
    c.current_pool = 0;
    changed.push(c);
    let mut c = circle.clone();
    c.created_at = 1;
    changed.push(c);
    let mut c = circle.clone();
    c.round_started_at = 1;
    changed.push(c);
    let mut c = circle.clone();
    c.round_duration = 1;
    changed.push(c);
    let mut c = circle.clone();
    c.is_complete = true;
    changed.push(c);
    let mut c = circle.clone();
    c.prev_state_hash[31] = 1;
    changed.push(c);
    let mut c = circle.clone();
    c.members[1].pubkey.0[32] = 1;
    changed.push(c);
    let mut c = circle.clone();
    c.members[1].contribution_amount = 1;
    changed.push(c);
    let mut c = circle.clone();
    c.members[1].has_received_payout = true;
    changed.push(c);
    let mut c = circle.clone();
    c.members[1].payout_round = 0;
    changed.push(c);
    let mut c = circle.clone();
    c.members[1].joined_at = 0;
    changed.push(c);
    let mut c = circle.clone();
    c.members[1].contribution_history[0].round = 1;
    changed.push(c);
    let mut c = circle.clone();
    c.members[1].contribution_history[0].amount = 1;
    changed.push(c);
    let mut c = circle.clone();
    c.members[1].contribution_history[0].timestamp = 1;
    changed.push(c);
    let mut c = circle.clone();
    c.members[1].contribution_history[0].txid[5] = 1;
    changed.push(c);
    let mut c = circle.clone();
    c.members[1].contribution_history.clear();
    changed.push(c);

    assert_eq!(changed.len(), 22);
    for (n, other) in changed.iter().enumerate() {
        assert_ne!(other.state_hash(), hash, "change {} left the digest as it was", n);
        assert_ne!(other.encode(), circle.encode(), "change {} left the encoding as it was", n);
    }
}

#[test]
fn encoded_state_decodes_to_the_same_state() {
    let mut circle = funded_circle();
    circle.execute_payout(1234567902).unwrap();
    circle
        .record_contribution(&key_for(2), 100_000, 1234567950, [0xabu8; 32])
        .unwrap();

    let bytes = circle.encode().unwrap();
    let decoded = CircleState::decode(&bytes).unwrap();

    assert_eq!(decoded.circle_id, circle.circle_id);
    assert_eq!(decoded.members, circle.members);
    assert_eq!(decoded.current_round, circle.current_round);
    assert_eq!(decoded.total_rounds, circle.total_rounds);
    assert_eq!(decoded.contribution_per_round, circle.contribution_per_round);
    assert_eq!(decoded.current_payout_index, circle.current_payout_index);
    assert_eq!(decoded.current_pool, circle.current_pool);
    assert_eq!(decoded.created_at, circle.created_at);
    assert_eq!(decoded.round_started_at, circle.round_started_at);
    assert_eq!(decoded.round_duration, circle.round_duration);
    assert_eq!(decoded.is_complete, circle.is_complete);
    assert_eq!(decoded.prev_state_hash, circle.prev_state_hash);
    assert_eq!(format!("{:?}", decoded), format!("{:?}", circle));
    assert_eq!(decoded.state_hash(), circle.state_hash());
    assert_eq!(decoded.encode(), Some(bytes));
    assert_eq!(decoded.validate(), Ok(()));
}

#[test]
fn known_bytes_decode_to_the_known_state() {
    let bytes = hex::decode(CREATOR_STATE_HEX).unwrap();
    let decoded = CircleState::decode(&bytes).unwrap();
    assert_eq!(format!("{:?}", decoded), format!("{:?}", circle_with_creator()));
    assert_eq!(decoded.members.len(), 1);
    assert_eq!(decoded.members[0].pubkey, key_for(1));
    assert_eq!(decoded.contribution_per_round, 100_000);
}

#[test]
fn item_of_a_state_reads_back() {
    let circle = funded_circle();
    let item = circle.to_cbor();
    let back = CircleState::from_cbor(&item).unwrap();
    assert_eq!(format!("{:?}", back), format!("{:?}", circle));

    let member_item = circle.members[1].to_cbor();
    assert_eq!(Member::from_cbor(&member_item), Some(circle.members[1].clone()));
    let record = circle.members[1].contribution_history[0];
    assert_eq!(ContributionRecord::from_cbor(&record.to_cbor()), Some(record));
}

#[test]
fn record_item_has_four_fields_in_order() {
    let record = ContributionRecord { round: 2, amount: 7, timestamp: 9, txid: [1u8; 32] };
    let txid = CborValue::Array((0..32).map(|_| CborValue::Unsigned(1)).collect());
    let fields = vec![
        (text("round"), CborValue::Unsigned(2)),
        (text("amount"), CborValue::Unsigned(7)),
        (text("timestamp"), CborValue::Unsigned(9)),
        (text("txid"), txid),
    ];
    assert_eq!(record.to_cbor(), CborValue::Dict(fields));
}

fn record_fields() -> Vec<(CborValue, CborValue)> {
    match (ContributionRecord { round: 2, amount: 7, timestamp: 9, txid: [1u8; 32] }).to_cbor() {
        CborValue::Dict(fields) => fields,
        other => panic!("a record is a map, not {:?}", other),
    }
}

#[test]
fn items_that_are_no_record_are_refused() {
    assert_eq!(ContributionRecord::from_cbor(&CborValue::Unsigned(1)), None);
    assert_eq!(ContributionRecord::from_cbor(&CborValue::Dict(Vec::new())), None);

    let mut swapped = record_fields();
    swapped.swap(0, 1);
    assert_eq!(ContributionRecord::from_cbor(&CborValue::Dict(swapped)), None);

    let mut extra = record_fields();
    extra.push((text("note"), CborValue::Unsigned(0)));
    assert_eq!(ContributionRecord::from_cbor(&CborValue::Dict(extra)), None);

    let mut wide_round = record_fields();
    wide_round[0].1 = CborValue::Unsigned(1 << 32);
    assert_eq!(ContributionRecord::from_cbor(&CborValue::Dict(wide_round)), None);

    let mut largest_round = record_fields();
    largest_round[0].1 = CborValue::Unsigned(u32::MAX as u64);
    assert_eq!(
        ContributionRecord::from_cbor(&CborValue::Dict(largest_round)).map(|r| r.round),
        Some(u32::MAX)
    );

    let mut short_txid = record_fields();
    short_txid[3].1 = CborValue::Array((0..31).map(|_| CborValue::Unsigned(1)).collect());
    assert_eq!(ContributionRecord::from_cbor(&CborValue::Dict(short_txid)), None);

    let mut wide_byte = record_fields();
    let mut txid: Vec<CborValue> = (0..32).map(|_| CborValue::Unsigned(1)).collect();
    txid[7] = CborValue::Unsigned(256);
    wide_byte[3].1 = CborValue::Array(txid);
    assert_eq!(ContributionRecord::from_cbor(&CborValue::Dict(wide_byte)), None);

    let mut wrong_kind = record_fields();
    wrong_kind[1].1 = CborValue::Bool(true);
    assert_eq!(ContributionRecord::from_cbor(&CborValue::Dict(wrong_kind)), None);

    let mut wrong_key = record_fields();
    wrong_key[2].0 = text("time");
    assert_eq!(ContributionRecord::from_cbor(&CborValue::Dict(wrong_key)), None);
}

#[test]
fn bytes_that_are_no_state_are_refused() {
    assert_eq!(CircleState::decode(&[]).err(), Some(DecodeError::Malformed));
    assert_eq!(CircleState::decode(&[0x82, 0x01]).err(), Some(DecodeError::Malformed));
    assert_eq!(CircleState::decode(&[0x05]).err(), Some(DecodeError::NotACircleState));
    assert_eq!(CircleState::decode(&[0xa0]).err(), Some(DecodeError::NotACircleState));
    assert_eq!(
        CircleState::from_cbor(&CborValue::Unsupported).err(),
        Some(DecodeError::NotACircleState)
    );

    // A state whose twelfth field is missing.
    let fields = match circle_with_creator().to_cbor() {
        CborValue::Dict(mut fields) => {
            fields.pop();
            fields
        }
        other => panic!("a state is a map, not {:?}", other),
    };
    assert_eq!(fields.len(), 11);
    let bytes = CborValue::Dict(fields).to_bytes().unwrap();
    assert_eq!(CircleState::decode(&bytes).err(), Some(DecodeError::NotACircleState));
}

#[test]
fn creator_is_the_first_member() {
    let circle = create_circle([1u8; 32], 100_000, 2_592_000, 1234567890, key_for(1));
    assert_eq!(circle.members.len(), 1);
    assert_eq!(circle.members[0].pubkey, key_for(1));
    assert_eq!(circle.members[0].payout_round, 0);
    assert_eq!(circle.members[0].joined_at, 1234567890);
    assert_eq!(circle.total_rounds, 1);
    assert_eq!(hex::encode(circle.encode().unwrap()), CREATOR_STATE_HEX);
    assert_eq!(circle.validate(), Ok(()));
}

#[test]
fn member_is_added_to_an_encoded_state() {
    let bytes = hex::decode(CREATOR_STATE_HEX).unwrap();
    let next = apply_add_member(&bytes, key_for(2), 1, 1234567891).unwrap();

    let mut expected = circle_with_creator();
    expected.add_member(key_for(2), 1, 1234567891).unwrap();
    assert_eq!(next, expected.encode().unwrap());
    assert_ne!(next, bytes);

    assert_eq!(
        apply_add_member(&bytes, key_for(1), 1, 1234567891),
        Err(ApplyError::Operation(OperationError::DuplicateMember))
    );
    assert_eq!(
        apply_add_member(&bytes, key_for(2), 2, 1234567891),
        Err(ApplyError::Operation(OperationError::InvalidPayoutRound))
    );
    assert_eq!(
        apply_add_member(&[0xff], key_for(2), 1, 1234567891),
        Err(ApplyError::Decode(DecodeError::Malformed))
    );
    assert_eq!(
        apply_add_member(&[0x01], key_for(2), 1, 1234567891),
        Err(ApplyError::Decode(DecodeError::NotACircleState))
    );
}

#[test]
fn contribution_is_recorded_in_an_encoded_state() {
    let bytes = hex::decode(CREATOR_STATE_HEX).unwrap();
    let next =
        apply_record_contribution(&bytes, &key_for(1), 100_000, 1234567900, [4u8; 32]).unwrap();

    let mut expected = circle_with_creator();
    expected
        .record_contribution(&key_for(1), 100_000, 1234567900, [4u8; 32])
        .unwrap();
    assert_eq!(next, expected.encode().unwrap());
    assert_eq!(CircleState::decode(&next).unwrap().current_pool, 100_000);

    assert_eq!(
        apply_record_contribution(&next, &key_for(1), 100_000, 1234567901, [4u8; 32]),
        Err(ApplyError::Operation(OperationError::DuplicateContribution))
    );
    assert_eq!(
        apply_record_contribution(&bytes, &key_for(3), 100_000, 1234567901, [4u8; 32]),
        Err(ApplyError::Operation(OperationError::MemberNotFound))
    );
    assert_eq!(
        apply_record_contribution(&bytes, &key_for(1), 5, 1234567901, [4u8; 32]),
        Err(ApplyError::Operation(OperationError::AmountMismatch { expected: 100_000, actual: 5 }))
    );
    assert_eq!(
        apply_record_contribution(&[], &key_for(1), 100_000, 1234567901, [4u8; 32]),
        Err(ApplyError::Decode(DecodeError::Malformed))
    );
}

#[test]
fn pool_that_would_overflow_is_reported() {
    let mut circle = circle_with_creator();
    circle.current_pool = u64::MAX - 99_999;
    let bytes = circle.encode().unwrap();
    assert_eq!(
        apply_record_contribution(&bytes, &key_for(1), 100_000, 1, [0u8; 32]),
        Err(ApplyError::Operation(OperationError::OutOfRange))
    );
    // A refusal of the operation itself comes first.
    assert_eq!(
        apply_record_contribution(&bytes, &key_for(2), 100_000, 1, [0u8; 32]),
        Err(ApplyError::Operation(OperationError::MemberNotFound))
    );
    circle.current_pool = u64::MAX - 100_000;
    let bytes = circle.encode().unwrap();
    let next = apply_record_contribution(&bytes, &key_for(1), 100_000, 1, [0u8; 32]).unwrap();
    assert_eq!(CircleState::decode(&next).unwrap().current_pool, u64::MAX);
}
