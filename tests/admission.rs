use num::BigUint;
use submit_tx::amount::Amount;
use submit_tx::packing::{
    is_fee_amount_packable, is_token_amount_packable, pack, unpack, PackedFloat, AMOUNT_MANTISSA_LIMIT,
    FEE_MANTISSA_LIMIT,
};
use submit_tx::signature::{signature_status, PackedEthSignature};
use submit_tx::tester::{SubmitTxTester, UNPACKABLE_AMOUNT};
use submit_tx::validator::{
    check_account_id, check_fee, check_packing, check_signatures, validate, NetworkConditions,
    RpcErrorCodes, SignatureStatus, Transfer,
};

const MIN_FEE: u128 = 30_000;

fn conditions() -> NetworkConditions {
    NetworkConditions { min_fee: MIN_FEE, account_count: 1_000 }
}

fn transfer(account_id: u32, amount: u128, fee: u128) -> Transfer {
    Transfer::new(
        account_id,
        [1u8; 20],
        [1u8; 20],
        0,
        Amount::from_u128(amount),
        Amount::from_u128(fee),
        7,
        None,
    )
}

fn amt(v: u128) -> Amount {
    Amount::from_u128(v)
}

fn big(v: &BigUint) -> Amount {
    Amount { limbs: v.to_u64_digits() }
}

#[test]
fn honest_transfer_is_admitted() {
    let tx = transfer(3, 1, MIN_FEE);
    let r = validate(&tx, SignatureStatus::Valid, SignatureStatus::Valid, &conditions());
    assert_eq!(r, Ok(()));
}

#[test]
fn missing_eth_signature_scenario() {
    let tx = transfer(3, 1, MIN_FEE);
    let r = validate(&tx, SignatureStatus::Valid, SignatureStatus::Absent, &conditions());
    assert_eq!(r, Err(RpcErrorCodes::MissingEthSignature));
}

#[test]
fn zeroed_eth_signature_scenario() {
    let tx = transfer(3, 1, MIN_FEE);
    let r = validate(&tx, SignatureStatus::Valid, SignatureStatus::Invalid, &conditions());
    assert_eq!(r, Err(RpcErrorCodes::IncorrectEthSignature));
}

#[test]
fn zero_fee_is_too_low() {
    let tx = transfer(3, 1, 0);
    let r = validate(&tx, SignatureStatus::Valid, SignatureStatus::Valid, &conditions());
    assert_eq!(r, Err(RpcErrorCodes::FeeTooLow));
}

#[test]
fn zero_fee_passes_under_zero_minimum() {
    let tx = transfer(3, 1, 0);
    let c = NetworkConditions { min_fee: 0, account_count: 1_000 };
    assert_eq!(validate(&tx, SignatureStatus::Valid, SignatureStatus::Valid, &c), Ok(()));
}

#[test]
fn fee_one_below_minimum_is_too_low() {
    let tx = transfer(3, 1, MIN_FEE - 1);
    assert_eq!(check_fee(&tx, &conditions()), Err(RpcErrorCodes::FeeTooLow));
    let tx = transfer(3, 1, MIN_FEE);
    assert_eq!(check_fee(&tx, &conditions()), Ok(()));
}

#[test]
fn sentinel_account_is_incorrect() {
    let tx = transfer(u32::MAX, 10, MIN_FEE);
    let r = validate(&tx, SignatureStatus::Valid, SignatureStatus::Valid, &conditions());
    assert_eq!(r, Err(RpcErrorCodes::IncorrectTx));
    let c = NetworkConditions { min_fee: MIN_FEE, account_count: u32::MAX };
    assert_eq!(check_account_id(&tx, &c), Err(RpcErrorCodes::IncorrectTx));
}

#[test]
fn account_bounds_edge() {
    let c = conditions();
    assert_eq!(check_account_id(&transfer(999, 1, MIN_FEE), &c), Ok(()));
    assert_eq!(check_account_id(&transfer(1_000, 1, MIN_FEE), &c), Err(RpcErrorCodes::IncorrectTx));
}

#[test]
fn unpackable_amount_is_incorrect() {
    let tx = transfer(3, UNPACKABLE_AMOUNT as u128, MIN_FEE);
    let r = validate(&tx, SignatureStatus::Valid, SignatureStatus::Valid, &conditions());
    assert_eq!(r, Err(RpcErrorCodes::IncorrectTx));
}

#[test]
fn unpackable_fee_is_incorrect() {
    let tx = transfer(3, 10, 1_000_000_000_000_000_001);
    let r = validate(&tx, SignatureStatus::Valid, SignatureStatus::Valid, &conditions());
    assert_eq!(r, Err(RpcErrorCodes::IncorrectTx));
}

#[test]
fn codec_precedes_signatures() {
    let tx = transfer(3, 1_000_000_000_000_000_001, MIN_FEE);
    let r = validate(&tx, SignatureStatus::Absent, SignatureStatus::Absent, &conditions());
    assert_eq!(r, Err(RpcErrorCodes::IncorrectTx));
    let tx = transfer(u32::MAX, 1, 0);
    let r = validate(&tx, SignatureStatus::Valid, SignatureStatus::Absent, &conditions());
    assert_eq!(r, Err(RpcErrorCodes::IncorrectTx));
}

#[test]
fn fee_precedes_signatures() {
    let tx = transfer(3, 1, 0);
    let r = validate(&tx, SignatureStatus::Invalid, SignatureStatus::Absent, &conditions());
    assert_eq!(r, Err(RpcErrorCodes::FeeTooLow));
}

#[test]
fn bad_application_signature_is_incorrect() {
    assert_eq!(
        check_signatures(SignatureStatus::Invalid, SignatureStatus::Valid),
        Err(RpcErrorCodes::IncorrectTx)
    );
    assert_eq!(
        check_signatures(SignatureStatus::Absent, SignatureStatus::Valid),
        Err(RpcErrorCodes::IncorrectTx)
    );
    assert_eq!(
        check_signatures(SignatureStatus::Invalid, SignatureStatus::Absent),
        Err(RpcErrorCodes::MissingEthSignature)
    );
    assert_eq!(
        check_signatures(SignatureStatus::Absent, SignatureStatus::Invalid),
        Err(RpcErrorCodes::IncorrectEthSignature)
    );
    assert_eq!(check_signatures(SignatureStatus::Valid, SignatureStatus::Valid), Ok(()));
}

#[test]
fn validating_twice_agrees() {
    let c = conditions();
    let tx = transfer(3, 1, 0);
    let first = validate(&tx, SignatureStatus::Valid, SignatureStatus::Valid, &c);
    let second = validate(&tx, SignatureStatus::Valid, SignatureStatus::Valid, &c);
    assert_eq!(first, second);
    assert_eq!(first, Err(RpcErrorCodes::FeeTooLow));
}

#[test]
fn classification_ignores_limb_layout() {
    let c = conditions();
    let short = Transfer::new(3, [1; 20], [2; 20], 0, Amount { limbs: vec![10] }, Amount::from_u64(0), 1, None);
    let long = Transfer::new(
        3,
        [9; 20],
        [8; 20],
        5,
        Amount { limbs: vec![10, 0, 0, 0] },
        Amount { limbs: vec![] },
        99,
        Some(5),
    );
    let a = validate(&short, SignatureStatus::Valid, SignatureStatus::Valid, &c);
    let b = validate(&long, SignatureStatus::Valid, SignatureStatus::Valid, &c);
    assert_eq!(a, b);
    assert_eq!(a, Err(RpcErrorCodes::FeeTooLow));
}

#[test]
fn round_values_pack() {
    assert!(is_token_amount_packable(&amt(10)));
    assert!(is_fee_amount_packable(&amt(10)));
    assert!(is_token_amount_packable(&amt(1_000_000_000_000_000_000)));
    assert!(is_fee_amount_packable(&amt(1_000_000_000_000_000_000)));
    assert!(is_token_amount_packable(&amt(0)));
    assert!(is_fee_amount_packable(&amt(0)));
    assert!(!is_token_amount_packable(&amt(1_000_000_000_000_000_001)));
    assert!(!is_fee_amount_packable(&amt(1_000_000_000_000_000_001)));
}

#[test]
fn mantissa_edges() {
    assert!(is_token_amount_packable(&amt(34_359_738_367)));
    assert!(!is_token_amount_packable(&amt(34_359_738_368)));
    assert!(is_token_amount_packable(&amt(34_359_738_367 * 1_000)));
    assert!(is_fee_amount_packable(&amt(2_047)));
    assert!(!is_fee_amount_packable(&amt(2_048)));
    assert!(!is_fee_amount_packable(&amt(20_480)));
    assert!(is_fee_amount_packable(&amt(2_047_000)));
    assert!(!is_fee_amount_packable(&amt(2_049_000)));
}

#[test]
fn exponent_edges() {
    let p31: u128 = 10u128.pow(31);
    assert!(is_fee_amount_packable(&amt(2_047 * p31)));
    assert!(is_fee_amount_packable(&amt(p31)));
    assert!(is_fee_amount_packable(&amt(p31 * 10)));
    assert!(!is_fee_amount_packable(&amt(2_047 * p31 * 10)));
    assert!(is_token_amount_packable(&amt(p31 * 1_000_000)));
    assert!(!is_token_amount_packable(&amt(u128::MAX)));
}

#[test]
fn limbs_to_u128() {
    assert_eq!(Amount { limbs: vec![] }.to_u128(), Some(0));
    assert_eq!(Amount { limbs: vec![5] }.to_u128(), Some(5));
    assert_eq!(Amount { limbs: vec![5, 1] }.to_u128(), Some((1u128 << 64) + 5));
    assert_eq!(Amount { limbs: vec![5, 1, 0] }.to_u128(), Some((1u128 << 64) + 5));
    assert_eq!(Amount { limbs: vec![0, 0, 1] }.to_u128(), None);
    assert_eq!(Amount::from_u128(u128::MAX).to_u128(), Some(u128::MAX));
    assert_eq!(Amount::from_u128(u128::MAX).limbs, vec![u64::MAX, u64::MAX]);
}

#[test]
fn wide_amounts_that_pack_are_accepted() {
    let huge = BigUint::from(10u32).pow(40);
    let tx = Transfer::new(3, [1; 20], [1; 20], 0, big(&huge), Amount::from_u128(MIN_FEE), 0, None);
    assert_eq!(check_packing(&tx), Ok(()));
    let r = validate(&tx, SignatureStatus::Valid, SignatureStatus::Valid, &conditions());
    assert_eq!(r, Ok(()));
    let ten = BigUint::from(10u32);
    let tx = Transfer::new(3, [1; 20], [1; 20], 0, big(&ten), Amount::from_u128(MIN_FEE), 0, None);
    assert_eq!(check_packing(&tx), Ok(()));
}

#[test]
fn wide_amounts_that_do_not_pack_are_refused() {
    let odd = BigUint::from(10u32).pow(40) + BigUint::from(1u32);
    let tx = Transfer::new(3, [1; 20], [1; 20], 0, big(&odd), Amount::from_u128(MIN_FEE), 0, None);
    assert_eq!(check_packing(&tx), Err(RpcErrorCodes::IncorrectTx));
    let r = validate(&tx, SignatureStatus::Valid, SignatureStatus::Absent, &conditions());
    assert_eq!(r, Err(RpcErrorCodes::IncorrectTx));
    let too_many_digits = BigUint::from(10u32).pow(42);
    assert!(!is_token_amount_packable(&big(&too_many_digits)));
    let fee = Transfer::new(3, [1; 20], [1; 20], 0, amt(10), big(&too_many_digits), 0, None);
    assert_eq!(check_packing(&fee), Err(RpcErrorCodes::IncorrectTx));
}

#[test]
fn wide_mantissa_edges() {
    let p31 = BigUint::from(10u32).pow(31);
    let top = BigUint::from(34_359_738_367u64) * &p31;
    assert!(is_token_amount_packable(&big(&top)));
    let over = BigUint::from(34_359_738_368u64) * &p31;
    assert!(!is_token_amount_packable(&big(&over)));
    assert!(!is_fee_amount_packable(&big(&(BigUint::from(10_000u32) * &p31))));
    assert!(is_fee_amount_packable(&big(&(BigUint::from(2_047u32) * &p31))));
    let four_limbs = Amount { limbs: vec![0, 0, 0, 1] };
    assert!(!is_token_amount_packable(&four_limbs));
    let zeros = Amount { limbs: vec![0, 0, 0, 0, 0] };
    assert!(is_token_amount_packable(&zeros));
    let padded = Amount { limbs: vec![10, 0, 0, 0] };
    assert!(is_fee_amount_packable(&padded));
}

#[test]
fn snapshot_minimum_fee_must_pack() {
    assert!(NetworkConditions::new(2_049, 10).is_none());
    let c = NetworkConditions::new(MIN_FEE, 10).unwrap();
    assert_eq!(c, NetworkConditions { min_fee: MIN_FEE, account_count: 10 });
    assert!(NetworkConditions::new(0, 0).is_some());
    let tx = transfer(3, 1, MIN_FEE);
    assert_eq!(validate(&tx, SignatureStatus::Valid, SignatureStatus::Valid, &c), Ok(()));
}

#[test]
fn with_helpers_keep_other_fields() {
    let tx = Transfer::new(3, [4; 20], [5; 20], 6, amt(1), amt(MIN_FEE), 9, Some(11));
    for t in [tx.with_account_id(8), tx.with_amount(amt(2)), tx.with_fee(amt(3))] {
        assert_eq!(t.from, [4; 20]);
        assert_eq!(t.to, [5; 20]);
        assert_eq!(t.token, 6);
        assert_eq!(t.nonce, 9);
        assert_eq!(t.valid_until, Some(11));
    }
}

#[test]
fn duplicate_keeps_limbs() {
    let a = Amount { limbs: vec![1, 2, 3] };
    assert_eq!(a.duplicate().limbs, vec![1, 2, 3]);
    let tx = transfer(3, 1, MIN_FEE);
    let moved = tx.with_amount(Amount::from_u64(42));
    assert_eq!(moved.amount.to_u128(), Some(42));
    assert_eq!(moved.fee.to_u128(), Some(MIN_FEE));
    let other = tx.with_account_id(8);
    assert_eq!(other.account_id, 8);
    assert_eq!(other.amount.to_u128(), Some(1));
}

#[test]
fn tester_scenarios_on_honest_transfer() {
    let c = conditions();
    let tester = SubmitTxTester::new(&c);
    let tx = transfer(3, 1, MIN_FEE);
    assert!(tester.no_eth_signature(&tx, SignatureStatus::Valid));
    assert!(tester.incorrect_eth_signature(&tx, SignatureStatus::Valid));
    assert!(tester.low_fee(&tx, SignatureStatus::Valid, SignatureStatus::Valid));
    assert!(tester.incorrect_account_id(&tx, SignatureStatus::Valid, SignatureStatus::Valid));
    assert!(tester.unpackable_token_amount(&tx, SignatureStatus::Valid, SignatureStatus::Valid));
    assert!(tester.unpackable_fee_amount(&tx, SignatureStatus::Valid, SignatureStatus::Valid));
    assert!(tester.run(&tx, SignatureStatus::Valid, SignatureStatus::Valid));
}

#[test]
fn tester_notices_a_bad_base_transfer() {
    let c = conditions();
    let tester = SubmitTxTester::new(&c);
    let tx = transfer(3, 1, 0);
    assert!(!tester.no_eth_signature(&tx, SignatureStatus::Valid));
    assert!(!tester.run(&tx, SignatureStatus::Valid, SignatureStatus::Valid));
    assert!(tester.check_rpc_code(Err(RpcErrorCodes::FeeTooLow), RpcErrorCodes::FeeTooLow));
    assert!(!tester.check_rpc_code(Err(RpcErrorCodes::IncorrectTx), RpcErrorCodes::FeeTooLow));
    assert!(!tester.check_rpc_code(Ok(()), RpcErrorCodes::FeeTooLow));
}

#[test]
fn zero_signature_deserializes_but_does_not_verify() {
    let fake = PackedEthSignature::deserialize_packed(&[0u8; 65]);
    assert!(fake.is_some());
    assert_eq!(fake.as_ref().unwrap().serialize_packed(), &vec![0u8; 65]);
    let status = signature_status(&fake, false);
    assert_eq!(status, SignatureStatus::Invalid);
    let tx = transfer(3, 1, MIN_FEE);
    let r = validate(&tx, SignatureStatus::Valid, status, &conditions());
    assert_eq!(r, Err(RpcErrorCodes::IncorrectEthSignature));
}

#[test]
fn packed_signature_length() {
    assert!(PackedEthSignature::deserialize_packed(&[0u8; 64]).is_none());
    assert!(PackedEthSignature::deserialize_packed(&[0u8; 66]).is_none());
    assert!(PackedEthSignature::deserialize_packed(&[]).is_none());
    let bytes: Vec<u8> = (0u8..65).collect();
    let sig = PackedEthSignature::deserialize_packed(&bytes).unwrap();
    assert_eq!(sig.serialize_packed(), &bytes);
}

#[test]
fn signature_status_cases() {
    let none: Option<PackedEthSignature> = None;
    assert_eq!(signature_status(&none, true), SignatureStatus::Absent);
    let some = PackedEthSignature::deserialize_packed(&[7u8; 65]);
    assert_eq!(signature_status(&some, true), SignatureStatus::Valid);
    assert_eq!(signature_status(&some, false), SignatureStatus::Invalid);
}

#[test]
fn pack_cuts_low_digits() {
    let v: u128 = 1_000_000_000_000_000_001;
    let p = pack(v, AMOUNT_MANTISSA_LIMIT).unwrap();
    assert_eq!(p, PackedFloat { mantissa: 10_000_000_000, exponent: 8 });
    assert_eq!(unpack(p), Some(1_000_000_000_000_000_000));
    let f = pack(v, FEE_MANTISSA_LIMIT).unwrap();
    assert_eq!(f, PackedFloat { mantissa: 1_000, exponent: 15 });
    assert_eq!(unpack(f), Some(1_000_000_000_000_000_000));
}

#[test]
fn pack_round_trips_packable_values() {
    let p = pack(10, AMOUNT_MANTISSA_LIMIT).unwrap();
    assert_eq!(p, PackedFloat { mantissa: 10, exponent: 0 });
    assert_eq!(unpack(p), Some(10));
    let q = pack(2_047_000, FEE_MANTISSA_LIMIT).unwrap();
    assert_eq!(q, PackedFloat { mantissa: 2_047, exponent: 3 });
    assert_eq!(unpack(q), Some(2_047_000));
    assert_eq!(pack(0, FEE_MANTISSA_LIMIT), Some(PackedFloat { mantissa: 0, exponent: 0 }));
}

#[test]
fn pack_runs_out_of_exponent() {
    assert_eq!(pack(u128::MAX, FEE_MANTISSA_LIMIT), None);
    assert!(pack(u128::MAX, AMOUNT_MANTISSA_LIMIT).is_some());
}

#[test]
fn unpack_edges() {
    let p31: u128 = 10u128.pow(31);
    assert_eq!(unpack(PackedFloat { mantissa: 2_047, exponent: 31 }), Some(2_047 * p31));
    assert_eq!(unpack(PackedFloat { mantissa: 0, exponent: 31 }), Some(0));
    assert_eq!(unpack(PackedFloat { mantissa: u128::MAX, exponent: 1 }), None);
    assert_eq!(unpack(PackedFloat { mantissa: 34_359_738_367, exponent: 31 }), None);
}
