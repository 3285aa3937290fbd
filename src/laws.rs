//! What holds of the admission pipeline for whole families of submissions.
use vstd::prelude::*;

use crate::packing::{
    AMOUNT_MANTISSA_LIMIT, FEE_MANTISSA_LIMIT, fee_amount_packable, lemma_packable_without_trailing_zero,
    pow10, scaled, token_amount_packable,
};
use crate::validator::{
    account_assigned, admission, amount_encodable, fee_encodable, fields_admissible, NetworkConditions,
    RpcErrorCodes, SignatureStatus, Transfer,
};

verus! {

/// The amount that lies one unit above ten to the eighteenth.
pub open spec fn just_above_round_amount() -> nat {
    1_000_000_000_000_000_001nat
}

/// A submission whose numeric fields pass the codec, the account bounds and the
/// fee floor, but that carries no authentication-layer signature, is refused
/// as `MissingEthSignature`.
pub proof fn lemma_missing_eth_signature(
    tx: Transfer,
    app_signature: SignatureStatus,
    c: NetworkConditions,
)
    requires
        fields_admissible(tx, c),
    ensures
        admission(tx, app_signature, SignatureStatus::Absent, c) == Err::<(), RpcErrorCodes>(
            RpcErrorCodes::MissingEthSignature,
        ),
{
}

/// A submission whose numeric fields pass the earlier checks, with an
/// authentication-layer signature that does not verify, is refused as
/// `IncorrectEthSignature`.
pub proof fn lemma_incorrect_eth_signature(
    tx: Transfer,
    app_signature: SignatureStatus,
    c: NetworkConditions,
)
    requires
        fields_admissible(tx, c),
    ensures
        admission(tx, app_signature, SignatureStatus::Invalid, c) == Err::<(), RpcErrorCodes>(
            RpcErrorCodes::IncorrectEthSignature,
        ),
{
}

/// A declared fee of zero under a positive minimum is refused as `FeeTooLow`,
/// whenever the amount and the sender pass the checks that come first.
pub proof fn lemma_zero_fee_too_low(
    tx: Transfer,
    app_signature: SignatureStatus,
    eth_signature: SignatureStatus,
    c: NetworkConditions,
)
    requires
        tx.fee.value() == 0,
        c.min_fee > 0,
        amount_encodable(tx.amount.value()),
        account_assigned(tx.account_id, c),
    ensures
        admission(tx, app_signature, eth_signature, c) == Err::<(), RpcErrorCodes>(
            RpcErrorCodes::FeeTooLow,
        ),
{
    assert(pow10(0) == 1);
    assert(scaled(0, 0) == 0);
    assert(fee_amount_packable(0));
}

/// The largest account identifier marks "no account assigned": a request from
/// it is always refused as `IncorrectTx`.
pub proof fn lemma_unassigned_sentinel(
    tx: Transfer,
    app_signature: SignatureStatus,
    eth_signature: SignatureStatus,
    c: NetworkConditions,
)
    requires
        tx.account_id == u32::MAX,
    ensures
        admission(tx, app_signature, eth_signature, c) == Err::<(), RpcErrorCodes>(
            RpcErrorCodes::IncorrectTx,
        ),
{
}

/// `10^18 + 1` packs neither as an amount nor as a fee.
pub proof fn lemma_just_above_round_amount_unpackable()
    ensures
        !token_amount_packable(just_above_round_amount()),
        !fee_amount_packable(just_above_round_amount()),
{
    let v = just_above_round_amount();
    assert(v % 10 == 1);
    lemma_packable_without_trailing_zero(v, AMOUNT_MANTISSA_LIMIT as nat);
    lemma_packable_without_trailing_zero(v, FEE_MANTISSA_LIMIT as nat);
}

/// A request whose amount or fee is `10^18 + 1` is always refused as
/// `IncorrectTx`.
pub proof fn lemma_unpackable_refused(
    tx: Transfer,
    app_signature: SignatureStatus,
    eth_signature: SignatureStatus,
    c: NetworkConditions,
)
    requires
        tx.amount.value() == just_above_round_amount() || tx.fee.value()
            == just_above_round_amount(),
    ensures
        admission(tx, app_signature, eth_signature, c) == Err::<(), RpcErrorCodes>(
            RpcErrorCodes::IncorrectTx,
        ),
{
    lemma_just_above_round_amount_unpackable();
}

/// Round values such as `10` pack exactly, as amounts and as fees.
pub proof fn lemma_ten_packable()
    ensures
        token_amount_packable(10),
        fee_amount_packable(10),
{
    assert(pow10(0) == 1);
    assert(scaled(10, 0) == 10);
}

/// The minimum fee of a well-formed snapshot packs: a transfer that pays
/// exactly the minimum, from an assigned account with an amount that packs,
/// passes the codec, the account bounds and the fee floor.
pub proof fn lemma_minimum_fee_admissible(tx: Transfer, c: NetworkConditions)
    requires
        c.wf(),
        tx.fee.value() == c.min_fee,
        amount_encodable(tx.amount.value()),
        account_assigned(tx.account_id, c),
    ensures
        fee_encodable(c.min_fee as nat),
        fields_admissible(tx, c),
{
}

/// Validating the same submission twice gives the same classification.
pub proof fn lemma_validation_idempotent(
    tx: Transfer,
    app_signature: SignatureStatus,
    eth_signature: SignatureStatus,
    c: NetworkConditions,
)
    ensures
        admission(tx, app_signature, eth_signature, c) == admission(
            tx,
            app_signature,
            eth_signature,
            c,
        ),
{
}

/// The classification depends only on the values of the fields it reads and
/// on the snapshot: two requests that agree on the sender, the value of the
/// amount and the value of the fee are classified alike, however their
/// amounts are laid out in limbs and whatever their other fields hold.
pub proof fn lemma_classification_by_field_values(
    tx1: Transfer,
    tx2: Transfer,
    app_signature: SignatureStatus,
    eth_signature: SignatureStatus,
    c: NetworkConditions,
)
    requires
        tx1.account_id == tx2.account_id,
        tx1.amount.value() == tx2.amount.value(),
        tx1.fee.value() == tx2.fee.value(),
    ensures
        admission(tx1, app_signature, eth_signature, c) == admission(
            tx2,
            app_signature,
            eth_signature,
            c,
        ),
{
}

} // verus!
