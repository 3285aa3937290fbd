//! Rejection scenarios for transfer submission, run against the admission
//! pipeline: each one alters an honestly signed transfer in one way and reports
//! whether the pipeline refused it with the classification that the alteration
//! calls for.
use vstd::prelude::*;

use crate::amount::Amount;
use crate::laws::{
    just_above_round_amount, lemma_incorrect_eth_signature, lemma_missing_eth_signature,
    lemma_unassigned_sentinel, lemma_unpackable_refused, lemma_zero_fee_too_low,
};
use crate::validator::{
    account_assigned, amount_encodable, fields_admissible, validate, NetworkConditions,
    RpcErrorCodes, SignatureStatus, Transfer,
};

verus! {

/// The amount one unit above ten to the eighteenth, which does not pack.
pub const UNPACKABLE_AMOUNT: u64 = 1_000_000_000_000_000_001;

/// Runs the rejection scenarios under one snapshot of network conditions.
pub struct SubmitTxTester<'a>(pub &'a NetworkConditions);

impl<'a> SubmitTxTester<'a> {
    pub fn new(executor: &'a NetworkConditions) -> (r: Self)
        requires
            executor.wf(),
        ensures
            *r.0 == *executor,
    {
        Self(executor)
    }

    /// Whether `output` is a refusal with exactly the `expected` code.
    pub fn check_rpc_code(&self, output: Result<(), RpcErrorCodes>, expected: RpcErrorCodes) -> (r:
        bool)
        ensures
            r == (output == Err::<(), RpcErrorCodes>(expected)),
    {
        match output {
            Ok(()) => false,
            Err(code) => code == expected,
        }
    }

    /// Submits `tx` without its authentication-layer signature; true where it
    /// is refused as `MissingEthSignature`, which it is whenever its numeric
    /// fields pass the checks that come first.
    pub fn no_eth_signature(&self, tx: &Transfer, app_signature: SignatureStatus) -> (r: bool)
        requires
            self.0.wf(),
        ensures
            r == fields_admissible(*tx, *self.0),
    {
        proof {
            if fields_admissible(*tx, *self.0) {
                lemma_missing_eth_signature(*tx, app_signature, *self.0);
            }
        }
        let reply = validate(tx, app_signature, SignatureStatus::Absent, self.0);
        self.check_rpc_code(reply, RpcErrorCodes::MissingEthSignature)
    }

    /// Submits `tx` with an authentication-layer signature that does not
    /// verify; true where it is refused as `IncorrectEthSignature`.
    pub fn incorrect_eth_signature(&self, tx: &Transfer, app_signature: SignatureStatus) -> (r:
        bool)
        requires
            self.0.wf(),
        ensures
            r == fields_admissible(*tx, *self.0),
    {
        proof {
            if fields_admissible(*tx, *self.0) {
                lemma_incorrect_eth_signature(*tx, app_signature, *self.0);
            }
        }
        let reply = validate(tx, app_signature, SignatureStatus::Invalid, self.0);
        self.check_rpc_code(reply, RpcErrorCodes::IncorrectEthSignature)
    }

    /// Submits `tx` with its fee set to zero; true where it is refused as
    /// `FeeTooLow`.
    pub fn low_fee(
        &self,
        tx: &Transfer,
        app_signature: SignatureStatus,
        eth_signature: SignatureStatus,
    ) -> (r: bool)
        requires
            self.0.wf(),
        ensures
            r == (amount_encodable(tx.amount.value()) && account_assigned(tx.account_id, *self.0)
                && self.0.min_fee > 0),
    {
        let free = tx.with_fee(Amount::from_u64(0));
        proof {
            if amount_encodable(tx.amount.value()) && account_assigned(tx.account_id, *self.0)
                && self.0.min_fee > 0 {
                lemma_zero_fee_too_low(free, app_signature, eth_signature, *self.0);
            }
        }
        let reply = validate(&free, app_signature, eth_signature, self.0);
        self.check_rpc_code(reply, RpcErrorCodes::FeeTooLow)
    }

    /// Submits `tx` from the unassigned account identifier `u32::MAX`; it is
    /// always refused as `IncorrectTx`.
    pub fn incorrect_account_id(
        &self,
        tx: &Transfer,
        app_signature: SignatureStatus,
        eth_signature: SignatureStatus,
    ) -> (r: bool)
        requires
            self.0.wf(),
        ensures
            r,
    {
        let stray = tx.with_account_id(u32::MAX);
        proof {
            lemma_unassigned_sentinel(stray, app_signature, eth_signature, *self.0);
        }
        let reply = validate(&stray, app_signature, eth_signature, self.0);
        self.check_rpc_code(reply, RpcErrorCodes::IncorrectTx)
    }

    /// Submits `tx` with an amount that does not pack; it is always refused as
    /// `IncorrectTx`.
    pub fn unpackable_token_amount(
        &self,
        tx: &Transfer,
        app_signature: SignatureStatus,
        eth_signature: SignatureStatus,
    ) -> (r: bool)
        requires
            self.0.wf(),
        ensures
            r,
    {
        let odd = tx.with_amount(Amount::from_u64(UNPACKABLE_AMOUNT));
        proof {
            assert(odd.amount.value() == just_above_round_amount());
            lemma_unpackable_refused(odd, app_signature, eth_signature, *self.0);
        }
        let reply = validate(&odd, app_signature, eth_signature, self.0);
        self.check_rpc_code(reply, RpcErrorCodes::IncorrectTx)
    }

    /// Submits `tx` with a fee that does not pack; it is always refused as
    /// `IncorrectTx`.
    pub fn unpackable_fee_amount(
        &self,
        tx: &Transfer,
        app_signature: SignatureStatus,
        eth_signature: SignatureStatus,
    ) -> (r: bool)
        requires
            self.0.wf(),
        ensures
            r,
    {
        let odd = tx.with_fee(Amount::from_u64(UNPACKABLE_AMOUNT));
        proof {
            assert(odd.fee.value() == just_above_round_amount());
            lemma_unpackable_refused(odd, app_signature, eth_signature, *self.0);
        }
        let reply = validate(&odd, app_signature, eth_signature, self.0);
        self.check_rpc_code(reply, RpcErrorCodes::IncorrectTx)
    }

    /// Runs every scenario on the honestly signed `tx`; true where each one
    /// saw the refusal it expects.
    pub fn run(
        &self,
        tx: &Transfer,
        app_signature: SignatureStatus,
        eth_signature: SignatureStatus,
    ) -> (r: bool)
        requires
            self.0.wf(),
        ensures
            r == (fields_admissible(*tx, *self.0) && self.0.min_fee > 0),
    {
        let a = self.no_eth_signature(tx, app_signature);
        let b = self.incorrect_eth_signature(tx, app_signature);
        let c = self.low_fee(tx, app_signature, eth_signature);
        let d = self.incorrect_account_id(tx, app_signature, eth_signature);
        let e = self.unpackable_token_amount(tx, app_signature, eth_signature);
        let f = self.unpackable_fee_amount(tx, app_signature, eth_signature);
        a && b && c && d && e && f
    }
}

} // verus!
