//! The admission pipeline: codec, account bounds, fee floor, then the two
//! signature layers. The first check that fails decides the classification.
use vstd::prelude::*;

use crate::amount::Amount;
use crate::packing::{fee_amount_packable, is_fee_amount_packable, is_token_amount_packable, token_amount_packable};

verus! {

/// The stable classification of a refused submission.
#[derive(Clone, Copy, Debug, PartialEq, Eq, Structural)]
pub enum RpcErrorCodes {
    /// Unpackable amount or fee, unassigned account, bad application-layer
    /// signature, or another structural fault.
    IncorrectTx,
    /// The declared fee is below the current minimum.
    FeeTooLow,
    /// No authentication-layer signature was submitted.
    MissingEthSignature,
    /// The authentication-layer signature does not verify.
    IncorrectEthSignature,
}

/// What the verifier of one signature layer found for a submission.
#[derive(Clone, Copy, Debug, PartialEq, Eq, Structural)]
pub enum SignatureStatus {
    /// No signature was submitted.
    Absent,
    /// A signature was submitted and does not verify against the sender.
    Invalid,
    /// A signature was submitted and verifies against the sender.
    Valid,
}

/// A fixed-length account address.
pub type Address = [u8; 20];

/// Identifies a token; `0` is the native coin.
pub type TokenId = u16;

/// A transfer request as a client submits it.
pub struct Transfer {
    pub account_id: u32,
    pub from: Address,
    pub to: Address,
    pub token: TokenId,
    pub amount: Amount,
    pub fee: Amount,
    pub nonce: u32,
    pub valid_until: Option<u64>,
}

impl Transfer {
    /// A transfer of `amount` of `token` from account `account_id` (address
    /// `from`) to `to`, paying `fee`.
    pub fn new(
        account_id: u32,
        from: Address,
        to: Address,
        token: TokenId,
        amount: Amount,
        fee: Amount,
        nonce: u32,
        valid_until: Option<u64>,
    ) -> (r: Transfer)
        ensures
            r.account_id == account_id,
            r.from == from,
            r.to == to,
            r.token == token,
            r.amount == amount,
            r.fee == fee,
            r.nonce == nonce,
            r.valid_until == valid_until,
    {
        Transfer { account_id, from, to, token, amount, fee, nonce, valid_until }
    }

    /// The same transfer from account `account_id`.
    pub fn with_account_id(&self, account_id: u32) -> (r: Transfer)
        ensures
            r.account_id == account_id,
            r.amount.value() == self.amount.value(),
            r.fee.value() == self.fee.value(),
            r.from == self.from,
            r.to == self.to,
            r.token == self.token,
            r.nonce == self.nonce,
            r.valid_until == self.valid_until,
    {
        Transfer::new(
            account_id,
            self.from,
            self.to,
            self.token,
            self.amount.duplicate(),
            self.fee.duplicate(),
            self.nonce,
            self.valid_until,
        )
    }

    /// The same transfer moving `amount`.
    pub fn with_amount(&self, amount: Amount) -> (r: Transfer)
        ensures
            r.account_id == self.account_id,
            r.amount == amount,
            r.fee.value() == self.fee.value(),
            r.from == self.from,
            r.to == self.to,
            r.token == self.token,
            r.nonce == self.nonce,
            r.valid_until == self.valid_until,
    {
        Transfer::new(
            self.account_id,
            self.from,
            self.to,
            self.token,
            amount,
            self.fee.duplicate(),
            self.nonce,
            self.valid_until,
        )
    }

    /// The same transfer paying `fee`.
    pub fn with_fee(&self, fee: Amount) -> (r: Transfer)
        ensures
            r.account_id == self.account_id,
            r.amount.value() == self.amount.value(),
            r.fee == fee,
            r.from == self.from,
            r.to == self.to,
            r.token == self.token,
            r.nonce == self.nonce,
            r.valid_until == self.valid_until,
    {
        Transfer::new(
            self.account_id,
            self.from,
            self.to,
            self.token,
            self.amount.duplicate(),
            fee,
            self.nonce,
            self.valid_until,
        )
    }
}

/// The read-only snapshot of network conditions that admission depends on.
#[derive(Clone, Copy, Debug, PartialEq, Eq, Structural)]
pub struct NetworkConditions {
    /// The minimum fee for the resource cost class of the transfer at hand.
    pub min_fee: u128,
    /// Accounts `0 .. account_count` are assigned; no other identifier is.
    pub account_count: u32,
}

impl NetworkConditions {
    /// A snapshot is well formed where its minimum fee is itself a packed fee,
    /// so that paying exactly the minimum passes the codec.
    pub open spec fn wf(&self) -> bool {
        fee_encodable(self.min_fee as nat)
    }

    /// The snapshot with these values; `None` where the minimum fee does not pack.
    pub fn new(min_fee: u128, account_count: u32) -> (r: Option<NetworkConditions>)
        ensures
            r is Some <==> fee_encodable(min_fee as nat),
            r matches Some(c) ==> c.min_fee == min_fee && c.account_count == account_count && c.wf(),
    {
        if is_fee_amount_packable(&Amount::from_u128(min_fee)) {
            Some(NetworkConditions { min_fee, account_count })
        } else {
            None
        }
    }
}

/// Amounts and fees must round-trip through their packed form.
pub open spec fn amount_encodable(v: nat) -> bool {
    token_amount_packable(v)
}

pub open spec fn fee_encodable(v: nat) -> bool {
    fee_amount_packable(v)
}

pub open spec fn account_assigned(account_id: u32, c: NetworkConditions) -> bool {
    account_id < c.account_count
}

/// The numeric fields of `tx` pass the codec, the account bounds and the fee floor.
pub open spec fn fields_admissible(tx: Transfer, c: NetworkConditions) -> bool {
    &&& amount_encodable(tx.amount.value())
    &&& fee_encodable(tx.fee.value())
    &&& account_assigned(tx.account_id, c)
    &&& tx.fee.value() >= c.min_fee
}

/// The classification of a submission: checks in pipeline order, the first
/// failure decides.
pub open spec fn admission(
    tx: Transfer,
    app_signature: SignatureStatus,
    eth_signature: SignatureStatus,
    c: NetworkConditions,
) -> Result<(), RpcErrorCodes> {
    if !amount_encodable(tx.amount.value()) || !fee_encodable(tx.fee.value()) {
        Err(RpcErrorCodes::IncorrectTx)
    } else if !account_assigned(tx.account_id, c) {
        Err(RpcErrorCodes::IncorrectTx)
    } else if tx.fee.value() < c.min_fee {
        Err(RpcErrorCodes::FeeTooLow)
    } else if eth_signature == SignatureStatus::Absent {
        Err(RpcErrorCodes::MissingEthSignature)
    } else if eth_signature == SignatureStatus::Invalid {
        Err(RpcErrorCodes::IncorrectEthSignature)
    } else if app_signature != SignatureStatus::Valid {
        Err(RpcErrorCodes::IncorrectTx)
    } else {
        Ok(())
    }
}

/// The codec: amount and fee pack exactly.
pub fn check_packing(tx: &Transfer) -> (r: Result<(), RpcErrorCodes>)
    ensures
        r == (if amount_encodable(tx.amount.value()) && fee_encodable(tx.fee.value()) {
            Ok(())
        } else {
            Err(RpcErrorCodes::IncorrectTx)
        }),
{
    let amount_ok = is_token_amount_packable(&tx.amount);
    let fee_ok = is_fee_amount_packable(&tx.fee);
    if amount_ok && fee_ok {
        Ok(())
    } else {
        Err(RpcErrorCodes::IncorrectTx)
    }
}

/// The account bounds: the sender must be an assigned account.
pub fn check_account_id(tx: &Transfer, c: &NetworkConditions) -> (r: Result<(), RpcErrorCodes>)
    ensures
        r == (if account_assigned(tx.account_id, *c) {
            Ok(())
        } else {
            Err(RpcErrorCodes::IncorrectTx)
        }),
{
    if tx.account_id < c.account_count {
        Ok(())
    } else {
        Err(RpcErrorCodes::IncorrectTx)
    }
}

/// The fee floor: the declared fee must reach the current minimum.
pub fn check_fee(tx: &Transfer, c: &NetworkConditions) -> (r: Result<(), RpcErrorCodes>)
    ensures
        r == (if tx.fee.value() >= c.min_fee {
            Ok(())
        } else {
            Err(RpcErrorCodes::FeeTooLow)
        }),
{
    match tx.fee.to_u128() {
        Some(v) => if v >= c.min_fee {
            Ok(())
        } else {
            Err(RpcErrorCodes::FeeTooLow)
        },
        None => Ok(()),
    }
}

/// The two signature layers: the authentication layer first for presence, then
/// for validity, then the application layer.
pub fn check_signatures(app_signature: SignatureStatus, eth_signature: SignatureStatus) -> (r:
    Result<(), RpcErrorCodes>)
    ensures
        r == (if eth_signature == SignatureStatus::Absent {
            Err(RpcErrorCodes::MissingEthSignature)
        } else if eth_signature == SignatureStatus::Invalid {
            Err(RpcErrorCodes::IncorrectEthSignature)
        } else if app_signature != SignatureStatus::Valid {
            Err(RpcErrorCodes::IncorrectTx)
        } else {
            Ok(())
        }),
{
    match eth_signature {
        SignatureStatus::Absent => Err(RpcErrorCodes::MissingEthSignature),
        SignatureStatus::Invalid => Err(RpcErrorCodes::IncorrectEthSignature),
        SignatureStatus::Valid => match app_signature {
            SignatureStatus::Valid => Ok(()),
            _ => Err(RpcErrorCodes::IncorrectTx),
        },
    }
}

/// Decides whether a submission is admitted, and if not, why.
pub fn validate(
    tx: &Transfer,
    app_signature: SignatureStatus,
    eth_signature: SignatureStatus,
    c: &NetworkConditions,
) -> (r: Result<(), RpcErrorCodes>)
    requires
        c.wf(),
    ensures
        r == admission(*tx, app_signature, eth_signature, *c),
{
    check_packing(tx)?;
    check_account_id(tx, c)?;
    check_fee(tx, c)?;
    check_signatures(app_signature, eth_signature)
}

} // verus!
