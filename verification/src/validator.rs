//! The transaction validator: a pure predicate over a transaction and an
//! immutable ledger snapshot.
//!
//! Five checks run in order, and the first failure decides the reported
//! error: double spend, currency and amount sanity, sufficient balance,
//! signature, and the timestamp window. The signature check combines the
//! presence of a signature with the verdict of the external cryptographic
//! `verify` primitive, which the caller supplies as a boolean; the current
//! wall-clock second is likewise injectable.

use vstd::prelude::*;

use crate::errors::{IcnError, IcnResult};
use crate::ledger::{chain_balance, chain_contains, chain_has_tx, Block, Blockchain, Transaction};

verus! {

/// Length of the accepted timestamp window, in seconds before `now`.
pub const TIMESTAMP_WINDOW: i64 = 3600;

/// Whether a transaction timestamp falls in the accepted window: at most
/// one hour in the past and not in the future.
pub open spec fn ts_ok(ts: i64, now: i64) -> bool {
    now - TIMESTAMP_WINDOW <= ts <= now
}

/// The full validation outcome: `r` is `Ok` exactly when every gate holds,
/// and otherwise carries the error of the first gate that does not.
pub open spec fn validate_outcome(
    tx: Transaction,
    chain: Seq<Block>,
    now: i64,
    signature_valid: bool,
    r: IcnResult<()>,
) -> bool {
    let dup = chain_has_tx(chain, tx);
    let amount_ok = tx.amount > 0;
    let funded = chain_balance(chain, tx.from@, tx.currency_type) >= tx.amount + tx.fee;
    let signed = tx.signature is Some && signature_valid;
    let ts = ts_ok(tx.timestamp, now);
    &&& (r is Ok <==> !dup && amount_ok && funded && signed && ts)
    &&& (dup ==> (r matches Err(IcnError::Blockchain(m)) && m@ == "Double spend detected"@))
    &&& (!dup && !amount_ok ==> (r matches Err(IcnError::Currency(m)) && m@
        == "Invalid currency or amount"@))
    &&& (!dup && amount_ok && !funded ==> (r matches Err(IcnError::Currency(m)) && m@
        == "Insufficient balance"@))
    &&& (!dup && amount_ok && funded && !signed ==> (r matches Err(IcnError::Identity(m)) && m@
        == "Invalid signature"@))
    &&& (!dup && amount_ok && funded && signed && !ts ==> (r matches Err(IcnError::Blockchain(m))
        && m@ == "Transaction timestamp is not valid"@))
}

/// Gates each transaction on the five checks of the validation contract.
pub struct TransactionValidator;

impl TransactionValidator {
    /// Validates a transaction against a ledger snapshot at the current
    /// wall-clock second. The caller hands in the verdict of the external
    /// cryptographic `verify` primitive.
    pub fn validate_transaction(
        transaction: &Transaction,
        blockchain: &Blockchain,
        signature_valid: bool,
    ) -> (r: IcnResult<()>)
        requires
            blockchain.wf(),
        ensures
            exists|now: i64|
                #[trigger] validate_outcome(
                    *transaction,
                    blockchain.spec_chain(),
                    now,
                    signature_valid,
                    r,
                ),
    {
        let now = crate::clock::now_seconds();
        Self::validate_transaction_at(transaction, blockchain, now, signature_valid)
    }

    /// Validates a transaction against a ledger snapshot, a given current
    /// time, and the externally computed signature verdict.
    pub fn validate_transaction_at(
        transaction: &Transaction,
        blockchain: &Blockchain,
        now: i64,
        signature_valid: bool,
    ) -> (r: IcnResult<()>)
        requires
            blockchain.wf(),
        ensures
            validate_outcome(*transaction, blockchain.spec_chain(), now, signature_valid, r),
    {
        if Self::is_double_spend(transaction, blockchain)? {
            return Err(IcnError::Blockchain("Double spend detected".to_owned()));
        }
        if !Self::validate_currency_and_amount(transaction) {
            return Err(IcnError::Currency("Invalid currency or amount".to_owned()));
        }
        if !Self::check_sufficient_balance(transaction, blockchain)? {
            return Err(IcnError::Currency("Insufficient balance".to_owned()));
        }
        if !Self::validate_signature(transaction, signature_valid)? {
            return Err(IcnError::Identity("Invalid signature".to_owned()));
        }
        if !Self::validate_timestamp(transaction, now) {
            return Err(IcnError::Blockchain("Transaction timestamp is not valid".to_owned()));
        }
        Ok(())
    }

    /// Whether a structurally equal transaction already sits in a committed
    /// block.
    pub fn is_double_spend(transaction: &Transaction, blockchain: &Blockchain) -> (r: IcnResult<
        bool,
    >)
        ensures
            r matches Ok(b) && b == chain_has_tx(blockchain.spec_chain(), *transaction),
    {
        Ok(chain_contains(blockchain.chain(), transaction))
    }

    /// Whether the transferred amount is positive.
    pub fn validate_currency_and_amount(transaction: &Transaction) -> (r: bool)
        ensures
            r == (transaction.amount > 0),
    {
        transaction.amount > 0
    }

    /// Whether the sender's balance covers the amount plus the fee.
    pub fn check_sufficient_balance(transaction: &Transaction, blockchain: &Blockchain) -> (r:
        IcnResult<bool>)
        requires
            blockchain.wf(),
        ensures
            r matches Ok(b) && b == (chain_balance(
                blockchain.spec_chain(),
                transaction.from@,
                transaction.currency_type,
            ) >= transaction.amount + transaction.fee),
    {
        let balance = blockchain.get_balance(transaction.from.as_str(), &transaction.currency_type);
        Ok(balance >= transaction.amount as i128 + transaction.get_fee() as i128)
    }

    /// Whether the transaction carries a signature that the external
    /// `verify` primitive accepted. The caller hands in that verdict.
    pub fn validate_signature(transaction: &Transaction, signature_valid: bool) -> (r: IcnResult<
        bool,
    >)
        ensures
            r matches Ok(b) && b == (transaction.signature is Some && signature_valid),
    {
        Ok(transaction.signature.is_some() && signature_valid)
    }

    /// Whether the timestamp lies within the accepted window around `now`.
    pub fn validate_timestamp(transaction: &Transaction, now: i64) -> (r: bool)
        ensures
            r == ts_ok(transaction.timestamp, now),
    {
        let ts = transaction.timestamp as i128;
        let now_wide = now as i128;
        ts <= now_wide && ts >= now_wide - TIMESTAMP_WINDOW as i128
    }
}

} // verus!
