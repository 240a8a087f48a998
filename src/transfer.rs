use vstd::prelude::*;

use crate::address::Address;
use crate::contract::QuizRoomContract;
use crate::error::QuizError;
use crate::math::{amount_check, checked_difference};

verus! {

/// A movement of `amount` units of the token at `token` from `from` to `to`.
#[derive(Debug)]
pub struct Transfer {
    pub token: Address,
    pub from: Address,
    pub to: Address,
    pub amount: i128,
}

impl Clone for Transfer {
    fn clone(&self) -> (r: Self)
        ensures
            r == *self,
    {
        Transfer {
            token: self.token.clone(),
            from: self.from.clone(),
            to: self.to.clone(),
            amount: self.amount,
        }
    }
}

/// What the token service showed around one attempted transfer: both
/// balances before, whether the service reported success, and both balances
/// after.
#[derive(Clone, Copy, Debug, PartialEq, Eq, Structural)]
pub struct TransferReceipt {
    pub from_balance_before: i128,
    pub to_balance_before: i128,
    pub completed: bool,
    pub from_balance_after: i128,
    pub to_balance_after: i128,
}

/// Whether `t` may be attempted when its source holds `from_balance`.
pub open spec fn transfer_precheck(t: Transfer, from_balance: i128) -> Result<(), QuizError> {
    if !t.token.is_valid() || !t.from.is_valid() || !t.to.is_valid() {
        Err(QuizError::InvalidAddress)
    } else if amount_check(t.amount as int, 1) is Err {
        amount_check(t.amount as int, 1)
    } else if from_balance < t.amount {
        Err(QuizError::InsufficientBalance)
    } else {
        Ok(())
    }
}

/// Whether the attempt recorded in `receipt` carried out `t`: the service
/// reported success and both balances moved by exactly the amount.
pub open spec fn transfer_verdict(t: Transfer, receipt: TransferReceipt) -> Result<(), QuizError> {
    if transfer_precheck(t, receipt.from_balance_before) is Err {
        transfer_precheck(t, receipt.from_balance_before)
    } else if !receipt.completed {
        Err(QuizError::AssetTransferFailed)
    } else {
        match checked_difference(
            receipt.from_balance_before as int,
            receipt.from_balance_after as int,
        ) {
            Err(e) => Err(e),
            Ok(from_change) => match checked_difference(
                receipt.to_balance_after as int,
                receipt.to_balance_before as int,
            ) {
                Err(e) => Err(e),
                Ok(to_change) => if from_change != t.amount || to_change != t.amount {
                    Err(QuizError::TransferVerificationFailed)
                } else {
                    Ok(())
                },
            },
        }
    }
}

/// The verdict on a list of transfers carried out in order, from position
/// `i` on: the first that failed decides, and one never attempted failed.
pub open spec fn settlement_from(
    plan: Seq<Transfer>,
    receipts: Seq<TransferReceipt>,
    i: int,
) -> Result<(), QuizError>
    decreases plan.len() - i,
{
    if i >= plan.len() || i < 0 {
        Ok(())
    } else if i >= receipts.len() {
        Err(QuizError::AssetTransferFailed)
    } else if transfer_verdict(plan[i], receipts[i]) is Err {
        transfer_verdict(plan[i], receipts[i])
    } else {
        settlement_from(plan, receipts, i + 1)
    }
}

pub open spec fn settlement(plan: Seq<Transfer>, receipts: Seq<TransferReceipt>) -> Result<
    (),
    QuizError,
> {
    settlement_from(plan, receipts, 0)
}

impl QuizRoomContract {
    /// Decides, from the source's balance, whether `transfer` may be
    /// attempted at all.
    pub fn check_transfer(transfer: &Transfer, from_balance: i128) -> (r: Result<(), QuizError>)
        ensures
            r == transfer_precheck(*transfer, from_balance),
    {
        Self::validate_address(&transfer.token)?;
        Self::validate_address(&transfer.from)?;
        Self::validate_address(&transfer.to)?;
        Self::validate_amount(transfer.amount, 1)?;
        if from_balance < transfer.amount {
            return Err(QuizError::InsufficientBalance);
        }
        Ok(())
    }

    /// Judges one balance-verified transfer: a token that reports success
    /// without moving exactly the amount on both sides is caught.
    pub fn transfer_token(transfer: &Transfer, receipt: &TransferReceipt) -> (r: Result<
        (),
        QuizError,
    >)
        ensures
            r == transfer_verdict(*transfer, *receipt),
    {
        Self::check_transfer(transfer, receipt.from_balance_before)?;
        if !receipt.completed {
            return Err(QuizError::AssetTransferFailed);
        }
        let from_change = Self::safe_sub(receipt.from_balance_before, receipt.from_balance_after)?;
        let to_change = Self::safe_sub(receipt.to_balance_after, receipt.to_balance_before)?;
        if from_change != transfer.amount || to_change != transfer.amount {
            return Err(QuizError::TransferVerificationFailed);
        }
        Ok(())
    }

    /// Judges a list of transfers carried out in order; `receipts` holds one
    /// receipt per attempted transfer.
    pub fn settle_transfers(plan: &Vec<Transfer>, receipts: &Vec<TransferReceipt>) -> (r: Result<
        (),
        QuizError,
    >)
        ensures
            r == settlement(plan@, receipts@),
    {
        let mut i: usize = 0;
        while i < plan.len()
            invariant
                i <= plan@.len(),
                settlement(plan@, receipts@) == settlement_from(plan@, receipts@, i as int),
            decreases plan@.len() - i,
        {
            if i >= receipts.len() {
                return Err(QuizError::AssetTransferFailed);
            }
            Self::transfer_token(&plan[i], &receipts[i])?;
            i += 1;
        }
        Ok(())
    }
}

} // verus!
