use vstd::prelude::*;

use crate::contract::QuizRoomContract;
use crate::error::QuizError;

verus! {

/// Largest amount that money validation accepts: `i128::MAX / 10000`, so that
/// a basis-point product of any accepted amount still fits in an `i128`.
pub const MAX_AMOUNT: i128 = 17014118346046923173168730371588410;

pub open spec fn fits_i128(x: int) -> bool {
    i128::MIN <= x <= i128::MAX
}

/// Quotient rounded toward zero, as integer division in Rust rounds.
pub open spec fn div_toward_zero(x: int, d: int) -> int {
    if x >= 0 {
        if d > 0 {
            x / d
        } else {
            -(x / (-d))
        }
    } else {
        if d > 0 {
            -((-x) / d)
        } else {
            (-x) / (-d)
        }
    }
}

/// `bps` basis points of `amount`, truncated toward zero.
pub open spec fn percentage_of(amount: int, bps: int) -> int {
    div_toward_zero(amount * bps, 10000)
}

pub open spec fn checked_sum(a: int, b: int) -> Result<i128, QuizError> {
    if fits_i128(a + b) {
        Ok((a + b) as i128)
    } else {
        Err(QuizError::ArithmeticOverflow)
    }
}

pub open spec fn checked_difference(a: int, b: int) -> Result<i128, QuizError> {
    if fits_i128(a - b) {
        Ok((a - b) as i128)
    } else {
        Err(QuizError::ArithmeticUnderflow)
    }
}

pub open spec fn checked_product(a: int, b: int) -> Result<i128, QuizError> {
    if fits_i128(a * b) {
        Ok((a * b) as i128)
    } else {
        Err(QuizError::ArithmeticOverflow)
    }
}

pub open spec fn checked_quotient(a: int, b: int) -> Result<i128, QuizError> {
    if b == 0 {
        Err(QuizError::DivisionByZero)
    } else if fits_i128(div_toward_zero(a, b)) {
        Ok(div_toward_zero(a, b) as i128)
    } else {
        Err(QuizError::ArithmeticOverflow)
    }
}

pub open spec fn checked_percentage(amount: int, bps: int) -> Result<i128, QuizError> {
    if fits_i128(amount * bps) {
        Ok(percentage_of(amount, bps) as i128)
    } else {
        Err(QuizError::ArithmeticOverflow)
    }
}

/// The verdict of money validation on `amount` with lower bound `min_amount`.
pub open spec fn amount_check(amount: int, min_amount: int) -> Result<(), QuizError> {
    if amount < min_amount {
        Err(QuizError::InsufficientAmount)
    } else if amount > MAX_AMOUNT {
        Err(QuizError::AmountTooLarge)
    } else {
        Ok(())
    }
}

impl QuizRoomContract {
    pub fn safe_add(a: i128, b: i128) -> (r: Result<i128, QuizError>)
        ensures
            r == checked_sum(a as int, b as int),
    {
        match a.checked_add(b) {
            Some(v) => Ok(v),
            None => Err(QuizError::ArithmeticOverflow),
        }
    }

    pub fn safe_sub(a: i128, b: i128) -> (r: Result<i128, QuizError>)
        ensures
            r == checked_difference(a as int, b as int),
    {
        match a.checked_sub(b) {
            Some(v) => Ok(v),
            None => Err(QuizError::ArithmeticUnderflow),
        }
    }

    pub fn safe_mul(a: i128, b: i128) -> (r: Result<i128, QuizError>)
        ensures
            r == checked_product(a as int, b as int),
    {
        match a.checked_mul(b) {
            Some(v) => Ok(v),
            None => Err(QuizError::ArithmeticOverflow),
        }
    }

    pub fn safe_div(a: i128, b: i128) -> (r: Result<i128, QuizError>)
        ensures
            r == checked_quotient(a as int, b as int),
    {
        if b == 0 {
            return Err(QuizError::DivisionByZero);
        }
        match a.checked_div(b) {
            Some(v) => Ok(v),
            None => Err(QuizError::ArithmeticOverflow),
        }
    }

    /// `basis_points` basis points of `amount`: multiply, then divide by 10000.
    pub fn safe_percentage(amount: i128, basis_points: u32) -> (r: Result<i128, QuizError>)
        ensures
            r == checked_percentage(amount as int, basis_points as int),
    {
        let bp = basis_points as i128;
        match Self::safe_mul(amount, bp) {
            Ok(x) => {
                let r = Self::safe_div(x, 10000);
                proof {
                    let p = amount * bp;
                    if p >= 0 {
                        assert(p / 10000 <= p);
                    } else {
                        assert((-p) / 10000 <= -p);
                    }
                }
                r
            },
            Err(e) => Err(e),
        }
    }

    /// Rejects an amount below `min_amount`, or one too large for
    /// basis-point arithmetic.
    pub fn validate_amount(amount: i128, min_amount: i128) -> (r: Result<(), QuizError>)
        ensures
            r == amount_check(amount as int, min_amount as int),
    {
        if amount < min_amount {
            return Err(QuizError::InsufficientAmount);
        }
        if amount > MAX_AMOUNT {
            return Err(QuizError::AmountTooLarge);
        }
        Ok(())
    }

    pub fn validate_percentage(bps: u32, max_bps: u32) -> (r: Result<(), QuizError>)
        ensures
            r == (if bps > max_bps {
                Err(QuizError::PercentageTooHigh)
            } else {
                Ok(())
            }),
    {
        if bps > max_bps {
            return Err(QuizError::PercentageTooHigh);
        }
        Ok(())
    }
}

} // verus!
