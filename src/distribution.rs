use vstd::prelude::*;

use crate::address::Address;
use crate::contract::QuizRoomContract;
use crate::error::QuizError;
use crate::math::{percentage_of, MAX_AMOUNT};
use crate::types::{percent_total, AdminConfig, EconomicConfig, PrizeMode, RoomConfig, RoomView};
use crate::transfer::Transfer;

verus! {

pub open spec fn pay(token: Address, from: Address, to: Address, amount: int) -> Transfer {
    Transfer { token, from, to, amount: amount as i128 }
}

pub open spec fn pay_if(cond: bool, t: Transfer) -> Seq<Transfer> {
    if cond {
        seq![t]
    } else {
        Seq::empty()
    }
}

/// Total amount moved by a list of transfers.
pub open spec fn sum_amounts(ts: Seq<Transfer>) -> int
    decreases ts.len(),
{
    if ts.len() == 0 {
        0
    } else {
        sum_amounts(ts.drop_last()) + ts.last().amount
    }
}

pub open spec fn min_int(a: int, b: int) -> int {
    if a < b {
        a
    } else {
        b
    }
}

/// A winner's share: whole-number percentage `pct` of the prize amount, taken
/// as `pct * 100` basis points.
pub open spec fn prize_share(prize: int, pct: u32) -> int {
    percentage_of(prize, pct * 100)
}

pub open spec fn platform_amount(room: RoomView, econ: EconomicConfig) -> int {
    percentage_of(room.total_pool as int, econ.platform_fee_bps as int)
}

pub open spec fn charity_amount(room: RoomView) -> int {
    percentage_of(room.total_pool as int, room.charity_bps as int)
}

pub open spec fn host_amount(room: RoomView) -> int {
    percentage_of(room.total_pool as int, room.host_fee_bps as int)
}

/// What the fee split leaves for the winners.
pub open spec fn prize_amount(room: RoomView, econ: EconomicConfig) -> int {
    room.total_pool - (platform_amount(room, econ) + charity_amount(room) + host_amount(room))
}

/// Platform fee, charity share and host fee, each paid when non-zero (the
/// host fee also needs a host wallet).
pub open spec fn fee_transfers(
    room: RoomView,
    admin: AdminConfig,
    econ: EconomicConfig,
    contract: Address,
) -> Seq<Transfer> {
    let p = platform_amount(room, econ);
    let c = charity_amount(room);
    let h = host_amount(room);
    pay_if(p > 0, pay(room.fee_token, contract, admin.platform_wallet, p)) + pay_if(
        c > 0,
        pay(room.fee_token, contract, admin.charity_wallet, c),
    ) + pay_if(
        h > 0 && room.host_wallet is Some,
        pay(room.fee_token, contract, room.host_wallet->Some_0, h),
    )
}

/// Shares of the first `k` winners, in place order, each paid when non-zero.
pub open spec fn share_transfers(room: RoomView, prize: int, contract: Address, k: int) -> Seq<
    Transfer,
>
    decreases k,
{
    if k <= 0 {
        Seq::empty()
    } else {
        let s = prize_share(prize, room.prize_distribution[k - 1]);
        share_transfers(room, prize, contract, k - 1) + pay_if(
            s > 0,
            pay(room.fee_token, contract, room.winners[k - 1], s),
        )
    }
}

/// Escrowed prizes of the first `k` winners, in place order.
pub open spec fn asset_transfers(room: RoomView, contract: Address, k: int) -> Seq<Transfer>
    decreases k,
{
    if k <= 0 {
        Seq::empty()
    } else {
        asset_transfers(room, contract, k - 1) + if k - 1 < room.prize_assets.len()
            && room.prize_assets[k - 1] is Some {
            let a = room.prize_assets[k - 1]->Some_0;
            seq![pay(a.contract_id, contract, room.winners[k - 1], a.amount as int)]
        } else {
            Seq::empty()
        }
    }
}

pub open spec fn pool_winner_count(room: RoomView) -> int {
    min_int(room.winners.len() as int, room.prize_distribution.len() as int)
}

pub open spec fn prize_transfers(room: RoomView, econ: EconomicConfig, contract: Address) -> Seq<
    Transfer,
> {
    match room.prize_mode {
        PrizeMode::PrizePoolSplit => share_transfers(
            room,
            prize_amount(room, econ),
            contract,
            pool_winner_count(room),
        ),
        PrizeMode::AssetBased => asset_transfers(
            room,
            contract,
            min_int(room.winners.len() as int, 3),
        ),
    }
}

/// Fee-token amount paid out before the remainder: fees, plus the shares in
/// pool mode (escrowed prizes are in their own tokens and do not count).
pub open spec fn pool_paid(
    room: RoomView,
    admin: AdminConfig,
    econ: EconomicConfig,
    contract: Address,
) -> int {
    sum_amounts(fee_transfers(room, admin, econ, contract)) + match room.prize_mode {
        PrizeMode::PrizePoolSplit => sum_amounts(prize_transfers(room, econ, contract)),
        PrizeMode::AssetBased => 0,
    }
}

/// Truncation dust, which goes to charity.
pub open spec fn remainder_amount(
    room: RoomView,
    admin: AdminConfig,
    econ: EconomicConfig,
    contract: Address,
) -> int {
    room.total_pool - pool_paid(room, admin, econ, contract)
}

/// The ordered payouts that end a room: fees, prizes, then the remainder to
/// charity. Nothing is paid from an empty pool.
pub open spec fn distribution_plan(
    room: RoomView,
    admin: Option<AdminConfig>,
    econ: Option<EconomicConfig>,
    contract: Address,
) -> Result<Seq<Transfer>, QuizError> {
    if room.total_pool <= 0 {
        Ok(Seq::empty())
    } else {
        match admin {
            None => Err(QuizError::NotInitialized),
            Some(a) => match econ {
                None => Err(QuizError::NotInitialized),
                Some(e) => {
                    let rem = remainder_amount(room, a, e, contract);
                    Ok(
                        fee_transfers(room, a, e, contract) + prize_transfers(room, e, contract)
                            + pay_if(
                            rem > 0,
                            pay(room.fee_token, contract, a.charity_wallet, rem),
                        ),
                    )
                },
            },
        }
    }
}

/// The basis points that a room's split hands out stay within the whole.
pub open spec fn split_within_whole(room: RoomView, econ: EconomicConfig) -> bool {
    econ.platform_fee_bps + room.charity_bps + room.host_fee_bps <= 10000
}

proof fn lemma_sum_single(t: Transfer)
    ensures
        sum_amounts(seq![t]) == t.amount,
{
    reveal_with_fuel(sum_amounts, 2);
    assert(seq![t].drop_last() =~= Seq::<Transfer>::empty());
}

/// Paying `amount` when `cond` holds moves `amount` then, and nothing otherwise.
proof fn lemma_sum_pay_if(cond: bool, t: Transfer)
    ensures
        sum_amounts(pay_if(cond, t)) == if cond {
            t.amount as int
        } else {
            0
        },
{
    if cond {
        lemma_sum_single(t);
    }
}

pub proof fn lemma_sum_amounts_concat(a: Seq<Transfer>, b: Seq<Transfer>)
    ensures
        sum_amounts(a + b) == sum_amounts(a) + sum_amounts(b),
    decreases b.len(),
{
    if b.len() == 0 {
        assert(a + b =~= a);
    } else {
        assert((a + b).drop_last() =~= a + b.drop_last());
        lemma_sum_amounts_concat(a, b.drop_last());
    }
}

proof fn lemma_percentage(total: int, bps: int)
    requires
        0 <= total <= MAX_AMOUNT,
        0 <= bps <= 10000,
    ensures
        percentage_of(total, bps) == total * bps / 10000,
        0 <= percentage_of(total, bps) <= total,
        percentage_of(total, bps) * 10000 <= total * bps,
        total * bps <= i128::MAX,
{
    assert(0 <= total * bps <= total * 10000) by (nonlinear_arith)
        requires
            0 <= total,
            0 <= bps <= 10000,
    ;
    let q = total * bps / 10000;
    assert(q * 10000 <= total * bps) by (nonlinear_arith)
        requires
            q == total * bps / 10000,
            0 <= total * bps,
    ;
    assert(q <= total) by (nonlinear_arith)
        requires
            q * 10000 <= total * bps,
            total * bps <= total * 10000,
    ;
}

proof fn lemma_fee_split_fits(total: int, bp: int, bc: int, bh: int)
    requires
        0 <= total <= MAX_AMOUNT,
        0 <= bp,
        0 <= bc,
        0 <= bh,
        bp + bc + bh <= 10000,
    ensures
        percentage_of(total, bp) + percentage_of(total, bc) + percentage_of(total, bh) <= total,
{
    lemma_percentage(total, bp);
    lemma_percentage(total, bc);
    lemma_percentage(total, bh);
    let p = percentage_of(total, bp);
    let c = percentage_of(total, bc);
    let h = percentage_of(total, bh);
    assert((p + c + h) * 10000 <= total * 10000) by (nonlinear_arith)
        requires
            p * 10000 <= total * bp,
            c * 10000 <= total * bc,
            h * 10000 <= total * bh,
            bp + bc + bh <= 10000,
            0 <= total,
    ;
}

proof fn lemma_percent_total_prefix(s: Seq<u32>, k: int)
    requires
        0 <= k <= s.len(),
    ensures
        percent_total(s.take(k)) <= percent_total(s),
        0 <= percent_total(s.take(k)),
    decreases s.len() - k,
{
    if k == s.len() {
        assert(s.take(k) =~= s);
        lemma_percent_total_nonneg(s);
    } else {
        lemma_percent_total_prefix(s, k + 1);
        assert(s.take(k + 1).drop_last() =~= s.take(k));
        lemma_percent_total_nonneg(s.take(k));
    }
}

proof fn lemma_percent_total_nonneg(s: Seq<u32>)
    ensures
        0 <= percent_total(s),
    decreases s.len(),
{
    if s.len() > 0 {
        lemma_percent_total_nonneg(s.drop_last());
    }
}

proof fn lemma_shares(room: RoomView, prize: int, contract: Address, k: int)
    requires
        0 <= prize <= MAX_AMOUNT,
        0 <= k <= room.prize_distribution.len(),
        k <= room.winners.len(),
        forall|i: int|
            0 <= i < room.prize_distribution.len() ==> room.prize_distribution[i] <= 100,
    ensures
        sum_amounts(share_transfers(room, prize, contract, k)) * 100 <= prize * percent_total(
            room.prize_distribution.take(k),
        ),
        0 <= sum_amounts(share_transfers(room, prize, contract, k)),
        forall|i: int|
            0 <= i < share_transfers(room, prize, contract, k).len() ==> {
                &&& (#[trigger] share_transfers(room, prize, contract, k)[i]).token
                    == room.fee_token
                &&& share_transfers(room, prize, contract, k)[i].from == contract
                &&& 0 < share_transfers(room, prize, contract, k)[i].amount <= prize
            },
    decreases k,
{
    let d = room.prize_distribution;
    if k == 0 {
        assert(d.take(0) =~= Seq::<u32>::empty());
    } else {
        lemma_shares(room, prize, contract, k - 1);
        let pct = d[k - 1];
        let s = prize_share(prize, pct);
        lemma_percentage(prize, pct * 100);
        let prev = share_transfers(room, prize, contract, k - 1);
        let step = pay_if(s > 0, pay(room.fee_token, contract, room.winners[k - 1], s));
        lemma_sum_amounts_concat(prev, step);
        lemma_sum_pay_if(s > 0, pay(room.fee_token, contract, room.winners[k - 1], s));
        assert(d.take(k).drop_last() =~= d.take(k - 1));
        assert(percent_total(d.take(k)) == percent_total(d.take(k - 1)) + pct);
        assert(s * 100 <= prize * pct) by (nonlinear_arith)
            requires
                s * 10000 <= prize * (pct * 100),
        ;
        assert(sum_amounts(share_transfers(room, prize, contract, k)) * 100 <= prize
            * percent_total(d.take(k))) by (nonlinear_arith)
            requires
                sum_amounts(share_transfers(room, prize, contract, k)) == sum_amounts(prev)
                    + sum_amounts(step),
                sum_amounts(prev) * 100 <= prize * percent_total(d.take(k - 1)),
                sum_amounts(step) * 100 <= prize * pct,
                percent_total(d.take(k)) == percent_total(d.take(k - 1)) + pct,
        ;
    }
}

proof fn lemma_fee_transfers(
    room: RoomView,
    admin: AdminConfig,
    econ: EconomicConfig,
    contract: Address,
)
    requires
        room.wf(),
        split_within_whole(room, econ),
        room.total_pool > 0,
    ensures
        sum_amounts(fee_transfers(room, admin, econ, contract)) == platform_amount(room, econ)
            + charity_amount(room) + if room.host_wallet is Some {
            host_amount(room)
        } else {
            0
        },
        0 <= prize_amount(room, econ) <= room.total_pool,
        forall|i: int|
            0 <= i < fee_transfers(room, admin, econ, contract).len() ==> {
                &&& (#[trigger] fee_transfers(room, admin, econ, contract)[i]).token
                    == room.fee_token
                &&& fee_transfers(room, admin, econ, contract)[i].from == contract
                &&& 0 < fee_transfers(room, admin, econ, contract)[i].amount <= room.total_pool
            },
{
    let t = room.total_pool as int;
    lemma_percentage(t, econ.platform_fee_bps as int);
    lemma_percentage(t, room.charity_bps as int);
    lemma_percentage(t, room.host_fee_bps as int);
    lemma_fee_split_fits(
        t,
        econ.platform_fee_bps as int,
        room.charity_bps as int,
        room.host_fee_bps as int,
    );
    let p = platform_amount(room, econ);
    let c = charity_amount(room);
    let h = host_amount(room);
    let a = pay_if(p > 0, pay(room.fee_token, contract, admin.platform_wallet, p));
    let b = pay_if(c > 0, pay(room.fee_token, contract, admin.charity_wallet, c));
    let e = pay_if(
        h > 0 && room.host_wallet is Some,
        pay(room.fee_token, contract, room.host_wallet->Some_0, h),
    );
    lemma_sum_amounts_concat(a, b);
    lemma_sum_amounts_concat(a + b, e);
    lemma_sum_pay_if(p > 0, pay(room.fee_token, contract, admin.platform_wallet, p));
    lemma_sum_pay_if(c > 0, pay(room.fee_token, contract, admin.charity_wallet, c));
    lemma_sum_pay_if(
        h > 0 && room.host_wallet is Some,
        pay(room.fee_token, contract, room.host_wallet->Some_0, h),
    );
}

/// For a non-negative amount and a split within the whole, each share lies
/// between zero and the amount, and the three together do not exceed it.
pub proof fn lemma_fee_split_bounds(total: int, bp: int, bc: int, bh: int)
    requires
        0 <= total <= MAX_AMOUNT,
        0 <= bp,
        0 <= bc,
        0 <= bh,
        bp + bc + bh <= 10000,
    ensures
        0 <= percentage_of(total, bp) <= total,
        0 <= percentage_of(total, bc) <= total,
        0 <= percentage_of(total, bh) <= total,
        total * bp <= i128::MAX,
        total * bc <= i128::MAX,
        total * bh <= i128::MAX,
        percentage_of(total, bp) + percentage_of(total, bc) + percentage_of(total, bh) <= total,
{
    lemma_percentage(total, bp);
    lemma_percentage(total, bc);
    lemma_percentage(total, bh);
    lemma_fee_split_fits(total, bp, bc, bh);
}

/// Fee reconciliation: ending a pool-split room pays out, in the fee token,
/// exactly the collected pool: platform fee, charity share, host fee, prize
/// shares and the truncation remainder (sent to charity) add up to
/// `total_pool`, and every payout is a positive amount from the contract.
pub proof fn lemma_fee_reconciliation(
    room: RoomView,
    admin: AdminConfig,
    econ: EconomicConfig,
    contract: Address,
)
    requires
        room.wf(),
        room.prize_mode == PrizeMode::PrizePoolSplit,
        split_within_whole(room, econ),
    ensures
        distribution_plan(room, Some(admin), Some(econ), contract) matches Ok(plan) && {
            &&& sum_amounts(plan) == room.total_pool
            &&& forall|i: int|
                0 <= i < plan.len() ==> {
                    &&& (#[trigger] plan[i]).token == room.fee_token
                    &&& plan[i].from == contract
                    &&& plan[i].amount > 0
                }
        },
        room.total_pool > 0 ==> remainder_amount(room, admin, econ, contract) >= 0,
{
    if room.total_pool > 0 {
        lemma_distribution_plan(room, admin, econ, contract);
    } else {
        assert(sum_amounts(Seq::<Transfer>::empty()) == 0);
    }
}

proof fn lemma_distribution_plan(
    room: RoomView,
    admin: AdminConfig,
    econ: EconomicConfig,
    contract: Address,
)
    requires
        room.wf(),
        split_within_whole(room, econ),
        room.total_pool > 0,
    ensures
        0 <= pool_paid(room, admin, econ, contract) <= room.total_pool,
        room.prize_mode == PrizeMode::PrizePoolSplit ==> {
            let plan = distribution_plan(room, Some(admin), Some(econ), contract)->Ok_0;
            &&& sum_amounts(plan) == room.total_pool
            &&& forall|i: int|
                0 <= i < plan.len() ==> {
                    &&& (#[trigger] plan[i]).token == room.fee_token
                    &&& plan[i].from == contract
                    &&& plan[i].amount > 0
                }
        },
{
    lemma_fee_transfers(room, admin, econ, contract);
    let fees = fee_transfers(room, admin, econ, contract);
    let prizes = prize_transfers(room, econ, contract);
    let prize = prize_amount(room, econ);
    let rem = remainder_amount(room, admin, econ, contract);
    let tail = pay_if(rem > 0, pay(room.fee_token, contract, admin.charity_wallet, rem));
    lemma_fee_split_fits(
        room.total_pool as int,
        econ.platform_fee_bps as int,
        room.charity_bps as int,
        room.host_fee_bps as int,
    );
    lemma_percentage(room.total_pool as int, room.host_fee_bps as int);
    if room.prize_mode == PrizeMode::PrizePoolSplit {
        let k = pool_winner_count(room);
        lemma_shares(room, prize, contract, k);
        lemma_percent_total_prefix(room.prize_distribution, k);
        let ps = percent_total(room.prize_distribution.take(k));
        assert(sum_amounts(prizes) <= prize) by (nonlinear_arith)
            requires
                sum_amounts(prizes) * 100 <= prize * ps,
                ps <= 100,
                0 <= prize,
        ;
        lemma_sum_amounts_concat(fees, prizes);
        lemma_sum_amounts_concat(fees + prizes, tail);
        lemma_sum_pay_if(rem > 0, pay(room.fee_token, contract, admin.charity_wallet, rem));
        let plan = fees + prizes + tail;
        assert forall|i: int| 0 <= i < plan.len() implies {
            &&& (#[trigger] plan[i]).token == room.fee_token
            &&& plan[i].from == contract
            &&& plan[i].amount > 0
        } by {
            if i < fees.len() {
                assert(plan[i] == fees[i]);
            } else if i < fees.len() + prizes.len() {
                assert(plan[i] == prizes[i - fees.len()]);
            } else {
                assert(plan[i] == tail[i - fees.len() - prizes.len()]);
            }
        }
    }
}

impl QuizRoomContract {
    /// Computes the payouts that end `room`: platform fee, charity share and
    /// host fee, then the prizes, then any truncation remainder to charity.
    pub fn execute_prize_distribution(&self, room: &RoomConfig) -> (r: Result<
        Vec<Transfer>,
        QuizError,
    >)
        requires
            room@.wf(),
            self@.economic_config matches Some(e) ==> split_within_whole(room@, e),
        ensures
            match r {
                Ok(v) => distribution_plan(
                    room@,
                    self@.admin_config,
                    self@.economic_config,
                    self@.contract_address,
                ) == Ok::<Seq<Transfer>, QuizError>(v@),
                Err(e) => distribution_plan(
                    room@,
                    self@.admin_config,
                    self@.economic_config,
                    self@.contract_address,
                ) == Err::<Seq<Transfer>, QuizError>(e),
            },
    {
        let mut out: Vec<Transfer> = Vec::new();
        if room.total_pool <= 0 {
            assert(out@ =~= Seq::<Transfer>::empty());
            return Ok(out);
        }
        let admin = match &self.admin_config {
            None => {
                return Err(QuizError::NotInitialized);
            },
            Some(a) => a,
        };
        let econ = match &self.economic_config {
            None => {
                return Err(QuizError::NotInitialized);
            },
            Some(e) => e,
        };
        let ghost rv = room@;
        let ghost contract = self.contract_address;
        proof {
            lemma_fee_transfers(rv, *admin, *econ, contract);
            lemma_distribution_plan(rv, *admin, *econ, contract);
            lemma_percentage(rv.total_pool as int, econ.platform_fee_bps as int);
            lemma_percentage(rv.total_pool as int, rv.charity_bps as int);
            lemma_percentage(rv.total_pool as int, rv.host_fee_bps as int);
            lemma_fee_split_fits(
                rv.total_pool as int,
                econ.platform_fee_bps as int,
                rv.charity_bps as int,
                rv.host_fee_bps as int,
            );
        }
        let platform = Self::safe_percentage(room.total_pool, econ.platform_fee_bps)?;
        let charity = Self::safe_percentage(room.total_pool, room.charity_bps)?;
        let host = Self::safe_percentage(room.total_pool, room.host_fee_bps)?;
        let total_fees = Self::safe_add(platform, charity)?;
        let total_fees = Self::safe_add(total_fees, host)?;
        let prize = Self::safe_sub(room.total_pool, total_fees)?;
        let mut distributed: i128 = 0;
        if platform > 0 {
            out.push(
                Transfer {
                    token: room.fee_token.clone(),
                    from: self.contract_address.clone(),
                    to: admin.platform_wallet.clone(),
                    amount: platform,
                },
            );
            distributed = platform;
        }
        if charity > 0 {
            out.push(
                Transfer {
                    token: room.fee_token.clone(),
                    from: self.contract_address.clone(),
                    to: admin.charity_wallet.clone(),
                    amount: charity,
                },
            );
            distributed = Self::safe_add(distributed, charity)?;
        }
        if host > 0 {
            if let Some(w) = &room.host_wallet {
                out.push(
                    Transfer {
                        token: room.fee_token.clone(),
                        from: self.contract_address.clone(),
                        to: w.clone(),
                        amount: host,
                    },
                );
                distributed = Self::safe_add(distributed, host)?;
            }
        }
        let ghost fees = fee_transfers(rv, *admin, *econ, contract);
        assert(out@ =~= fees);
        assert(distributed == sum_amounts(fees));
        match room.prize_mode {
            PrizeMode::PrizePoolSplit => {
                let n = if room.winners.len() < room.prize_distribution.len() {
                    room.winners.len()
                } else {
                    room.prize_distribution.len()
                };
                let mut i: usize = 0;
                while i < n
                    invariant
                        rv == room@,
                        rv.wf(),
                        split_within_whole(rv, *econ),
                        rv.total_pool > 0,
                        rv.prize_mode == PrizeMode::PrizePoolSplit,
                        contract == self.contract_address,
                        n == pool_winner_count(rv),
                        0 <= prize == prize_amount(rv, *econ) <= rv.total_pool,
                        i <= n,
                        out@ == fees + share_transfers(rv, prize as int, contract, i as int),
                        distributed == sum_amounts(fees) + sum_amounts(
                            share_transfers(rv, prize as int, contract, i as int),
                        ),
                        0 <= sum_amounts(fees) <= rv.total_pool,
                        sum_amounts(fees) + prize <= rv.total_pool,
                    decreases n - i,
                {
                    let pct = room.prize_distribution[i];
                    proof {
                        lemma_percentage(prize as int, (pct * 100) as int);
                    }
                    let share = Self::safe_percentage(prize, pct * 100)?;
                    let ghost step = pay_if(
                        share > 0,
                        pay(rv.fee_token, contract, rv.winners[i as int], share as int),
                    );
                    proof {
                        lemma_shares(rv, prize as int, contract, (i + 1) as int);
                        lemma_shares(rv, prize as int, contract, i as int);
                        lemma_percent_total_prefix(rv.prize_distribution, (i + 1) as int);
                        let ps = percent_total(rv.prize_distribution.take((i + 1) as int));
                        let sa = sum_amounts(
                            share_transfers(rv, prize as int, contract, (i + 1) as int),
                        );
                        assert(sa <= prize) by (nonlinear_arith)
                            requires
                                sa * 100 <= prize * ps,
                                ps <= 100,
                                0 <= prize,
                        ;
                        lemma_sum_amounts_concat(
                            share_transfers(rv, prize as int, contract, i as int),
                            step,
                        );
                        lemma_sum_pay_if(
                            share > 0,
                            pay(rv.fee_token, contract, rv.winners[i as int], share as int),
                        );
                    }
                    if share > 0 {
                        out.push(
                            Transfer {
                                token: room.fee_token.clone(),
                                from: self.contract_address.clone(),
                                to: room.winners[i].clone(),
                                amount: share,
                            },
                        );
                        distributed = Self::safe_add(distributed, share)?;
                    }
                    assert(out@ =~= fees + share_transfers(
                        rv,
                        prize as int,
                        contract,
                        (i + 1) as int,
                    ));
                    i += 1;
                }
            },
            PrizeMode::AssetBased => {
                let n = if room.winners.len() < 3 {
                    room.winners.len()
                } else {
                    3
                };
                let mut i: usize = 0;
                while i < n
                    invariant
                        rv == room@,
                        rv.prize_mode == PrizeMode::AssetBased,
                        contract == self.contract_address,
                        n == min_int(rv.winners.len() as int, 3),
                        i <= n,
                        out@ == fees + asset_transfers(rv, contract, i as int),
                    decreases n - i,
                {
                    if i < room.prize_assets.len() {
                        if let Some(a) = &room.prize_assets[i] {
                            out.push(
                                Transfer {
                                    token: a.contract_id.clone(),
                                    from: self.contract_address.clone(),
                                    to: room.winners[i].clone(),
                                    amount: a.amount,
                                },
                            );
                        }
                    }
                    assert(out@ =~= fees + asset_transfers(rv, contract, (i + 1) as int));
                    i += 1;
                }
            },
        }
        let ghost before_tail = out@;
        let remainder = Self::safe_sub(room.total_pool, distributed)?;
        if remainder > 0 {
            out.push(
                Transfer {
                    token: room.fee_token.clone(),
                    from: self.contract_address.clone(),
                    to: admin.charity_wallet.clone(),
                    amount: remainder,
                },
            );
        }
        proof {
            let rem = remainder_amount(rv, *admin, *econ, contract);
            assert(before_tail == fees + prize_transfers(rv, *econ, contract));
            assert(remainder == rem);
        }
        assert(out@ =~= fees + prize_transfers(rv, *econ, contract) + pay_if(
            remainder > 0,
            pay(rv.fee_token, contract, admin.charity_wallet, remainder as int),
        ));
        Ok(out)
    }
}

} // verus!
