use vstd::prelude::*;

use crate::address::Address;
use crate::contract::{ContractView, QuizRoomContract};
use crate::distribution::{pay, split_within_whole};
use crate::error::QuizError;
use crate::room::{
    escrow_transfers, lemma_rooms_view_push, padded_assets, pool_distribution, prize_check,
    MAX_HOST_AND_PRIZE_BPS,
};
use crate::transfer::{Transfer, TransferReceipt};
use crate::types::{percent_total, PlayerEntry, PrizeAsset, PrizeMode, RoomConfig};

verus! {

proof fn lemma_percent_total_push(s: Seq<u32>, x: u32)
    ensures
        percent_total(s.push(x)) == percent_total(s) + x,
{
    assert(s.push(x).drop_last() =~= s);
}

proof fn lemma_percent_total_bounds(s: Seq<u32>)
    ensures
        forall|i: int| 0 <= i < s.len() ==> s[i] <= percent_total(s),
        0 <= percent_total(s),
    decreases s.len(),
{
    if s.len() > 0 {
        lemma_percent_total_bounds(s.drop_last());
        assert forall|i: int| 0 <= i < s.len() implies s[i] <= percent_total(s) by {
            if i < s.len() - 1 {
                assert(s[i] == s.drop_last()[i]);
            }
        }
    }
}

proof fn lemma_prize_check_prefix(s: Seq<PrizeAsset>, k: int, m: int)
    requires
        0 <= k <= m <= s.len(),
        prize_check(s.take(k)) is Err,
    ensures
        prize_check(s.take(m)) == prize_check(s.take(k)),
    decreases m - k,
{
    if m > k {
        lemma_prize_check_prefix(s, k, m - 1);
        assert(s.take(m).drop_last() =~= s.take(m - 1));
    }
}

/// Adding a well-formed room under a new id keeps the contract well formed.
proof fn lemma_push_room_wf(s: ContractView, r: RoomConfig)
    requires
        s.wf(),
        s.admin_config is Some,
        !s.has_room(r@.room_id),
        r@.wf(),
        s.economic_config matches Some(e) ==> split_within_whole(r@, e),
    ensures
        (ContractView { rooms: s.rooms.push(r@), ..s }).wf(),
{
    let t = ContractView { rooms: s.rooms.push(r@), ..s };
    assert forall|i: int, j: int| 0 <= i < j < t.rooms.len() implies t.rooms[i].room_id
        != t.rooms[j].room_id by {
        if j == s.rooms.len() {
            assert(t.rooms[i] == s.rooms[i]);
        }
    }
    assert forall|i: int| 0 <= i < t.rooms.len() implies t.rooms[i].wf() by {
        if i < s.rooms.len() {
            assert(t.rooms[i] == s.rooms[i]);
        }
    }
    if let Some(e) = s.economic_config {
        assert forall|i: int| 0 <= i < t.rooms.len() implies e.platform_fee_bps + (
        #[trigger] t.rooms[i]).charity_bps + t.rooms[i].host_fee_bps <= 10000 by {
            if i < s.rooms.len() {
                assert(t.rooms[i] == s.rooms[i]);
            }
        }
    }
}

/// Replacing a room by a well-formed one with the same id and the same fee
/// split keeps the contract well formed.
pub(crate) proof fn lemma_replace_room_wf(s: ContractView, i: int, r: RoomConfig)
    requires
        s.wf(),
        0 <= i < s.rooms.len(),
        r@.room_id == s.rooms[i].room_id,
        r@.charity_bps == s.rooms[i].charity_bps,
        r@.host_fee_bps == s.rooms[i].host_fee_bps,
        r@.wf(),
    ensures
        (ContractView { rooms: s.rooms.update(i, r@), ..s }).wf(),
{
    let t = ContractView { rooms: s.rooms.update(i, r@), ..s };
    assert forall|a: int, b: int| 0 <= a < b < t.rooms.len() implies t.rooms[a].room_id
        != t.rooms[b].room_id by {
        assert(t.rooms[a].room_id == s.rooms[a].room_id);
        assert(t.rooms[b].room_id == s.rooms[b].room_id);
    }
    assert forall|a: int| 0 <= a < t.rooms.len() implies t.rooms[a].wf() by {
        if a != i {
            assert(t.rooms[a] == s.rooms[a]);
        }
    }
    if let Some(e) = s.economic_config {
        assert forall|a: int| 0 <= a < t.rooms.len() implies e.platform_fee_bps + (
        #[trigger] t.rooms[a]).charity_bps + t.rooms[a].host_fee_bps <= 10000 by {
            if a != i {
                assert(t.rooms[a] == s.rooms[a]);
            } else {
                assert(e.platform_fee_bps + s.rooms[i].charity_bps + s.rooms[i].host_fee_bps
                    <= 10000);
            }
        }
    }
}

impl QuizRoomContract {
    /// Every prize names a well-formed token address and a positive amount.
    fn validate_prizes(prizes: &Vec<PrizeAsset>) -> (r: Result<(), QuizError>)
        ensures
            r == prize_check(prizes@),
    {
        let n = prizes.len();
        let mut i: usize = 0;
        assert(prizes@.take(0) =~= Seq::<PrizeAsset>::empty());
        while i < n
            invariant
                n == prizes@.len(),
                i <= n,
                prize_check(prizes@.take(i as int)) is Ok,
            decreases n - i,
        {
            proof {
                assert(prizes@.take(i + 1).drop_last() =~= prizes@.take(i as int));
            }
            let checked = match Self::validate_address(&prizes[i].contract_id) {
                Err(e) => Err(e),
                Ok(()) => Self::validate_amount(prizes[i].amount, 1),
            };
            if let Err(e) = checked {
                proof {
                    assert(prizes@.take(i + 1).last() == prizes@[i as int]);
                    assert(prize_check(prizes@.take(i + 1)) == checked);
                    lemma_prize_check_prefix(prizes@, i + 1, n as int);
                    assert(prizes@.take(n as int) =~= prizes@);
                }
                return Err(e);
            }
            i += 1;
        }
        assert(prizes@.take(n as int) =~= prizes@);
        Ok(())
    }

    /// Creates a room whose winners share a percentage of the collected fees.
    /// The charity receives what the platform fee, host fee and prize pool
    /// leave of the whole.
    pub fn init_pool_room(
        &mut self,
        room_id: u32,
        host: Address,
        fee_token: Address,
        entry_fee: i128,
        host_fee_bps: Option<u32>,
        prize_pool_bps: u32,
        first_place_pct: u32,
        second_place_pct: Option<u32>,
        third_place_pct: Option<u32>,
        creation_ledger: u32,
    ) -> (r: Result<(), QuizError>)
        requires
            old(self)@.wf(),
        ensures
            (r, final(self)@) == old(self)@.init_pool_room_spec(
                room_id,
                host,
                fee_token,
                entry_fee,
                host_fee_bps,
                prize_pool_bps,
                first_place_pct,
                second_place_pct,
                third_place_pct,
                creation_ledger,
            ),
            final(self)@.wf(),
    {
        self.check_emergency_pause()?;
        Self::validate_address(&host)?;
        self.validate_approved_token(&fee_token)?;
        let h = match host_fee_bps {
            Some(x) => x,
            None => 0,
        };
        self.validate_economic_parameters(entry_fee, h, prize_pool_bps)?;
        if self.find_room(room_id).is_some() {
            return Err(QuizError::RoomAlreadyExists);
        }
        if h as u64 + prize_pool_bps as u64 > MAX_HOST_AND_PRIZE_BPS as u64 {
            return Err(QuizError::InvalidTotalAllocation);
        }
        let econ = self.get_economic_config()?;
        if econ.platform_fee_bps as u64 + h as u64 + prize_pool_bps as u64 > 10000 {
            return Err(QuizError::ArithmeticUnderflow);
        }
        let charity_bps = 10000 - econ.platform_fee_bps - h - prize_pool_bps;
        if charity_bps < econ.min_charity_bps {
            return Err(QuizError::CharityBelowMinimum);
        }
        if first_place_pct == 0 {
            return Err(QuizError::InvalidPrizeSplit);
        }
        let mut distribution: Vec<u32> = Vec::new();
        distribution.push(first_place_pct);
        let mut total_pct: u64 = first_place_pct as u64;
        proof {
            reveal_with_fuel(percent_total, 2);
            assert(distribution@ =~= seq![first_place_pct]);
        }
        if let Some(x) = second_place_pct {
            if x > 0 {
                proof {
                    lemma_percent_total_push(distribution@, x);
                }
                distribution.push(x);
                total_pct = total_pct + x as u64;
            }
        }
        if let Some(x) = third_place_pct {
            if x > 0 {
                proof {
                    lemma_percent_total_push(distribution@, x);
                }
                distribution.push(x);
                total_pct = total_pct + x as u64;
            }
        }
        assert(distribution@ =~= pool_distribution(
            first_place_pct,
            second_place_pct,
            third_place_pct,
        ));
        if total_pct != 100 {
            return Err(QuizError::InvalidPrizeSplit);
        }
        proof {
            lemma_percent_total_bounds(distribution@);
        }
        let mut prize_assets: Vec<Option<PrizeAsset>> = Vec::new();
        prize_assets.push(None);
        prize_assets.push(None);
        prize_assets.push(None);
        let room = RoomConfig {
            room_id,
            host: host.clone(),
            fee_token,
            entry_fee,
            host_fee_bps: h,
            prize_pool_bps,
            charity_bps,
            prize_mode: PrizeMode::PrizePoolSplit,
            prize_distribution: distribution,
            prize_assets,
            ended: false,
            creation_ledger,
            host_wallet: Some(host),
            players: Vec::new(),
            player_count: 0,
            total_pool: 0,
            total_entry_fees: 0,
            total_extras_fees: 0,
            total_paid_out: 0,
            winners: Vec::new(),
        };
        proof {
            lemma_rooms_view_push(self.rooms@, room);
            lemma_push_room_wf(self@, room);
            assert(room@.prize_assets =~= seq![None, None, None]);
            assert(room@.players =~= Seq::<PlayerEntry>::empty());
            assert(room@.winners =~= Seq::<Address>::empty());
        }
        self.rooms.push(room);
        Ok(())
    }

    /// The escrow transfers, host to contract, that creating an asset room
    /// needs; or why the room cannot be created.
    pub fn asset_room_escrow(
        &self,
        room_id: u32,
        host: &Address,
        fee_token: &Address,
        entry_fee: i128,
        host_fee_bps: Option<u32>,
        prizes: &Vec<PrizeAsset>,
    ) -> (r: Result<Vec<Transfer>, QuizError>)
        requires
            self@.wf(),
        ensures
            match r {
                Ok(v) => self@.asset_room_plan(
                    room_id,
                    *host,
                    *fee_token,
                    entry_fee,
                    host_fee_bps,
                    prizes@,
                ) == Ok::<Seq<Transfer>, QuizError>(v@),
                Err(e) => self@.asset_room_plan(
                    room_id,
                    *host,
                    *fee_token,
                    entry_fee,
                    host_fee_bps,
                    prizes@,
                ) == Err::<Seq<Transfer>, QuizError>(e),
            },
    {
        self.check_emergency_pause()?;
        Self::validate_address(host)?;
        self.validate_approved_token(fee_token)?;
        let h = match host_fee_bps {
            Some(x) => x,
            None => 0,
        };
        self.validate_economic_parameters(entry_fee, h, 0)?;
        let n = prizes.len();
        if n == 0 || n > 3 {
            return Err(QuizError::InvalidPrizeAssets);
        }
        let prizes_checked = Self::validate_prizes(prizes);
        if let Err(e) = prizes_checked {
            return Err(e);
        }
        assert(prizes@.take(n as int) =~= prizes@);
        if self.find_room(room_id).is_some() {
            return Err(QuizError::RoomAlreadyExists);
        }
        let econ = self.get_economic_config()?;
        if econ.platform_fee_bps as u64 + h as u64 > 10000 {
            return Err(QuizError::ArithmeticUnderflow);
        }
        if 10000 - econ.platform_fee_bps - h < econ.min_charity_bps {
            return Err(QuizError::CharityBelowMinimum);
        }
        let mut out: Vec<Transfer> = Vec::new();
        let mut j: usize = 0;
        while j < n
            invariant
                n == prizes@.len(),
                j <= n,
                out@.len() == j,
                forall|k: int|
                    0 <= k < j ==> out@[k] == pay(
                        prizes@[k].contract_id,
                        *host,
                        self.contract_address,
                        prizes@[k].amount as int,
                    ),
            decreases n - j,
        {
            out.push(
                Transfer {
                    token: prizes[j].contract_id.clone(),
                    from: host.clone(),
                    to: self.contract_address.clone(),
                    amount: prizes[j].amount,
                },
            );
            j += 1;
        }
        assert(out@ =~= escrow_transfers(prizes@, *host, self.contract_address));
        Ok(out)
    }

    /// Creates a room whose winners receive fixed prizes, escrowed now:
    /// `receipts` records the escrow transfers that [`Self::asset_room_escrow`]
    /// listed, in order.
    pub fn init_asset_room(
        &mut self,
        room_id: u32,
        host: Address,
        fee_token: Address,
        entry_fee: i128,
        host_fee_bps: Option<u32>,
        prizes: Vec<PrizeAsset>,
        creation_ledger: u32,
        receipts: &Vec<TransferReceipt>,
    ) -> (r: Result<(), QuizError>)
        requires
            old(self)@.wf(),
        ensures
            (r, final(self)@) == old(self)@.init_asset_room_spec(
                room_id,
                host,
                fee_token,
                entry_fee,
                host_fee_bps,
                prizes@,
                creation_ledger,
                receipts@,
            ),
            final(self)@.wf(),
    {
        let plan = self.asset_room_escrow(
            room_id,
            &host,
            &fee_token,
            entry_fee,
            host_fee_bps,
            &prizes,
        )?;
        Self::settle_transfers(&plan, receipts)?;
        let h = match host_fee_bps {
            Some(x) => x,
            None => 0,
        };
        let econ = self.get_economic_config()?;
        let charity_bps = 10000 - econ.platform_fee_bps - h;
        let mut prize_assets: Vec<Option<PrizeAsset>> = Vec::new();
        let mut k: usize = 0;
        while k < 3
            invariant
                k <= 3,
                prize_assets@.len() == k,
                forall|m: int|
                    0 <= m < k ==> prize_assets@[m] == padded_assets(prizes@)[m],
            decreases 3 - k,
        {
            if k < prizes.len() {
                prize_assets.push(Some(prizes[k].clone()));
            } else {
                prize_assets.push(None);
            }
            k += 1;
        }
        assert(prize_assets@ =~= padded_assets(prizes@));
        let room = RoomConfig {
            room_id,
            host: host.clone(),
            fee_token,
            entry_fee,
            host_fee_bps: h,
            prize_pool_bps: 0,
            charity_bps,
            prize_mode: PrizeMode::AssetBased,
            prize_distribution: Vec::new(),
            prize_assets,
            ended: false,
            creation_ledger,
            host_wallet: Some(host),
            players: Vec::new(),
            player_count: 0,
            total_pool: 0,
            total_entry_fees: 0,
            total_extras_fees: 0,
            total_paid_out: 0,
            winners: Vec::new(),
        };
        proof {
            lemma_rooms_view_push(self.rooms@, room);
            reveal_with_fuel(percent_total, 1);
            lemma_push_room_wf(self@, room);
            assert(room@.prize_distribution =~= Seq::<u32>::empty());
            assert(room@.players =~= Seq::<PlayerEntry>::empty());
            assert(room@.winners =~= Seq::<Address>::empty());
        }
        self.rooms.push(room);
        Ok(())
    }
}

} // verus!
