use vstd::prelude::*;
use vstd::string::*;

use crate::address::Address;
use crate::contract::{ContractView, QuizRoomContract};
use crate::distribution::{distribution_plan, pay, split_within_whole};
use crate::error::QuizError;
use crate::math::{amount_check, checked_sum, MAX_AMOUNT};
use crate::transfer::{settlement, transfer_verdict, Transfer, TransferReceipt};
use crate::types::{
    percent_total, PlayerEntry, PrizeAsset, PrizeMode, RoomConfig, RoomView,
};

verus! {

/// Longest screen name, in characters.
pub const MAX_SCREEN_NAME_LEN: usize = 20;

/// Host fee and prize pool together may not exceed this many basis points.
pub const MAX_HOST_AND_PRIZE_BPS: u32 = 6000;

pub open spec fn valid_screen_name(name: Seq<char>) -> bool {
    1 <= name.len() <= MAX_SCREEN_NAME_LEN
}

pub open spec fn place_pct(p: Option<u32>) -> Seq<u32> {
    match p {
        Some(x) => if x > 0 {
            seq![x]
        } else {
            Seq::empty()
        },
        None => Seq::empty(),
    }
}

pub open spec fn place_winner(w: Option<Address>) -> Seq<Address> {
    match w {
        Some(a) => seq![a],
        None => Seq::empty(),
    }
}

/// The place percentages of a pool room: first place, then second and third
/// when given and non-zero.
pub open spec fn pool_distribution(first: u32, second: Option<u32>, third: Option<u32>) -> Seq<
    u32,
> {
    seq![first] + place_pct(second) + place_pct(third)
}

/// A room just created: no players, no money, not ended.
pub open spec fn fresh_room(
    room_id: u32,
    host: Address,
    fee_token: Address,
    entry_fee: i128,
    host_fee_bps: u32,
    prize_pool_bps: u32,
    charity_bps: u32,
    prize_mode: PrizeMode,
    prize_distribution: Seq<u32>,
    prize_assets: Seq<Option<PrizeAsset>>,
    creation_ledger: u32,
) -> RoomView {
    RoomView {
        room_id,
        host,
        fee_token,
        entry_fee,
        host_fee_bps,
        prize_pool_bps,
        charity_bps,
        prize_mode,
        prize_distribution,
        prize_assets,
        ended: false,
        creation_ledger,
        host_wallet: Some(host),
        players: Seq::empty(),
        player_count: 0,
        total_pool: 0,
        total_entry_fees: 0,
        total_extras_fees: 0,
        total_paid_out: 0,
        winners: Seq::empty(),
    }
}

/// The first failing check over a list of prize assets, in order.
pub open spec fn prize_check(prizes: Seq<PrizeAsset>) -> Result<(), QuizError>
    decreases prizes.len(),
{
    if prizes.len() == 0 {
        Ok(())
    } else if prize_check(prizes.drop_last()) is Err {
        prize_check(prizes.drop_last())
    } else if !prizes.last().contract_id.is_valid() {
        Err(QuizError::InvalidAddress)
    } else {
        amount_check(prizes.last().amount as int, 1)
    }
}

/// The escrow of each prize, from the host to the contract.
pub open spec fn escrow_transfers(prizes: Seq<PrizeAsset>, host: Address, contract: Address) -> Seq<
    Transfer,
> {
    Seq::new(
        prizes.len(),
        |i: int| pay(prizes[i].contract_id, host, contract, prizes[i].amount as int),
    )
}

/// The prizes by place, padded with `None` to three places.
pub open spec fn padded_assets(prizes: Seq<PrizeAsset>) -> Seq<Option<PrizeAsset>> {
    Seq::new(
        3,
        |i: int|
            if i < prizes.len() {
                Some(prizes[i])
            } else {
                None
            },
    )
}

/// `r` after `player` joined under `screen_name`, paying `payment`.
pub open spec fn joined(
    r: RoomView,
    player: Address,
    screen_name: String,
    extras: i128,
    payment: i128,
    join_ledger: u32,
) -> RoomView {
    RoomView {
        players: r.players.push(
            PlayerEntry {
                player,
                screen_name,
                entry_paid: r.entry_fee,
                extras_paid: extras,
                total_paid: payment,
                join_ledger,
            },
        ),
        player_count: (r.player_count + 1) as u32,
        total_pool: (r.total_pool + payment) as i128,
        total_entry_fees: (r.total_entry_fees + r.entry_fee) as i128,
        total_extras_fees: (r.total_extras_fees + extras) as i128,
        ..r
    }
}

/// The winners named by address, in place order.
pub open spec fn winner_list(
    first: Option<Address>,
    second: Option<Address>,
    third: Option<Address>,
) -> Seq<Address> {
    place_winner(first) + place_winner(second) + place_winner(third)
}

pub open spec fn winner_addresses_valid(
    first: Option<Address>,
    second: Option<Address>,
    third: Option<Address>,
) -> bool {
    &&& first matches Some(w) ==> w.is_valid()
    &&& second matches Some(w) ==> w.is_valid()
    &&& third matches Some(w) ==> w.is_valid()
}

/// Every winner joined the room, and none is named twice.
pub open spec fn winners_valid(r: RoomView, ws: Seq<Address>) -> bool {
    &&& forall|i: int| 0 <= i < ws.len() ==> r.has_player(#[trigger] ws[i]@)
    &&& forall|i: int, j: int| 0 <= i < j < ws.len() ==> ws[i]@ != ws[j]@
}

/// The player registered under `name`.
pub open spec fn player_named(r: RoomView, name: Seq<char>) -> Address {
    r.players[choose|i: int| 0 <= i < r.players.len() && r.players[i].screen_name@ == name].player
}

/// Resolves one more place given by screen name.
pub open spec fn name_step(
    r: RoomView,
    acc: Result<Seq<Address>, QuizError>,
    name: Option<String>,
) -> Result<Seq<Address>, QuizError> {
    match acc {
        Err(e) => Err(e),
        Ok(ws) => match name {
            None => Ok(ws),
            Some(n) => if !valid_screen_name(n@) {
                Err(QuizError::InvalidScreenName)
            } else if !r.has_screen_name(n@) {
                Err(QuizError::InvalidWinners)
            } else {
                Ok(ws.push(player_named(r, n@)))
            },
        },
    }
}

pub open spec fn resolve_names(
    r: RoomView,
    first: Option<String>,
    second: Option<String>,
    third: Option<String>,
) -> Result<Seq<Address>, QuizError> {
    name_step(r, name_step(r, name_step(r, Ok(Seq::empty()), first), second), third)
}

/// `r` ended with winners `ws`.
pub open spec fn finished(r: RoomView, ws: Seq<Address>) -> RoomView {
    RoomView { winners: ws, ended: true, ..r }
}

/// The verdict of the room-state consistency check.
pub open spec fn room_state_check(r: RoomView) -> Result<(), QuizError> {
    if r.players.len() != r.player_count {
        Err(QuizError::StateInconsistency)
    } else if checked_sum(r.total_entry_fees as int, r.total_extras_fees as int) is Err {
        Err(QuizError::ArithmeticOverflow)
    } else if r.total_entry_fees + r.total_extras_fees != r.total_pool {
        Err(QuizError::StateInconsistency)
    } else {
        amount_check(r.total_pool as int, 0)
    }
}

impl ContractView {
    pub open spec fn approved_token_check(self, token: Address) -> Result<(), QuizError> {
        if !token.is_valid() {
            Err(QuizError::InvalidAddress)
        } else if !(self.approved_tokens matches Some(t) && t.approves(token@)) {
            Err(QuizError::TokenNotApproved)
        } else {
            Ok(())
        }
    }

    pub open spec fn economic_check(self, entry_fee: i128, host_fee_bps: u32, prize_pool_bps: u32) -> Result<
        (),
        QuizError,
    > {
        match self.economic_config {
            None => Err(QuizError::NotInitialized),
            Some(e) => if entry_fee < e.min_entry_fee || entry_fee > e.max_entry_fee {
                Err(QuizError::InvalidEntryFee)
            } else if host_fee_bps > e.max_host_fee_bps {
                Err(QuizError::InvalidHostFee)
            } else if prize_pool_bps > e.max_prize_pool_bps {
                Err(QuizError::InvalidPrizePoolBps)
            } else {
                amount_check(entry_fee as int, e.min_entry_fee as int)
            },
        }
    }

    pub open spec fn init_pool_room_spec(
        self,
        room_id: u32,
        host: Address,
        fee_token: Address,
        entry_fee: i128,
        host_fee_bps: Option<u32>,
        prize_pool_bps: u32,
        first_place_pct: u32,
        second_place_pct: Option<u32>,
        third_place_pct: Option<u32>,
        creation_ledger: u32,
    ) -> (Result<(), QuizError>, ContractView) {
        let h = match host_fee_bps {
            Some(x) => x,
            None => 0,
        };
        let dist = pool_distribution(first_place_pct, second_place_pct, third_place_pct);
        if self.paused() {
            (Err(QuizError::EmergencyPause), self)
        } else if !host.is_valid() {
            (Err(QuizError::InvalidAddress), self)
        } else if self.approved_token_check(fee_token) is Err {
            (self.approved_token_check(fee_token), self)
        } else if self.economic_check(entry_fee, h, prize_pool_bps) is Err {
            (self.economic_check(entry_fee, h, prize_pool_bps), self)
        } else if self.has_room(room_id) {
            (Err(QuizError::RoomAlreadyExists), self)
        } else if h + prize_pool_bps > MAX_HOST_AND_PRIZE_BPS {
            (Err(QuizError::InvalidTotalAllocation), self)
        } else {
            let e = self.economic_config->Some_0;
            if e.platform_fee_bps + h + prize_pool_bps > 10000 {
                (Err(QuizError::ArithmeticUnderflow), self)
            } else if 10000 - e.platform_fee_bps - h - prize_pool_bps < e.min_charity_bps {
                (Err(QuizError::CharityBelowMinimum), self)
            } else if first_place_pct == 0 || percent_total(dist) != 100 {
                (Err(QuizError::InvalidPrizeSplit), self)
            } else {
                (
                    Ok(()),
                    ContractView {
                        rooms: self.rooms.push(
                            fresh_room(
                                room_id,
                                host,
                                fee_token,
                                entry_fee,
                                h,
                                prize_pool_bps,
                                (10000 - e.platform_fee_bps - h - prize_pool_bps) as u32,
                                PrizeMode::PrizePoolSplit,
                                dist,
                                seq![None, None, None],
                                creation_ledger,
                            ),
                        ),
                        ..self
                    },
                )
            }
        }
    }

    /// The escrow transfers that creating an asset room needs, or why it
    /// cannot be created.
    pub open spec fn asset_room_plan(
        self,
        room_id: u32,
        host: Address,
        fee_token: Address,
        entry_fee: i128,
        host_fee_bps: Option<u32>,
        prizes: Seq<PrizeAsset>,
    ) -> Result<Seq<Transfer>, QuizError> {
        let h = match host_fee_bps {
            Some(x) => x,
            None => 0,
        };
        if self.paused() {
            Err(QuizError::EmergencyPause)
        } else if !host.is_valid() {
            Err(QuizError::InvalidAddress)
        } else if self.approved_token_check(fee_token) is Err {
            Err(self.approved_token_check(fee_token)->Err_0)
        } else if self.economic_check(entry_fee, h, 0) is Err {
            Err(self.economic_check(entry_fee, h, 0)->Err_0)
        } else if prizes.len() == 0 || prizes.len() > 3 {
            Err(QuizError::InvalidPrizeAssets)
        } else if prize_check(prizes) is Err {
            Err(prize_check(prizes)->Err_0)
        } else if self.has_room(room_id) {
            Err(QuizError::RoomAlreadyExists)
        } else {
            let e = self.economic_config->Some_0;
            if e.platform_fee_bps + h > 10000 {
                Err(QuizError::ArithmeticUnderflow)
            } else if 10000 - e.platform_fee_bps - h < e.min_charity_bps {
                Err(QuizError::CharityBelowMinimum)
            } else {
                Ok(escrow_transfers(prizes, host, self.contract_address))
            }
        }
    }

    pub open spec fn init_asset_room_spec(
        self,
        room_id: u32,
        host: Address,
        fee_token: Address,
        entry_fee: i128,
        host_fee_bps: Option<u32>,
        prizes: Seq<PrizeAsset>,
        creation_ledger: u32,
        receipts: Seq<TransferReceipt>,
    ) -> (Result<(), QuizError>, ContractView) {
        let h = match host_fee_bps {
            Some(x) => x,
            None => 0,
        };
        match self.asset_room_plan(room_id, host, fee_token, entry_fee, host_fee_bps, prizes) {
            Err(e) => (Err(e), self),
            Ok(plan) => if settlement(plan, receipts) is Err {
                (settlement(plan, receipts), self)
            } else {
                let e = self.economic_config->Some_0;
                (
                    Ok(()),
                    ContractView {
                        rooms: self.rooms.push(
                            fresh_room(
                                room_id,
                                host,
                                fee_token,
                                entry_fee,
                                h,
                                0,
                                (10000 - e.platform_fee_bps - h) as u32,
                                PrizeMode::AssetBased,
                                Seq::empty(),
                                padded_assets(prizes),
                                creation_ledger,
                            ),
                        ),
                        ..self
                    },
                )
            },
        }
    }

    /// The payment that joining needs, or why the player cannot join.
    pub open spec fn join_plan(
        self,
        room_id: u32,
        player: Address,
        screen_name: Seq<char>,
        extras_amount: i128,
    ) -> Result<Transfer, QuizError> {
        if self.paused() {
            Err(QuizError::EmergencyPause)
        } else if !player.is_valid() {
            Err(QuizError::InvalidAddress)
        } else if !valid_screen_name(screen_name) {
            Err(QuizError::InvalidScreenName)
        } else if amount_check(extras_amount as int, 0) is Err {
            Err(amount_check(extras_amount as int, 0)->Err_0)
        } else if !self.has_room(room_id) {
            Err(QuizError::RoomNotFound)
        } else {
            let r = self.room(room_id);
            if r.ended {
                Err(QuizError::RoomAlreadyEnded)
            } else if r.has_player(player@) {
                Err(QuizError::PlayerAlreadyJoined)
            } else if r.has_screen_name(screen_name) {
                Err(QuizError::ScreenNameTaken)
            } else if checked_sum(r.entry_fee as int, extras_amount as int) is Err {
                Err(QuizError::ArithmeticOverflow)
            } else {
                Ok(
                    pay(
                        r.fee_token,
                        player,
                        self.contract_address,
                        r.entry_fee + extras_amount,
                    ),
                )
            }
        }
    }

    pub open spec fn join_room_spec(
        self,
        room_id: u32,
        player: Address,
        screen_name: String,
        extras_amount: i128,
        join_ledger: u32,
        receipt: TransferReceipt,
    ) -> (Result<(), QuizError>, ContractView) {
        match self.join_plan(room_id, player, screen_name@, extras_amount) {
            Err(e) => (Err(e), self),
            Ok(t) => {
                let r = self.room(room_id);
                if transfer_verdict(t, receipt) is Err {
                    (transfer_verdict(t, receipt), self)
                } else if r.player_count == u32::MAX {
                    (Err(QuizError::ArithmeticOverflow), self)
                } else if r.total_pool + t.amount > MAX_AMOUNT {
                    (Err(QuizError::AmountTooLarge), self)
                } else {
                    (
                        Ok(()),
                        ContractView {
                            rooms: self.rooms.update(
                                self.room_index(room_id),
                                joined(r, player, screen_name, extras_amount, t.amount, join_ledger),
                            ),
                            ..self
                        },
                    )
                }
            },
        }
    }

    /// Checks made before any winner is looked at.
    pub open spec fn end_precheck(self, room_id: u32) -> Result<(), QuizError> {
        if self.paused() {
            Err(QuizError::EmergencyPause)
        } else if !self.has_room(room_id) {
            Err(QuizError::RoomNotFound)
        } else if self.room(room_id).ended {
            Err(QuizError::RoomAlreadyEnded)
        } else if self.room(room_id).player_count == 0 {
            Err(QuizError::InsufficientPlayers)
        } else {
            Ok(())
        }
    }

    /// The payouts that end room `room_id` with winners `ws`.
    pub open spec fn end_with_winners(self, room_id: u32, ws: Seq<Address>) -> Result<
        Seq<Transfer>,
        QuizError,
    > {
        if !winners_valid(self.room(room_id), ws) {
            Err(QuizError::InvalidWinners)
        } else if self.reentrancy_guard {
            Err(QuizError::ReentrancyDetected)
        } else {
            distribution_plan(
                finished(self.room(room_id), ws),
                self.admin_config,
                self.economic_config,
                self.contract_address,
            )
        }
    }

    pub open spec fn end_room_plan(
        self,
        room_id: u32,
        first: Option<Address>,
        second: Option<Address>,
        third: Option<Address>,
    ) -> Result<Seq<Transfer>, QuizError> {
        if self.end_precheck(room_id) is Err {
            Err(self.end_precheck(room_id)->Err_0)
        } else if !winner_addresses_valid(first, second, third) {
            Err(QuizError::InvalidAddress)
        } else {
            self.end_with_winners(room_id, winner_list(first, second, third))
        }
    }

    pub open spec fn end_by_names_plan(
        self,
        room_id: u32,
        first: Option<String>,
        second: Option<String>,
        third: Option<String>,
    ) -> Result<Seq<Transfer>, QuizError> {
        if self.end_precheck(room_id) is Err {
            Err(self.end_precheck(room_id)->Err_0)
        } else {
            match resolve_names(self.room(room_id), first, second, third) {
                Err(e) => Err(e),
                Ok(ws) => self.end_with_winners(room_id, ws),
            }
        }
    }

    /// Settles the payouts of `plan` and, when all went through, ends the
    /// room with winners `ws`. The reentrancy guard is released either way.
    pub open spec fn end_settle(
        self,
        room_id: u32,
        plan: Result<Seq<Transfer>, QuizError>,
        ws: Seq<Address>,
        receipts: Seq<TransferReceipt>,
    ) -> (Result<(), QuizError>, ContractView) {
        let released = ContractView { reentrancy_guard: false, ..self };
        match plan {
            Err(e) => (Err(e), released),
            Ok(p) => if settlement(p, receipts) is Err {
                (settlement(p, receipts), released)
            } else {
                (
                    Ok(()),
                    ContractView {
                        rooms: self.rooms.update(
                            self.room_index(room_id),
                            finished(self.room(room_id), ws),
                        ),
                        ..released
                    },
                )
            },
        }
    }

    pub open spec fn end_room_spec(
        self,
        room_id: u32,
        first: Option<Address>,
        second: Option<Address>,
        third: Option<Address>,
        receipts: Seq<TransferReceipt>,
    ) -> (Result<(), QuizError>, ContractView) {
        let released = ContractView { reentrancy_guard: false, ..self };
        released.end_settle(
            room_id,
            released.end_room_plan(room_id, first, second, third),
            winner_list(first, second, third),
            receipts,
        )
    }

    pub open spec fn end_room_by_screen_names_spec(
        self,
        room_id: u32,
        first: Option<String>,
        second: Option<String>,
        third: Option<String>,
        receipts: Seq<TransferReceipt>,
    ) -> (Result<(), QuizError>, ContractView) {
        let released = ContractView { reentrancy_guard: false, ..self };
        released.end_settle(
            room_id,
            released.end_by_names_plan(room_id, first, second, third),
            resolve_names(released.room(room_id), first, second, third)->Ok_0,
            receipts,
        )
    }
}

/// Ending a room with a winner address that never joined it fails with
/// InvalidWinners, and the room is not ended: the rooms stay exactly as they
/// were. (The checks that come first, pause, unknown room, room already ended
/// and room without players, are assumed passed, and every winner address
/// is well formed.)
pub proof fn lemma_stranger_cannot_win(
    s: ContractView,
    room_id: u32,
    first: Option<Address>,
    second: Option<Address>,
    third: Option<Address>,
    stranger: Address,
    receipts: Seq<TransferReceipt>,
)
    requires
        s.end_precheck(room_id) is Ok,
        winner_addresses_valid(first, second, third),
        first == Some(stranger) || second == Some(stranger) || third == Some(stranger),
        !s.room(room_id).has_player(stranger@),
    ensures
        s.end_room_plan(room_id, first, second, third) == Err::<Seq<Transfer>, QuizError>(
            QuizError::InvalidWinners,
        ),
        s.end_room_spec(room_id, first, second, third, receipts).0 == Err::<(), QuizError>(
            QuizError::InvalidWinners,
        ),
        s.end_room_spec(room_id, first, second, third, receipts).1.rooms == s.rooms,
        !s.end_room_spec(room_id, first, second, third, receipts).1.room(room_id).ended,
{
    let ws = winner_list(first, second, third);
    let r = s.room(room_id);
    let k: int = if first == Some(stranger) {
        0
    } else if second == Some(stranger) {
        place_winner(first).len() as int
    } else {
        (place_winner(first).len() + place_winner(second).len()) as int
    };
    assert(ws[k] == stranger);
    assert(!r.has_player(ws[k]@));
    assert(!winners_valid(r, ws));
    let released = ContractView { reentrancy_guard: false, ..s };
    assert(released.room(room_id) == r);
    assert(released.end_precheck(room_id) == s.end_precheck(room_id));
}

pub(crate) proof fn lemma_room_index(s: ContractView, room_id: u32, i: int)
    requires
        s.wf(),
        0 <= i < s.rooms.len(),
        s.rooms[i].room_id == room_id,
    ensures
        s.room_index(room_id) == i,
        s.has_room(room_id),
{
    let j = s.room_index(room_id);
    if j != i {
        if j < i {
            assert(s.rooms[j].room_id != s.rooms[i].room_id);
        } else {
            assert(s.rooms[i].room_id != s.rooms[j].room_id);
        }
    }
}

pub(crate) proof fn lemma_rooms_view_update(old_rooms: Seq<RoomConfig>, i: int, r: RoomConfig)
    requires
        0 <= i < old_rooms.len(),
    ensures
        old_rooms.update(i, r).map_values(|x: RoomConfig| x@) == old_rooms.map_values(
            |x: RoomConfig| x@,
        ).update(i, r@),
{
    assert(old_rooms.update(i, r).map_values(|x: RoomConfig| x@) =~= old_rooms.map_values(
        |x: RoomConfig| x@,
    ).update(i, r@));
}

pub(crate) proof fn lemma_rooms_view_push(old_rooms: Seq<RoomConfig>, r: RoomConfig)
    ensures
        old_rooms.push(r).map_values(|x: RoomConfig| x@) == old_rooms.map_values(
            |x: RoomConfig| x@,
        ).push(r@),
{
    assert(old_rooms.push(r).map_values(|x: RoomConfig| x@) =~= old_rooms.map_values(
        |x: RoomConfig| x@,
    ).push(r@));
}

pub(crate) fn find_player(players: &Vec<PlayerEntry>, who: &Address) -> (r: Option<usize>)
    ensures
        match r {
            Some(i) => i < players@.len() && players@[i as int].player@ == who@,
            None => forall|i: int| 0 <= i < players@.len() ==> players@[i].player@ != who@,
        },
{
    let mut i: usize = 0;
    while i < players.len()
        invariant
            i <= players@.len(),
            forall|k: int| 0 <= k < i ==> players@[k].player@ != who@,
        decreases players@.len() - i,
    {
        if players[i].player.same_as(who) {
            return Some(i);
        }
        i += 1;
    }
    None
}

pub(crate) fn find_screen_name(players: &Vec<PlayerEntry>, name: &String) -> (r: Option<usize>)
    ensures
        match r {
            Some(i) => i < players@.len() && players@[i as int].screen_name@ == name@,
            None => forall|i: int| 0 <= i < players@.len() ==> players@[i].screen_name@ != name@,
        },
{
    let mut i: usize = 0;
    while i < players.len()
        invariant
            i <= players@.len(),
            forall|k: int| 0 <= k < i ==> players@[k].screen_name@ != name@,
        decreases players@.len() - i,
    {
        if players[i].screen_name == *name {
            return Some(i);
        }
        i += 1;
    }
    None
}

impl QuizRoomContract {
    pub(crate) fn find_room(&self, room_id: u32) -> (r: Option<usize>)
        requires
            self@.wf(),
        ensures
            match r {
                Some(i) => i < self.rooms@.len() && self@.rooms[i as int].room_id == room_id
                    && self@.room_index(room_id) == i && self@.has_room(room_id),
                None => !self@.has_room(room_id),
            },
    {
        let mut i: usize = 0;
        while i < self.rooms.len()
            invariant
                self@.wf(),
                i <= self.rooms@.len(),
                forall|k: int| 0 <= k < i ==> self@.rooms[k].room_id != room_id,
            decreases self.rooms@.len() - i,
        {
            if self.rooms[i].room_id == room_id {
                proof {
                    lemma_room_index(self@, room_id, i as int);
                }
                return Some(i);
            }
            i += 1;
        }
        None
    }

    /// A screen name has between one and twenty characters.
    pub fn validate_screen_name(name: &String) -> (r: Result<(), QuizError>)
        ensures
            r == (if valid_screen_name(name@) {
                Ok(())
            } else {
                Err(QuizError::InvalidScreenName)
            }),
    {
        let len = name.as_str().unicode_len();
        if len == 0 || len > MAX_SCREEN_NAME_LEN {
            return Err(QuizError::InvalidScreenName);
        }
        Ok(())
    }

    pub fn validate_approved_token(&self, token: &Address) -> (r: Result<(), QuizError>)
        requires
            self@.wf(),
        ensures
            r == self@.approved_token_check(*token),
    {
        Self::validate_address(token)?;
        if !self.is_token_approved(token) {
            return Err(QuizError::TokenNotApproved);
        }
        Self::validate_token_contract(token)
    }

    pub fn validate_economic_parameters(
        &self,
        entry_fee: i128,
        host_fee_bps: u32,
        prize_pool_bps: u32,
    ) -> (r: Result<(), QuizError>)
        ensures
            r == self@.economic_check(entry_fee, host_fee_bps, prize_pool_bps),
    {
        let config = self.get_economic_config()?;
        if entry_fee < config.min_entry_fee || entry_fee > config.max_entry_fee {
            return Err(QuizError::InvalidEntryFee);
        }
        if host_fee_bps > config.max_host_fee_bps {
            return Err(QuizError::InvalidHostFee);
        }
        if prize_pool_bps > config.max_prize_pool_bps {
            return Err(QuizError::InvalidPrizePoolBps);
        }
        Self::validate_amount(entry_fee, config.min_entry_fee)
    }

    /// Re-checks a room's bookkeeping: the player count matches the
    /// registry, the pool is the sum of its parts, and it is a valid amount.
    pub fn validate_room_state(config: &RoomConfig) -> (r: Result<(), QuizError>)
        ensures
            r == room_state_check(config@),
            config@.wf() ==> r is Ok,
    {
        if config.players.len() as u64 != config.player_count as u64 {
            return Err(QuizError::StateInconsistency);
        }
        let calculated_total = Self::safe_add(config.total_entry_fees, config.total_extras_fees)?;
        if calculated_total != config.total_pool {
            return Err(QuizError::StateInconsistency);
        }
        Self::validate_amount(config.total_pool, 0)
    }

    /// Every winner is a registered player and none appears twice.
    pub fn validate_winners(config: &RoomConfig, winners: &Vec<Address>) -> (r: Result<
        (),
        QuizError,
    >)
        ensures
            r == (if winners_valid(config@, winners@) {
                Ok(())
            } else {
                Err(QuizError::InvalidWinners)
            }),
    {
        let mut i: usize = 0;
        while i < winners.len()
            invariant
                i <= winners@.len(),
                forall|k: int| 0 <= k < i ==> config@.has_player(#[trigger] winners@[k]@),
                forall|k: int, l: int| 0 <= k < l < i ==> winners@[k]@ != winners@[l]@,
            decreases winners@.len() - i,
        {
            match find_player(&config.players, &winners[i]) {
                None => {
                    assert(!config@.has_player(winners@[i as int]@));
                    return Err(QuizError::InvalidWinners);
                },
                Some(idx) => {
                    assert(config@.players[idx as int].player@ == winners@[i as int]@);
                    assert(config@.has_player(winners@[i as int]@));
                },
            }
            let mut j: usize = 0;
            while j < i
                invariant
                    i < winners@.len(),
                    j <= i,
                    forall|k: int| 0 <= k < j ==> winners@[k]@ != winners@[i as int]@,
                decreases i - j,
            {
                if winners[j].same_as(&winners[i]) {
                    return Err(QuizError::InvalidWinners);
                }
                j += 1;
            }
            i += 1;
        }
        Ok(())
    }

    /// Storage key of a room: the id big-endian in the last four of 32 bytes.
    pub fn u32_to_bytes(value: u32) -> (r: Vec<u8>)
        ensures
            r@.len() == 32,
            forall|i: int| 0 <= i < 28 ==> r@[i] == 0,
            r@[28] == value / 0x1000000,
            r@[29] == value / 0x10000 % 0x100,
            r@[30] == value / 0x100 % 0x100,
            r@[31] == value % 0x100,
    {
        let mut bytes: Vec<u8> = Vec::new();
        let mut i: usize = 0;
        while i < 28
            invariant
                i <= 28,
                bytes@.len() == i,
                forall|k: int| 0 <= k < i ==> bytes@[k] == 0,
            decreases 28 - i,
        {
            bytes.push(0);
            i += 1;
        }
        bytes.push((value / 0x1000000) as u8);
        bytes.push((value / 0x10000 % 0x100) as u8);
        bytes.push((value / 0x100 % 0x100) as u8);
        bytes.push((value % 0x100) as u8);
        bytes
    }
}

} // verus!
