use vstd::prelude::*;

use crate::address::Address;
use crate::contract::{ContractView, QuizRoomContract};
use crate::distribution::split_within_whole;
use crate::error::QuizError;
use crate::lifecycle::lemma_replace_room_wf;
use crate::math::MAX_AMOUNT;
use crate::room::{
    finished, find_player, find_screen_name, joined, lemma_rooms_view_update, name_step,
    player_named, resolve_names, winner_addresses_valid, winner_list,
};
use crate::transfer::{Transfer, TransferReceipt};
use crate::types::{PlayerEntry, RoomConfig, RoomView};

verus! {

proof fn lemma_player_named(r: RoomView, name: Seq<char>, i: int)
    requires
        r.wf(),
        0 <= i < r.players.len(),
        r.players[i].screen_name@ == name,
    ensures
        player_named(r, name) == r.players[i].player,
{
    let j = choose|j: int| 0 <= j < r.players.len() && r.players[j].screen_name@ == name;
    if j != i {
        if j < i {
            assert(r.players[j].screen_name@ != r.players[i].screen_name@);
        } else {
            assert(r.players[i].screen_name@ != r.players[j].screen_name@);
        }
    }
}

/// The view of the room at position `i` is the view's room at `i`.
proof fn lemma_room_at(c: &QuizRoomContract, i: int)
    requires
        0 <= i < c.rooms@.len(),
    ensures
        c@.rooms[i] == c.rooms@[i]@,
        c@.rooms.len() == c.rooms@.len(),
{
}

fn winners_from_addresses(
    first: &Option<Address>,
    second: &Option<Address>,
    third: &Option<Address>,
) -> (r: Result<Vec<Address>, QuizError>)
    ensures
        match r {
            Ok(v) => winner_addresses_valid(*first, *second, *third) && v@ == winner_list(
                *first,
                *second,
                *third,
            ),
            Err(e) => !winner_addresses_valid(*first, *second, *third) && e
                == QuizError::InvalidAddress,
        },
{
    let mut winners: Vec<Address> = Vec::new();
    if let Some(w) = first {
        QuizRoomContract::validate_address(w)?;
        winners.push(w.clone());
    }
    if let Some(w) = second {
        QuizRoomContract::validate_address(w)?;
        winners.push(w.clone());
    }
    if let Some(w) = third {
        QuizRoomContract::validate_address(w)?;
        winners.push(w.clone());
    }
    assert(winners@ =~= winner_list(*first, *second, *third));
    Ok(winners)
}

/// Resolves one place given by screen name and appends its player.
fn resolve_place(room: &RoomConfig, winners: &mut Vec<Address>, name: &Option<String>) -> (r:
    Result<(), QuizError>)
    requires
        room@.wf(),
    ensures
        match r {
            Ok(()) => name_step(room@, Ok(old(winners)@), *name) == Ok::<
                Seq<Address>,
                QuizError,
            >(final(winners)@),
            Err(e) => name_step(room@, Ok(old(winners)@), *name) == Err::<
                Seq<Address>,
                QuizError,
            >(e),
        },
{
    match name {
        None => Ok(()),
        Some(n) => {
            QuizRoomContract::validate_screen_name(n)?;
            match find_screen_name(&room.players, n) {
                None => {
                    assert(!room@.has_screen_name(n@));
                    Err(QuizError::InvalidWinners)
                },
                Some(idx) => {
                    proof {
                        lemma_player_named(room@, n@, idx as int);
                    }
                    winners.push(room.players[idx].player.clone());
                    Ok(())
                },
            }
        },
    }
}

fn resolve_winner_names(
    room: &RoomConfig,
    first: &Option<String>,
    second: &Option<String>,
    third: &Option<String>,
) -> (r: Result<Vec<Address>, QuizError>)
    requires
        room@.wf(),
    ensures
        match r {
            Ok(v) => resolve_names(room@, *first, *second, *third) == Ok::<
                Seq<Address>,
                QuizError,
            >(v@),
            Err(e) => resolve_names(room@, *first, *second, *third) == Err::<
                Seq<Address>,
                QuizError,
            >(e),
        },
{
    let mut winners: Vec<Address> = Vec::new();
    assert(winners@ =~= Seq::<Address>::empty());
    resolve_place(room, &mut winners, first)?;
    resolve_place(room, &mut winners, second)?;
    resolve_place(room, &mut winners, third)?;
    Ok(winners)
}

impl QuizRoomContract {
    /// The payment, player to contract, that joining needs; or why the player
    /// cannot join.
    pub fn join_payment(
        &self,
        room_id: u32,
        player: &Address,
        screen_name: &String,
        extras_amount: i128,
    ) -> (r: Result<Transfer, QuizError>)
        requires
            self@.wf(),
        ensures
            r == self@.join_plan(room_id, *player, screen_name@, extras_amount),
    {
        self.check_emergency_pause()?;
        Self::validate_address(player)?;
        Self::validate_screen_name(screen_name)?;
        Self::validate_amount(extras_amount, 0)?;
        let i = match self.find_room(room_id) {
            None => {
                return Err(QuizError::RoomNotFound);
            },
            Some(i) => i,
        };
        let room = &self.rooms[i];
        proof {
            lemma_room_at(self, i as int);
        }
        if room.ended {
            return Err(QuizError::RoomAlreadyEnded);
        }
        if let Some(k) = find_player(&room.players, player) {
            assert(room@.players[k as int].player@ == player@);
            return Err(QuizError::PlayerAlreadyJoined);
        }
        if let Some(k) = find_screen_name(&room.players, screen_name) {
            assert(room@.players[k as int].screen_name@ == screen_name@);
            return Err(QuizError::ScreenNameTaken);
        }
        let total_payment = Self::safe_add(room.entry_fee, extras_amount)?;
        Ok(
            Transfer {
                token: room.fee_token.clone(),
                from: player.clone(),
                to: self.contract_address.clone(),
                amount: total_payment,
            },
        )
    }

    /// Registers `player` under `screen_name` once the payment that
    /// [`Self::join_payment`] named went through, as `receipt` shows. On any
    /// failure the room stays exactly as it was.
    pub fn join_room(
        &mut self,
        room_id: u32,
        player: Address,
        screen_name: String,
        extras_amount: i128,
        join_ledger: u32,
        receipt: &TransferReceipt,
    ) -> (r: Result<(), QuizError>)
        requires
            old(self)@.wf(),
        ensures
            (r, final(self)@) == old(self)@.join_room_spec(
                room_id,
                player,
                screen_name,
                extras_amount,
                join_ledger,
                *receipt,
            ),
            r is Err ==> final(self)@ == old(self)@,
            r is Ok ==> {
                let room = final(self)@.room(room_id);
                &&& room.player_count == room.players.len()
                &&& room.total_pool == room.total_entry_fees + room.total_extras_fees
            },
            final(self)@.wf(),
    {
        let t = self.join_payment(room_id, &player, &screen_name, extras_amount)?;
        Self::transfer_token(&t, receipt)?;
        let i = match self.find_room(room_id) {
            None => {
                return Err(QuizError::RoomNotFound);
            },
            Some(i) => i,
        };
        proof {
            lemma_room_at(self, i as int);
        }
        if self.rooms[i].player_count == u32::MAX {
            return Err(QuizError::ArithmeticOverflow);
        }
        let total_pool = Self::safe_add(self.rooms[i].total_pool, t.amount)?;
        if total_pool > MAX_AMOUNT {
            return Err(QuizError::AmountTooLarge);
        }
        let mut room = self.rooms[i].clone();
        let entry_fee = room.entry_fee;
        let ghost old_room = room@;
        room.players.push(
            PlayerEntry {
                player,
                screen_name,
                entry_paid: entry_fee,
                extras_paid: extras_amount,
                total_paid: t.amount,
                join_ledger,
            },
        );
        room.player_count = room.player_count + 1;
        room.total_pool = total_pool;
        room.total_entry_fees = room.total_entry_fees + entry_fee;
        room.total_extras_fees = room.total_extras_fees + extras_amount;
        proof {
            let nr = room@;
            assert(nr == joined(old_room, player, screen_name, extras_amount, t.amount, join_ledger));
            assert forall|a: int, b: int| 0 <= a < b < nr.players.len() implies {
                &&& nr.players[a].player@ != nr.players[b].player@
                &&& nr.players[a].screen_name@ != nr.players[b].screen_name@
            } by {
                if b == old_room.players.len() {
                    assert(nr.players[a] == old_room.players[a]);
                }
            }
            lemma_rooms_view_update(self.rooms@, i as int, room);
            lemma_replace_room_wf(self@, i as int, room);
        }
        self.rooms.set(i, room);
        proof {
            crate::room::lemma_room_index(self@, room_id, i as int);
        }
        Ok(())
    }

    /// Index of room `room_id` when it may be ended: it exists, is still
    /// open and has players; and the contract is not paused.
    fn end_precheck_room(&self, room_id: u32) -> (r: Result<usize, QuizError>)
        requires
            self@.wf(),
        ensures
            match r {
                Ok(i) => self@.end_precheck(room_id) is Ok && i < self.rooms@.len()
                    && self@.room_index(room_id) == i && self@.has_room(room_id),
                Err(e) => self@.end_precheck(room_id) == Err::<(), QuizError>(e),
            },
    {
        self.check_emergency_pause()?;
        let i = match self.find_room(room_id) {
            None => {
                return Err(QuizError::RoomNotFound);
            },
            Some(i) => i,
        };
        proof {
            lemma_room_at(self, i as int);
        }
        if self.rooms[i].ended {
            return Err(QuizError::RoomAlreadyEnded);
        }
        if self.rooms[i].player_count == 0 {
            return Err(QuizError::InsufficientPlayers);
        }
        Ok(i)
    }

    /// The payouts that end room `room_id` (at position `i`) with `winners`.
    fn plan_end(&self, i: usize, room_id: u32, winners: &Vec<Address>) -> (r: Result<
        Vec<Transfer>,
        QuizError,
    >)
        requires
            self@.wf(),
            i < self.rooms@.len(),
            self@.room_index(room_id) == i,
            self@.has_room(room_id),
        ensures
            match r {
                Ok(v) => self@.end_with_winners(room_id, winners@) == Ok::<
                    Seq<Transfer>,
                    QuizError,
                >(v@),
                Err(e) => self@.end_with_winners(room_id, winners@) == Err::<
                    Seq<Transfer>,
                    QuizError,
                >(e),
            },
    {
        proof {
            lemma_room_at(self, i as int);
        }
        Self::validate_winners(&self.rooms[i], winners)?;
        if self.reentrancy_guard {
            return Err(QuizError::ReentrancyDetected);
        }
        let mut room = self.rooms[i].clone();
        let listed = winners.clone();
        assert(listed@ =~= winners@);
        room.winners = listed;
        room.ended = true;
        proof {
            assert(room@ == finished(self@.rooms[i as int], winners@));
            assert(self@.rooms[i as int].wf());
            if let Some(e) = self@.economic_config {
                assert(split_within_whole(self@.rooms[i as int], e));
            }
        }
        self.execute_prize_distribution(&room)
    }

    /// First half of ending a room by winner addresses: checks everything,
    /// takes the reentrancy guard and lists the payouts, which the caller
    /// carries out in order before calling [`Self::end_room`].
    pub fn prepare_end_room(
        &mut self,
        room_id: u32,
        first_place: &Option<Address>,
        second_place: &Option<Address>,
        third_place: &Option<Address>,
    ) -> (r: Result<Vec<Transfer>, QuizError>)
        requires
            old(self)@.wf(),
        ensures
            match r {
                Ok(v) => {
                    &&& old(self)@.end_room_plan(room_id, *first_place, *second_place, *third_place)
                        == Ok::<Seq<Transfer>, QuizError>(v@)
                    &&& final(self)@ == (ContractView { reentrancy_guard: true, ..old(self)@ })
                },
                Err(e) => {
                    &&& old(self)@.end_room_plan(room_id, *first_place, *second_place, *third_place)
                        == Err::<Seq<Transfer>, QuizError>(e)
                    &&& final(self)@ == old(self)@
                },
            },
            final(self)@.wf(),
    {
        let i = self.end_precheck_room(room_id)?;
        let winners = winners_from_addresses(first_place, second_place, third_place)?;
        let plan = self.plan_end(i, room_id, &winners)?;
        self.reentrancy_guard = true;
        Ok(plan)
    }

    /// Second half of ending a room by winner addresses: `receipts` records
    /// the payouts that [`Self::prepare_end_room`] listed. When all went
    /// through the room ends with these winners; otherwise it stays open and
    /// unchanged. The reentrancy guard is released either way.
    pub fn end_room(
        &mut self,
        room_id: u32,
        first_place: Option<Address>,
        second_place: Option<Address>,
        third_place: Option<Address>,
        receipts: &Vec<TransferReceipt>,
    ) -> (r: Result<(), QuizError>)
        requires
            old(self)@.wf(),
        ensures
            (r, final(self)@) == old(self)@.end_room_spec(
                room_id,
                first_place,
                second_place,
                third_place,
                receipts@,
            ),
            r is Err ==> final(self)@.rooms == old(self)@.rooms,
            r is Ok ==> {
                let room = final(self)@.room(room_id);
                &&& room.ended
                &&& room.player_count == room.players.len()
                &&& room.total_pool == room.total_entry_fees + room.total_extras_fees
            },
            !final(self)@.reentrancy_guard,
            final(self)@.wf(),
    {
        self.reentrancy_guard = false;
        let i = self.end_precheck_room(room_id)?;
        let winners = winners_from_addresses(&first_place, &second_place, &third_place)?;
        let plan = self.plan_end(i, room_id, &winners)?;
        Self::settle_transfers(&plan, receipts)?;
        self.finish_room(i, room_id, winners);
        Ok(())
    }

    /// Marks room `room_id` (at position `i`) ended with `winners`.
    fn finish_room(&mut self, i: usize, room_id: u32, winners: Vec<Address>)
        requires
            old(self)@.wf(),
            i < old(self).rooms@.len(),
            old(self)@.room_index(room_id) == i,
            old(self)@.has_room(room_id),
        ensures
            final(self)@ == (ContractView {
                rooms: old(self)@.rooms.update(i as int, finished(old(self)@.room(room_id), winners@)),
                ..old(self)@
            }),
            final(self)@.wf(),
            final(self)@.room_index(room_id) == i,
    {
        proof {
            lemma_room_at(self, i as int);
        }
        let mut room = self.rooms[i].clone();
        room.winners = winners;
        room.ended = true;
        proof {
            lemma_rooms_view_update(self.rooms@, i as int, room);
            lemma_replace_room_wf(self@, i as int, room);
        }
        self.rooms.set(i, room);
        proof {
            crate::room::lemma_room_index(self@, room_id, i as int);
        }
    }

    /// First half of ending a room by winners' screen names; see
    /// [`Self::prepare_end_room`].
    pub fn prepare_end_room_by_screen_names(
        &mut self,
        room_id: u32,
        first_place_name: &Option<String>,
        second_place_name: &Option<String>,
        third_place_name: &Option<String>,
    ) -> (r: Result<Vec<Transfer>, QuizError>)
        requires
            old(self)@.wf(),
        ensures
            match r {
                Ok(v) => {
                    &&& old(self)@.end_by_names_plan(
                        room_id,
                        *first_place_name,
                        *second_place_name,
                        *third_place_name,
                    ) == Ok::<Seq<Transfer>, QuizError>(v@)
                    &&& final(self)@ == (ContractView { reentrancy_guard: true, ..old(self)@ })
                },
                Err(e) => {
                    &&& old(self)@.end_by_names_plan(
                        room_id,
                        *first_place_name,
                        *second_place_name,
                        *third_place_name,
                    ) == Err::<Seq<Transfer>, QuizError>(e)
                    &&& final(self)@ == old(self)@
                },
            },
            final(self)@.wf(),
    {
        let i = self.end_precheck_room(room_id)?;
        proof {
            lemma_room_at(self, i as int);
        }
        let winners = resolve_winner_names(
            &self.rooms[i],
            first_place_name,
            second_place_name,
            third_place_name,
        )?;
        let plan = self.plan_end(i, room_id, &winners)?;
        self.reentrancy_guard = true;
        Ok(plan)
    }

    /// Second half of ending a room by winners' screen names; see
    /// [`Self::end_room`].
    pub fn end_room_by_screen_names(
        &mut self,
        room_id: u32,
        first_place_name: Option<String>,
        second_place_name: Option<String>,
        third_place_name: Option<String>,
        receipts: &Vec<TransferReceipt>,
    ) -> (r: Result<(), QuizError>)
        requires
            old(self)@.wf(),
        ensures
            (r, final(self)@) == old(self)@.end_room_by_screen_names_spec(
                room_id,
                first_place_name,
                second_place_name,
                third_place_name,
                receipts@,
            ),
            r is Err ==> final(self)@.rooms == old(self)@.rooms,
            r is Ok ==> {
                let room = final(self)@.room(room_id);
                &&& room.ended
                &&& room.player_count == room.players.len()
                &&& room.total_pool == room.total_entry_fees + room.total_extras_fees
            },
            !final(self)@.reentrancy_guard,
            final(self)@.wf(),
    {
        self.reentrancy_guard = false;
        let i = self.end_precheck_room(room_id)?;
        proof {
            lemma_room_at(self, i as int);
        }
        let winners = resolve_winner_names(
            &self.rooms[i],
            &first_place_name,
            &second_place_name,
            &third_place_name,
        )?;
        let plan = self.plan_end(i, room_id, &winners)?;
        Self::settle_transfers(&plan, receipts)?;
        self.finish_room(i, room_id, winners);
        Ok(())
    }

    pub fn get_room_config(&self, room_id: u32) -> (r: Option<RoomConfig>)
        requires
            self@.wf(),
        ensures
            match r {
                Some(c) => self@.has_room(room_id) && c@ == self@.room(room_id),
                None => !self@.has_room(room_id),
            },
    {
        match self.find_room(room_id) {
            None => None,
            Some(i) => {
                proof {
                    lemma_room_at(self, i as int);
                }
                Some(self.rooms[i].clone())
            },
        }
    }

    /// The registered players of a room, in joining order; none for an
    /// unknown room.
    pub fn get_room_players(&self, room_id: u32) -> (r: Vec<PlayerEntry>)
        requires
            self@.wf(),
        ensures
            r@ == if self@.has_room(room_id) {
                self@.room(room_id).players
            } else {
                Seq::empty()
            },
    {
        match self.find_room(room_id) {
            None => {
                let v: Vec<PlayerEntry> = Vec::new();
                assert(v@ =~= Seq::<PlayerEntry>::empty());
                v
            },
            Some(i) => {
                proof {
                    lemma_room_at(self, i as int);
                }
                let v = self.rooms[i].players.clone();
                assert(v@ =~= self.rooms@[i as int].players@);
                v
            },
        }
    }

    pub fn get_player_by_screen_name(&self, room_id: u32, screen_name: &String) -> (r: Option<
        Address,
    >)
        requires
            self@.wf(),
        ensures
            r == if self@.has_room(room_id) && self@.room(room_id).has_screen_name(screen_name@) {
                Some(player_named(self@.room(room_id), screen_name@))
            } else {
                None
            },
    {
        match self.find_room(room_id) {
            None => None,
            Some(i) => {
                proof {
                    lemma_room_at(self, i as int);
                }
                let room = &self.rooms[i];
                match find_screen_name(&room.players, screen_name) {
                    None => {
                        assert(!room@.has_screen_name(screen_name@));
                        None
                    },
                    Some(k) => {
                        proof {
                            lemma_player_named(room@, screen_name@, k as int);
                        }
                        Some(room.players[k].player.clone())
                    },
                }
            },
        }
    }

    /// `(total_pool, total_entry_fees, total_extras_fees, expected payouts,
    /// remainder)` of a room: what ending it would pay out in the fee token,
    /// and what would be left, which is nothing.
    pub fn get_room_financials(&self, room_id: u32) -> (r: Option<(i128, i128, i128, i128, i128)>)
        requires
            self@.wf(),
        ensures
            r == if self@.has_room(room_id) && self@.economic_config is Some {
                let room = self@.room(room_id);
                Some((room.total_pool, room.total_entry_fees, room.total_extras_fees, room.total_pool, 0i128))
            } else {
                None
            },
    {
        let i = match self.find_room(room_id) {
            None => {
                return None;
            },
            Some(i) => i,
        };
        proof {
            lemma_room_at(self, i as int);
        }
        let econ = match self.get_economic_config() {
            Err(_) => {
                return None;
            },
            Ok(e) => e,
        };
        let room = &self.rooms[i];
        proof {
            assert(room@.wf());
            assert(split_within_whole(room@, econ));
            crate::distribution::lemma_fee_split_bounds(
                room.total_pool as int,
                econ.platform_fee_bps as int,
                room.charity_bps as int,
                room.host_fee_bps as int,
            );
        }
        let platform_amount = match Self::safe_percentage(room.total_pool, econ.platform_fee_bps) {
            Ok(x) => x,
            Err(_) => {
                return None;
            },
        };
        let charity_amount = match Self::safe_percentage(room.total_pool, room.charity_bps) {
            Ok(x) => x,
            Err(_) => {
                return None;
            },
        };
        let host_amount = match Self::safe_percentage(room.total_pool, room.host_fee_bps) {
            Ok(x) => x,
            Err(_) => {
                return None;
            },
        };
        let total_fees = match Self::safe_add(platform_amount, charity_amount) {
            Ok(x) => match Self::safe_add(x, host_amount) {
                Ok(y) => y,
                Err(_) => {
                    return None;
                },
            },
            Err(_) => {
                return None;
            },
        };
        let prize_amount = room.total_pool - total_fees;
        let total_should_pay = match Self::safe_add(total_fees, prize_amount) {
            Ok(x) => x,
            Err(_) => 0,
        };
        Some(
            (
                room.total_pool,
                room.total_entry_fees,
                room.total_extras_fees,
                total_should_pay,
                room.total_pool - total_should_pay,
            ),
        )
    }
}

} // verus!
