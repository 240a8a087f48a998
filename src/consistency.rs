use vstd::prelude::*;

use crate::contract::{default_economics, QuizRoomContract};
use crate::math::MAX_AMOUNT;
use crate::types::{percent_total, ApprovedTokens, RoomConfig, MAX_APPROVED_TOKENS};

verus! {

fn tokens_consistent(t: &ApprovedTokens) -> (r: bool)
    ensures
        r ==> t@.wf(),
{
    if t.token_count > MAX_APPROVED_TOKENS || t.token_count as usize != t.tokens.len() {
        return false;
    }
    let n = t.tokens.len();
    let mut j: usize = 0;
    while j < n
        invariant
            n == t.tokens@.len(),
            j <= n,
            forall|a: int, b: int|
                0 <= a < b < j ==> t.tokens@[a].contract_id@ != t.tokens@[b].contract_id@,
        decreases n - j,
    {
        let mut i: usize = 0;
        while i < j
            invariant
                n == t.tokens@.len(),
                i <= j < n,
                forall|a: int| 0 <= a < i ==> t.tokens@[a].contract_id@ != t.tokens@[j as int].contract_id@,
            decreases j - i,
        {
            if t.tokens[i].contract_id.same_as(&t.tokens[j].contract_id) {
                return false;
            }
            i += 1;
        }
        j += 1;
    }
    true
}

fn distribution_consistent(d: &Vec<u32>) -> (r: bool)
    ensures
        r ==> percent_total(d@) <= 100 && forall|i: int| 0 <= i < d@.len() ==> d@[i] <= 100,
{
    let mut total: u64 = 0;
    let mut i: usize = 0;
    assert(d@.take(0) =~= Seq::<u32>::empty());
    while i < d.len()
        invariant
            i <= d@.len(),
            total == percent_total(d@.take(i as int)),
            total <= 100,
            forall|k: int| 0 <= k < i ==> d@[k] <= 100,
        decreases d@.len() - i,
    {
        if d[i] > 100 {
            return false;
        }
        assert(d@.take(i + 1).drop_last() =~= d@.take(i as int));
        total = total + d[i] as u64;
        if total > 100 {
            return false;
        }
        i += 1;
    }
    assert(d@.take(i as int) =~= d@);
    true
}

fn room_consistent(room: &RoomConfig) -> (r: bool)
    ensures
        r ==> room@.wf(),
{
    if room.player_count as usize != room.players.len() {
        return false;
    }
    if room.total_entry_fees < 0 || room.total_extras_fees < 0 || room.entry_fee < 0
        || room.entry_fee > MAX_AMOUNT || room.total_entry_fees > MAX_AMOUNT
        || room.total_extras_fees > MAX_AMOUNT {
        return false;
    }
    if room.total_entry_fees + room.total_extras_fees != room.total_pool || room.total_pool
        > MAX_AMOUNT {
        return false;
    }
    if !distribution_consistent(&room.prize_distribution) {
        return false;
    }
    let n = room.players.len();
    let mut j: usize = 0;
    while j < n
        invariant
            n == room.players@.len(),
            j <= n,
            forall|a: int, b: int|
                0 <= a < b < j ==> {
                    &&& room.players@[a].player@ != room.players@[b].player@
                    &&& room.players@[a].screen_name@ != room.players@[b].screen_name@
                },
        decreases n - j,
    {
        let mut i: usize = 0;
        while i < j
            invariant
                n == room.players@.len(),
                i <= j < n,
                forall|a: int|
                    0 <= a < i ==> {
                        &&& room.players@[a].player@ != room.players@[j as int].player@
                        &&& room.players@[a].screen_name@ != room.players@[j as int].screen_name@
                    },
            decreases j - i,
        {
            if room.players[i].player.same_as(&room.players[j].player) || room.players[i].screen_name
                == room.players[j].screen_name {
                return false;
            }
            i += 1;
        }
        j += 1;
    }
    true
}

impl QuizRoomContract {
    /// Checks the invariants that every operation assumes, for a state
    /// assembled from outside (read back from storage, say).
    pub fn is_consistent(&self) -> (r: bool)
        ensures
            r ==> self@.wf(),
    {
        if self.admin_config.is_none() && (self.rooms.len() > 0 || self.economic_config.is_some()) {
            return false;
        }
        if let Some(e) = &self.economic_config {
            if e.platform_fee_bps != 2000 || e.min_entry_fee != 1000000 || e.max_entry_fee
                != 10000000000 || e.max_host_fee_bps != 500 || e.max_prize_pool_bps != 2500
                || e.min_charity_bps != 5000 {
                return false;
            }
            assert(*e == default_economics());
        }
        if let Some(t) = &self.approved_tokens {
            if !tokens_consistent(t) {
                return false;
            }
        }
        let platform_bps: u64 = match &self.economic_config {
            Some(e) => e.platform_fee_bps as u64,
            None => 0,
        };
        let n = self.rooms.len();
        let mut j: usize = 0;
        while j < n
            invariant
                n == self.rooms@.len(),
                j <= n,
                platform_bps == match self.economic_config {
                    Some(e) => e.platform_fee_bps as u64,
                    None => 0,
                },
                forall|a: int| 0 <= a < j ==> (#[trigger] self@.rooms[a]).wf(),
                forall|a: int|
                    0 <= a < j ==> platform_bps + (#[trigger] self@.rooms[a]).charity_bps
                        + self@.rooms[a].host_fee_bps <= 10000,
                forall|a: int, b: int|
                    0 <= a < b < j ==> self@.rooms[a].room_id != self@.rooms[b].room_id,
            decreases n - j,
        {
            let room = &self.rooms[j];
            assert(self@.rooms[j as int] == room@);
            if !room_consistent(room) {
                return false;
            }
            if platform_bps + room.charity_bps as u64 + room.host_fee_bps as u64 > 10000 {
                return false;
            }
            let mut i: usize = 0;
            while i < j
                invariant
                    n == self.rooms@.len(),
                    i <= j < n,
                    forall|a: int| 0 <= a < i ==> self@.rooms[a].room_id != self@.rooms[j as int].room_id,
                decreases j - i,
            {
                if self.rooms[i].room_id == self.rooms[j].room_id {
                    return false;
                }
                i += 1;
            }
            j += 1;
        }
        true
    }
}

} // verus!
