use vstd::prelude::*;

use crate::address::Address;
use crate::math::MAX_AMOUNT;

verus! {

/// How a room pays its winners.
#[derive(Clone, Copy, Debug, PartialEq, Eq, Structural)]
pub enum PrizeMode {
    /// Winners share a percentage of the collected fees.
    PrizePoolSplit,
    /// Winners receive fixed amounts escrowed when the room was created.
    AssetBased,
}

/// A permission held by an address.
#[derive(Clone, Copy, Debug, PartialEq, Eq, Structural)]
pub enum Role {
    Admin,
    Host,
    Player,
    Emergency,
}

/// A fixed prize: `amount` units of the token at `contract_id`.
#[derive(Debug)]
pub struct PrizeAsset {
    pub contract_id: Address,
    pub amount: i128,
}

impl Clone for PrizeAsset {
    fn clone(&self) -> (r: Self)
        ensures
            r == *self,
    {
        PrizeAsset { contract_id: self.contract_id.clone(), amount: self.amount }
    }
}

/// One player's registration in a room.
#[derive(Debug)]
pub struct PlayerEntry {
    pub player: Address,
    pub screen_name: String,
    pub entry_paid: i128,
    pub extras_paid: i128,
    pub total_paid: i128,
    pub join_ledger: u32,
}

impl Clone for PlayerEntry {
    fn clone(&self) -> (r: Self)
        ensures
            r == *self,
    {
        PlayerEntry {
            player: self.player.clone(),
            screen_name: self.screen_name.clone(),
            entry_paid: self.entry_paid,
            extras_paid: self.extras_paid,
            total_paid: self.total_paid,
            join_ledger: self.join_ledger,
        }
    }
}

impl PlayerEntry {
    pub fn player(&self) -> (r: &Address)
        ensures
            *r == self.player,
    {
        &self.player
    }

    pub fn screen_name(&self) -> (r: &String)
        ensures
            *r == self.screen_name,
    {
        &self.screen_name
    }

    pub fn total_paid(&self) -> (r: i128)
        ensures
            r == self.total_paid,
    {
        self.total_paid
    }
}

pub fn clone_address_option(a: &Option<Address>) -> (r: Option<Address>)
    ensures
        r == *a,
{
    match a {
        Some(x) => Some(x.clone()),
        None => None,
    }
}

/// Who administers the contract and where fees go.
#[derive(Debug)]
pub struct AdminConfig {
    pub platform_wallet: Address,
    pub charity_wallet: Address,
    pub admin: Address,
    pub pending_admin: Option<Address>,
}

impl Clone for AdminConfig {
    fn clone(&self) -> (r: Self)
        ensures
            r == *self,
    {
        AdminConfig {
            platform_wallet: self.platform_wallet.clone(),
            charity_wallet: self.charity_wallet.clone(),
            admin: self.admin.clone(),
            pending_admin: clone_address_option(&self.pending_admin),
        }
    }
}

/// Fee bounds, in basis points and token units.
#[derive(Clone, Copy, Debug, PartialEq, Eq, Structural)]
pub struct EconomicConfig {
    pub platform_fee_bps: u32,
    pub min_entry_fee: i128,
    pub max_entry_fee: i128,
    pub max_host_fee_bps: u32,
    pub max_prize_pool_bps: u32,
    pub min_charity_bps: u32,
}

/// Metadata of a token on the allow-list.
#[derive(Debug)]
pub struct TokenInfo {
    pub contract_id: Address,
    pub symbol: String,
    pub name: String,
    pub decimals: u32,
    pub enabled: bool,
}

impl Clone for TokenInfo {
    fn clone(&self) -> (r: Self)
        ensures
            r == *self,
    {
        TokenInfo {
            contract_id: self.contract_id.clone(),
            symbol: self.symbol.clone(),
            name: self.name.clone(),
            decimals: self.decimals,
            enabled: self.enabled,
        }
    }
}

/// Most tokens the allow-list holds.
pub const MAX_APPROVED_TOKENS: u32 = 10;

/// The allow-list of tokens that rooms may use, with its size.
#[derive(Debug)]
pub struct ApprovedTokens {
    pub tokens: Vec<TokenInfo>,
    pub token_count: u32,
}

/// The contents of an [`ApprovedTokens`].
pub struct TokensView {
    pub tokens: Seq<TokenInfo>,
    pub token_count: u32,
}

impl View for ApprovedTokens {
    type V = TokensView;

    open spec fn view(&self) -> TokensView {
        TokensView { tokens: self.tokens@, token_count: self.token_count }
    }
}

impl TokensView {
    /// The count matches the list, the list is within capacity, and no token
    /// appears twice.
    pub open spec fn wf(&self) -> bool {
        &&& self.token_count as int == self.tokens.len()
        &&& self.token_count <= MAX_APPROVED_TOKENS
        &&& forall|i: int, j: int|
            0 <= i < j < self.tokens.len() ==> self.tokens[i].contract_id@
                != self.tokens[j].contract_id@
    }

    pub open spec fn contains(&self, token: Seq<char>) -> bool {
        exists|i: int| 0 <= i < self.tokens.len() && self.tokens[i].contract_id@ == token
    }

    /// A token may be used when it is listed and enabled.
    pub open spec fn approves(&self, token: Seq<char>) -> bool {
        exists|i: int|
            0 <= i < self.tokens.len() && self.tokens[i].contract_id@ == token
                && self.tokens[i].enabled
    }
}

impl Clone for ApprovedTokens {
    fn clone(&self) -> (r: Self)
        ensures
            r@ == self@,
    {
        let tokens = self.tokens.clone();
        assert(tokens@ =~= self.tokens@);
        ApprovedTokens { tokens, token_count: self.token_count }
    }
}

/// One role held by one address.
#[derive(Debug)]
pub struct RoleGrant {
    pub account: Address,
    pub role: Role,
}

impl Clone for RoleGrant {
    fn clone(&self) -> (r: Self)
        ensures
            r == *self,
    {
        RoleGrant { account: self.account.clone(), role: self.role }
    }
}

/// The role table and the contract-wide emergency switch.
#[derive(Debug)]
pub struct AccessControl {
    pub roles: Vec<RoleGrant>,
    pub emergency_pause: bool,
}

/// The contents of an [`AccessControl`].
pub struct AccessView {
    pub roles: Seq<RoleGrant>,
    pub emergency_pause: bool,
}

impl View for AccessControl {
    type V = AccessView;

    open spec fn view(&self) -> AccessView {
        AccessView { roles: self.roles@, emergency_pause: self.emergency_pause }
    }
}

impl AccessView {
    pub open spec fn grants(&self, account: Seq<char>, role: Role) -> bool {
        exists|i: int|
            0 <= i < self.roles.len() && self.roles[i].account@ == account && self.roles[i].role
                == role
    }
}

impl Clone for AccessControl {
    fn clone(&self) -> (r: Self)
        ensures
            r@ == self@,
    {
        let roles = self.roles.clone();
        assert(roles@ =~= self.roles@);
        AccessControl { roles, emergency_pause: self.emergency_pause }
    }
}

/// Sum of a list of whole-number percentages.
pub open spec fn percent_total(s: Seq<u32>) -> int
    decreases s.len(),
{
    if s.len() == 0 {
        0
    } else {
        percent_total(s.drop_last()) + s.last()
    }
}

/// Configuration, registry and running totals of one room.
#[derive(Debug)]
pub struct RoomConfig {
    pub room_id: u32,
    pub host: Address,
    pub fee_token: Address,
    pub entry_fee: i128,
    pub host_fee_bps: u32,
    pub prize_pool_bps: u32,
    pub charity_bps: u32,
    pub prize_mode: PrizeMode,
    pub prize_distribution: Vec<u32>,
    pub prize_assets: Vec<Option<PrizeAsset>>,
    pub ended: bool,
    pub creation_ledger: u32,
    pub host_wallet: Option<Address>,
    pub players: Vec<PlayerEntry>,
    pub player_count: u32,
    pub total_pool: i128,
    pub total_entry_fees: i128,
    pub total_extras_fees: i128,
    pub total_paid_out: i128,
    pub winners: Vec<Address>,
}

/// The contents of a [`RoomConfig`], its lists as sequences.
pub struct RoomView {
    pub room_id: u32,
    pub host: Address,
    pub fee_token: Address,
    pub entry_fee: i128,
    pub host_fee_bps: u32,
    pub prize_pool_bps: u32,
    pub charity_bps: u32,
    pub prize_mode: PrizeMode,
    pub prize_distribution: Seq<u32>,
    pub prize_assets: Seq<Option<PrizeAsset>>,
    pub ended: bool,
    pub creation_ledger: u32,
    pub host_wallet: Option<Address>,
    pub players: Seq<PlayerEntry>,
    pub player_count: u32,
    pub total_pool: i128,
    pub total_entry_fees: i128,
    pub total_extras_fees: i128,
    pub total_paid_out: i128,
    pub winners: Seq<Address>,
}

impl View for RoomConfig {
    type V = RoomView;

    open spec fn view(&self) -> RoomView {
        RoomView {
            room_id: self.room_id,
            host: self.host,
            fee_token: self.fee_token,
            entry_fee: self.entry_fee,
            host_fee_bps: self.host_fee_bps,
            prize_pool_bps: self.prize_pool_bps,
            charity_bps: self.charity_bps,
            prize_mode: self.prize_mode,
            prize_distribution: self.prize_distribution@,
            prize_assets: self.prize_assets@,
            ended: self.ended,
            creation_ledger: self.creation_ledger,
            host_wallet: self.host_wallet,
            players: self.players@,
            player_count: self.player_count,
            total_pool: self.total_pool,
            total_entry_fees: self.total_entry_fees,
            total_extras_fees: self.total_extras_fees,
            total_paid_out: self.total_paid_out,
            winners: self.winners@,
        }
    }
}

impl RoomView {
    pub open spec fn has_player(&self, who: Seq<char>) -> bool {
        exists|i: int| 0 <= i < self.players.len() && self.players[i].player@ == who
    }

    pub open spec fn has_screen_name(&self, name: Seq<char>) -> bool {
        exists|i: int| 0 <= i < self.players.len() && self.players[i].screen_name@ == name
    }

    /// The registry holds no address and no screen name twice.
    pub open spec fn registry_distinct(&self) -> bool {
        forall|i: int, j: int|
            0 <= i < j < self.players.len() ==> {
                &&& self.players[i].player@ != self.players[j].player@
                &&& self.players[i].screen_name@ != self.players[j].screen_name@
            }
    }

    /// The invariants that hold after every operation on a room.
    pub open spec fn wf(&self) -> bool {
        &&& self.player_count as int == self.players.len()
        &&& self.registry_distinct()
        &&& self.total_pool == self.total_entry_fees + self.total_extras_fees
        &&& 0 <= self.entry_fee <= MAX_AMOUNT
        &&& 0 <= self.total_entry_fees
        &&& 0 <= self.total_extras_fees
        &&& self.total_pool <= MAX_AMOUNT
        &&& percent_total(self.prize_distribution) <= 100
        &&& forall|i: int|
            0 <= i < self.prize_distribution.len() ==> self.prize_distribution[i] <= 100
    }
}

impl RoomConfig {
    pub fn host(&self) -> (r: &Address)
        ensures
            *r == self.host,
    {
        &self.host
    }

    pub fn entry_fee(&self) -> (r: i128)
        ensures
            r == self.entry_fee,
    {
        self.entry_fee
    }

    pub fn host_fee_bps(&self) -> (r: u32)
        ensures
            r == self.host_fee_bps,
    {
        self.host_fee_bps
    }

    pub fn prize_pool_bps(&self) -> (r: u32)
        ensures
            r == self.prize_pool_bps,
    {
        self.prize_pool_bps
    }

    pub fn prize_mode(&self) -> (r: &PrizeMode)
        ensures
            *r == self.prize_mode,
    {
        &self.prize_mode
    }

    pub fn ended(&self) -> (r: bool)
        ensures
            r == self.ended,
    {
        self.ended
    }

    pub fn player_count(&self) -> (r: u32)
        ensures
            r == self.player_count,
    {
        self.player_count
    }

    pub fn total_pool(&self) -> (r: i128)
        ensures
            r == self.total_pool,
    {
        self.total_pool
    }

    pub fn winners(&self) -> (r: &Vec<Address>)
        ensures
            r@ == self.winners@,
    {
        &self.winners
    }
}

impl Clone for RoomConfig {
    fn clone(&self) -> (r: Self)
        ensures
            r@ == self@,
    {
        let prize_distribution = self.prize_distribution.clone();
        assert(prize_distribution@ =~= self.prize_distribution@);
        let prize_assets = self.prize_assets.clone();
        assert(prize_assets@ =~= self.prize_assets@);
        let players = self.players.clone();
        assert(players@ =~= self.players@);
        let winners = self.winners.clone();
        assert(winners@ =~= self.winners@);
        RoomConfig {
            room_id: self.room_id,
            host: self.host.clone(),
            fee_token: self.fee_token.clone(),
            entry_fee: self.entry_fee,
            host_fee_bps: self.host_fee_bps,
            prize_pool_bps: self.prize_pool_bps,
            charity_bps: self.charity_bps,
            prize_mode: self.prize_mode,
            prize_distribution,
            prize_assets,
            ended: self.ended,
            creation_ledger: self.creation_ledger,
            host_wallet: clone_address_option(&self.host_wallet),
            players,
            player_count: self.player_count,
            total_pool: self.total_pool,
            total_entry_fees: self.total_entry_fees,
            total_extras_fees: self.total_extras_fees,
            total_paid_out: self.total_paid_out,
            winners,
        }
    }
}

} // verus!
