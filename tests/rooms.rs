use std::collections::HashMap;

use quiz::{
    Address, PrizeAsset, QuizError, QuizRoomContract, Transfer, TransferReceipt,
};

/// A token service for the tests: balances per (token, account), and a set of
/// token contracts that answer a decimals probe.
#[derive(Clone)]
struct Ledger {
    balances: HashMap<(String, String), i128>,
    tokens: Vec<String>,
    next: u64,
}

impl Ledger {
    fn new() -> Ledger {
        Ledger { balances: HashMap::new(), tokens: Vec::new(), next: 0 }
    }

    fn generate(&mut self) -> Address {
        self.next += 1;
        Address::new(format!("GACCOUNT{:08}", self.next))
    }

    fn create_token(&mut self) -> Address {
        self.next += 1;
        let key = format!("CTOKEN{:08}", self.next);
        self.tokens.push(key.clone());
        Address::new(key)
    }

    fn decimals(&self, token: &Address) -> Option<u32> {
        if self.tokens.contains(&token.key) {
            Some(7)
        } else {
            None
        }
    }

    fn balance(&self, token: &Address, who: &Address) -> i128 {
        *self.balances.get(&(token.key.clone(), who.key.clone())).unwrap_or(&0)
    }

    fn mint(&mut self, token: &Address, who: &Address, amount: i128) {
        let b = self.balance(token, who);
        self.balances.insert((token.key.clone(), who.key.clone()), b + amount);
    }

    /// Carries out `t` as a token contract would, recording the balances seen
    /// around it.
    fn execute(&mut self, t: &Transfer) -> TransferReceipt {
        let from_before = self.balance(&t.token, &t.from);
        let to_before = self.balance(&t.token, &t.to);
        let mut completed = false;
        if QuizRoomContract::check_transfer(t, from_before).is_ok()
            && self.tokens.contains(&t.token.key)
        {
            self.balances.insert((t.token.key.clone(), t.from.key.clone()), from_before - t.amount);
            let to_now = self.balance(&t.token, &t.to);
            self.balances.insert((t.token.key.clone(), t.to.key.clone()), to_now + t.amount);
            completed = true;
        }
        TransferReceipt {
            from_balance_before: from_before,
            to_balance_before: to_before,
            completed,
            from_balance_after: self.balance(&t.token, &t.from),
            to_balance_after: self.balance(&t.token, &t.to),
        }
    }

    /// Carries out transfers in order, stopping at the first that fails.
    fn execute_all(&mut self, plan: &Vec<Transfer>) -> Vec<TransferReceipt> {
        let mut receipts = Vec::new();
        for t in plan {
            let r = self.execute(t);
            let ok = QuizRoomContract::transfer_token(t, &r).is_ok();
            receipts.push(r);
            if !ok {
                break;
            }
        }
        receipts
    }
}

/// A contract instance on a ledger. A failed call leaves the ledger as it was,
/// as a failed transaction does.
struct Env {
    ledger: Ledger,
    quiz: QuizRoomContract,
    contract: Address,
    sequence: u32,
}

impl Env {
    fn new() -> Env {
        let mut ledger = Ledger::new();
        let contract = ledger.generate();
        Env { ledger, quiz: QuizRoomContract::new(contract.clone()), contract, sequence: 1 }
    }

    fn add_token(&mut self, token: &Address, symbol: &str, name: &str) -> Result<(), QuizError> {
        let decimals = self.ledger.decimals(token);
        self.quiz.add_approved_token(token.clone(), symbol.to_string(), name.to_string(), decimals)
    }

    fn pool_room(
        &mut self,
        room_id: u32,
        host: &Address,
        token: &Address,
        entry_fee: i128,
        host_fee_bps: Option<u32>,
        prize_pool_bps: u32,
        first: u32,
        second: Option<u32>,
        third: Option<u32>,
    ) -> Result<(), QuizError> {
        self.quiz.init_pool_room(
            room_id,
            host.clone(),
            token.clone(),
            entry_fee,
            host_fee_bps,
            prize_pool_bps,
            first,
            second,
            third,
            self.sequence,
        )
    }

    fn asset_room(
        &mut self,
        room_id: u32,
        host: &Address,
        token: &Address,
        entry_fee: i128,
        host_fee_bps: Option<u32>,
        prizes: Vec<PrizeAsset>,
    ) -> Result<(), QuizError> {
        let saved = self.ledger.clone();
        let plan =
            self.quiz.asset_room_escrow(room_id, host, token, entry_fee, host_fee_bps, &prizes)?;
        let receipts = self.ledger.execute_all(&plan);
        let r = self.quiz.init_asset_room(
            room_id,
            host.clone(),
            token.clone(),
            entry_fee,
            host_fee_bps,
            prizes,
            self.sequence,
            &receipts,
        );
        if r.is_err() {
            self.ledger = saved;
        }
        r
    }

    fn join(&mut self, room_id: u32, player: &Address, name: &str, extras: i128) -> Result<(), QuizError> {
        let saved = self.ledger.clone();
        let name = name.to_string();
        let t = self.quiz.join_payment(room_id, player, &name, extras)?;
        let receipt = self.ledger.execute(&t);
        let r = self.quiz.join_room(room_id, player.clone(), name, extras, self.sequence, &receipt);
        if r.is_err() {
            self.ledger = saved;
        }
        r
    }

    fn end_room(
        &mut self,
        room_id: u32,
        first: Option<Address>,
        second: Option<Address>,
        third: Option<Address>,
    ) -> Result<(), QuizError> {
        let saved = self.ledger.clone();
        let plan = self.quiz.prepare_end_room(room_id, &first, &second, &third)?;
        let receipts = self.ledger.execute_all(&plan);
        let r = self.quiz.end_room(room_id, first, second, third, &receipts);
        if r.is_err() {
            self.ledger = saved;
        }
        r
    }

    fn end_room_by_names(
        &mut self,
        room_id: u32,
        first: Option<&str>,
        second: Option<&str>,
        third: Option<&str>,
    ) -> Result<(), QuizError> {
        let saved = self.ledger.clone();
        let first = first.map(|s| s.to_string());
        let second = second.map(|s| s.to_string());
        let third = third.map(|s| s.to_string());
        let plan = self.quiz.prepare_end_room_by_screen_names(room_id, &first, &second, &third)?;
        let receipts = self.ledger.execute_all(&plan);
        let r = self.quiz.end_room_by_screen_names(room_id, first, second, third, &receipts);
        if r.is_err() {
            self.ledger = saved;
        }
        r
    }
}

/// An initialised contract with three approved tokens; returns the admin, the
/// platform wallet and the tokens.
fn initialize_contract_with_tokens(e: &mut Env) -> (Address, Address, Vec<Address>) {
    let admin = e.ledger.generate();
    let platform_wallet = e.ledger.generate();
    let charity_wallet = e.ledger.generate();
    e.quiz.initialize(admin.clone(), platform_wallet.clone(), charity_wallet).unwrap();
    let t1 = e.ledger.create_token();
    let t2 = e.ledger.create_token();
    let t3 = e.ledger.create_token();
    e.add_token(&t1, "USDC", "USD Coin").unwrap();
    e.add_token(&t2, "XLM", "Stellar Lumens").unwrap();
    e.add_token(&t3, "EURC", "Euro Coin").unwrap();
    (admin, platform_wallet, vec![t1, t2, t3])
}

fn mint_tokens_for_users(e: &mut Env, token: &Address, users: &[Address], amount: i128) {
    for u in users {
        e.ledger.mint(token, u, amount);
    }
}

fn charity_of(e: &Env) -> Address {
    e.quiz.get_charity_wallet().unwrap()
}

#[test]
fn test_contract_initialization() {
    let mut e = Env::new();
    let admin = e.ledger.generate();
    let platform_wallet = e.ledger.generate();
    let charity_wallet = e.ledger.generate();
    e.quiz.initialize(admin.clone(), platform_wallet.clone(), charity_wallet.clone()).unwrap();
    assert_eq!(e.quiz.get_platform_wallet().unwrap(), platform_wallet);
    assert_eq!(e.quiz.get_charity_wallet().unwrap(), charity_wallet);
    let result = e.quiz.initialize(admin, platform_wallet, charity_wallet);
    assert!(result.is_err());
}

#[test]
fn test_token_management() {
    let mut e = Env::new();
    initialize_contract_with_tokens(&mut e);
    let approved_tokens = e.quiz.get_approved_tokens_list();
    assert_eq!(approved_tokens.len(), 3);
    let token_address = approved_tokens.get(0).unwrap().contract_id.clone();
    assert!(e.quiz.is_token_approved(&token_address));
    let result = e.add_token(&token_address, "USDC", "USD Coin");
    assert!(result.is_err());
    e.quiz.remove_approved_token(&token_address).unwrap();
    assert!(!e.quiz.is_token_approved(&token_address));
    let updated_tokens = e.quiz.get_approved_tokens_list();
    assert_eq!(updated_tokens.len(), 2);
}

#[test]
fn test_emergency_controls() {
    let mut e = Env::new();
    initialize_contract_with_tokens(&mut e);
    assert!(!e.quiz.is_emergency_paused());
    e.quiz.emergency_pause().unwrap();
    assert!(e.quiz.is_emergency_paused());
    let host = e.ledger.generate();
    let token_address = e.quiz.get_approved_tokens_list().get(0).unwrap().contract_id.clone();
    let result = e.pool_room(1, &host, &token_address, 1000000, Some(250), 2000, 60, Some(30), Some(10));
    assert!(result.is_err());
    e.quiz.emergency_unpause().unwrap();
    assert!(!e.quiz.is_emergency_paused());
}

#[test]
fn test_pool_room_creation() {
    let mut e = Env::new();
    let (_, _, tokens) = initialize_contract_with_tokens(&mut e);
    let host = e.ledger.generate();
    let token_address = tokens[0].clone();
    e.pool_room(1, &host, &token_address, 1000000, Some(250), 2000, 60, Some(30), Some(10)).unwrap();
    let room_config = e.quiz.get_room_config(1).unwrap();
    assert_eq!(room_config.host(), &host);
    assert_eq!(room_config.entry_fee(), 1000000);
    assert_eq!(room_config.host_fee_bps(), 250);
    assert_eq!(room_config.prize_pool_bps(), 2000);
    assert!(!room_config.ended());
    assert_eq!(room_config.player_count(), 0);
}

#[test]
fn test_pool_room_creation_validation() {
    let mut e = Env::new();
    let (_, _, tokens) = initialize_contract_with_tokens(&mut e);
    let host = e.ledger.generate();
    let token_address = tokens[0].clone();
    let result = e.pool_room(1, &host, &token_address, 1000000, Some(600), 2000, 60, Some(30), Some(10));
    assert!(result.is_err());
    let result = e.pool_room(2, &host, &token_address, 1000000, Some(250), 2600, 60, Some(30), Some(10));
    assert!(result.is_err());
    let result = e.pool_room(3, &host, &token_address, 1000000, Some(250), 2000, 60, Some(30), Some(20));
    assert!(result.is_err());
    let invalid_token = e.ledger.generate();
    let result = e.pool_room(4, &host, &invalid_token, 1000000, Some(250), 2000, 60, Some(30), Some(10));
    assert!(result.is_err());
}

#[test]
fn test_asset_room_creation() {
    let mut e = Env::new();
    let (_, _, tokens) = initialize_contract_with_tokens(&mut e);
    let host = e.ledger.generate();
    let token_address = tokens[0].clone();
    let prize_token_address = tokens[1].clone();
    mint_tokens_for_users(&mut e, &prize_token_address, &[host.clone()], 1000000000);
    let prizes = vec![
        PrizeAsset { contract_id: prize_token_address.clone(), amount: 50000000 },
        PrizeAsset { contract_id: prize_token_address.clone(), amount: 30000000 },
        PrizeAsset { contract_id: prize_token_address.clone(), amount: 20000000 },
    ];
    e.asset_room(1, &host, &token_address, 2000000, Some(300), prizes).unwrap();
    let room_config = e.quiz.get_room_config(1).unwrap();
    assert_eq!(room_config.host(), &host);
    assert_eq!(room_config.entry_fee(), 2000000);
    assert_eq!(room_config.host_fee_bps(), 300);
    assert!(!room_config.ended());
    let contract_balance = e.ledger.balance(&prize_token_address, &e.contract);
    assert_eq!(contract_balance, 100000000);
}

#[test]
fn test_player_joining() {
    let mut e = Env::new();
    let (_, _, tokens) = initialize_contract_with_tokens(&mut e);
    let host = e.ledger.generate();
    let player1 = e.ledger.generate();
    let player2 = e.ledger.generate();
    let token_address = tokens[0].clone();
    mint_tokens_for_users(&mut e, &token_address, &[player1.clone(), player2.clone()], 10000000);
    e.pool_room(1, &host, &token_address, 1000000, Some(250), 2000, 60, Some(30), Some(10)).unwrap();
    e.join(1, &player1, "Player1", 500000).unwrap();
    e.join(1, &player2, "Player2", 0).unwrap();
    let room_config = e.quiz.get_room_config(1).unwrap();
    assert_eq!(room_config.player_count(), 2);
    assert_eq!(room_config.total_pool(), 2500000);
    let players = e.quiz.get_room_players(1);
    assert_eq!(players.len(), 2);
    let player1_addr = e.quiz.get_player_by_screen_name(1, &"Player1".to_string());
    assert_eq!(player1_addr, Some(player1));
}

#[test]
fn test_player_joining_validation() {
    let mut e = Env::new();
    let (_, _, tokens) = initialize_contract_with_tokens(&mut e);
    let host = e.ledger.generate();
    let player1 = e.ledger.generate();
    let player2 = e.ledger.generate();
    let token_address = tokens[0].clone();
    mint_tokens_for_users(&mut e, &token_address, &[player1.clone(), player2.clone()], 10000000);
    e.pool_room(1, &host, &token_address, 1000000, Some(250), 2000, 100, None, None).unwrap();
    e.join(1, &player1, "Player1", 0).unwrap();
    let result = e.join(1, &player1, "NewName", 0);
    assert!(result.is_err());
    let result = e.join(1, &player2, "Player1", 0);
    assert!(result.is_err());
    let result = e.join(1, &player2, "ThisNameIsTooLongForValidation", 0);
    assert!(result.is_err());
    let result = e.join(1, &player2, "", 0);
    assert!(result.is_err());
}

#[test]
fn test_room_completion_with_winners() {
    let mut e = Env::new();
    let (_, platform_wallet, tokens) = initialize_contract_with_tokens(&mut e);
    let host = e.ledger.generate();
    let player1 = e.ledger.generate();
    let player2 = e.ledger.generate();
    let player3 = e.ledger.generate();
    let token_address = tokens[0].clone();
    let players = [player1.clone(), player2.clone(), player3.clone()];
    mint_tokens_for_users(&mut e, &token_address, &players, 10000000);
    e.pool_room(1, &host, &token_address, 1000000, Some(200), 2000, 50, Some(30), Some(20)).unwrap();
    e.join(1, &player1, "Winner", 0).unwrap();
    e.join(1, &player2, "Second", 500000).unwrap();
    e.join(1, &player3, "Third", 250000).unwrap();
    let initial_platform_balance = e.ledger.balance(&token_address, &platform_wallet);
    e.end_room(1, Some(player1.clone()), Some(player2.clone()), Some(player3.clone())).unwrap();
    let room_config = e.quiz.get_room_config(1).unwrap();
    assert!(room_config.ended());
    assert_eq!(room_config.winners().len(), 3);
    assert_eq!(room_config.winners().get(0).unwrap(), &player1);
    let final_contract_balance = e.ledger.balance(&token_address, &e.contract);
    let final_platform_balance = e.ledger.balance(&token_address, &platform_wallet);
    assert_eq!(final_contract_balance, 0);
    assert!(final_platform_balance > initial_platform_balance);
}

#[test]
fn test_room_completion_by_screen_names() {
    let mut e = Env::new();
    let (_, _, tokens) = initialize_contract_with_tokens(&mut e);
    let host = e.ledger.generate();
    let player1 = e.ledger.generate();
    let player2 = e.ledger.generate();
    let token_address = tokens[0].clone();
    mint_tokens_for_users(&mut e, &token_address, &[player1.clone(), player2.clone()], 10000000);
    e.pool_room(1, &host, &token_address, 1000000, None, 2000, 70, Some(30), None).unwrap();
    e.join(1, &player1, "Champion", 0).unwrap();
    e.join(1, &player2, "Runner", 0).unwrap();
    e.end_room_by_names(1, Some("Champion"), Some("Runner"), None).unwrap();
    let room_config = e.quiz.get_room_config(1).unwrap();
    assert!(room_config.ended());
    assert_eq!(room_config.winners().get(0).unwrap(), &player1);
    assert_eq!(room_config.winners().get(1).unwrap(), &player2);
}

#[test]
fn test_room_completion_validation() {
    let mut e = Env::new();
    let (_, _, tokens) = initialize_contract_with_tokens(&mut e);
    let host = e.ledger.generate();
    let player1 = e.ledger.generate();
    let token_address = tokens[0].clone();
    e.pool_room(1, &host, &token_address, 1000000, None, 2000, 100, None, None).unwrap();
    let result = e.end_room(1, None, None, None);
    assert!(result.is_err());
    mint_tokens_for_users(&mut e, &token_address, &[player1.clone()], 10000000);
    e.join(1, &player1, "Player1", 0).unwrap();
    let fake_winner = e.ledger.generate();
    let result = e.end_room(1, Some(fake_winner), None, None);
    assert!(result.is_err());
    e.end_room(1, Some(player1.clone()), None, None).unwrap();
    let result = e.end_room(1, Some(player1.clone()), None, None);
    assert!(result.is_err());
}

#[test]
fn test_financial_calculations() {
    let mut e = Env::new();
    let (_, _, tokens) = initialize_contract_with_tokens(&mut e);
    let host = e.ledger.generate();
    let token_address = tokens[0].clone();
    e.pool_room(1, &host, &token_address, 10000000, Some(500), 2500, 100, None, None).unwrap();
    let players = [e.ledger.generate(), e.ledger.generate(), e.ledger.generate()];
    mint_tokens_for_users(&mut e, &token_address, &players, 50000000);
    e.join(1, &players[0], "P1", 1000000).unwrap();
    e.join(1, &players[1], "P2", 2000000).unwrap();
    e.join(1, &players[2], "P3", 0).unwrap();
    let financials = e.quiz.get_room_financials(1).unwrap();
    let (total_pool, entry_fees, extras_fees, expected_payouts, remainder) = financials;
    assert_eq!(total_pool, 33000000);
    assert_eq!(entry_fees, 30000000);
    assert_eq!(extras_fees, 3000000);
    let expected_total = 6600000 + 1650000 + 8250000 + 16500000;
    assert_eq!(expected_payouts, expected_total);
    assert_eq!(remainder, 0);
}

#[test]
fn test_edge_cases() {
    let mut e = Env::new();
    let (_, _, tokens) = initialize_contract_with_tokens(&mut e);
    let host = e.ledger.generate();
    let token_address = tokens[0].clone();
    let min_entry_fee = 1000000;
    e.pool_room(1, &host, &token_address, min_entry_fee, None, 0, 100, None, None).unwrap();
    e.pool_room(2, &host, &token_address, min_entry_fee, None, 0, 100, None, None).unwrap();
    e.pool_room(3, &host, &token_address, min_entry_fee, Some(500), 2500, 100, None, None).unwrap();
    let player = e.ledger.generate();
    mint_tokens_for_users(&mut e, &token_address, &[player.clone()], 10000000);
    e.join(1, &player, "Solo", 0).unwrap();
    e.end_room(1, Some(player), None, None).unwrap();
}

#[test]
fn test_extreme_edge_cases() {
    let mut e = Env::new();
    let admin = e.ledger.generate();
    let platform_wallet = e.ledger.generate();
    let charity_wallet = e.ledger.generate();
    e.quiz.initialize(admin, platform_wallet, charity_wallet).unwrap();
    let token_address = e.ledger.create_token();
    e.add_token(&token_address, "TEST", "Test Token").unwrap();
    let host = e.ledger.generate();
    let min_fee = 1000000;
    e.pool_room(1, &host, &token_address, min_fee, None, 0, 100, None, None).unwrap();
    let player = e.ledger.generate();
    mint_tokens_for_users(&mut e, &token_address, &[player.clone()], 10000000);
    e.join(1, &player, "Solo", 0).unwrap();
    e.end_room(1, Some(player), None, None).unwrap();
}

#[test]
fn token_disable_blocks_new_rooms() {
    let mut e = Env::new();
    let (_, _, tokens) = initialize_contract_with_tokens(&mut e);
    let host = e.ledger.generate();
    let token = tokens[0].clone();
    e.quiz.enable_disable_token(&token, false).unwrap();
    assert_eq!(e.quiz.get_approved_tokens_list().len(), 2);
    assert!(!e.quiz.is_token_approved(&token));
    let r = e.pool_room(1, &host, &token, 1_000_000, None, 2000, 100, None, None);
    assert!(r.is_err());
}

#[test]
fn join_insufficient_balance() {
    let mut e = Env::new();
    let (_, _, tokens) = initialize_contract_with_tokens(&mut e);
    let host = e.ledger.generate();
    let player = e.ledger.generate();
    let token = tokens[0].clone();
    e.pool_room(1, &host, &token, 1_000_000, None, 2000, 100, None, None).unwrap();
    mint_tokens_for_users(&mut e, &token, &[player.clone()], 900_000);
    let r = e.join(1, &player, "P", 0);
    assert!(r.is_err());
}

#[test]
fn rounding_remainder_goes_to_charity() {
    let mut e = Env::new();
    let (_, charity, tokens) = initialize_contract_with_tokens(&mut e);
    let host = e.ledger.generate();
    let p = e.ledger.generate();
    let token = tokens[0].clone();
    e.pool_room(1, &host, &token, 1_000_001, Some(123), 2000, 100, None, None).unwrap();
    mint_tokens_for_users(&mut e, &token, &[p.clone()], 1_000_001);
    e.join(1, &p, "P", 0).unwrap();
    let charity_before = e.ledger.balance(&token, &charity);
    e.end_room(1, Some(p), None, None).unwrap();
    assert_eq!(e.ledger.balance(&token, &e.contract), 0);
    let charity_after = e.ledger.balance(&token, &charity);
    assert!(charity_after > charity_before);
}

#[test]
fn add_invalid_token_fails() {
    let mut e = Env::new();
    initialize_contract_with_tokens(&mut e);
    let bogus = e.ledger.generate();
    let r = e.add_token(&bogus, "BOGUS", "NotAToken");
    assert!(r.is_err());
}

#[test]
fn atomic_update_rolls_back_on_error() {
    let mut e = Env::new();
    let (_, _, tokens) = initialize_contract_with_tokens(&mut e);
    let host = e.ledger.generate();
    let a = e.ledger.generate();
    let b = e.ledger.generate();
    let token = tokens[0].clone();
    mint_tokens_for_users(&mut e, &token, &[a.clone(), b.clone()], 2_000_000);
    e.pool_room(1, &host, &token, 1_000_000, None, 2000, 100, None, None).unwrap();
    e.join(1, &a, "Dup", 0).unwrap();
    let r = e.join(1, &b, "Dup", 0);
    assert!(r.is_err());
    let cfg = e.quiz.get_room_config(1).unwrap();
    assert_eq!(cfg.player_count(), 1);
    assert_eq!(cfg.total_pool(), 1_000_000);
}

#[test]
fn paused_blocks_join_and_end() {
    let mut e = Env::new();
    let (_, _, tokens) = initialize_contract_with_tokens(&mut e);
    let host = e.ledger.generate();
    let p = e.ledger.generate();
    let t = tokens[0].clone();
    mint_tokens_for_users(&mut e, &t, &[p.clone()], 2_000_000);
    e.pool_room(1, &host, &t, 1_000_000, None, 2000, 100, None, None).unwrap();
    e.quiz.emergency_pause().unwrap();
    let r1 = e.join(1, &p, "P", 0);
    assert!(r1.is_err());
    let r2 = e.end_room(1, Some(p.clone()), None, None);
    assert!(r2.is_err());
    e.quiz.emergency_unpause().unwrap();
    e.join(1, &p, "P", 0).unwrap();
}

#[test]
fn test_contract_registration() {
    let mut e = Env::new();
    let id = e.ledger.generate();
    let quiz = QuizRoomContract::new(id.clone());
    assert_eq!(quiz.contract_address, id);
    assert!(!e.quiz.is_emergency_paused());
}

#[test]
fn test_basic_initialization() {
    let mut e = Env::new();
    let admin = e.ledger.generate();
    let platform = e.ledger.generate();
    let charity = e.ledger.generate();
    e.quiz.initialize(admin, platform.clone(), charity.clone()).unwrap();
    assert_eq!(e.quiz.get_platform_wallet().unwrap(), platform);
    assert_eq!(e.quiz.get_charity_wallet().unwrap(), charity);
}

#[test]
fn test_cannot_initialize_twice() {
    let mut e = Env::new();
    let admin = e.ledger.generate();
    let platform = e.ledger.generate();
    let charity = e.ledger.generate();
    e.quiz.initialize(admin.clone(), platform.clone(), charity.clone()).unwrap();
    let res = e.quiz.initialize(admin, platform, charity);
    assert!(res.is_err());
}

// Scenarios and laws on concrete values.

#[test]
fn scenario_pool_room_financials() {
    let mut e = Env::new();
    let (_, _, tokens) = initialize_contract_with_tokens(&mut e);
    let host = e.ledger.generate();
    let token = tokens[0].clone();
    e.pool_room(7, &host, &token, 10_000_000, Some(500), 2500, 100, None, None).unwrap();
    let players = [e.ledger.generate(), e.ledger.generate(), e.ledger.generate()];
    mint_tokens_for_users(&mut e, &token, &players, 50_000_000);
    e.join(7, &players[0], "A", 1_000_000).unwrap();
    e.join(7, &players[1], "B", 2_000_000).unwrap();
    e.join(7, &players[2], "C", 0).unwrap();
    assert_eq!(e.quiz.get_room_config(7).unwrap().total_pool(), 33_000_000);
    assert_eq!(
        e.quiz.get_room_financials(7),
        Some((33_000_000, 30_000_000, 3_000_000, 33_000_000, 0))
    );
    assert_eq!(e.quiz.get_room_financials(8), None);
}

#[test]
fn scenario_asset_room_escrow_before_joins() {
    let mut e = Env::new();
    let (_, _, tokens) = initialize_contract_with_tokens(&mut e);
    let host = e.ledger.generate();
    let prize_token = tokens[2].clone();
    mint_tokens_for_users(&mut e, &prize_token, &[host.clone()], 1_000);
    let prizes = vec![
        PrizeAsset { contract_id: prize_token.clone(), amount: 300 },
        PrizeAsset { contract_id: prize_token.clone(), amount: 200 },
        PrizeAsset { contract_id: prize_token.clone(), amount: 100 },
    ];
    e.asset_room(3, &host, &tokens[0], 2_000_000, None, prizes).unwrap();
    assert_eq!(e.ledger.balance(&prize_token, &e.contract), 600);
    assert_eq!(e.ledger.balance(&prize_token, &host), 400);
    assert_eq!(e.quiz.get_room_config(3).unwrap().player_count(), 0);
}

#[test]
fn scenario_pause_then_unpause() {
    let mut e = Env::new();
    let (_, _, tokens) = initialize_contract_with_tokens(&mut e);
    let host = e.ledger.generate();
    let p = e.ledger.generate();
    let q = e.ledger.generate();
    let t = tokens[0].clone();
    mint_tokens_for_users(&mut e, &t, &[p.clone(), q.clone()], 2_000_000);
    e.pool_room(1, &host, &t, 1_000_000, None, 2000, 100, None, None).unwrap();
    e.join(1, &q, "Q", 0).unwrap();
    e.quiz.emergency_pause().unwrap();
    assert_eq!(e.join(1, &p, "P", 0), Err(QuizError::EmergencyPause));
    assert_eq!(e.end_room(1, Some(q.clone()), None, None), Err(QuizError::EmergencyPause));
    e.quiz.emergency_unpause().unwrap();
    assert_eq!(e.join(1, &p, "P", 0), Ok(()));
    assert_eq!(e.quiz.get_room_config(1).unwrap().player_count(), 2);
}

#[test]
fn scenario_truncation_dust_to_charity() {
    let mut e = Env::new();
    let (_, platform, tokens) = initialize_contract_with_tokens(&mut e);
    let charity = charity_of(&e);
    let host = e.ledger.generate();
    let token = tokens[0].clone();
    let players = [e.ledger.generate(), e.ledger.generate(), e.ledger.generate()];
    // Pool 3_000_003: platform 2000 bps = 600_000, charity 6000 bps = 1_800_001,
    // prize 600_002 split 50/30/20 = 300_001 + 180_000 + 120_000, remainder 1.
    e.pool_room(1, &host, &token, 1_000_001, None, 2000, 50, Some(30), Some(20)).unwrap();
    mint_tokens_for_users(&mut e, &token, &players, 1_000_001);
    e.join(1, &players[0], "A", 0).unwrap();
    e.join(1, &players[1], "B", 0).unwrap();
    e.join(1, &players[2], "C", 0).unwrap();
    let charity_before = e.ledger.balance(&token, &charity);
    e.end_room(1, Some(players[0].clone()), Some(players[1].clone()), Some(players[2].clone()))
        .unwrap();
    assert_eq!(e.ledger.balance(&token, &e.contract), 0);
    assert_eq!(e.ledger.balance(&token, &platform), 600_000);
    assert_eq!(e.ledger.balance(&token, &players[0]), 300_001);
    assert_eq!(e.ledger.balance(&token, &players[1]), 180_000);
    assert_eq!(e.ledger.balance(&token, &players[2]), 120_000);
    assert_eq!(e.ledger.balance(&token, &charity) - charity_before, 1_800_001 + 1);
}

#[test]
fn payouts_reconcile_with_pool() {
    let mut e = Env::new();
    let (_, _, tokens) = initialize_contract_with_tokens(&mut e);
    let host = e.ledger.generate();
    let token = tokens[0].clone();
    let players = [e.ledger.generate(), e.ledger.generate()];
    mint_tokens_for_users(&mut e, &token, &players, 5_000_000);
    e.pool_room(2, &host, &token, 1_234_567, Some(77), 1999, 70, Some(30), None).unwrap();
    e.join(2, &players[0], "X", 333).unwrap();
    e.join(2, &players[1], "Y", 0).unwrap();
    let total = e.quiz.get_room_config(2).unwrap().total_pool();
    let plan = e
        .quiz
        .prepare_end_room(2, &Some(players[0].clone()), &Some(players[1].clone()), &None)
        .unwrap();
    let paid: i128 = plan.iter().map(|t| t.amount).sum();
    assert_eq!(paid, total);
    assert!(plan.iter().all(|t| t.token == token && t.from == e.contract && t.amount > 0));
    assert_eq!(
        e.quiz.prepare_end_room(2, &Some(players[0].clone()), &None, &None).err(),
        Some(QuizError::ReentrancyDetected)
    );
    let receipts = e.ledger.execute_all(&plan);
    e.quiz.end_room(2, Some(players[0].clone()), Some(players[1].clone()), None, &receipts).unwrap();
    assert_eq!(e.ledger.balance(&token, &e.contract), 0);
    assert!(!e.quiz.reentrancy_guard);
}

#[test]
fn second_initialize_changes_nothing() {
    let mut e = Env::new();
    let (admin, platform, _) = initialize_contract_with_tokens(&mut e);
    let other = e.ledger.generate();
    let r = e.quiz.initialize(other.clone(), other.clone(), other.clone());
    assert_eq!(r, Err(QuizError::AlreadyInitialized));
    let cfg = e.quiz.get_admin_config().unwrap();
    assert_eq!(cfg.admin, admin);
    assert_eq!(cfg.platform_wallet, platform);
}

#[test]
fn failed_join_leaves_room_unchanged() {
    let mut e = Env::new();
    let (_, _, tokens) = initialize_contract_with_tokens(&mut e);
    let host = e.ledger.generate();
    let a = e.ledger.generate();
    let b = e.ledger.generate();
    let token = tokens[0].clone();
    mint_tokens_for_users(&mut e, &token, &[a.clone()], 5_000_000);
    mint_tokens_for_users(&mut e, &token, &[b.clone()], 10);
    e.pool_room(1, &host, &token, 1_000_000, None, 2000, 100, None, None).unwrap();
    e.join(1, &a, "Alice", 7).unwrap();
    assert_eq!(e.join(1, &b, "Alice", 0), Err(QuizError::ScreenNameTaken));
    assert_eq!(e.join(1, &b, "Bob", 0), Err(QuizError::InsufficientBalance));
    assert_eq!(e.join(1, &a, "Other", 0), Err(QuizError::PlayerAlreadyJoined));
    let cfg = e.quiz.get_room_config(1).unwrap();
    assert_eq!(cfg.player_count(), 1);
    assert_eq!(cfg.total_pool(), 1_000_007);
    assert_eq!(cfg.players.len(), 1);
    assert_eq!(e.ledger.balance(&token, &b), 10);
}

#[test]
fn stranger_cannot_win() {
    let mut e = Env::new();
    let (_, _, tokens) = initialize_contract_with_tokens(&mut e);
    let host = e.ledger.generate();
    let a = e.ledger.generate();
    let stranger = e.ledger.generate();
    let token = tokens[0].clone();
    mint_tokens_for_users(&mut e, &token, &[a.clone()], 5_000_000);
    e.pool_room(1, &host, &token, 1_000_000, None, 2000, 60, Some(40), None).unwrap();
    e.join(1, &a, "A", 0).unwrap();
    assert_eq!(e.end_room(1, Some(a.clone()), Some(stranger), None), Err(QuizError::InvalidWinners));
    assert_eq!(e.end_room(1, Some(a.clone()), Some(a.clone()), None), Err(QuizError::InvalidWinners));
    assert!(!e.quiz.get_room_config(1).unwrap().ended());
    assert_eq!(e.end_room_by_names(1, Some("Nobody"), None, None), Err(QuizError::InvalidWinners));
    assert_eq!(e.end_room_by_names(1, Some(""), None, None), Err(QuizError::InvalidScreenName));
    assert!(!e.quiz.get_room_config(1).unwrap().ended());
}

#[test]
fn room_creation_errors() {
    let mut e = Env::new();
    let host = e.ledger.generate();
    let token = e.ledger.create_token();
    assert_eq!(
        e.pool_room(1, &host, &token, 1_000_000, None, 2000, 100, None, None),
        Err(QuizError::TokenNotApproved)
    );
    let (_, _, tokens) = initialize_contract_with_tokens(&mut e);
    let t = tokens[0].clone();
    let empty = Address::new(String::new());
    assert_eq!(e.pool_room(1, &empty, &t, 1_000_000, None, 2000, 100, None, None), Err(QuizError::InvalidAddress));
    assert_eq!(e.pool_room(1, &host, &t, 999_999, None, 2000, 100, None, None), Err(QuizError::InvalidEntryFee));
    assert_eq!(e.pool_room(1, &host, &t, 10_000_000_001, None, 2000, 100, None, None), Err(QuizError::InvalidEntryFee));
    assert_eq!(e.pool_room(1, &host, &t, 1_000_000, Some(501), 2000, 100, None, None), Err(QuizError::InvalidHostFee));
    assert_eq!(e.pool_room(1, &host, &t, 1_000_000, None, 2501, 100, None, None), Err(QuizError::InvalidPrizePoolBps));
    assert_eq!(e.pool_room(1, &host, &t, 1_000_000, None, 2000, 0, Some(100), None), Err(QuizError::InvalidPrizeSplit));
    assert_eq!(e.pool_room(1, &host, &t, 1_000_000, None, 2000, 60, Some(0), Some(30)), Err(QuizError::InvalidPrizeSplit));
    assert_eq!(e.pool_room(1, &host, &t, 1_000_000, None, 2000, 60, Some(0), Some(40)), Ok(()));
    assert_eq!(e.quiz.get_room_config(1).unwrap().prize_distribution, vec![60, 40]);
    assert_eq!(e.quiz.get_room_config(1).unwrap().charity_bps, 6000);
    assert_eq!(e.pool_room(1, &host, &t, 1_000_000, None, 2000, 100, None, None), Err(QuizError::RoomAlreadyExists));
    assert_eq!(e.asset_room(2, &host, &t, 1_000_000, None, vec![]), Err(QuizError::InvalidPrizeAssets));
    let p = PrizeAsset { contract_id: t.clone(), amount: 0 };
    assert_eq!(e.asset_room(2, &host, &t, 1_000_000, None, vec![p]), Err(QuizError::InsufficientAmount));
    let p = PrizeAsset { contract_id: t.clone(), amount: 5 };
    assert_eq!(e.asset_room(2, &host, &t, 1_000_000, Some(100), vec![p]), Err(QuizError::InsufficientBalance));
    assert!(e.quiz.get_room_config(2).is_none());
}

#[test]
fn asset_room_pays_escrowed_prizes() {
    let mut e = Env::new();
    let (_, platform, tokens) = initialize_contract_with_tokens(&mut e);
    let charity = charity_of(&e);
    let host = e.ledger.generate();
    let fee = tokens[0].clone();
    let prize = tokens[1].clone();
    let players = [e.ledger.generate(), e.ledger.generate()];
    mint_tokens_for_users(&mut e, &prize, &[host.clone()], 100);
    mint_tokens_for_users(&mut e, &fee, &players, 1_000_000);
    let prizes = vec![
        PrizeAsset { contract_id: prize.clone(), amount: 60 },
        PrizeAsset { contract_id: prize.clone(), amount: 40 },
    ];
    e.asset_room(5, &host, &fee, 1_000_000, Some(300), prizes).unwrap();
    let cfg = e.quiz.get_room_config(5).unwrap();
    assert_eq!(cfg.charity_bps, 7700);
    assert_eq!(cfg.prize_assets.len(), 3);
    e.join(5, &players[0], "A", 0).unwrap();
    e.join(5, &players[1], "B", 0).unwrap();
    e.end_room(5, Some(players[1].clone()), Some(players[0].clone()), None).unwrap();
    assert_eq!(e.ledger.balance(&prize, &players[1]), 60);
    assert_eq!(e.ledger.balance(&prize, &players[0]), 40);
    assert_eq!(e.ledger.balance(&prize, &e.contract), 0);
    assert_eq!(e.ledger.balance(&fee, &platform), 400_000);
    assert_eq!(e.ledger.balance(&fee, &host), 60_000);
    assert_eq!(e.ledger.balance(&fee, &charity), 1_540_000);
    assert_eq!(e.ledger.balance(&fee, &e.contract), 0);
}

#[test]
fn end_room_errors() {
    let mut e = Env::new();
    assert_eq!(e.end_room(1, None, None, None), Err(QuizError::RoomNotFound));
    let (_, _, tokens) = initialize_contract_with_tokens(&mut e);
    let host = e.ledger.generate();
    let t = tokens[0].clone();
    e.pool_room(1, &host, &t, 1_000_000, None, 2000, 100, None, None).unwrap();
    assert_eq!(e.end_room(1, None, None, None), Err(QuizError::InsufficientPlayers));
    let a = e.ledger.generate();
    mint_tokens_for_users(&mut e, &t, &[a.clone()], 1_000_000);
    e.join(1, &a, "A", 0).unwrap();
    let empty = Address::new(String::new());
    assert_eq!(e.end_room(1, Some(empty), None, None), Err(QuizError::InvalidAddress));
    e.end_room(1, None, None, None).unwrap();
    assert_eq!(e.end_room(1, Some(a.clone()), None, None), Err(QuizError::RoomAlreadyEnded));
    let late = e.ledger.generate();
    assert_eq!(e.join(1, &late, "Late", 0), Err(QuizError::RoomAlreadyEnded));
    assert_eq!(e.join(9, &a, "Z", 0), Err(QuizError::RoomNotFound));
}

#[test]
fn unpaid_payout_keeps_room_open() {
    let mut e = Env::new();
    let (_, _, tokens) = initialize_contract_with_tokens(&mut e);
    let host = e.ledger.generate();
    let t = tokens[0].clone();
    let a = e.ledger.generate();
    mint_tokens_for_users(&mut e, &t, &[a.clone()], 1_000_000);
    e.pool_room(1, &host, &t, 1_000_000, None, 2000, 100, None, None).unwrap();
    e.join(1, &a, "A", 0).unwrap();
    let plan = e.quiz.prepare_end_room(1, &Some(a.clone()), &None, &None).unwrap();
    assert_eq!(plan.len(), 3);
    let receipts: Vec<TransferReceipt> = vec![];
    assert_eq!(
        e.quiz.end_room(1, Some(a.clone()), None, None, &receipts),
        Err(QuizError::AssetTransferFailed)
    );
    assert!(!e.quiz.get_room_config(1).unwrap().ended());
    assert!(!e.quiz.reentrancy_guard);
    e.end_room(1, Some(a.clone()), None, None).unwrap();
    assert!(e.quiz.get_room_config(1).unwrap().ended());
}

#[test]
fn token_allow_list_errors() {
    let mut e = Env::new();
    let t = e.ledger.create_token();
    assert_eq!(e.add_token(&t, "T", "T"), Err(QuizError::NotInitialized));
    assert_eq!(e.quiz.remove_approved_token(&t), Err(QuizError::NotInitialized));
    initialize_contract_with_tokens(&mut e);
    for i in 0..7 {
        let x = e.ledger.create_token();
        e.add_token(&x, "X", &format!("X{}", i)).unwrap();
    }
    assert_eq!(e.quiz.get_approved_tokens().unwrap().token_count, 10);
    let x = e.ledger.create_token();
    assert_eq!(e.add_token(&x, "X", "X"), Err(QuizError::MaxTokensReached));
    assert_eq!(e.quiz.remove_approved_token(&x), Err(QuizError::TokenNotFound));
    assert_eq!(e.quiz.enable_disable_token(&x, true), Err(QuizError::TokenNotFound));
    e.quiz.emergency_pause().unwrap();
    assert_eq!(e.quiz.remove_approved_token(&t), Err(QuizError::EmergencyPause));
}

#[test]
fn admin_handoff() {
    let mut e = Env::new();
    let (admin, _, _) = initialize_contract_with_tokens(&mut e);
    assert_eq!(e.quiz.accept_admin(), Err(QuizError::NoPendingAdmin));
    let next = e.ledger.generate();
    assert_eq!(e.quiz.transfer_admin(Address::new(String::new())), Err(QuizError::InvalidAddress));
    e.quiz.transfer_admin(next.clone()).unwrap();
    assert_eq!(e.quiz.has_role(&admin, quiz::Role::Admin), Ok(()));
    e.quiz.accept_admin().unwrap();
    let cfg = e.quiz.get_admin_config().unwrap();
    assert_eq!(cfg.admin, next);
    assert_eq!(cfg.pending_admin, None);
    assert_eq!(e.quiz.has_role(&admin, quiz::Role::Admin), Err(QuizError::Unauthorized));
    assert_eq!(e.quiz.has_role(&next, quiz::Role::Admin), Ok(()));
    assert_eq!(e.quiz.has_role(&next, quiz::Role::Host), Ok(()));
    e.quiz.emergency_pause().unwrap();
    assert_eq!(e.quiz.has_role(&next, quiz::Role::Admin), Err(QuizError::EmergencyPause));
    assert_eq!(e.quiz.has_role(&next, quiz::Role::Emergency), Ok(()));
    e.quiz.emergency_unpause().unwrap();
    let w = e.ledger.generate();
    e.quiz.update_wallets(None, Some(w.clone())).unwrap();
    assert_eq!(e.quiz.get_charity_wallet().unwrap(), w);
}

#[test]
fn economic_defaults() {
    let mut e = Env::new();
    assert_eq!(e.quiz.get_economic_config(), Err(QuizError::NotInitialized));
    initialize_contract_with_tokens(&mut e);
    let c = e.quiz.get_economic_config().unwrap();
    assert_eq!(c.platform_fee_bps, 2000);
    assert_eq!(c.min_entry_fee, 1_000_000);
    assert_eq!(c.max_entry_fee, 10_000_000_000);
    assert_eq!(c.max_host_fee_bps, 500);
    assert_eq!(c.max_prize_pool_bps, 2500);
    assert_eq!(c.min_charity_bps, 5000);
}

#[test]
fn safe_arithmetic_values() {
    assert_eq!(QuizRoomContract::safe_add(2, 3), Ok(5));
    assert_eq!(QuizRoomContract::safe_add(i128::MAX, 1), Err(QuizError::ArithmeticOverflow));
    assert_eq!(QuizRoomContract::safe_sub(i128::MIN, 1), Err(QuizError::ArithmeticUnderflow));
    assert_eq!(QuizRoomContract::safe_mul(i128::MAX, 2), Err(QuizError::ArithmeticOverflow));
    assert_eq!(QuizRoomContract::safe_div(7, 0), Err(QuizError::DivisionByZero));
    assert_eq!(QuizRoomContract::safe_div(-7, 2), Ok(-3));
    assert_eq!(QuizRoomContract::safe_div(i128::MIN, -1), Err(QuizError::ArithmeticOverflow));
    assert_eq!(QuizRoomContract::safe_percentage(33_000_000, 2000), Ok(6_600_000));
    assert_eq!(QuizRoomContract::safe_percentage(1_000_001, 123), Ok(12_300));
    assert_eq!(QuizRoomContract::safe_percentage(-1_000_001, 123), Ok(-12_300));
    assert_eq!(QuizRoomContract::validate_amount(0, 1), Err(QuizError::InsufficientAmount));
    assert_eq!(QuizRoomContract::validate_amount(quiz::MAX_AMOUNT + 1, 0), Err(QuizError::AmountTooLarge));
    assert_eq!(QuizRoomContract::validate_amount(quiz::MAX_AMOUNT, 0), Ok(()));
    assert_eq!(QuizRoomContract::validate_percentage(10_001, 10_000), Err(QuizError::PercentageTooHigh));
    assert_eq!(QuizRoomContract::validate_percentage(10_000, 10_000), Ok(()));
}

#[test]
fn transfer_verification() {
    let token = Address::new("CT".to_string());
    let from = Address::new("GA".to_string());
    let to = Address::new("GB".to_string());
    let t = Transfer { token, from, to, amount: 100 };
    let good = TransferReceipt {
        from_balance_before: 500,
        to_balance_before: 0,
        completed: true,
        from_balance_after: 400,
        to_balance_after: 100,
    };
    assert_eq!(QuizRoomContract::transfer_token(&t, &good), Ok(()));
    let lying = TransferReceipt { to_balance_after: 0, from_balance_after: 500, ..good };
    assert_eq!(QuizRoomContract::transfer_token(&t, &lying), Err(QuizError::TransferVerificationFailed));
    let refused = TransferReceipt { completed: false, ..good };
    assert_eq!(QuizRoomContract::transfer_token(&t, &refused), Err(QuizError::AssetTransferFailed));
    let poor = TransferReceipt { from_balance_before: 99, ..good };
    assert_eq!(QuizRoomContract::transfer_token(&t, &poor), Err(QuizError::InsufficientBalance));
    assert_eq!(QuizRoomContract::check_transfer(&t, 100), Ok(()));
    assert_eq!(QuizRoomContract::settle_transfers(&vec![t.clone(), t.clone()], &vec![good, refused]), Err(QuizError::AssetTransferFailed));
}

#[test]
fn room_key_bytes() {
    let k = QuizRoomContract::u32_to_bytes(0x01020304);
    assert_eq!(k.len(), 32);
    assert!(k[..28].iter().all(|b| *b == 0));
    assert_eq!(&k[28..], &[1, 2, 3, 4]);
}

#[test]
fn screen_name_lengths() {
    assert_eq!(QuizRoomContract::validate_screen_name(&"a".repeat(20)), Ok(()));
    assert_eq!(QuizRoomContract::validate_screen_name(&"a".repeat(21)), Err(QuizError::InvalidScreenName));
    assert_eq!(QuizRoomContract::validate_screen_name(&String::new()), Err(QuizError::InvalidScreenName));
}

#[test]
fn consistency_check() {
    let mut e = Env::new();
    assert!(e.quiz.is_consistent());
    let (_, _, tokens) = initialize_contract_with_tokens(&mut e);
    let host = e.ledger.generate();
    let a = e.ledger.generate();
    mint_tokens_for_users(&mut e, &tokens[0], &[a.clone()], 2_000_000);
    e.pool_room(1, &host, &tokens[0], 1_000_000, None, 2000, 100, None, None).unwrap();
    e.join(1, &a, "A", 5).unwrap();
    assert!(e.quiz.is_consistent());
    assert_eq!(QuizRoomContract::validate_room_state(&e.quiz.rooms[0]), Ok(()));
    e.quiz.rooms[0].total_pool += 1;
    assert_eq!(
        QuizRoomContract::validate_room_state(&e.quiz.rooms[0]),
        Err(QuizError::StateInconsistency)
    );
    assert!(!e.quiz.is_consistent());
}
