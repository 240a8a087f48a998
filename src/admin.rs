use vstd::prelude::*;

use crate::address::Address;
use crate::contract::{grant, ContractView, QuizRoomContract};
use crate::error::QuizError;
use crate::types::{
    AccessControl, AccessView, AdminConfig, ApprovedTokens, EconomicConfig, RoleGrant, Role,
    TokenInfo, TokensView, MAX_APPROVED_TOKENS,
};

verus! {

/// Position of `token` in the allow-list (meaningful when it is listed).
pub open spec fn token_position(t: TokensView, token: Seq<char>) -> int {
    choose|i: int| 0 <= i < t.tokens.len() && t.tokens[i].contract_id@ == token
}

/// The grants of `roles` that do not belong to `who`, in order.
pub open spec fn grants_without(roles: Seq<RoleGrant>, who: Seq<char>) -> Seq<RoleGrant>
    decreases roles.len(),
{
    if roles.len() == 0 {
        roles
    } else if roles.last().account@ == who {
        grants_without(roles.drop_last(), who)
    } else {
        grants_without(roles.drop_last(), who).push(roles.last())
    }
}

/// The enabled tokens of `tokens`, in order.
pub open spec fn enabled_tokens(tokens: Seq<TokenInfo>) -> Seq<TokenInfo>
    decreases tokens.len(),
{
    if tokens.len() == 0 {
        tokens
    } else if tokens.last().enabled {
        enabled_tokens(tokens.drop_last()).push(tokens.last())
    } else {
        enabled_tokens(tokens.drop_last())
    }
}

impl ContractView {
    pub open spec fn add_approved_token_spec(
        self,
        token: Address,
        symbol: String,
        name: String,
        decimals: Option<u32>,
    ) -> (Result<(), QuizError>, ContractView) {
        if self.admin_config is None {
            (Err(QuizError::NotInitialized), self)
        } else if !token.is_valid() {
            (Err(QuizError::InvalidAddress), self)
        } else {
            match self.approved_tokens {
                None => (Err(QuizError::NotInitialized), self),
                Some(t) => if t.contains(token@) {
                    (Err(QuizError::TokenAlreadyExists), self)
                } else if t.token_count >= MAX_APPROVED_TOKENS {
                    (Err(QuizError::MaxTokensReached), self)
                } else {
                    match decimals {
                        None => (Err(QuizError::InvalidToken), self),
                        Some(d) => (
                            Ok(()),
                            ContractView {
                                approved_tokens: Some(
                                    TokensView {
                                        tokens: t.tokens.push(
                                            TokenInfo {
                                                contract_id: token,
                                                symbol,
                                                name,
                                                decimals: d,
                                                enabled: true,
                                            },
                                        ),
                                        token_count: (t.token_count + 1) as u32,
                                    },
                                ),
                                ..self
                            },
                        ),
                    }
                },
            }
        }
    }

    pub open spec fn remove_approved_token_spec(self, token: Address) -> (
        Result<(), QuizError>,
        ContractView,
    ) {
        if self.admin_check(Role::Admin) is Err {
            (self.admin_check(Role::Admin), self)
        } else {
            match self.approved_tokens {
                None => (Err(QuizError::NotInitialized), self),
                Some(t) => if !t.contains(token@) {
                    (Err(QuizError::TokenNotFound), self)
                } else {
                    (
                        Ok(()),
                        ContractView {
                            approved_tokens: Some(
                                TokensView {
                                    tokens: t.tokens.remove(token_position(t, token@)),
                                    token_count: (t.token_count - 1) as u32,
                                },
                            ),
                            ..self
                        },
                    )
                },
            }
        }
    }

    pub open spec fn enable_disable_token_spec(self, token: Address, enabled: bool) -> (
        Result<(), QuizError>,
        ContractView,
    ) {
        if self.admin_check(Role::Admin) is Err {
            (self.admin_check(Role::Admin), self)
        } else {
            match self.approved_tokens {
                None => (Err(QuizError::NotInitialized), self),
                Some(t) => if !t.contains(token@) {
                    (Err(QuizError::TokenNotFound), self)
                } else {
                    let i = token_position(t, token@);
                    (
                        Ok(()),
                        ContractView {
                            approved_tokens: Some(
                                TokensView {
                                    tokens: t.tokens.update(i, TokenInfo { enabled, ..t.tokens[i] }),
                                    ..t
                                },
                            ),
                            ..self
                        },
                    )
                },
            }
        }
    }

    pub open spec fn transfer_admin_spec(self, new_admin: Address) -> (
        Result<(), QuizError>,
        ContractView,
    ) {
        if self.admin_check(Role::Admin) is Err {
            (self.admin_check(Role::Admin), self)
        } else if !new_admin.is_valid() {
            (Err(QuizError::InvalidAddress), self)
        } else {
            (
                Ok(()),
                ContractView {
                    admin_config: Some(
                        AdminConfig {
                            pending_admin: Some(new_admin),
                            ..self.admin_config->Some_0
                        },
                    ),
                    ..self
                },
            )
        }
    }

    pub open spec fn accept_admin_spec(self) -> (Result<(), QuizError>, ContractView) {
        match self.admin_config {
            None => (Err(QuizError::NotInitialized), self),
            Some(c) => match c.pending_admin {
                None => (Err(QuizError::NoPendingAdmin), self),
                Some(p) => match self.access_control {
                    None => (Err(QuizError::NotInitialized), self),
                    Some(a) => (
                        Ok(()),
                        ContractView {
                            admin_config: Some(
                                AdminConfig { admin: p, pending_admin: None, ..c },
                            ),
                            access_control: Some(
                                AccessView {
                                    roles: grants_without(a.roles, c.admin@).push(
                                        grant(p, Role::Admin),
                                    ).push(grant(p, Role::Emergency)),
                                    ..a
                                },
                            ),
                            ..self
                        },
                    ),
                },
            },
        }
    }

    pub open spec fn update_wallets_spec(
        self,
        platform_wallet: Option<Address>,
        charity_wallet: Option<Address>,
    ) -> (Result<(), QuizError>, ContractView) {
        if self.admin_check(Role::Admin) is Err {
            (self.admin_check(Role::Admin), self)
        } else if platform_wallet matches Some(w) && !w.is_valid() {
            (Err(QuizError::InvalidAddress), self)
        } else if charity_wallet matches Some(w) && !w.is_valid() {
            (Err(QuizError::InvalidAddress), self)
        } else {
            let c = self.admin_config->Some_0;
            (
                Ok(()),
                ContractView {
                    admin_config: Some(
                        AdminConfig {
                            platform_wallet: match platform_wallet {
                                Some(w) => w,
                                None => c.platform_wallet,
                            },
                            charity_wallet: match charity_wallet {
                                Some(w) => w,
                                None => c.charity_wallet,
                            },
                            ..c
                        },
                    ),
                    ..self
                },
            )
        }
    }

    /// Switching the emergency pause needs the Emergency role, which the
    /// pause itself does not block.
    pub open spec fn set_pause_spec(self, paused: bool) -> (Result<(), QuizError>, ContractView) {
        if self.admin_check(Role::Emergency) is Err {
            (self.admin_check(Role::Emergency), self)
        } else {
            (
                Ok(()),
                ContractView {
                    access_control: Some(
                        AccessView { emergency_pause: paused, ..self.access_control->Some_0 },
                    ),
                    ..self
                },
            )
        }
    }
}

fn find_token(tokens: &Vec<TokenInfo>, token: &Address) -> (r: Option<usize>)
    ensures
        match r {
            Some(i) => i < tokens@.len() && tokens@[i as int].contract_id@ == token@,
            None => forall|i: int|
                0 <= i < tokens@.len() ==> tokens@[i].contract_id@ != token@,
        },
{
    let mut i: usize = 0;
    while i < tokens.len()
        invariant
            i <= tokens@.len(),
            forall|k: int| 0 <= k < i ==> tokens@[k].contract_id@ != token@,
        decreases tokens@.len() - i,
    {
        if tokens[i].contract_id.same_as(token) {
            return Some(i);
        }
        i += 1;
    }
    None
}

proof fn lemma_token_position(t: TokensView, token: Seq<char>, i: int)
    requires
        t.wf(),
        0 <= i < t.tokens.len(),
        t.tokens[i].contract_id@ == token,
    ensures
        token_position(t, token) == i,
{
    let j = token_position(t, token);
    assert(0 <= j < t.tokens.len() && t.tokens[j].contract_id@ == token);
    if j < i {
        assert(t.tokens[j].contract_id@ != t.tokens[i].contract_id@);
    } else if i < j {
        assert(t.tokens[i].contract_id@ != t.tokens[j].contract_id@);
    }
}

impl QuizRoomContract {
    /// The role policy: while paused only the Emergency role passes; otherwise
    /// `user` needs `required_role` or the Emergency role.
    pub fn has_role(&self, user: &Address, required_role: Role) -> (r: Result<(), QuizError>)
        ensures
            r == self@.role_check(user@, required_role),
    {
        match &self.access_control {
            None => Err(QuizError::NotInitialized),
            Some(a) => {
                if a.emergency_pause && required_role != Role::Emergency {
                    return Err(QuizError::EmergencyPause);
                }
                let mut i: usize = 0;
                while i < a.roles.len()
                    invariant
                        self.access_control == Some(*a),
                        !(a.emergency_pause && required_role != Role::Emergency),
                        i <= a.roles@.len(),
                        forall|k: int|
                            0 <= k < i ==> !(a.roles@[k].account@ == user@ && (a.roles@[k].role
                                == required_role || a.roles@[k].role == Role::Emergency)),
                    decreases a.roles@.len() - i,
                {
                    let g = &a.roles[i];
                    if g.account.same_as(user) && (g.role == required_role || g.role
                        == Role::Emergency) {
                        proof {
                            let k = i as int;
                            if a.roles@[k].role == required_role {
                                assert(a@.grants(user@, required_role));
                            } else {
                                assert(a@.grants(user@, Role::Emergency));
                            }
                        }
                        return Ok(());
                    }
                    i += 1;
                }
                Err(QuizError::Unauthorized)
            },
        }
    }

    fn admin_has_role(&self, required_role: Role) -> (r: Result<(), QuizError>)
        ensures
            r == self@.admin_check(required_role),
    {
        match &self.admin_config {
            None => Err(QuizError::NotInitialized),
            Some(c) => self.has_role(&c.admin, required_role),
        }
    }

    pub fn is_emergency_paused(&self) -> (r: bool)
        ensures
            r == self@.paused(),
    {
        match &self.access_control {
            Some(a) => a.emergency_pause,
            None => false,
        }
    }

    pub fn check_emergency_pause(&self) -> (r: Result<(), QuizError>)
        ensures
            r == (if self@.paused() {
                Err(QuizError::EmergencyPause)
            } else {
                Ok(())
            }),
    {
        if self.is_emergency_paused() {
            return Err(QuizError::EmergencyPause);
        }
        Ok(())
    }

    /// A token's contract is acceptable when its address is well formed; an
    /// unavailable decimals probe is tolerated.
    pub fn validate_token_contract(token: &Address) -> (r: Result<(), QuizError>)
        ensures
            r == (if token.is_valid() {
                Ok(())
            } else {
                Err(QuizError::InvalidAddress)
            }),
    {
        Self::validate_address(token)
    }

    /// Lists a token, with the `decimals` that its contract reported (`None`
    /// when it did not answer, which means the address is no token).
    pub fn add_approved_token(
        &mut self,
        token_address: Address,
        symbol: String,
        name: String,
        decimals: Option<u32>,
    ) -> (r: Result<(), QuizError>)
        requires
            old(self)@.wf(),
        ensures
            (r, final(self)@) == old(self)@.add_approved_token_spec(
                token_address,
                symbol,
                name,
                decimals,
            ),
            final(self)@.wf(),
    {
        if self.admin_config.is_none() {
            return Err(QuizError::NotInitialized);
        }
        Self::validate_token_contract(&token_address)?;
        match &mut self.approved_tokens {
            None => Err(QuizError::NotInitialized),
            Some(t) => {
                if find_token(&t.tokens, &token_address).is_some() {
                    return Err(QuizError::TokenAlreadyExists);
                }
                if t.token_count >= MAX_APPROVED_TOKENS {
                    return Err(QuizError::MaxTokensReached);
                }
                match decimals {
                    None => Err(QuizError::InvalidToken),
                    Some(d) => {
                        t.tokens.push(
                            TokenInfo {
                                contract_id: token_address,
                                symbol,
                                name,
                                decimals: d,
                                enabled: true,
                            },
                        );
                        t.token_count = t.token_count + 1;
                        Ok(())
                    },
                }
            },
        }
    }

    pub fn remove_approved_token(&mut self, token_address: &Address) -> (r: Result<
        (),
        QuizError,
    >)
        requires
            old(self)@.wf(),
        ensures
            (r, final(self)@) == old(self)@.remove_approved_token_spec(*token_address),
            final(self)@.wf(),
    {
        self.admin_has_role(Role::Admin)?;
        match &mut self.approved_tokens {
            None => Err(QuizError::NotInitialized),
            Some(t) => {
                match find_token(&t.tokens, token_address) {
                    None => Err(QuizError::TokenNotFound),
                    Some(i) => {
                        proof {
                            lemma_token_position(t@, token_address@, i as int);
                        }
                        t.tokens.remove(i);
                        t.token_count = t.token_count - 1;
                        Ok(())
                    },
                }
            },
        }
    }

    pub fn enable_disable_token(&mut self, token_address: &Address, enabled: bool) -> (r: Result<
        (),
        QuizError,
    >)
        requires
            old(self)@.wf(),
        ensures
            (r, final(self)@) == old(self)@.enable_disable_token_spec(*token_address, enabled),
            final(self)@.wf(),
    {
        self.admin_has_role(Role::Admin)?;
        match &mut self.approved_tokens {
            None => Err(QuizError::NotInitialized),
            Some(t) => {
                match find_token(&t.tokens, token_address) {
                    None => Err(QuizError::TokenNotFound),
                    Some(i) => {
                        proof {
                            lemma_token_position(t@, token_address@, i as int);
                        }
                        let old_info = t.tokens.remove(i);
                        let info = TokenInfo { enabled, ..old_info };
                        t.tokens.insert(i, info);
                        proof {
                            assert(t@.tokens =~= old(self)@.approved_tokens->Some_0.tokens.update(
                                i as int,
                                info,
                            ));
                        }
                        Ok(())
                    },
                }
            },
        }
    }

    pub fn get_approved_tokens(&self) -> (r: Result<ApprovedTokens, QuizError>)
        ensures
            match self@.approved_tokens {
                Some(t) => r matches Ok(v) && v@ == t,
                None => r == Err::<ApprovedTokens, QuizError>(QuizError::NotInitialized),
            },
    {
        match &self.approved_tokens {
            Some(t) => Ok(t.clone()),
            None => Err(QuizError::NotInitialized),
        }
    }

    /// The enabled tokens of the allow-list, in listing order.
    pub fn get_approved_tokens_list(&self) -> (r: Vec<TokenInfo>)
        ensures
            r@ == match self@.approved_tokens {
                Some(t) => enabled_tokens(t.tokens),
                None => Seq::empty(),
            },
    {
        let mut out: Vec<TokenInfo> = Vec::new();
        match &self.approved_tokens {
            None => {
                assert(out@ =~= Seq::<TokenInfo>::empty());
            },
            Some(t) => {
                let mut i: usize = 0;
                assert(t.tokens@.take(0) =~= Seq::<TokenInfo>::empty());
                while i < t.tokens.len()
                    invariant
                        i <= t.tokens@.len(),
                        out@ == enabled_tokens(t.tokens@.take(i as int)),
                    decreases t.tokens@.len() - i,
                {
                    assert(t.tokens@.take(i + 1).drop_last() =~= t.tokens@.take(i as int));
                    if t.tokens[i].enabled {
                        out.push(t.tokens[i].clone());
                    }
                    i += 1;
                }
                assert(t.tokens@.take(i as int) =~= t.tokens@);
            },
        }
        out
    }

    pub fn is_token_approved(&self, token_address: &Address) -> (r: bool)
        requires
            self@.wf(),
        ensures
            r == (self@.approved_tokens matches Some(t) && t.approves(token_address@)),
    {
        match &self.approved_tokens {
            None => false,
            Some(t) => match find_token(&t.tokens, token_address) {
                None => false,
                Some(i) => {
                    proof {
                        if t@.approves(token_address@) {
                            let j = choose|j: int|
                                0 <= j < t@.tokens.len() && t@.tokens[j].contract_id@
                                    == token_address@ && t@.tokens[j].enabled;
                            if j != i {
                                assert(t@.tokens[j].contract_id@ == t@.tokens[i as int].contract_id@);
                            }
                        }
                    }
                    t.tokens[i].enabled
                },
            },
        }
    }

    /// First half of the admin handoff: the admin proposes `new_admin`.
    pub fn transfer_admin(&mut self, new_admin: Address) -> (r: Result<(), QuizError>)
        requires
            old(self)@.wf(),
        ensures
            (r, final(self)@) == old(self)@.transfer_admin_spec(new_admin),
            final(self)@.wf(),
    {
        self.admin_has_role(Role::Admin)?;
        Self::validate_address(&new_admin)?;
        match &mut self.admin_config {
            None => Err(QuizError::NotInitialized),
            Some(c) => {
                c.pending_admin = Some(new_admin);
                Ok(())
            },
        }
    }

    /// Second half of the admin handoff: the proposed admin takes over; the
    /// old admin's roles go and the new one receives Admin and Emergency.
    pub fn accept_admin(&mut self) -> (r: Result<(), QuizError>)
        requires
            old(self)@.wf(),
        ensures
            (r, final(self)@) == old(self)@.accept_admin_spec(),
            final(self)@.wf(),
    {
        let (old_admin, pending) = match &self.admin_config {
            None => {
                return Err(QuizError::NotInitialized);
            },
            Some(c) => match &c.pending_admin {
                None => {
                    return Err(QuizError::NoPendingAdmin);
                },
                Some(p) => (c.admin.clone(), p.clone()),
            },
        };
        match &mut self.access_control {
            None => {
                return Err(QuizError::NotInitialized);
            },
            Some(a) => {
                let mut kept: Vec<RoleGrant> = Vec::new();
                let mut i: usize = 0;
                assert(a.roles@.take(0) =~= Seq::<RoleGrant>::empty());
                while i < a.roles.len()
                    invariant
                        i <= a.roles@.len(),
                        kept@ == grants_without(a.roles@.take(i as int), old_admin@),
                    decreases a.roles@.len() - i,
                {
                    assert(a.roles@.take(i + 1).drop_last() =~= a.roles@.take(i as int));
                    if !a.roles[i].account.same_as(&old_admin) {
                        kept.push(a.roles[i].clone());
                    }
                    i += 1;
                }
                assert(a.roles@.take(i as int) =~= a.roles@);
                kept.push(RoleGrant { account: pending.clone(), role: Role::Admin });
                kept.push(RoleGrant { account: pending.clone(), role: Role::Emergency });
                a.roles = kept;
            },
        }
        match &mut self.admin_config {
            None => Err(QuizError::NotInitialized),
            Some(c) => {
                c.admin = pending;
                c.pending_admin = None;
                Ok(())
            },
        }
    }

    pub fn update_wallets(
        &mut self,
        platform_wallet: Option<Address>,
        charity_wallet: Option<Address>,
    ) -> (r: Result<(), QuizError>)
        requires
            old(self)@.wf(),
        ensures
            (r, final(self)@) == old(self)@.update_wallets_spec(platform_wallet, charity_wallet),
            final(self)@.wf(),
    {
        self.admin_has_role(Role::Admin)?;
        if let Some(w) = &platform_wallet {
            Self::validate_address(w)?;
        }
        if let Some(w) = &charity_wallet {
            Self::validate_address(w)?;
        }
        match &mut self.admin_config {
            None => Err(QuizError::NotInitialized),
            Some(c) => {
                if let Some(w) = platform_wallet {
                    c.platform_wallet = w;
                }
                if let Some(w) = charity_wallet {
                    c.charity_wallet = w;
                }
                Ok(())
            },
        }
    }

    fn set_emergency_pause(&mut self, paused: bool) -> (r: Result<(), QuizError>)
        requires
            old(self)@.wf(),
        ensures
            (r, final(self)@) == old(self)@.set_pause_spec(paused),
            final(self)@.wf(),
    {
        self.admin_has_role(Role::Emergency)?;
        match &mut self.access_control {
            None => Err(QuizError::NotInitialized),
            Some(a) => {
                a.emergency_pause = paused;
                Ok(())
            },
        }
    }

    /// Stops room creation, joining and ending until unpaused.
    pub fn emergency_pause(&mut self) -> (r: Result<(), QuizError>)
        requires
            old(self)@.wf(),
        ensures
            (r, final(self)@) == old(self)@.set_pause_spec(true),
            final(self)@.wf(),
    {
        self.set_emergency_pause(true)
    }

    pub fn emergency_unpause(&mut self) -> (r: Result<(), QuizError>)
        requires
            old(self)@.wf(),
        ensures
            (r, final(self)@) == old(self)@.set_pause_spec(false),
            final(self)@.wf(),
    {
        self.set_emergency_pause(false)
    }

    pub fn get_platform_wallet(&self) -> (r: Result<Address, QuizError>)
        ensures
            r == match self@.admin_config {
                Some(c) => Ok(c.platform_wallet),
                None => Err(QuizError::NotInitialized),
            },
    {
        match &self.admin_config {
            Some(c) => Ok(c.platform_wallet.clone()),
            None => Err(QuizError::NotInitialized),
        }
    }

    pub fn get_charity_wallet(&self) -> (r: Result<Address, QuizError>)
        ensures
            r == match self@.admin_config {
                Some(c) => Ok(c.charity_wallet),
                None => Err(QuizError::NotInitialized),
            },
    {
        match &self.admin_config {
            Some(c) => Ok(c.charity_wallet.clone()),
            None => Err(QuizError::NotInitialized),
        }
    }

    pub fn get_admin_config(&self) -> (r: Result<AdminConfig, QuizError>)
        ensures
            r == match self@.admin_config {
                Some(c) => Ok(c),
                None => Err(QuizError::NotInitialized),
            },
    {
        match &self.admin_config {
            Some(c) => Ok(c.clone()),
            None => Err(QuizError::NotInitialized),
        }
    }

    pub fn get_access_control(&self) -> (r: Result<AccessControl, QuizError>)
        ensures
            match self@.access_control {
                Some(a) => r matches Ok(v) && v@ == a,
                None => r == Err::<AccessControl, QuizError>(QuizError::NotInitialized),
            },
    {
        match &self.access_control {
            Some(a) => Ok(a.clone()),
            None => Err(QuizError::NotInitialized),
        }
    }

    pub fn get_economic_config(&self) -> (r: Result<EconomicConfig, QuizError>)
        ensures
            r == match self@.economic_config {
                Some(c) => Ok(c),
                None => Err(QuizError::NotInitialized),
            },
    {
        match &self.economic_config {
            Some(c) => Ok(*c),
            None => Err(QuizError::NotInitialized),
        }
    }
}

} // verus!
