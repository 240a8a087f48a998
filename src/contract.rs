use vstd::prelude::*;

use crate::address::Address;
use crate::error::QuizError;
use crate::types::{
    AccessControl, AccessView, AdminConfig, ApprovedTokens, EconomicConfig, RoleGrant, RoomConfig,
    RoomView, Role, TokensView,
};

verus! {

/// The whole state of one quiz-room contract instance: the configuration
/// singletons (absent until initialisation), the rooms, and the guard that
/// keeps prize distribution single-flight.
#[derive(Debug)]
pub struct QuizRoomContract {
    /// The contract's own account, which holds escrowed funds.
    pub contract_address: Address,
    pub admin_config: Option<AdminConfig>,
    pub economic_config: Option<EconomicConfig>,
    pub access_control: Option<AccessControl>,
    pub approved_tokens: Option<ApprovedTokens>,
    pub rooms: Vec<RoomConfig>,
    pub reentrancy_guard: bool,
}

/// The contents of a [`QuizRoomContract`].
pub struct ContractView {
    pub contract_address: Address,
    pub admin_config: Option<AdminConfig>,
    pub economic_config: Option<EconomicConfig>,
    pub access_control: Option<AccessView>,
    pub approved_tokens: Option<TokensView>,
    pub rooms: Seq<RoomView>,
    pub reentrancy_guard: bool,
}

impl View for QuizRoomContract {
    type V = ContractView;

    open spec fn view(&self) -> ContractView {
        ContractView {
            contract_address: self.contract_address,
            admin_config: self.admin_config,
            economic_config: self.economic_config,
            access_control: match self.access_control {
                Some(a) => Some(a@),
                None => None,
            },
            approved_tokens: match self.approved_tokens {
                Some(t) => Some(t@),
                None => None,
            },
            rooms: self.rooms@.map_values(|r: RoomConfig| r@),
            reentrancy_guard: self.reentrancy_guard,
        }
    }
}

/// The fee bounds that initialisation installs.
pub open spec fn default_economics() -> EconomicConfig {
    EconomicConfig {
        platform_fee_bps: 2000,
        min_entry_fee: 1000000,
        max_entry_fee: 10000000000,
        max_host_fee_bps: 500,
        max_prize_pool_bps: 2500,
        min_charity_bps: 5000,
    }
}

pub open spec fn grant(account: Address, role: Role) -> RoleGrant {
    RoleGrant { account, role }
}

impl ContractView {
    pub open spec fn paused(&self) -> bool {
        match self.access_control {
            Some(a) => a.emergency_pause,
            None => false,
        }
    }

    pub open spec fn has_room(&self, room_id: u32) -> bool {
        exists|i: int| 0 <= i < self.rooms.len() && self.rooms[i].room_id == room_id
    }

    /// Position of room `room_id` in the room list (meaningful when it exists).
    pub open spec fn room_index(&self, room_id: u32) -> int {
        choose|i: int| 0 <= i < self.rooms.len() && self.rooms[i].room_id == room_id
    }

    pub open spec fn room(&self, room_id: u32) -> RoomView {
        self.rooms[self.room_index(room_id)]
    }

    /// Rooms exist only once the contract is initialised; the fee bounds are
    /// the installed ones; room ids are
    /// unique; every room keeps its invariants; and with the
    /// platform fee, no room hands out more than the whole in basis points.
    pub open spec fn wf(&self) -> bool {
        &&& self.admin_config is None ==> self.rooms.len() == 0
        &&& self.admin_config is None ==> self.economic_config is None
        &&& self.economic_config matches Some(e) ==> e == default_economics()
        &&& match self.approved_tokens {
            Some(t) => t.wf(),
            None => true,
        }
        &&& forall|i: int, j: int|
            0 <= i < j < self.rooms.len() ==> self.rooms[i].room_id != self.rooms[j].room_id
        &&& forall|i: int| 0 <= i < self.rooms.len() ==> self.rooms[i].wf()
        &&& match self.economic_config {
            Some(e) => forall|i: int|
                0 <= i < self.rooms.len() ==> e.platform_fee_bps + (#[trigger] self.rooms[i]).charity_bps
                    + self.rooms[i].host_fee_bps <= 10000,
            None => true,
        }
    }

    /// The verdict of the role policy on `user` for `required`.
    pub open spec fn role_check(&self, user: Seq<char>, required: Role) -> Result<(), QuizError> {
        match self.access_control {
            None => Err(QuizError::NotInitialized),
            Some(a) => if a.emergency_pause && required != Role::Emergency {
                Err(QuizError::EmergencyPause)
            } else if a.grants(user, required) || a.grants(user, Role::Emergency) {
                Ok(())
            } else {
                Err(QuizError::Unauthorized)
            },
        }
    }

    /// The role policy applied to the current admin.
    pub open spec fn admin_check(&self, required: Role) -> Result<(), QuizError> {
        match self.admin_config {
            None => Err(QuizError::NotInitialized),
            Some(c) => self.role_check(c.admin@, required),
        }
    }

    pub open spec fn initialize_spec(
        self,
        admin: Address,
        platform_wallet: Address,
        charity_wallet: Address,
    ) -> (Result<(), QuizError>, ContractView) {
        if self.admin_config is Some {
            (Err(QuizError::AlreadyInitialized), self)
        } else if !admin.is_valid() || !platform_wallet.is_valid() || !charity_wallet.is_valid() {
            (Err(QuizError::InvalidAddress), self)
        } else {
            (
                Ok(()),
                ContractView {
                    admin_config: Some(
                        AdminConfig { platform_wallet, charity_wallet, admin, pending_admin: None },
                    ),
                    economic_config: Some(default_economics()),
                    access_control: Some(
                        AccessView {
                            roles: seq![grant(admin, Role::Admin), grant(admin, Role::Emergency)],
                            emergency_pause: false,
                        },
                    ),
                    approved_tokens: Some(TokensView { tokens: Seq::empty(), token_count: 0 }),
                    ..self
                },
            )
        }
    }
}

/// Initialisation happens once: after a successful `initialize`, a second
/// call, with any arguments, fails with AlreadyInitialized and leaves the
/// state, the admin configuration included, as it was.
pub proof fn lemma_initialize_once(
    s: ContractView,
    admin: Address,
    platform_wallet: Address,
    charity_wallet: Address,
    admin2: Address,
    platform_wallet2: Address,
    charity_wallet2: Address,
)
    requires
        s.initialize_spec(admin, platform_wallet, charity_wallet).0 is Ok,
    ensures
        ({
            let s1 = s.initialize_spec(admin, platform_wallet, charity_wallet).1;
            let (r2, s2) = s1.initialize_spec(admin2, platform_wallet2, charity_wallet2);
            &&& r2 == Err::<(), QuizError>(QuizError::AlreadyInitialized)
            &&& s2 == s1
            &&& s2.admin_config == s1.admin_config
        }),
{
}

impl QuizRoomContract {
    /// A fresh, uninitialised contract instance living at `contract_address`.
    pub fn new(contract_address: Address) -> (r: QuizRoomContract)
        ensures
            r@.contract_address == contract_address,
            r@.admin_config is None,
            r@.economic_config is None,
            r@.access_control is None,
            r@.approved_tokens is None,
            r@.rooms.len() == 0,
            !r@.reentrancy_guard,
            r@.wf(),
    {
        let r = QuizRoomContract {
            contract_address,
            admin_config: None,
            economic_config: None,
            access_control: None,
            approved_tokens: None,
            rooms: Vec::new(),
            reentrancy_guard: false,
        };
        assert(r@.rooms =~= Seq::<RoomView>::empty());
        r
    }

    pub fn validate_address(addr: &Address) -> (r: Result<(), QuizError>)
        ensures
            r == (if addr.is_valid() {
                Ok(())
            } else {
                Err(QuizError::InvalidAddress)
            }),
    {
        if addr.is_empty() {
            return Err(QuizError::InvalidAddress);
        }
        Ok(())
    }

    /// Sets up the configuration singletons, once. The admin receives the
    /// Admin and Emergency roles.
    pub fn initialize(
        &mut self,
        admin: Address,
        platform_wallet: Address,
        charity_wallet: Address,
    ) -> (r: Result<(), QuizError>)
        requires
            old(self)@.wf(),
        ensures
            (r, final(self)@) == old(self)@.initialize_spec(admin, platform_wallet, charity_wallet),
            final(self)@.wf(),
    {
        if self.admin_config.is_some() {
            return Err(QuizError::AlreadyInitialized);
        }
        Self::validate_address(&admin)?;
        Self::validate_address(&platform_wallet)?;
        Self::validate_address(&charity_wallet)?;
        let mut roles: Vec<RoleGrant> = Vec::new();
        roles.push(RoleGrant { account: admin.clone(), role: Role::Admin });
        roles.push(RoleGrant { account: admin.clone(), role: Role::Emergency });
        self.admin_config = Some(
            AdminConfig { platform_wallet, charity_wallet, admin, pending_admin: None },
        );
        self.economic_config = Some(
            EconomicConfig {
                platform_fee_bps: 2000,
                min_entry_fee: 1000000,
                max_entry_fee: 10000000000,
                max_host_fee_bps: 500,
                max_prize_pool_bps: 2500,
                min_charity_bps: 5000,
            },
        );
        self.access_control = Some(AccessControl { roles, emergency_pause: false });
        self.approved_tokens = Some(ApprovedTokens { tokens: Vec::new(), token_count: 0 });
        proof {
            let ghost g = self@;
            let ghost (_, s) = old(self)@.initialize_spec(admin, platform_wallet, charity_wallet);
            assert(g.access_control->Some_0.roles =~= s.access_control->Some_0.roles);
            assert(g.approved_tokens->Some_0.tokens =~= s.approved_tokens->Some_0.tokens);
        }
        Ok(())
    }
}

} // verus!
