use vstd::prelude::*;
use crate::model::{CodeRecord, Reward, StateView};
use crate::types::{Code, CodeState, EthereumAddress, EthereumTransaction, Identity, PrincipalState};

verus! {

impl View for CodeState {
    type V = CodeRecord;

    open spec fn view(&self) -> CodeRecord {
        CodeRecord { parent: self.parent_principal@, depth: self.depth, redeemed: self.redeemed }
    }
}

impl View for EthereumTransaction {
    type V = Reward;

    open spec fn view(&self) -> Reward {
        Reward {
            address: self.eth_address@,
            amount: self.amount.0,
            transferred: self.transferred,
            kind: self.reward_type,
        }
    }
}

/// The whole state of the engine, owned by one writer.
pub struct State {
    pub backend_canister_id: Identity,
    pub token_per_person: u64,
    pub maximum_depth: u64,
    pub numbers_of_children: u64,
    pub total_tokens: u64,
    pub killed: bool,
    pub pre_generated_codes: Vec<Code>,
    pub codes: Vec<(Code, CodeState)>,
    pub principals_users: Vec<(Identity, Code, EthereumAddress)>,
    pub principals_managers: Vec<(Identity, PrincipalState)>,
    pub principals_admins: Vec<Identity>,
    pub airdrop_reward: Vec<EthereumTransaction>,
}

impl View for State {
    type V = StateView;

    open spec fn view(&self) -> StateView {
        StateView {
            backend: self.backend_canister_id@,
            token_per_person: self.token_per_person,
            maximum_depth: self.maximum_depth,
            numbers_of_children: self.numbers_of_children,
            total_tokens: self.total_tokens,
            killed: self.killed,
            pool: self.pre_generated_codes@.map_values(|c: Code| c@),
            codes: self.codes@.map_values(|e: (Code, CodeState)| (e.0@, e.1@)),
            users: self.principals_users@.map_values(
                |e: (Identity, Code, EthereumAddress)| (e.0@, e.1@, e.2@),
            ),
            managers: self.principals_managers@.map_values(|e: (Identity, PrincipalState)| (e.0@, e.1)),
            admins: self.principals_admins@.map_values(|a: Identity| a@),
            rewards: self.airdrop_reward@.map_values(|t: EthereumTransaction| t@),
        }
    }
}

/// With keys held once, a key found at `k` is the key's position.
pub(crate) proof fn lemma_code_at(s: StateView, k: int)
    requires
        s.wf(),
        0 <= k < s.codes.len(),
    ensures
        s.has_code(s.codes[k].0),
        s.code_at(s.codes[k].0) == k,
{
}

pub(crate) proof fn lemma_user_at(s: StateView, k: int)
    requires
        s.wf(),
        0 <= k < s.users.len(),
    ensures
        s.is_registered(s.users[k].0),
        s.user_at(s.users[k].0) == k,
{
}

pub(crate) proof fn lemma_manager_at(s: StateView, k: int)
    requires
        s.wf(),
        0 <= k < s.managers.len(),
    ensures
        s.is_manager(s.managers[k].0),
        s.manager_at(s.managers[k].0) == k,
{
}

impl State {
    /// The position of `code` in the referral tree.
    pub fn find_code(&self, code: &Code) -> (r: Option<usize>)
        ensures
            r matches Some(i) ==> i < self.codes@.len() && self@.codes[i as int].0 == code@,
            r is None ==> !self@.has_code(code@),
    {
        let mut i: usize = 0;
        while i < self.codes.len()
            invariant
                i <= self.codes@.len(),
                forall|k: int| 0 <= k < i ==> self@.codes[k].0 != code@,
            decreases self.codes@.len() - i,
        {
            if self.codes[i].0.same(code) {
                return Some(i);
            }
            i += 1;
        }
        None
    }

    /// The position of `who` among the registered users.
    pub fn find_user(&self, who: &Identity) -> (r: Option<usize>)
        ensures
            r matches Some(i) ==> i < self.principals_users@.len() && self@.users[i as int].0 == who@,
            r is None ==> !self@.is_registered(who@),
    {
        let mut i: usize = 0;
        while i < self.principals_users.len()
            invariant
                i <= self.principals_users@.len(),
                forall|k: int| 0 <= k < i ==> self@.users[k].0 != who@,
            decreases self.principals_users@.len() - i,
        {
            if self.principals_users[i].0.same(who) {
                return Some(i);
            }
            i += 1;
        }
        None
    }

    /// The position of `who` among the managers.
    pub fn find_manager(&self, who: &Identity) -> (r: Option<usize>)
        ensures
            r matches Some(i) ==> i < self.principals_managers@.len() && self@.managers[i as int].0 == who@,
            r is None ==> !self@.is_manager(who@),
    {
        let mut i: usize = 0;
        while i < self.principals_managers.len()
            invariant
                i <= self.principals_managers@.len(),
                forall|k: int| 0 <= k < i ==> self@.managers[k].0 != who@,
            decreases self.principals_managers@.len() - i,
        {
            if self.principals_managers[i].0.same(who) {
                return Some(i);
            }
            i += 1;
        }
        None
    }

    /// Whether `who` holds the manager role.
    pub fn is_manager(&self, who: &Identity) -> (r: bool)
        ensures
            r == self@.is_manager(who@),
    {
        self.find_manager(who).is_some()
    }
}

} // verus!
