use vstd::prelude::*;
use crate::error::CanisterError;
use crate::types::{PrincipalState, RewardType};

verus! {

/// The abstract place of an issued code in the referral tree.
pub struct CodeRecord {
    pub parent: Seq<char>,
    pub depth: u64,
    pub redeemed: bool,
}

/// The abstract content of one ledger entry.
pub struct Reward {
    pub address: Seq<char>,
    pub amount: u64,
    pub transferred: bool,
    pub kind: RewardType,
}

/// The abstract state of the engine: every collection as a sequence of
/// plain values, in the order the engine keeps it.
pub struct StateView {
    pub backend: Seq<char>,
    pub token_per_person: u64,
    pub maximum_depth: u64,
    pub numbers_of_children: u64,
    pub total_tokens: u64,
    pub killed: bool,
    /// Unissued codes, drawn from the front.
    pub pool: Seq<Seq<char>>,
    /// Issued codes with their place in the tree.
    pub codes: Seq<(Seq<char>, CodeRecord)>,
    /// Registered users: identity, redeemed code, payment address.
    pub users: Seq<(Seq<char>, Seq<char>, Seq<char>)>,
    /// Managers and their counters.
    pub managers: Seq<(Seq<char>, PrincipalState)>,
    pub admins: Seq<Seq<char>>,
    /// The reward ledger; an entry's position is its index.
    pub rewards: Seq<Reward>,
}

/// `x + 1`, held at the largest `u64`.
pub open spec fn saturating_inc(x: u64) -> u64 {
    if x == u64::MAX { x } else { (x + 1) as u64 }
}

impl StateView {
    pub open spec fn has_code(self, c: Seq<char>) -> bool {
        exists|i: int| 0 <= i < self.codes.len() && self.codes[i].0 == c
    }

    pub open spec fn is_registered(self, who: Seq<char>) -> bool {
        exists|i: int| 0 <= i < self.users.len() && self.users[i].0 == who
    }

    pub open spec fn is_manager(self, who: Seq<char>) -> bool {
        exists|i: int| 0 <= i < self.managers.len() && self.managers[i].0 == who
    }

    pub open spec fn is_admin(self, who: Seq<char>) -> bool {
        self.admins.contains(who)
    }

    /// The position of an issued code.
    pub open spec fn code_at(self, c: Seq<char>) -> int {
        choose|i: int| 0 <= i < self.codes.len() && self.codes[i].0 == c
    }

    /// The position of a registered user.
    pub open spec fn user_at(self, who: Seq<char>) -> int {
        choose|i: int| 0 <= i < self.users.len() && self.users[i].0 == who
    }

    /// The position of a manager.
    pub open spec fn manager_at(self, who: Seq<char>) -> int {
        choose|i: int| 0 <= i < self.managers.len() && self.managers[i].0 == who
    }

    /// Every code is either pooled or issued, and never both nor twice;
    /// users and managers are keyed by identity.
    pub open spec fn wf(self) -> bool {
        &&& self.pool.no_duplicates()
        &&& forall|i: int, j: int|
            0 <= i < self.codes.len() && 0 <= j < self.codes.len() && i != j
                ==> self.codes[i].0 != self.codes[j].0
        &&& forall|i: int, j: int|
            0 <= i < self.pool.len() && 0 <= j < self.codes.len()
                ==> self.pool[i] != self.codes[j].0
        &&& forall|i: int, j: int|
            0 <= i < self.users.len() && 0 <= j < self.users.len() && i != j
                ==> self.users[i].0 != self.users[j].0
        &&& forall|i: int, j: int|
            0 <= i < self.managers.len() && 0 <= j < self.managers.len() && i != j
                ==> self.managers[i].0 != self.managers[j].0
    }

    /// Why a redemption of `code` by `who` is refused, in the order the
    /// checks are made; `None` when it goes through.
    pub open spec fn redeem_refusal(self, who: Seq<char>, code: Seq<char>) -> Option<CanisterError> {
        if self.killed {
            Some(CanisterError::CanisterKilled)
        } else if self.is_registered(who) {
            Some(CanisterError::CannotRegisterMultipleTimes)
        } else if !self.has_code(code) {
            Some(CanisterError::CodeNotFound)
        } else if self.codes[self.code_at(code)].1.redeemed {
            Some(CanisterError::CodeAlreadyRedeemed)
        } else if self.is_manager(who) {
            Some(CanisterError::ManagersCannotParticipateInTheAirdrop)
        } else if self.codes[self.code_at(code)].1.depth < self.maximum_depth
            && self.pool.len() < self.numbers_of_children {
            Some(CanisterError::NoMoreCodes)
        } else {
            None
        }
    }

    /// How many children a redemption of the code at position `i` issues.
    pub open spec fn children_count(self, i: int) -> nat {
        if self.codes[i].1.depth < self.maximum_depth {
            self.numbers_of_children as nat
        } else {
            0
        }
    }

    /// The tree entries of the children issued for `who` below a code at `depth`.
    pub open spec fn child_entries(self, who: Seq<char>, depth: u64, n: nat) -> Seq<(Seq<char>, CodeRecord)> {
        self.pool.take(n as int).map_values(
            |c: Seq<char>| (c, CodeRecord { parent: who, depth: (depth + 1) as u64, redeemed: false }),
        )
    }

    /// The manager counters after a code issued by `parent` is redeemed.
    pub open spec fn managers_after_redeem(self, parent: Seq<char>) -> Seq<(Seq<char>, PrincipalState)> {
        if self.is_manager(parent) {
            let j = self.manager_at(parent);
            let m = self.managers[j].1;
            self.managers.update(
                j,
                (parent, PrincipalState { codes_generated: m.codes_generated, codes_redeemed: saturating_inc(m.codes_redeemed) }),
            )
        } else {
            self.managers
        }
    }

    /// The referral entry, if any, owed to `parent` when its code is redeemed.
    pub open spec fn referral_for(self, parent: Seq<char>) -> Seq<Reward> {
        if !self.is_manager(parent) && self.is_registered(parent) {
            seq![Reward {
                address: self.users[self.user_at(parent)].2,
                amount: self.token_per_person / 4,
                transferred: false,
                kind: RewardType::Referral,
            }]
        } else {
            seq![]
        }
    }

    /// The state after `who` redeems `code`, paid at `addr`.
    pub open spec fn after_redeem(self, who: Seq<char>, code: Seq<char>, addr: Seq<char>) -> StateView {
        let i = self.code_at(code);
        let entry = self.codes[i].1;
        let n = self.children_count(i);
        StateView {
            pool: self.pool.skip(n as int),
            codes: self.codes.update(
                i,
                (code, CodeRecord { parent: entry.parent, depth: entry.depth, redeemed: true }),
            ) + self.child_entries(who, entry.depth, n),
            users: self.users.push((who, code, addr)),
            managers: self.managers_after_redeem(entry.parent),
            rewards: self.rewards + self.referral_for(entry.parent) + seq![
                Reward {
                    address: addr,
                    amount: self.token_per_person / 4,
                    transferred: false,
                    kind: RewardType::Airdrop,
                },
            ],
            ..self
        }
    }

    /// The state after manager `who` is issued the code at the front of the pool.
    pub open spec fn after_generate(self, who: Seq<char>) -> StateView {
        let j = self.manager_at(who);
        let m = self.managers[j].1;
        StateView {
            pool: self.pool.skip(1),
            codes: self.codes.push((self.pool[0], CodeRecord { parent: who, depth: 0, redeemed: false })),
            managers: self.managers.update(
                j,
                (who, PrincipalState { codes_generated: saturating_inc(m.codes_generated), codes_redeemed: m.codes_redeemed }),
            ),
            ..self
        }
    }
}

} // verus!
