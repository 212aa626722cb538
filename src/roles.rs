use vstd::prelude::*;
use crate::error::CanisterError;
use crate::model::StateView;
use crate::state::State;
use crate::types::{Identity, PrincipalState};

verus! {

/// Identities as plain values.
pub open spec fn identities_view(v: Seq<Identity>) -> Seq<Seq<char>> {
    v.map_values(|i: Identity| i@)
}

impl State {
    /// Grants the admin role to `who`; granting it twice changes nothing.
    pub fn add_admin(&mut self, who: Identity) -> (r: Result<(), CanisterError>)
        requires
            old(self)@.wf(),
        ensures
            r is Ok,
            final(self)@.wf(),
            old(self)@.is_admin(who@) ==> final(self)@ == old(self)@,
            !old(self)@.is_admin(who@) ==> final(self)@ == (StateView { admins: old(self)@.admins.push(who@), ..old(self)@ }),
    {
        let ghost s0 = self@;
        let mut i: usize = 0;
        while i < self.principals_admins.len()
            invariant
                self@ == s0,
                s0.wf(),
                i <= self.principals_admins@.len(),
                forall|k: int| 0 <= k < i ==> self@.admins[k] != who@,
            decreases self.principals_admins@.len() - i,
        {
            if self.principals_admins[i].same(&who) {
                assert(self@.admins[i as int] == who@);
                return Ok(());
            }
            i += 1;
        }
        self.principals_admins.push(who);
        assert(self@.admins =~= s0.admins.push(who@));
        assert(self@ =~= (StateView { admins: s0.admins.push(who@), ..s0 }));
        Ok(())
    }

    /// Grants the manager role to `who`, with both counters at zero.
    pub fn add_manager(&mut self, who: Identity) -> (r: Result<(), CanisterError>)
        requires
            old(self)@.wf(),
        ensures
            final(self)@.wf(),
            old(self)@.is_manager(who@) ==> (r matches Err(CanisterError::DuplicateKey(k)) && k@ == who@
                && final(self)@ == old(self)@),
            !old(self)@.is_manager(who@) ==> (r is Ok && final(self)@ == (StateView {
                managers: old(self)@.managers.push((who@, PrincipalState { codes_generated: 0, codes_redeemed: 0 })),
                ..old(self)@
            })),
    {
        if self.is_manager(&who) {
            return Err(CanisterError::DuplicateKey(who.0.clone()));
        }
        let ghost s0 = self@;
        self.principals_managers.push((who, PrincipalState { codes_generated: 0, codes_redeemed: 0 }));
        let ghost t = StateView {
            managers: s0.managers.push((who@, PrincipalState { codes_generated: 0, codes_redeemed: 0 })),
            ..s0
        };
        assert(self@.managers =~= t.managers);
        assert(self@ =~= t);
        assert forall|a: int, b: int|
            0 <= a < t.managers.len() && 0 <= b < t.managers.len() && a != b
            implies t.managers[a].0 != t.managers[b].0 by {
            if a == s0.managers.len() {
                assert(s0.managers[b].0 != who@);
            } else if b == s0.managers.len() {
                assert(s0.managers[a].0 != who@);
            }
        }
        Ok(())
    }

    /// Takes `who` out of the airdrop, so that it may redeem again.
    pub fn remove_principal_airdrop(&mut self, who: &Identity) -> (r: Result<(), CanisterError>)
        requires
            old(self)@.wf(),
        ensures
            final(self)@.wf(),
            !old(self)@.is_registered(who@) ==> (r matches Err(CanisterError::PrincipalNotParticipatingInAirdrop)
                && final(self)@ == old(self)@),
            old(self)@.is_registered(who@) ==> (r is Ok && final(self)@ == (StateView {
                users: old(self)@.users.remove(old(self)@.user_at(who@)),
                ..old(self)@
            })),
    {
        let ghost s0 = self@;
        let u = match self.find_user(who) {
            Some(u) => u,
            None => {
                return Err(CanisterError::PrincipalNotParticipatingInAirdrop);
            },
        };
        proof {
            crate::state::lemma_user_at(s0, u as int);
        }
        self.principals_users.remove(u);
        let ghost t = StateView { users: s0.users.remove(u as int), ..s0 };
        assert(self@.users =~= t.users);
        assert(self@ =~= t);
        assert forall|a: int, b: int|
            0 <= a < t.users.len() && 0 <= b < t.users.len() && a != b
            implies t.users[a].0 != t.users[b].0 by {
            let a2 = if a < u { a } else { a + 1 };
            let b2 = if b < u { b } else { b + 1 };
            assert(t.users[a] == s0.users[a2]);
            assert(t.users[b] == s0.users[b2]);
        }
        Ok(())
    }

    /// Sets the operational flag: user-facing operations are refused.
    pub fn kill_canister(&mut self) -> (r: Result<(), CanisterError>)
        ensures
            r is Ok,
            final(self)@ == (StateView { killed: true, ..old(self)@ }),
    {
        self.killed = true;
        Ok(())
    }

    /// Clears the operational flag.
    pub fn bring_caninster_back_to_life(&mut self) -> (r: Result<(), CanisterError>)
        ensures
            r is Ok,
            final(self)@ == (StateView { killed: false, ..old(self)@ }),
    {
        self.killed = false;
        Ok(())
    }

    /// Updates the token budget.
    pub fn set_total_tokens(&mut self, total_tokens: u64) -> (r: Result<(), CanisterError>)
        ensures
            old(self).killed ==> (r matches Err(CanisterError::CanisterKilled) && final(self)@ == old(self)@),
            !old(self).killed ==> (r is Ok && final(self)@ == (StateView { total_tokens, ..old(self)@ })),
    {
        if self.killed {
            return Err(CanisterError::CanisterKilled);
        }
        self.total_tokens = total_tokens;
        Ok(())
    }

    /// The parameters: tokens per person, maximum depth, children per code
    /// and the token budget.
    pub fn get_state_parameters(&self) -> (r: Result<(u64, u64, u64, u64), CanisterError>)
        ensures
            self.killed ==> r matches Err(CanisterError::CanisterKilled),
            !self.killed ==> r == Ok::<(u64, u64, u64, u64), CanisterError>(
                (self.token_per_person, self.maximum_depth, self.numbers_of_children, self.total_tokens),
            ),
    {
        if self.killed {
            return Err(CanisterError::CanisterKilled);
        }
        Ok((self.token_per_person, self.maximum_depth, self.numbers_of_children, self.total_tokens))
    }
}

} // verus!
