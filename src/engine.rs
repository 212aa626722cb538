use vstd::prelude::*;
use crate::error::CanisterError;
use crate::model::{CodeRecord, Reward, StateView};
use crate::redeem::code_flags;
use crate::state::State;
use crate::types::{Code, CodeInfo, CodeState, Identity, Info, PrincipalState, RewardType};

verus! {

/// The codes whose parent is `who`, in tree order, with their redeemed flag.
pub open spec fn children_of(codes: Seq<(Seq<char>, CodeRecord)>, who: Seq<char>) -> Seq<(Seq<char>, bool)>
    decreases codes.len(),
{
    if codes.len() == 0 {
        Seq::empty()
    } else {
        let rest = children_of(codes.drop_last(), who);
        if codes.last().1.parent == who {
            rest.push((codes.last().0, codes.last().1.redeemed))
        } else {
            rest
        }
    }
}

/// Whether an airdrop entry paid to `addr` has been transferred.
pub open spec fn airdrop_transferred(rewards: Seq<Reward>, addr: Seq<char>) -> bool {
    exists|k: int|
        0 <= k < rewards.len() && #[trigger] rewards[k].address == addr
            && rewards[k].kind == RewardType::Airdrop && rewards[k].transferred
}

/// The pool after offering `batch` to it: a code is added unless it is
/// already pooled or issued.
pub open spec fn pool_after_adding(s: StateView, batch: Seq<Seq<char>>) -> Seq<Seq<char>>
    decreases batch.len(),
{
    if batch.len() == 0 {
        s.pool
    } else {
        let p = pool_after_adding(s, batch.drop_last());
        if p.contains(batch.last()) || s.has_code(batch.last()) {
            p
        } else {
            p.push(batch.last())
        }
    }
}

/// Strings as plain values.
pub open spec fn strings_view(v: Seq<String>) -> Seq<Seq<char>> {
    v.map_values(|c: String| c@)
}

impl State {
    /// A fresh engine with the given parameters, `admin` as its only admin.
    pub fn init(
        backend_canister_id: Identity,
        token_per_person: u64,
        maximum_depth: u64,
        numbers_of_children: u64,
        total_tokens: u64,
        admin: Identity,
    ) -> (r: State)
        requires
            token_per_person % 4 == 0,
        ensures
            r@.wf(),
            r@ == (StateView {
                backend: backend_canister_id@,
                token_per_person,
                maximum_depth,
                numbers_of_children,
                total_tokens,
                killed: false,
                pool: Seq::empty(),
                codes: Seq::empty(),
                users: Seq::empty(),
                managers: Seq::empty(),
                admins: seq![admin@],
                rewards: Seq::empty(),
            }),
    {
        let mut admins: Vec<Identity> = Vec::new();
        admins.push(admin);
        let r = State {
            backend_canister_id,
            token_per_person,
            maximum_depth,
            numbers_of_children,
            total_tokens,
            killed: false,
            pre_generated_codes: Vec::new(),
            codes: Vec::new(),
            principals_users: Vec::new(),
            principals_managers: Vec::new(),
            principals_admins: admins,
            airdrop_reward: Vec::new(),
        };
        assert(r@.pool =~= Seq::empty());
        assert(r@.codes =~= Seq::empty());
        assert(r@.users =~= Seq::empty());
        assert(r@.managers =~= Seq::empty());
        assert(r@.rewards =~= Seq::empty());
        assert(r@.admins =~= seq![r.principals_admins@[0]@]);
        r
    }

    /// Whether `c` is waiting in the pool.
    pub fn pool_contains(&self, c: &String) -> (r: bool)
        ensures
            r == self@.pool.contains(c@),
    {
        let mut i: usize = 0;
        while i < self.pre_generated_codes.len()
            invariant
                i <= self.pre_generated_codes@.len(),
                forall|k: int| 0 <= k < i ==> self@.pool[k] != c@,
            decreases self.pre_generated_codes@.len() - i,
        {
            if self.pre_generated_codes[i].0 == *c {
                assert(self@.pool[i as int] == c@);
                return true;
            }
            i += 1;
        }
        false
    }

    /// Offers codes made offline to the pool; a code already pooled or
    /// issued is skipped.
    pub fn add_codes(&mut self, codes: Vec<String>) -> (r: Result<(), CanisterError>)
        requires
            old(self)@.wf(),
        ensures
            r is Ok,
            final(self)@.wf(),
            final(self)@ == (StateView { pool: pool_after_adding(old(self)@, strings_view(codes@)), ..old(self)@ }),
    {
        let ghost s0 = self@;
        let ghost batch = strings_view(codes@);
        let mut i: usize = 0;
        assert(batch.take(0) =~= Seq::<Seq<char>>::empty());
        while i < codes.len()
            invariant
                i <= codes@.len(),
                batch == strings_view(codes@),
                s0.wf(),
                self@.wf(),
                self@ == (StateView { pool: pool_after_adding(s0, batch.take(i as int)), ..s0 }),
            decreases codes@.len() - i,
        {
            let c = &codes[i];
            assert(batch.take(i + 1).drop_last() =~= batch.take(i as int));
            let candidate = Code(c.clone());
            assert(candidate@ == c@);
            let known = match self.find_code(&candidate) {
                Some(k) => {
                    assert(s0.codes[k as int].0 == c@);
                    assert(s0.has_code(c@));
                    true
                },
                None => {
                    assert(self@.codes == s0.codes);
                    assert(!self@.has_code(c@));
                    assert(!s0.has_code(c@));
                    false
                },
            };
            assert(batch[i as int] == c@);
            assert(batch.take(i + 1).last() == c@);
            let ghost before = self@;
            let pooled = self.pool_contains(c);
            if !known && !pooled {
                self.pre_generated_codes.push(Code(c.clone()));
                assert(self@.pool =~= before.pool.push(c@));
                assert(self@.wf()) by {
                    assert forall|a: int, b: int|
                        0 <= a < self@.pool.len() && 0 <= b < self@.pool.len() && a != b
                        implies self@.pool[a] != self@.pool[b] by {
                        if a == before.pool.len() {
                            assert(self@.pool[b] == before.pool[b]);
                            assert(before.pool[b] != c@);
                        } else if b == before.pool.len() {
                            assert(self@.pool[a] == before.pool[a]);
                            assert(before.pool[a] != c@);
                        } else {
                            assert(self@.pool[a] == before.pool[a]);
                            assert(self@.pool[b] == before.pool[b]);
                        }
                    }
                    assert forall|a: int, b: int|
                        0 <= a < self@.pool.len() && 0 <= b < self@.codes.len()
                        implies self@.pool[a] != self@.codes[b].0 by {
                        if a == before.pool.len() {
                            assert(before.codes[b].0 != c@);
                        } else {
                            assert(self@.pool[a] == before.pool[a]);
                        }
                    }
                }
                assert(before.pool == pool_after_adding(s0, batch.take(i as int)));
                assert(!before.pool.contains(c@) && !s0.has_code(c@));
                assert(pool_after_adding(s0, batch.take(i + 1)) == before.pool.push(c@));
                assert(self@ =~= (StateView { pool: pool_after_adding(s0, batch.take(i + 1)), ..s0 }));
            } else {
                assert(before.pool == pool_after_adding(s0, batch.take(i as int)));
                assert(before.pool.contains(c@) || s0.has_code(c@));
                assert(pool_after_adding(s0, batch.take(i + 1)) == before.pool);
                assert(self@ =~= (StateView { pool: pool_after_adding(s0, batch.take(i + 1)), ..s0 }));
            }
            i += 1;
        }
        assert(batch.take(codes@.len() as int) =~= batch);
        Ok(())
    }

    /// Takes the code at the front of the pool.
    pub fn draw(&mut self) -> (r: Result<Code, CanisterError>)
        ensures
            old(self)@.pool.len() == 0 ==> (r matches Err(CanisterError::NoMoreCodes) && final(self)@ == old(self)@),
            old(self)@.pool.len() > 0 ==> (r matches Ok(c) && c@ == old(self)@.pool[0]
                && final(self)@ == (StateView { pool: old(self)@.pool.skip(1), ..old(self)@ })),
    {
        if self.pre_generated_codes.len() == 0 {
            return Err(CanisterError::NoMoreCodes);
        }
        let ghost s0 = self@;
        let c = self.pre_generated_codes.remove(0);
        assert(self@.pool =~= s0.pool.skip(1));
        Ok(c)
    }

    /// Issues the next pooled code as a root code of `caller`, a manager.
    pub fn generate_code(&mut self, caller: &Identity) -> (r: Result<CodeInfo, CanisterError>)
        requires
            old(self)@.wf(),
            old(self)@.is_manager(caller@),
        ensures
            final(self)@.wf(),
            old(self).killed ==> (r matches Err(CanisterError::CanisterKilled) && final(self)@ == old(self)@),
            !old(self).killed && old(self)@.pool.len() == 0
                ==> (r matches Err(CanisterError::NoMoreCodes) && final(self)@ == old(self)@),
            !old(self).killed && old(self)@.pool.len() > 0 ==> (r matches Ok(info) && {
                let t = old(self)@.after_generate(caller@);
                let m = t.managers[old(self)@.manager_at(caller@)].1;
                &&& info.code@ == old(self)@.pool[0]
                &&& info.codes_generated == m.codes_generated
                &&& info.codes_redeemed == m.codes_redeemed
                &&& final(self)@ == t
            }),
    {
        if self.killed {
            return Err(CanisterError::CanisterKilled);
        }
        let ghost s0 = self@;
        let j = match self.find_manager(caller) {
            Some(j) => j,
            None => {
                // never taken: the precondition makes the caller a manager
                proof {
                    assert(false);
                }
                return Err(CanisterError::NoMoreCodes);
            },
        };
        proof {
            crate::state::lemma_manager_at(s0, j as int);
        }
        let code = match self.draw() {
            Ok(c) => c,
            Err(e) => {
                return Err(e);
            },
        };
        let ghost s1 = self@;
        self.codes.push((code.duplicate(), CodeState::new(caller.duplicate(), 0, false)));
        let m = self.principals_managers[j].1;
        let counters = PrincipalState {
            codes_generated: m.codes_generated.saturating_add(1),
            codes_redeemed: m.codes_redeemed,
        };
        self.principals_managers.set(j, (caller.duplicate(), counters));
        let ghost t = StateView {
            pool: s0.pool.skip(1),
            codes: s0.codes.push((s0.pool[0], CodeRecord { parent: caller@, depth: 0, redeemed: false })),
            managers: s0.managers.update(j as int, (caller@, counters)),
            ..s0
        };
        assert(self@.codes =~= t.codes);
        assert(self@.managers =~= t.managers);
        assert(self@ =~= t);
        assert(t.wf()) by {
            assert forall|a: int, b: int|
                0 <= a < t.codes.len() && 0 <= b < t.codes.len() && a != b
                implies t.codes[a].0 != t.codes[b].0 by {
                if a == s0.codes.len() {
                    assert(t.codes[a].0 == s0.pool[0]);
                }
                if b == s0.codes.len() {
                    assert(t.codes[b].0 == s0.pool[0]);
                }
            }
            assert forall|a: int, b: int|
                0 <= a < t.pool.len() && 0 <= b < t.codes.len()
                implies t.pool[a] != t.codes[b].0 by {
                assert(t.pool[a] == s0.pool[a + 1]);
                if b == s0.codes.len() {
                    assert(t.codes[b].0 == s0.pool[0]);
                }
            }
            assert(t.pool.no_duplicates()) by {
                assert forall|a: int, b: int|
                    0 <= a < t.pool.len() && 0 <= b < t.pool.len() && a != b
                    implies t.pool[a] != t.pool[b] by {
                    assert(t.pool[a] == s0.pool[a + 1]);
                    assert(t.pool[b] == s0.pool[b + 1]);
                }
            }
            assert forall|a: int, b: int|
                0 <= a < t.managers.len() && 0 <= b < t.managers.len() && a != b
                implies t.managers[a].0 != t.managers[b].0 by {
                assert(t.managers[a].0 == s0.managers[a].0);
                assert(t.managers[b].0 == s0.managers[b].0);
            }
        }
        Ok(CodeInfo { code, codes_generated: counters.codes_generated, codes_redeemed: counters.codes_redeemed })
    }

    /// What `caller` knows of its own redemption: its code and address,
    /// the codes issued below it, and whether its airdrop was transferred.
    pub fn get_code(&self, caller: &Identity) -> (r: Result<Info, CanisterError>)
        requires
            self@.wf(),
        ensures
            self.killed ==> r matches Err(CanisterError::CanisterKilled),
            !self.killed && !self@.is_registered(caller@) ==> r matches Err(CanisterError::CodeNotFound),
            !self.killed && self@.is_registered(caller@) ==> (r matches Ok(info) && {
                let u = self@.users[self@.user_at(caller@)];
                let kids = children_of(self@.codes, caller@);
                &&& info.code@ == u.1
                &&& info.ethereum_address@ == u.2
                &&& info.principal@ == caller@
                &&& info.tokens_transferred == airdrop_transferred(self@.rewards, u.2)
                &&& if kids.len() == 0 {
                    info.children is None
                } else {
                    info.children matches Some(ch) && code_flags(ch@) == kids
                }
            }),
    {
        if self.killed {
            return Err(CanisterError::CanisterKilled);
        }
        let u = match self.find_user(caller) {
            Some(u) => u,
            None => {
                return Err(CanisterError::CodeNotFound);
            },
        };
        proof {
            crate::state::lemma_user_at(self@, u as int);
        }
        let code = self.principals_users[u].1.duplicate();
        let address = self.principals_users[u].2.duplicate();
        let ghost cs = self@.codes;
        let mut children: Vec<(Code, bool)> = Vec::new();
        let mut i: usize = 0;
        while i < self.codes.len()
            invariant
                i <= cs.len(),
                cs == self@.codes,
                code_flags(children@) == children_of(cs.take(i as int), caller@),
            decreases cs.len() - i,
        {
            assert(cs.take(i + 1).drop_last() =~= cs.take(i as int));
            let ghost before = children@;
            if self.codes[i].1.parent_principal.same(caller) {
                children.push((self.codes[i].0.duplicate(), self.codes[i].1.redeemed));
                assert(code_flags(children@) =~= code_flags(before).push((cs[i as int].0, cs[i as int].1.redeemed)));
            }
            i += 1;
        }
        assert(cs.take(cs.len() as int) =~= cs);
        let mut transferred = false;
        let mut k: usize = 0;
        while k < self.airdrop_reward.len()
            invariant
                k <= self@.rewards.len(),
                address@ == self@.users[u as int].2,
                transferred == exists|j: int|
                    0 <= j < k && #[trigger] self@.rewards[j].address == address@
                        && self@.rewards[j].kind == RewardType::Airdrop && self@.rewards[j].transferred,
            decreases self@.rewards.len() - k,
        {
            let entry = &self.airdrop_reward[k];
            if entry.eth_address.same(&address) && entry.transferred {
                match entry.reward_type {
                    RewardType::Airdrop => {
                        assert(self@.rewards[k as int].address == address@);
                        transferred = true;
                    },
                    RewardType::Referral => {},
                }
            }
            k += 1;
        }
        let children = if children.len() == 0 {
            None
        } else {
            Some(children)
        };
        Ok(Info {
            code,
            tokens_transferred: transferred,
            principal: caller.duplicate(),
            ethereum_address: address,
            children,
        })
    }
}

} // verus!
