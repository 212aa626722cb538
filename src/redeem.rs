use vstd::prelude::*;
use crate::error::CanisterError;
use crate::model::{CodeRecord, StateView};
use crate::state::State;
use crate::types::{
    AirdropAmount, Code, CodeState, EthereumAddress, EthereumTransaction, Identity, Info,
    PrincipalState, RewardType,
};

verus! {

/// A redemption that is not refused keeps the state well formed.
pub proof fn lemma_after_redeem_wf(s: StateView, who: Seq<char>, code: Seq<char>, addr: Seq<char>)
    requires
        s.wf(),
        s.redeem_refusal(who, code) is None,
    ensures
        s.after_redeem(who, code, addr).wf(),
{
    let t = s.after_redeem(who, code, addr);
    let i = s.code_at(code);
    let n = s.children_count(i);
    let kids = s.child_entries(who, s.codes[i].1.depth, n);
    assert(s.pool.skip(n as int).no_duplicates()) by {
        assert forall|a: int, b: int|
            0 <= a < s.pool.skip(n as int).len() && 0 <= b < s.pool.skip(n as int).len() && a != b
            implies s.pool.skip(n as int)[a] != s.pool.skip(n as int)[b] by {
            assert(s.pool.skip(n as int)[a] == s.pool[a + n]);
            assert(s.pool.skip(n as int)[b] == s.pool[b + n]);
        }
    }
    assert forall|a: int, b: int|
        0 <= a < t.codes.len() && 0 <= b < t.codes.len() && a != b
        implies t.codes[a].0 != t.codes[b].0 by {
        let m = s.codes.len() as int;
        if a < m && b < m {
        } else if a >= m && b >= m {
            assert(t.codes[a].0 == s.pool[a - m]);
            assert(t.codes[b].0 == s.pool[b - m]);
        } else if a < m {
            assert(t.codes[b].0 == s.pool[b - m]);
        } else {
            assert(t.codes[a].0 == s.pool[a - m]);
        }
    }
    assert forall|a: int, b: int|
        0 <= a < t.pool.len() && 0 <= b < t.codes.len()
        implies t.pool[a] != t.codes[b].0 by {
        let m = s.codes.len() as int;
        assert(t.pool[a] == s.pool[a + n]);
        if b >= m {
            assert(t.codes[b].0 == s.pool[b - m]);
        }
    }
    assert forall|a: int, b: int|
        0 <= a < t.users.len() && 0 <= b < t.users.len() && a != b
        implies t.users[a].0 != t.users[b].0 by {
        if a < s.users.len() && b < s.users.len() {
        } else if a < s.users.len() {
            assert(t.users[b].0 == who);
        } else {
            assert(t.users[a].0 == who);
        }
    }
    assert forall|a: int, b: int|
        0 <= a < t.managers.len() && 0 <= b < t.managers.len() && a != b
        implies t.managers[a].0 != t.managers[b].0 by {
        if s.is_manager(s.codes[i].1.parent) {
            let j = s.manager_at(s.codes[i].1.parent);
            assert(t.managers[j].0 == s.managers[j].0);
        }
        assert(t.managers[a].0 == s.managers[a].0);
        assert(t.managers[b].0 == s.managers[b].0);
    }
}

/// Codes with their redeemed flag, as plain values.
pub open spec fn code_flags(s: Seq<(Code, bool)>) -> Seq<(Seq<char>, bool)> {
    s.map_values(|p: (Code, bool)| (p.0@, p.1))
}

/// Freshly issued codes: none of them redeemed.
pub open spec fn unredeemed(s: Seq<Seq<char>>) -> Seq<(Seq<char>, bool)> {
    s.map_values(|c: Seq<char>| (c, false))
}

impl State {
    /// Redeems `code` for `caller`, whose payment address was resolved to
    /// `eth_address` beforehand. The checks run in a fixed order and the first
    /// that fails leaves the state untouched; otherwise the whole transition
    /// is applied: parent credited, caller registered, code marked redeemed,
    /// airdrop entry appended and, below the maximum depth, children issued.
    #[verifier::rlimit(40)]
    pub fn redeem_code(&mut self, caller: &Identity, code: &Code, eth_address: EthereumAddress) -> (r: Result<Info, CanisterError>)
        requires
            old(self)@.wf(),
        ensures
            final(self)@.wf(),
            old(self)@.redeem_refusal(caller@, code@) matches Some(e) ==> r == Err::<Info, CanisterError>(e)
                && final(self)@ == old(self)@,
            old(self)@.redeem_refusal(caller@, code@) is None ==> r is Ok
                && final(self)@ == old(self)@.after_redeem(caller@, code@, eth_address@),
            r matches Ok(info) ==> {
                &&& info.code@ == code@
                &&& !info.tokens_transferred
                &&& info.principal@ == caller@
                &&& info.ethereum_address@ == eth_address@
                &&& if old(self)@.codes[old(self)@.code_at(code@)].1.depth < old(self)@.maximum_depth {
                    info.children matches Some(ch) && code_flags(ch@)
                        == unredeemed(old(self)@.pool.take(old(self)@.numbers_of_children as int))
                } else {
                    info.children is None
                }
            },
    {
        if self.killed {
            return Err(CanisterError::CanisterKilled);
        }
        if self.find_user(caller).is_some() {
            return Err(CanisterError::CannotRegisterMultipleTimes);
        }
        let i = match self.find_code(code) {
            None => {
                return Err(CanisterError::CodeNotFound);
            },
            Some(i) => i,
        };
        proof {
            crate::state::lemma_code_at(self@, i as int);
        }
        if self.codes[i].1.redeemed {
            return Err(CanisterError::CodeAlreadyRedeemed);
        }
        if self.is_manager(caller) {
            return Err(CanisterError::ManagersCannotParticipateInTheAirdrop);
        }
        let depth = self.codes[i].1.depth;
        let grows = depth < self.maximum_depth;
        if grows && (self.pre_generated_codes.len() as u128) < (self.numbers_of_children as u128) {
            return Err(CanisterError::NoMoreCodes);
        }
        let ghost s0 = self@;
        let share = self.token_per_person / 4;
        let parent = self.codes[i].1.parent_principal.duplicate();
        match self.find_manager(&parent) {
            Some(j) => {
                proof {
                    crate::state::lemma_manager_at(s0, j as int);
                }
                let m = self.principals_managers[j].1;
                let id = self.principals_managers[j].0.duplicate();
                let counters = PrincipalState {
                    codes_generated: m.codes_generated,
                    codes_redeemed: m.codes_redeemed.saturating_add(1),
                };
                self.principals_managers.set(j, (id, counters));
            },
            None => {
                match self.find_user(&parent) {
                    Some(u) => {
                        proof {
                            crate::state::lemma_user_at(s0, u as int);
                        }
                        let addr = self.principals_users[u].2.duplicate();
                        self.airdrop_reward.push(
                            EthereumTransaction {
                                eth_address: addr,
                                amount: AirdropAmount(share),
                                transferred: false,
                                reward_type: RewardType::Referral,
                            },
                        );
                    },
                    None => {},
                }
            },
        }
        assert(self@.managers =~= s0.managers_after_redeem(s0.codes[i as int].1.parent));
        assert(self@.rewards =~= s0.rewards + s0.referral_for(s0.codes[i as int].1.parent));
        self.principals_users.push((caller.duplicate(), code.duplicate(), eth_address.duplicate()));
        let id = self.codes[i].0.duplicate();
        let holder = self.codes[i].1.parent_principal.duplicate();
        self.codes.set(i, (id, CodeState::new(holder, depth, true)));
        self.airdrop_reward.push(
            EthereumTransaction {
                eth_address: eth_address.duplicate(),
                amount: AirdropAmount(share),
                transferred: false,
                reward_type: RewardType::Airdrop,
            },
        );
        let ghost s1 = self@;
        let ghost n: nat = s0.children_count(i as int);
        assert(s0.code_at(code@) == i);
        assert(s1.codes =~= s0.codes.update(
            i as int,
            (code@, CodeRecord { parent: s0.codes[i as int].1.parent, depth, redeemed: true }),
        ) + s0.child_entries(caller@, depth, 0));
        assert(s1.pool =~= s0.pool.skip(0));
        let children = if grows {
            let mut out: Vec<(Code, bool)> = Vec::new();
            let mut k: u64 = 0;
            while k < self.numbers_of_children
                invariant
                    grows,
                    i < s0.codes.len(),
                    depth < s0.maximum_depth,
                    n == s0.numbers_of_children,
                    k <= n <= s0.pool.len(),
                    self.numbers_of_children == s0.numbers_of_children,
                    self@ == (StateView {
                        pool: s0.pool.skip(k as int),
                        codes: s0.codes.update(
                            i as int,
                            (code@, CodeRecord { parent: s0.codes[i as int].1.parent, depth, redeemed: true }),
                        ) + s0.child_entries(caller@, depth, k as nat),
                        ..s1
                    }),
                    out@.len() == k,
                    code_flags(out@)
                        == unredeemed(s0.pool.take(k as int)),
                decreases s0.numbers_of_children - k,
            {
                let ghost before = self@;
                let ghost out_before = out@;
                let ghost pv = self.pre_generated_codes@;
                assert(self.pre_generated_codes@.len() == self@.pool.len());
                assert(self@.pool[0] == pv[0]@);
                assert(self@.pool[0] == s0.pool.skip(k as int)[0]);
                let c = self.pre_generated_codes.remove(0);
                assert(c@ == s0.pool[k as int]);
                assert forall|x: int| 0 <= x < self@.pool.len() implies self@.pool[x] == s0.pool.skip(k + 1)[x] by {
                    assert(self@.pool[x] == pv[x + 1]@);
                    assert(before.pool[x + 1] == pv[x + 1]@);
                    assert(before.pool[x + 1] == s0.pool.skip(k as int)[x + 1]);
                }
                out.push((c.duplicate(), false));
                self.codes.push((c, CodeState::new(caller.duplicate(), depth + 1, false)));
                assert(self@.pool =~= s0.pool.skip(k + 1));
                assert(s0.child_entries(caller@, depth, (k + 1) as nat) =~= s0.child_entries(caller@, depth, k as nat).push(
                    (s0.pool[k as int], CodeRecord { parent: caller@, depth: (depth + 1) as u64, redeemed: false }),
                ));
                assert(self@.codes =~= before.codes.push(
                    (s0.pool[k as int], CodeRecord { parent: caller@, depth: (depth + 1) as u64, redeemed: false }),
                ));
                assert forall|x: int| 0 <= x < k + 1 implies
                    #[trigger] code_flags(out@)[x]
                        == unredeemed(s0.pool.take(k + 1))[x] by {
                    if x < k {
                        assert(out@[x] == out_before[x]);
                        assert(code_flags(out_before)[x]
                            == unredeemed(s0.pool.take(k as int))[x]);
                    }
                }
                assert(code_flags(out@)
                    =~= unredeemed(s0.pool.take(k + 1)));
                k += 1;
                assert(self@ =~= (StateView {
                    pool: s0.pool.skip(k as int),
                    codes: s0.codes.update(
                        i as int,
                        (code@, CodeRecord { parent: s0.codes[i as int].1.parent, depth, redeemed: true }),
                    ) + s0.child_entries(caller@, depth, k as nat),
                    ..s1
                }));
            }
            Some(out)
        } else {
            None
        };
        let ghost t = s0.after_redeem(caller@, code@, eth_address@);
        assert(self@.pool == t.pool);
        assert(self@.codes == t.codes);
        assert(self@.users =~= t.users);
        assert(self@.managers == t.managers);
        assert(self@.rewards =~= t.rewards);
        assert(self@ =~= t);
        proof {
            lemma_after_redeem_wf(s0, caller@, code@, eth_address@);
        }
        Ok(Info {
            code: code.duplicate(),
            tokens_transferred: false,
            principal: caller.duplicate(),
            ethereum_address: eth_address,
            children,
        })
    }
}

} // verus!
