use vstd::prelude::*;
use crate::error::CanisterError;
use crate::model::StateView;
use crate::roles::identities_view;
use crate::state::State;
use crate::types::{Code, Identity, PrincipalState};

verus! {

/// The managers whose identity is not in `gone`, in their order.
pub open spec fn managers_without(ms: Seq<(Seq<char>, PrincipalState)>, gone: Seq<Seq<char>>) -> Seq<(Seq<char>, PrincipalState)>
    decreases ms.len(),
{
    if ms.len() == 0 {
        Seq::empty()
    } else {
        let rest = managers_without(ms.drop_last(), gone);
        if gone.contains(ms.last().0) { rest } else { rest.push(ms.last()) }
    }
}

/// The identities not in `gone`, in their order.
pub open spec fn identities_without(s: Seq<Seq<char>>, gone: Seq<Seq<char>>) -> Seq<Seq<char>>
    decreases s.len(),
{
    if s.len() == 0 {
        Seq::empty()
    } else {
        let rest = identities_without(s.drop_last(), gone);
        if gone.contains(s.last()) { rest } else { rest.push(s.last()) }
    }
}

/// `s` with each value kept at its first occurrence only.
pub open spec fn dedup(s: Seq<Seq<char>>) -> Seq<Seq<char>>
    decreases s.len(),
{
    if s.len() == 0 {
        Seq::empty()
    } else {
        let d = dedup(s.drop_last());
        if d.contains(s.last()) { d } else { d.push(s.last()) }
    }
}

/// Whether some entry of `m` is keyed by `who`.
pub open spec fn keyed(m: Seq<(Seq<char>, PrincipalState)>, who: Seq<char>) -> bool {
    exists|k: int| 0 <= k < m.len() && #[trigger] m[k].0 == who
}

/// `m` with each identity kept at its first entry only.
pub open spec fn dedup_keys(m: Seq<(Seq<char>, PrincipalState)>) -> Seq<(Seq<char>, PrincipalState)>
    decreases m.len(),
{
    if m.len() == 0 {
        Seq::empty()
    } else {
        let d = dedup_keys(m.drop_last());
        if keyed(d, m.last().0) { d } else { d.push(m.last()) }
    }
}

/// Codes as plain values.
pub open spec fn codes_view(v: Seq<Code>) -> Seq<Seq<char>> {
    v.map_values(|c: Code| c@)
}

/// Manager entries as plain values.
pub open spec fn pairs_view(v: Seq<(Identity, PrincipalState)>) -> Seq<(Seq<char>, PrincipalState)> {
    v.map_values(|e: (Identity, PrincipalState)| (e.0@, e.1))
}

/// Whether `who` is among `v`.
pub fn contains_identity(v: &Vec<Identity>, who: &Identity) -> (r: bool)
    ensures
        r == identities_view(v@).contains(who@),
{
    let mut i: usize = 0;
    while i < v.len()
        invariant
            i <= v@.len(),
            forall|k: int| 0 <= k < i ==> identities_view(v@)[k] != who@,
        decreases v@.len() - i,
    {
        if v[i].same(who) {
            assert(identities_view(v@)[i as int] == who@);
            return true;
        }
        i += 1;
    }
    false
}

impl State {
    /// Revokes the manager role of every identity in `principals`.
    pub fn remove_managers(&mut self, principals: Vec<Identity>) -> (r: Result<(), CanisterError>)
        requires
            old(self)@.wf(),
        ensures
            final(self)@.wf(),
            old(self).killed ==> (r matches Err(CanisterError::CanisterKilled) && final(self)@ == old(self)@),
            !old(self).killed ==> (r is Ok && final(self)@ == (StateView {
                managers: managers_without(old(self)@.managers, identities_view(principals@)),
                ..old(self)@
            })),
    {
        if self.killed {
            return Err(CanisterError::CanisterKilled);
        }
        let ghost s0 = self@;
        let ghost ms = s0.managers;
        let ghost gone = identities_view(principals@);
        let mut kept: Vec<(Identity, PrincipalState)> = Vec::new();
        let mut i: usize = 0;
        while i < self.principals_managers.len()
            invariant
                self@ == s0,
                s0.wf(),
                ms == s0.managers,
                gone == identities_view(principals@),
                i <= ms.len(),
                pairs_view(kept@) == managers_without(ms.take(i as int), gone),
                forall|a: int| 0 <= a < kept@.len() ==> exists|j: int| 0 <= j < i && #[trigger] kept@[a].0@ == ms[j].0,
                forall|a: int, b: int| 0 <= a < kept@.len() && 0 <= b < kept@.len() && a != b
                    ==> kept@[a].0@ != kept@[b].0@,
            decreases ms.len() - i,
        {
            assert(ms.take(i + 1).drop_last() =~= ms.take(i as int));
            let ghost before = kept@;
            if !contains_identity(&principals, &self.principals_managers[i].0) {
                let id = self.principals_managers[i].0.duplicate();
                kept.push((id, self.principals_managers[i].1));
                assert(pairs_view(kept@)
                    =~= pairs_view(before).push(ms[i as int]));
                assert forall|a: int| 0 <= a < kept@.len() implies exists|j: int| 0 <= j < i + 1 && #[trigger] kept@[a].0@ == ms[j].0 by {
                    if a == before.len() {
                        assert(kept@[a].0@ == ms[i as int].0);
                    } else {
                        assert(kept@[a] == before[a]);
                    }
                }
                assert forall|a: int, b: int| 0 <= a < kept@.len() && 0 <= b < kept@.len() && a != b
                    implies kept@[a].0@ != kept@[b].0@ by {
                    if a == before.len() {
                        assert(kept@[b] == before[b]);
                        let j = choose|j: int| 0 <= j < i && #[trigger] before[b].0@ == ms[j].0;
                    } else if b == before.len() {
                        assert(kept@[a] == before[a]);
                        let j = choose|j: int| 0 <= j < i && #[trigger] before[a].0@ == ms[j].0;
                    } else {
                        assert(kept@[a] == before[a]);
                        assert(kept@[b] == before[b]);
                    }
                }
            }
            i += 1;
        }
        assert(ms.take(ms.len() as int) =~= ms);
        self.principals_managers = kept;
        let ghost t = StateView { managers: managers_without(ms, gone), ..s0 };
        assert(self@ =~= t);
        Ok(())
    }

    /// Revokes the admin role of every identity in `principals`.
    pub fn remove_admins(&mut self, principals: Vec<Identity>) -> (r: Result<(), CanisterError>)
        requires
            old(self)@.wf(),
        ensures
            final(self)@.wf(),
            old(self).killed ==> (r matches Err(CanisterError::CanisterKilled) && final(self)@ == old(self)@),
            !old(self).killed ==> (r is Ok && final(self)@ == (StateView {
                admins: identities_without(old(self)@.admins, identities_view(principals@)),
                ..old(self)@
            })),
    {
        if self.killed {
            return Err(CanisterError::CanisterKilled);
        }
        let ghost s0 = self@;
        let ghost ads = s0.admins;
        let ghost gone = identities_view(principals@);
        let mut kept: Vec<Identity> = Vec::new();
        let mut i: usize = 0;
        while i < self.principals_admins.len()
            invariant
                self@ == s0,
                ads == s0.admins,
                gone == identities_view(principals@),
                i <= ads.len(),
                identities_view(kept@) == identities_without(ads.take(i as int), gone),
            decreases ads.len() - i,
        {
            assert(ads.take(i + 1).drop_last() =~= ads.take(i as int));
            let ghost before = kept@;
            if !contains_identity(&principals, &self.principals_admins[i]) {
                kept.push(self.principals_admins[i].duplicate());
                assert(identities_view(kept@) =~= identities_view(before).push(ads[i as int]));
            }
            i += 1;
        }
        assert(ads.take(ads.len() as int) =~= ads);
        self.principals_admins = kept;
        assert(self@ =~= (StateView { admins: identities_without(ads, gone), ..s0 }));
        Ok(())
    }

    /// Keeps the first occurrence of every pooled code and of every manager,
    /// dropping later repeats. A well-formed state has none, and any state
    /// comes out with none.
    pub fn clean_up(&mut self) -> (r: Result<(), CanisterError>)
        ensures
            old(self).killed ==> (r matches Err(CanisterError::CanisterKilled) && final(self)@ == old(self)@),
            !old(self).killed ==> (r is Ok && final(self)@ == (StateView {
                pool: dedup(old(self)@.pool),
                managers: dedup_keys(old(self)@.managers),
                ..old(self)@
            })),
            !old(self).killed ==> final(self)@.pool.no_duplicates(),
            !old(self).killed ==> forall|a: int, b: int|
                0 <= a < final(self)@.managers.len() && 0 <= b < final(self)@.managers.len() && a != b
                    ==> final(self)@.managers[a].0 != final(self)@.managers[b].0,
            old(self)@.wf() ==> final(self)@.wf(),
    {
        if self.killed {
            return Err(CanisterError::CanisterKilled);
        }
        let ghost s0 = self@;
        let ghost pool = s0.pool;
        let mut codes: Vec<Code> = Vec::new();
        let mut i: usize = 0;
        while i < self.pre_generated_codes.len()
            invariant
                self@ == s0,
                pool == s0.pool,
                i <= pool.len(),
                codes_view(codes@) == dedup(pool.take(i as int)),
                codes_view(codes@).no_duplicates(),
                forall|a: int| 0 <= a < codes@.len() ==> exists|j: int| 0 <= j < i && #[trigger] codes@[a]@ == pool[j],
            decreases pool.len() - i,
        {
            assert(pool.take(i + 1).drop_last() =~= pool.take(i as int));
            let ghost before = codes@;
            let mut seen = false;
            let mut k: usize = 0;
            while k < codes.len()
                invariant
                    k <= codes@.len(),
                    i < pool.len(),
                    self@ == s0,
                    pool == s0.pool,
                    seen == exists|j: int| 0 <= j < k && #[trigger] codes@[j]@ == pool[i as int],
                decreases codes@.len() - k,
            {
                if codes[k].same(&self.pre_generated_codes[i]) {
                    assert(codes@[k as int]@ == pool[i as int]);
                    seen = true;
                }
                k += 1;
            }
            assert(seen == codes_view(codes@).contains(pool[i as int])) by {
                if seen {
                    let j = choose|j: int| 0 <= j < codes@.len() && #[trigger] codes@[j]@ == pool[i as int];
                    assert(codes_view(codes@)[j] == pool[i as int]);
                }
                if codes_view(codes@).contains(pool[i as int]) {
                    let j = choose|j: int| 0 <= j < codes@.len() && #[trigger] codes_view(codes@)[j] == pool[i as int];
                    assert(codes@[j]@ == pool[i as int]);
                }
            }
            if !seen {
                codes.push(self.pre_generated_codes[i].duplicate());
                assert(codes_view(codes@) =~= codes_view(before).push(pool[i as int]));
                assert forall|a: int| 0 <= a < codes@.len() implies exists|j: int| 0 <= j < i + 1 && #[trigger] codes@[a]@ == pool[j] by {
                    if a == before.len() {
                        assert(codes@[a]@ == pool[i as int]);
                    } else {
                        assert(codes@[a] == before[a]);
                    }
                }
            }
            i += 1;
        }
        assert(pool.take(pool.len() as int) =~= pool);
        let ghost ms = s0.managers;
        let mut managers: Vec<(Identity, PrincipalState)> = Vec::new();
        let mut i: usize = 0;
        while i < self.principals_managers.len()
            invariant
                self@ == s0,
                ms == s0.managers,
                i <= ms.len(),
                pairs_view(managers@) == dedup_keys(ms.take(i as int)),
                forall|a: int, b: int| 0 <= a < managers@.len() && 0 <= b < managers@.len() && a != b
                    ==> managers@[a].0@ != managers@[b].0@,
            decreases ms.len() - i,
        {
            assert(ms.take(i + 1).drop_last() =~= ms.take(i as int));
            let ghost before = managers@;
            let mut seen = false;
            let mut k: usize = 0;
            while k < managers.len()
                invariant
                    k <= managers@.len(),
                    i < ms.len(),
                    self@ == s0,
                    ms == s0.managers,
                    seen == exists|j: int| 0 <= j < k && #[trigger] managers@[j].0@ == ms[i as int].0,
                decreases managers@.len() - k,
            {
                if managers[k].0.same(&self.principals_managers[i].0) {
                    assert(managers@[k as int].0@ == ms[i as int].0);
                    seen = true;
                }
                k += 1;
            }
            assert(seen == keyed(pairs_view(managers@), ms[i as int].0)) by {
                let mv = pairs_view(managers@);
                if seen {
                    let j = choose|j: int| 0 <= j < managers@.len() && #[trigger] managers@[j].0@ == ms[i as int].0;
                    assert(mv[j].0 == ms[i as int].0);
                }
                if keyed(mv, ms[i as int].0) {
                    let j = choose|j: int| 0 <= j < mv.len() && #[trigger] mv[j].0 == ms[i as int].0;
                    assert(managers@[j].0@ == ms[i as int].0);
                }
            }
            if !seen {
                let id = self.principals_managers[i].0.duplicate();
                managers.push((id, self.principals_managers[i].1));
                assert(pairs_view(managers@)
                    =~= pairs_view(before).push(ms[i as int]));
                assert forall|a: int, b: int| 0 <= a < managers@.len() && 0 <= b < managers@.len() && a != b
                    implies managers@[a].0@ != managers@[b].0@ by {
                    if a == before.len() {
                        assert(managers@[b] == before[b]);
                    } else if b == before.len() {
                        assert(managers@[a] == before[a]);
                    } else {
                        assert(managers@[a] == before[a]);
                        assert(managers@[b] == before[b]);
                    }
                }
            }
            i += 1;
        }
        assert(ms.take(ms.len() as int) =~= ms);
        self.pre_generated_codes = codes;
        self.principals_managers = managers;
        let ghost t = StateView { pool: dedup(pool), managers: dedup_keys(ms), ..s0 };
        assert(self@ =~= t);
        assert(s0.wf() ==> t.wf()) by {
            if s0.wf() {
                assert forall|a: int, b: int| 0 <= a < t.pool.len() && 0 <= b < t.codes.len()
                    implies t.pool[a] != t.codes[b].0 by {
                    assert(t.pool[a] == self.pre_generated_codes@[a]@);
                    let j = choose|j: int| 0 <= j < pool.len() && #[trigger] self.pre_generated_codes@[a]@ == pool[j];
                }
            }
        }
        Ok(())
    }
}

} // verus!
