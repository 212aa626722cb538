use vstd::prelude::*;
use crate::error::CanisterError;
use crate::model::Reward;
use crate::state::State;
use crate::types::{AirdropAmount, EthereumAddress, EthereumTransaction, Index, PrincipalState, RewardType};

verus! {

/// The ledger from position `start` to its end, each entry with its own index.
pub open spec fn list_from(rewards: Seq<Reward>, start: nat) -> Seq<(u64, Seq<char>, u64)> {
    if start >= rewards.len() {
        Seq::empty()
    } else {
        Seq::new(
            (rewards.len() - start) as nat,
            |k: int| ((start + k) as u64, rewards[start + k].address, rewards[start + k].amount),
        )
    }
}

/// Ledger rows as plain values.
pub open spec fn rows_view(v: Seq<(Index, EthereumAddress, AirdropAmount)>) -> Seq<(u64, Seq<char>, u64)> {
    v.map_values(|e: (Index, EthereumAddress, AirdropAmount)| (e.0.0, e.1@, e.2.0))
}

/// Indexes as plain values.
pub open spec fn index_view(v: Seq<Index>) -> Seq<u64> {
    v.map_values(|i: Index| i.0)
}

/// The ledger with every entry whose position is among `ids` marked transferred.
pub open spec fn mark_transferred(rewards: Seq<Reward>, ids: Seq<u64>) -> Seq<Reward> {
    Seq::new(
        rewards.len(),
        |p: int|
            if ids.contains(p as u64) {
                Reward { transferred: true, ..rewards[p] }
            } else {
                rewards[p]
            },
    )
}

proof fn lemma_take_contains(s: Seq<u64>, k: int, x: u64)
    requires
        0 <= k < s.len(),
    ensures
        s.take(k + 1).contains(x) == (s.take(k).contains(x) || s[k] == x),
{
    if s.take(k + 1).contains(x) {
        let j = choose|j: int| 0 <= j < k + 1 && #[trigger] s.take(k + 1)[j] == x;
        if j < k {
            assert(s.take(k)[j] == x);
        }
    }
    if s.take(k).contains(x) {
        let j = choose|j: int| 0 <= j < k && #[trigger] s.take(k)[j] == x;
        assert(s.take(k + 1)[j] == x);
    }
    if s[k] == x {
        assert(s.take(k + 1)[k] == x);
    }
}

/// The number of entries of the given kind.
pub open spec fn count_kind(r: Seq<Reward>, kind: RewardType) -> nat
    decreases r.len(),
{
    if r.len() == 0 {
        0
    } else {
        count_kind(r.drop_last(), kind) + if r.last().kind == kind { 1nat } else { 0nat }
    }
}

/// The number of entries whose transferred flag is `flag`.
pub open spec fn count_transferred(r: Seq<Reward>, flag: bool) -> nat
    decreases r.len(),
{
    if r.len() == 0 {
        0
    } else {
        count_transferred(r.drop_last(), flag) + if r.last().transferred == flag { 1nat } else { 0nat }
    }
}

/// The sum of all amounts in the ledger.
pub open spec fn amount_total(r: Seq<Reward>) -> nat
    decreases r.len(),
{
    if r.len() == 0 {
        0
    } else {
        amount_total(r.drop_last()) + r.last().amount as nat
    }
}

/// The number of codes issued by all managers together.
pub open spec fn generated_total(m: Seq<(Seq<char>, PrincipalState)>) -> nat
    decreases m.len(),
{
    if m.len() == 0 {
        0
    } else {
        generated_total(m.drop_last()) + m.last().1.codes_generated as nat
    }
}

/// `x`, held at the largest `u64`.
pub open spec fn clamp(x: nat) -> u64 {
    if x > u64::MAX { u64::MAX } else { x as u64 }
}

/// Aggregates over the ledger, the pool and the manager counters.
pub struct Stats {
    pub total_code_generated: u64,
    pub total_code_redeemed: usize,
    pub total_referral: usize,
    pub total_code_left: usize,
    pub total_tokens_distributed: u64,
    pub total_tokens_left: u64,
    pub total_transaction_done: usize,
    pub total_airdrop_transaction_waiting: usize,
}

impl State {
    /// Aggregates of the engine: codes issued by managers, airdrop and
    /// referral entries, codes left in the pool, tokens handed out and left
    /// (both held within `u64`), and transfers done and pending.
    pub fn get_stats(&self) -> (r: Result<Stats, CanisterError>)
        ensures
            self.killed ==> r matches Err(CanisterError::CanisterKilled),
            !self.killed ==> (r matches Ok(st) && {
                &&& st.total_code_generated == clamp(generated_total(self@.managers))
                &&& st.total_code_redeemed == count_kind(self@.rewards, RewardType::Airdrop)
                &&& st.total_referral == count_kind(self@.rewards, RewardType::Referral)
                &&& st.total_code_left == self@.pool.len()
                &&& st.total_tokens_distributed == clamp(amount_total(self@.rewards))
                &&& st.total_tokens_left == if self.total_tokens >= clamp(amount_total(self@.rewards)) {
                    (self.total_tokens - clamp(amount_total(self@.rewards))) as u64
                } else {
                    0
                }
                &&& st.total_transaction_done == count_transferred(self@.rewards, true)
                &&& st.total_airdrop_transaction_waiting == count_transferred(self@.rewards, false)
            }),
    {
        if self.killed {
            return Err(CanisterError::CanisterKilled);
        }
        let ghost m = self@.managers;
        let mut generated: u64 = 0;
        let mut i: usize = 0;
        while i < self.principals_managers.len()
            invariant
                i <= m.len(),
                m == self@.managers,
                generated == clamp(generated_total(m.take(i as int))),
            decreases m.len() - i,
        {
            assert(m.take(i + 1).drop_last() =~= m.take(i as int));
            generated = generated.saturating_add(self.principals_managers[i].1.codes_generated);
            i += 1;
        }
        assert(m.take(m.len() as int) =~= m);
        let ghost r = self@.rewards;
        let mut airdrops: usize = 0;
        let mut referrals: usize = 0;
        let mut done: usize = 0;
        let mut waiting: usize = 0;
        let mut distributed: u64 = 0;
        let mut i: usize = 0;
        while i < self.airdrop_reward.len()
            invariant
                i <= r.len(),
                r == self@.rewards,
                airdrops == count_kind(r.take(i as int), RewardType::Airdrop),
                referrals == count_kind(r.take(i as int), RewardType::Referral),
                done == count_transferred(r.take(i as int), true),
                waiting == count_transferred(r.take(i as int), false),
                airdrops <= i && referrals <= i && done <= i && waiting <= i,
                distributed == clamp(amount_total(r.take(i as int))),
            decreases r.len() - i,
        {
            assert(r.take(i + 1).drop_last() =~= r.take(i as int));
            let entry = &self.airdrop_reward[i];
            match entry.reward_type {
                RewardType::Airdrop => airdrops += 1,
                RewardType::Referral => referrals += 1,
            }
            if entry.transferred {
                done += 1;
            } else {
                waiting += 1;
            }
            distributed = distributed.saturating_add(entry.amount.0);
            i += 1;
        }
        assert(r.take(r.len() as int) =~= r);
        Ok(Stats {
            total_code_generated: generated,
            total_code_redeemed: airdrops,
            total_referral: referrals,
            total_code_left: self.pre_generated_codes.len(),
            total_tokens_distributed: distributed,
            total_tokens_left: self.total_tokens.saturating_sub(distributed),
            total_transaction_done: done,
            total_airdrop_transaction_waiting: waiting,
        })
    }

    /// Every ledger entry from `index` on, each paired with its own index.
    /// A pure read: asking again with the same index gives the same rows
    /// until new entries are appended.
    pub fn get_airdrop(&self, index: Index) -> (r: Result<Vec<(Index, EthereumAddress, AirdropAmount)>, CanisterError>)
        ensures
            self.killed ==> r matches Err(CanisterError::CanisterKilled),
            !self.killed ==> (r matches Ok(rows) && rows_view(rows@) == list_from(self@.rewards, index.0 as nat)),
    {
        if self.killed {
            return Err(CanisterError::CanisterKilled);
        }
        let mut rows: Vec<(Index, EthereumAddress, AirdropAmount)> = Vec::new();
        let len = self.airdrop_reward.len();
        if (index.0 as u128) >= (len as u128) {
            assert(rows_view(rows@) =~= list_from(self@.rewards, index.0 as nat));
            return Ok(rows);
        }
        let start = index.0 as usize;
        let mut p: usize = start;
        while p < len
            invariant
                start == index.0,
                start <= p <= len,
                len == self.airdrop_reward@.len(),
                rows@.len() == p - start,
                forall|k: int| 0 <= k < p - start ==> #[trigger] rows_view(rows@)[k]
                    == list_from(self@.rewards, start as nat)[k],
            decreases len - p,
        {
            let entry = &self.airdrop_reward[p];
            let ghost before = rows@;
            rows.push((Index(p as u64), entry.eth_address.duplicate(), entry.amount));
            assert forall|k: int| 0 <= k < p + 1 - start implies #[trigger] rows_view(rows@)[k]
                == list_from(self@.rewards, start as nat)[k] by {
                if k < p - start {
                    assert(rows@[k] == before[k]);
                    assert(rows_view(before)[k] == list_from(self@.rewards, start as nat)[k]);
                }
            }
            p += 1;
        }
        assert(rows_view(rows@) =~= list_from(self@.rewards, index.0 as nat));
        Ok(rows)
    }

    /// Marks the entries at `indexes` as transferred. The call is all or
    /// nothing: if any index is out of range no entry changes.
    pub fn put_airdrop(&mut self, indexes: Vec<Index>) -> (r: Result<(), CanisterError>)
        ensures
            old(self).killed ==> (r matches Err(CanisterError::CanisterKilled) && final(self)@ == old(self)@),
            !old(self).killed && (exists|k: int| 0 <= k < indexes@.len() && indexes@[k].0 >= old(self)@.rewards.len())
                ==> (r matches Err(CanisterError::TransactionUnkown) && final(self)@ == old(self)@),
            !old(self).killed && (forall|k: int| 0 <= k < indexes@.len() ==> indexes@[k].0 < old(self)@.rewards.len())
                ==> r is Ok && final(self)@ == (crate::model::StateView {
                    rewards: mark_transferred(old(self)@.rewards, index_view(indexes@)),
                    ..old(self)@
                }),
    {
        if self.killed {
            return Err(CanisterError::CanisterKilled);
        }
        let len = self.airdrop_reward.len();
        let mut k: usize = 0;
        while k < indexes.len()
            invariant
                k <= indexes@.len(),
                !self.killed,
                self@ == old(self)@,
                len == self.airdrop_reward@.len(),
                forall|j: int| 0 <= j < k ==> indexes@[j].0 < len,
            decreases indexes@.len() - k,
        {
            if (indexes[k].0 as u128) >= (len as u128) {
                return Err(CanisterError::TransactionUnkown);
            }
            k += 1;
        }
        let ghost s0 = self@;
        let ghost ids = index_view(indexes@);
        assert(mark_transferred(s0.rewards, ids.take(0)) =~= s0.rewards);
        assert(self@ =~= (crate::model::StateView { rewards: mark_transferred(s0.rewards, ids.take(0)), ..s0 }));
        let mut k: usize = 0;
        while k < indexes.len()
            invariant
                k <= indexes@.len(),
                len == self.airdrop_reward@.len(),
                len == s0.rewards.len(),
                ids == index_view(indexes@),
                forall|j: int| 0 <= j < indexes@.len() ==> indexes@[j].0 < len,
                self@ == (crate::model::StateView { rewards: mark_transferred(s0.rewards, ids.take(k as int)), ..s0 }),
            decreases indexes@.len() - k,
        {
            let p = indexes[k].0 as usize;
            let old_entry = &self.airdrop_reward[p];
            let entry = EthereumTransaction {
                eth_address: old_entry.eth_address.duplicate(),
                amount: old_entry.amount,
                transferred: true,
                reward_type: old_entry.reward_type,
            };
            let ghost before = self@.rewards;
            self.airdrop_reward.set(p, entry);
            assert forall|q: int| 0 <= q < len implies #[trigger] self@.rewards[q]
                == mark_transferred(s0.rewards, ids.take(k + 1))[q] by {
                lemma_take_contains(ids, k as int, q as u64);
                assert(ids[k as int] == p as u64);
                if q != p as int {
                    assert(self@.rewards[q] == before[q]);
                } else {
                    assert(before[q].address == s0.rewards[q].address);
                }
            }
            assert(self@.rewards =~= mark_transferred(s0.rewards, ids.take(k + 1)));
            k += 1;
            assert(self@ =~= (crate::model::StateView { rewards: mark_transferred(s0.rewards, ids.take(k as int)), ..s0 }));
        }
        assert(ids.take(indexes@.len() as int) =~= ids);
        Ok(())
    }
}

} // verus!
