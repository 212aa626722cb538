use vstd::prelude::*;
use crate::error::CanisterError;
use crate::ledger::{list_from, mark_transferred};
use crate::model::{Reward, StateView};

verus! {

/// `new` holds every code of `old` at the same position, with the same
/// parent and depth, and a redeemed code stays redeemed.
pub open spec fn codes_kept(old: StateView, new: StateView) -> bool {
    &&& old.codes.len() <= new.codes.len()
    &&& forall|i: int| 0 <= i < old.codes.len() ==> {
        &&& #[trigger] new.codes[i].0 == old.codes[i].0
        &&& new.codes[i].1.parent == old.codes[i].1.parent
        &&& new.codes[i].1.depth == old.codes[i].1.depth
        &&& old.codes[i].1.redeemed ==> new.codes[i].1.redeemed
    }
}

/// `new` extends the ledger `old`: each entry keeps its position, address,
/// amount and kind, and a transferred entry stays transferred.
pub open spec fn ledger_kept(old: Seq<Reward>, new: Seq<Reward>) -> bool {
    &&& old.len() <= new.len()
    &&& forall|i: int| 0 <= i < old.len() ==> {
        &&& #[trigger] new[i].address == old[i].address
        &&& new[i].amount == old[i].amount
        &&& new[i].kind == old[i].kind
        &&& old[i].transferred ==> new[i].transferred
    }
}

/// An identity is registered at most once: a registered identity is
/// refused when it redeems again, and after a redemption that goes through
/// the redeemer stands at exactly one place among the registered users.
pub proof fn law_registered_at_most_once(s: StateView, who: Seq<char>, code: Seq<char>, addr: Seq<char>)
    requires
        s.wf(),
    ensures
        s.is_registered(who) ==> s.redeem_refusal(who, code) is Some,
        s.redeem_refusal(who, code) is None ==> {
            let t = s.after_redeem(who, code, addr);
            &&& t.wf()
            &&& t.users[s.users.len() as int].0 == who
            &&& forall|a: int| 0 <= a < t.users.len() && #[trigger] t.users[a].0 == who ==> a == s.users.len()
        },
{
    if s.redeem_refusal(who, code) is None {
        crate::redeem::lemma_after_redeem_wf(s, who, code, addr);
        let t = s.after_redeem(who, code, addr);
        assert(t.users[s.users.len() as int].0 == who);
    }
}

/// The redeemed flag moves from false to true at most once: a redeemed code
/// is refused, and a redemption that goes through flips the flag of the
/// redeemed code alone and clears none.
pub proof fn law_redeemed_once(s: StateView, who: Seq<char>, code: Seq<char>, addr: Seq<char>)
    requires
        s.wf(),
    ensures
        s.has_code(code) && s.codes[s.code_at(code)].1.redeemed ==> s.redeem_refusal(who, code) is Some,
        s.redeem_refusal(who, code) is None ==> {
            let t = s.after_redeem(who, code, addr);
            &&& codes_kept(s, t)
            &&& t.codes[s.code_at(code)].1.redeemed
            &&& forall|i: int| 0 <= i < s.codes.len() && #[trigger] t.codes[i].1.redeemed != s.codes[i].1.redeemed
                ==> i == s.code_at(code)
        },
{
}

/// Once redeemed, always redeemed: keeping codes composes over any
/// sequence of steps.
pub proof fn law_codes_kept_compose(a: StateView, b: StateView, c: StateView)
    requires
        codes_kept(a, b),
        codes_kept(b, c),
    ensures
        codes_kept(a, c),
{
    assert forall|i: int| 0 <= i < a.codes.len() implies #[trigger] c.codes[i].0 == a.codes[i].0 by {
        assert(b.codes[i].0 == a.codes[i].0);
    }
}

/// Issuing a root code keeps every issued code and the whole ledger, and
/// the new code starts unredeemed.
pub proof fn law_generate_keeps(s: StateView, who: Seq<char>)
    requires
        s.wf(),
        s.is_manager(who),
        s.pool.len() > 0,
    ensures
        codes_kept(s, s.after_generate(who)),
        !s.after_generate(who).codes[s.codes.len() as int].1.redeemed,
        ledger_kept(s.rewards, s.after_generate(who).rewards),
{
}

/// A redemption that goes through below the maximum depth issues exactly
/// `numbers_of_children` fresh codes one level deeper, parented by the
/// redeemer; when the pool cannot supply them, the redemption is refused as
/// a whole.
pub proof fn law_children_issued(s: StateView, who: Seq<char>, code: Seq<char>, addr: Seq<char>)
    requires
        s.wf(),
        s.has_code(code),
        s.codes[s.code_at(code)].1.depth < s.maximum_depth,
    ensures
        s.redeem_refusal(who, code) is None ==> {
            let t = s.after_redeem(who, code, addr);
            let d = s.codes[s.code_at(code)].1.depth;
            &&& t.codes.len() == s.codes.len() + s.numbers_of_children
            &&& forall|k: int| s.codes.len() <= k < t.codes.len() ==> {
                &&& #[trigger] t.codes[k].1.parent == who
                &&& t.codes[k].1.depth == d + 1
                &&& !t.codes[k].1.redeemed
            }
        },
        !s.killed && !s.is_registered(who) && !s.codes[s.code_at(code)].1.redeemed && !s.is_manager(who)
            && s.pool.len() < s.numbers_of_children
            ==> s.redeem_refusal(who, code) == Some(CanisterError::NoMoreCodes),
{
}

/// Ledger entries are never reordered or deleted: a redemption only appends.
pub proof fn law_redeem_appends(s: StateView, who: Seq<char>, code: Seq<char>, addr: Seq<char>)
    requires
        s.wf(),
        s.redeem_refusal(who, code) is None,
    ensures
        ledger_kept(s.rewards, s.after_redeem(who, code, addr).rewards),
{
}

/// Acknowledging transfers only sets flags: each entry keeps its place.
pub proof fn law_acknowledge_keeps(r: Seq<Reward>, ids: Seq<u64>)
    ensures
        ledger_kept(r, mark_transferred(r, ids)),
        mark_transferred(r, ids).len() == r.len(),
{
}

/// Index `i` denotes the same entry for good: extending the ledger
/// composes over any sequence of steps.
pub proof fn law_ledger_kept_compose(a: Seq<Reward>, b: Seq<Reward>, c: Seq<Reward>)
    requires
        ledger_kept(a, b),
        ledger_kept(b, c),
    ensures
        ledger_kept(a, c),
{
    assert forall|i: int| 0 <= i < a.len() implies #[trigger] c[i].address == a[i].address by {
        assert(b[i].address == a[i].address);
    }
}

/// Listing from an index gives the same rows again as long as nothing was
/// appended, whatever was acknowledged in between.
pub proof fn law_list_from_stable(a: Seq<Reward>, b: Seq<Reward>, start: nat)
    requires
        ledger_kept(a, b),
        b.len() == a.len(),
    ensures
        list_from(a, start) == list_from(b, start),
{
    if start < a.len() {
        assert forall|k: int| 0 <= k < a.len() - start implies #[trigger] list_from(a, start)[k] == list_from(b, start)[k] by {
            assert(b[start + k].address == a[start + k].address);
        }
        assert(list_from(a, start) =~= list_from(b, start));
    }
}

} // verus!
