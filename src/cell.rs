use vstd::prelude::*;
use crate::state::State;

verus! {

/// Runs `f` on the initialised state held in `slot` and hands back its result.
pub fn read_state<R, F: FnOnce(&State) -> R>(slot: &Option<State>, f: F) -> (r: R)
    requires
        slot is Some,
        f.requires((&slot->Some_0,)),
    ensures
        f.ensures((&slot->Some_0,), r),
{
    f(slot.as_ref().unwrap())
}

/// Runs `f` on the initialised state held in `slot`; what `f` gives back
/// becomes the new state, and its result is handed back.
pub fn mutate_state<R, F: FnOnce(State) -> (State, R)>(slot: &mut Option<State>, f: F) -> (r: R)
    requires
        *old(slot) is Some,
        f.requires(((*old(slot))->Some_0,)),
    ensures
        *final(slot) is Some,
        f.ensures(((*old(slot))->Some_0,), ((*final(slot))->Some_0, r)),
{
    let current = slot.take().unwrap();
    let (next, r) = f(current);
    *slot = Some(next);
    r
}

} // verus!
