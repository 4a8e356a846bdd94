//! Positions in a list at which something holds, in rising order.

use vstd::prelude::*;

verus! {

/// The positions of the `true` entries of `flags`, in rising order.
pub open spec fn positions(flags: Seq<bool>) -> Seq<usize>
    decreases flags.len(),
{
    if flags.len() == 0 {
        Seq::empty()
    } else if flags.last() {
        positions(flags.drop_last()).push((flags.len() - 1) as usize)
    } else {
        positions(flags.drop_last())
    }
}

/// `positions` lists exactly the positions that hold `true`, each once and in
/// rising order.
pub proof fn lemma_positions(flags: Seq<bool>)
    requires
        flags.len() <= usize::MAX,
    ensures
        positions(flags).len() <= flags.len(),
        forall|k: int|
            0 <= k < positions(flags).len() ==> (#[trigger] positions(flags)[k]) < flags.len()
                && flags[positions(flags)[k] as int],
        forall|j: int, k: int|
            0 <= j < k < positions(flags).len() ==> positions(flags)[j] < positions(flags)[k],
        forall|i: int|
            0 <= i < flags.len() && flags[i] ==> positions(flags).contains(i as usize),
    decreases flags.len(),
{
    if flags.len() > 0 {
        let front = flags.drop_last();
        lemma_positions(front);
        let found = positions(flags);
        assert forall|i: int| 0 <= i < flags.len() && flags[i] implies found.contains(
            i as usize,
        ) by {
            if i < front.len() {
                assert(front[i]);
                let k = choose|k: int| 0 <= k < positions(front).len() && positions(front)[k] == i;
                assert(found[k] == i as usize);
            } else {
                assert(found[found.len() - 1] == i as usize);
            }
        }
    }
}

} // verus!
