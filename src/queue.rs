use vstd::prelude::*;

use crate::direction::Direction;

verus! {

/// The direction taken this tick and the inputs kept for later ticks: the first
/// queued input whose axis differs from `current`'s is taken, the inputs before it
/// and it are dropped, and those after it stay in order. When no queued input turns,
/// `current` is kept and the queue is emptied.
pub open spec fn reconciled(current: Direction, queue: Seq<Direction>) -> (Direction, Seq<Direction>)
    decreases queue.len(),
{
    if queue.len() == 0 {
        (current, Seq::empty())
    } else if queue[0].axis() != current.axis() {
        (queue[0], queue.skip(1))
    } else {
        reconciled(current, queue.skip(1))
    }
}

/// Picks this tick's direction from the inputs queued since the last tick, oldest
/// first, and returns it with the inputs left for the next tick.
pub fn reconcile_queue(current: Direction, queue: &Vec<Direction>) -> (r: (Direction, Vec<Direction>))
    ensures
        r.0 == reconciled(current, queue@).0,
        r.1@ == reconciled(current, queue@).1,
{
    let n = queue.len();
    let mut i: usize = 0;
    proof {
        assert(queue@.skip(0) =~= queue@);
    }
    while i < n
        invariant
            n == queue@.len(),
            i <= n,
            reconciled(current, queue@) == reconciled(current, queue@.skip(i as int)),
        decreases n - i,
    {
        if queue[i].kind() != current.kind() {
            let mut rest: Vec<Direction> = Vec::new();
            let mut j: usize = i + 1;
            while j < n
                invariant
                    n == queue@.len(),
                    i < j <= n,
                    rest@ == queue@.subrange(i + 1, j as int),
                decreases n - j,
            {
                rest.push(queue[j]);
                j += 1;
            }
            proof {
                assert(queue@.skip(i as int).skip(1) =~= queue@.subrange(i + 1, n as int));
            }
            return (queue[i], rest);
        }
        proof {
            assert(queue@.skip(i as int).skip(1) =~= queue@.skip(i + 1));
        }
        i += 1;
    }
    (current, Vec::new())
}

} // verus!
