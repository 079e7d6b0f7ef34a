use vstd::prelude::*;

use crate::chain::Chain;
use crate::lamp::LampAction;
use crate::laws::lemma_traversal_applies_each_once;

verus! {

/// Position of the leftward cursor, as a mathematical integer: the index it
/// stands on, or -1 once it has walked off the front of the chain.
pub open spec fn lpos(c: Option<usize>) -> int {
    match c {
        Some(p) => p as int,
        None => -1,
    }
}

/// Position of the rightward cursor, as a mathematical integer: the index it
/// stands on, or `len` once it has walked off the back of the chain.
pub open spec fn rpos(c: Option<usize>, len: int) -> int {
    match c {
        Some(q) => q as int,
        None => len,
    }
}

/// The order in which a symmetric traversal visits the remaining positions,
/// given a leftward cursor at `l` (absent when `l < 0`) and a rightward
/// cursor at `r` (absent when `r >= len`): one step left, one step right,
/// two steps left, two steps right, and so on, each side dropping out once
/// it is exhausted.
pub open spec fn ripple_from(l: int, r: int, len: int) -> Seq<int>
    decreases (if l >= 0 { l + 1 } else { 0 }) + (if r < len { len - r } else { 0 }),
{
    if l < 0 && r >= len {
        Seq::empty()
    } else {
        let here = (if l >= 0 { seq![l] } else { Seq::<int>::empty() })
            + (if r < len { seq![r] } else { Seq::<int>::empty() });
        here + ripple_from(l - 1, r + 1, len)
    }
}

/// The full visit order of a traversal of a chain of length `len` started at
/// `start`: the start itself, then the ripple outward on both sides.
pub open spec fn ripple_order(start: int, len: int) -> Seq<int> {
    seq![start] + ripple_from(start - 1, start + 1, len)
}

/// One visit: the flag at position `i` becomes the action's effect on it.
pub open spec fn apply_at<A: LampAction>(states: Seq<bool>, a: A, i: int) -> Seq<bool> {
    states.update(i, a.effect(states[i]))
}

/// The flags after visiting the positions of `order` in order, applying the
/// action once per visit.
pub open spec fn apply_in_order<A: LampAction>(states: Seq<bool>, order: Seq<int>, a: A) -> Seq<bool>
    decreases order.len(),
{
    if order.len() == 0 {
        states
    } else {
        apply_in_order(apply_at(states, a, order[0]), order.skip(1), a)
    }
}

/// The outward half of a traversal: apply the action at the two cursors,
/// step both cursors one lamp further out, and repeat until both sides are
/// exhausted. On a well-formed chain this reaches exactly the positions at or
/// left of the left cursor and at or right of the right cursor, each once.
pub fn operate_exchange_prev_next<A: LampAction>(
    chain: &mut Chain,
    prev: Option<usize>,
    next: Option<usize>,
    action: &A,
)
    requires
        old(chain).wf(),
        lpos(prev) < old(chain).lamps.len(),
        (next matches Some(q) ==> q < old(chain).lamps.len()),
        lpos(prev) < rpos(next, old(chain).lamps.len() as int),
    ensures
        final(chain).wf(),
        old(chain).same_shape(*final(chain)),
        forall|i: int|
            0 <= i < old(chain).lamps.len() ==> (#[trigger] final(chain).lamps[i]).on == (if i
                <= lpos(prev) || rpos(next, old(chain).lamps.len() as int) <= i {
                action.effect(old(chain).lamps[i].on)
            } else {
                old(chain).lamps[i].on
            }),
{
    let ghost n: int = old(chain).lamps.len() as int;
    let ghost p0: int = lpos(prev);
    let ghost q0: int = rpos(next, n);
    let mut left: Option<usize> = prev;
    let mut right: Option<usize> = next;
    while left.is_some() || right.is_some()
        invariant
            chain.lamps.len() == n,
            chain.wf(),
            old(chain).same_shape(*chain),
            -1 <= lpos(left) <= p0,
            q0 <= rpos(right, n) <= n,
            p0 < q0,
            p0 < n,
            (right matches Some(q) ==> q < n),
            forall|i: int|
                0 <= i < n ==> (#[trigger] chain.lamps[i]).on == (if (lpos(left) < i && i <= p0)
                    || (q0 <= i && i < rpos(right, n)) {
                    action.effect(old(chain).lamps[i].on)
                } else {
                    old(chain).lamps[i].on
                }),
        decreases (lpos(left) + 1) + (n - rpos(right, n)),
    {
        if let Some(p) = left {
            let mut l = chain.lamps[p];
            action.apply(&mut l);
            chain.lamps.set(p, l);
            left = chain.lamps[p].prev;
        }
        if let Some(q) = right {
            let mut l = chain.lamps[q];
            action.apply(&mut l);
            chain.lamps.set(q, l);
            right = chain.lamps[q].next;
        }
    }
}

impl Chain {
    /// The symmetric traversal: apply the action to the start lamp, then let
    /// it ripple outward on both sides at once. On a well-formed chain every
    /// lamp is visited exactly once, whatever the start, so every flag ends
    /// as the action's effect on its old value; names and links stay as they
    /// were.
    pub fn operate_exchange<A: LampAction>(&mut self, start: usize, action: &A)
        requires
            old(self).wf(),
            start < old(self).lamps.len(),
        ensures
            final(self).wf(),
            old(self).same_shape(*final(self)),
            forall|i: int|
                0 <= i < old(self).lamps.len() ==> (#[trigger] final(self).lamps[i]).on
                    == action.effect(old(self).lamps[i].on),
            final(self).states() == apply_in_order(
                old(self).states(),
                ripple_order(start as int, old(self).lamps.len() as int),
                *action,
            ),
    {
        let mut l = self.lamps[start];
        action.apply(&mut l);
        self.lamps.set(start, l);
        let left = self.lamps[start].prev;
        let right = self.lamps[start].next;
        operate_exchange_prev_next(self, left, right, action);
        proof {
            let states0 = old(self).states();
            let n = old(self).lamps.len() as int;
            lemma_traversal_applies_each_once(states0, *action, start as int);
            assert(self.states() =~= apply_in_order(
                states0,
                ripple_order(start as int, n),
                *action,
            ));
        }
    }
}

} // verus!
