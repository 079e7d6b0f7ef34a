use vstd::prelude::*;

use crate::lamp::LampAction;
use crate::traversal::{apply_at, apply_in_order, ripple_from, ripple_order};

verus! {

/// Structure of the outward ripple: it lists exactly the positions at or
/// left of `l` and at or right of `r`, each exactly once.
proof fn lemma_ripple_from_props(l: int, r: int, len: int)
    requires
        l < r,
    ensures
        ripple_from(l, r, len).len() == (if l >= 0 { l + 1 } else { 0 }) + (if r < len { len - r } else { 0 }),
        forall|k: int|
            0 <= k < ripple_from(l, r, len).len() ==> (0 <= #[trigger] ripple_from(l, r, len)[k] <= l
                || r <= ripple_from(l, r, len)[k] < len),
        forall|i: int| 0 <= i <= l ==> ripple_from(l, r, len).contains(i),
        forall|i: int| r <= i < len ==> ripple_from(l, r, len).contains(i),
        ripple_from(l, r, len).no_duplicates(),
    decreases (if l >= 0 { l + 1 } else { 0 }) + (if r < len { len - r } else { 0 }),
{
    if l < 0 && r >= len {
    } else {
        lemma_ripple_from_props(l - 1, r + 1, len);
        let here = (if l >= 0 { seq![l] } else { Seq::<int>::empty() })
            + (if r < len { seq![r] } else { Seq::<int>::empty() });
        let tail = ripple_from(l - 1, r + 1, len);
        let s = ripple_from(l, r, len);
        assert(s == here + tail);
        assert forall|i: int| 0 <= i <= l implies s.contains(i) by {
            if i == l {
                assert(s[0] == l);
            } else {
                assert(tail.contains(i));
                let k = choose|k: int| 0 <= k < tail.len() && tail[k] == i;
                assert(s[here.len() + k] == i);
            }
        }
        assert forall|i: int| r <= i < len implies s.contains(i) by {
            if i == r {
                assert(s[here.len() - 1] == r);
            } else {
                assert(tail.contains(i));
                let k = choose|k: int| 0 <= k < tail.len() && tail[k] == i;
                assert(s[here.len() + k] == i);
            }
        }
        assert forall|ki: int, kj: int|
            0 <= ki < s.len() && 0 <= kj < s.len() && ki != kj implies s[ki] != s[kj] by {
            if ki >= here.len() {
                assert(s[ki] == tail[ki - here.len()]);
            }
            if kj >= here.len() {
                assert(s[kj] == tail[kj - here.len()]);
            }
        }
    }
}

/// Within each side of the ripple, nearer positions come before farther
/// ones: among the positions at or left of `l` the order is descending, and
/// among those at or right of `r` it is ascending.
proof fn lemma_ripple_from_nearest_first(l: int, r: int, len: int)
    requires
        l < r,
    ensures
        forall|k1: int, k2: int|
            0 <= k1 < k2 < ripple_from(l, r, len).len() && #[trigger] ripple_from(l, r, len)[k1]
                <= l && #[trigger] ripple_from(l, r, len)[k2] <= l ==> ripple_from(l, r, len)[k1]
                > ripple_from(l, r, len)[k2],
        forall|k1: int, k2: int|
            0 <= k1 < k2 < ripple_from(l, r, len).len() && #[trigger] ripple_from(l, r, len)[k1]
                >= r && #[trigger] ripple_from(l, r, len)[k2] >= r ==> ripple_from(l, r, len)[k1]
                < ripple_from(l, r, len)[k2],
    decreases (if l >= 0 { l + 1 } else { 0 }) + (if r < len { len - r } else { 0 }),
{
    if l < 0 && r >= len {
    } else {
        lemma_ripple_from_nearest_first(l - 1, r + 1, len);
        lemma_ripple_from_props(l - 1, r + 1, len);
        let here = (if l >= 0 { seq![l] } else { Seq::<int>::empty() })
            + (if r < len { seq![r] } else { Seq::<int>::empty() });
        let tail = ripple_from(l - 1, r + 1, len);
        let s = ripple_from(l, r, len);
        assert(s == here + tail);
        assert forall|k1: int, k2: int|
            0 <= k1 < k2 < s.len() && #[trigger] s[k1] <= l && #[trigger] s[k2] <= l implies s[k1]
            > s[k2] by {
            if k1 >= here.len() {
                assert(s[k1] == tail[k1 - here.len()]);
            }
            assert(s[k2] == tail[k2 - here.len()]);
        }
        assert forall|k1: int, k2: int|
            0 <= k1 < k2 < s.len() && #[trigger] s[k1] >= r && #[trigger] s[k2] >= r implies s[k1]
            < s[k2] by {
            if k1 >= here.len() {
                assert(s[k1] == tail[k1 - here.len()]);
            }
            assert(s[k2] == tail[k2 - here.len()]);
        }
    }
}

/// The start of a traversal is visited first, and on each side of it the
/// nearer lamp is always visited before the farther one: left of the start
/// the visit order is descending, right of it ascending.
pub proof fn lemma_ripple_order_nearest_first(start: int, len: int)
    requires
        0 <= start < len,
    ensures
        ripple_order(start, len)[0] == start,
        forall|k1: int, k2: int|
            0 <= k1 < k2 < ripple_order(start, len).len() && #[trigger] ripple_order(start, len)[k1]
                < start && #[trigger] ripple_order(start, len)[k2] < start ==> ripple_order(
                start,
                len,
            )[k1] > ripple_order(start, len)[k2],
        forall|k1: int, k2: int|
            0 <= k1 < k2 < ripple_order(start, len).len() && #[trigger] ripple_order(start, len)[k1]
                > start && #[trigger] ripple_order(start, len)[k2] > start ==> ripple_order(
                start,
                len,
            )[k1] < ripple_order(start, len)[k2],
{
    lemma_ripple_from_nearest_first(start - 1, start + 1, len);
    let tail = ripple_from(start - 1, start + 1, len);
    let s = ripple_order(start, len);
    assert(s == seq![start] + tail);
    assert forall|k1: int, k2: int|
        0 <= k1 < k2 < s.len() && #[trigger] s[k1] < start && #[trigger] s[k2] < start implies s[k1]
        > s[k2] by {
        assert(s[k1] == tail[k1 - 1]);
        assert(s[k2] == tail[k2 - 1]);
    }
    assert forall|k1: int, k2: int|
        0 <= k1 < k2 < s.len() && #[trigger] s[k1] > start && #[trigger] s[k2] > start implies s[k1]
        < s[k2] by {
        assert(s[k1] == tail[k1 - 1]);
        assert(s[k2] == tail[k2 - 1]);
    }
}

/// Every position of a chain of length `len` appears exactly once in the
/// visit order of the symmetric traversal started at `start`, wherever the
/// start lies.
pub proof fn lemma_ripple_order_visits_each_once(start: int, len: int)
    requires
        0 <= start < len,
    ensures
        ripple_order(start, len).len() == len,
        ripple_order(start, len).no_duplicates(),
        forall|i: int| 0 <= i < len ==> ripple_order(start, len).contains(i),
        forall|k: int|
            0 <= k < ripple_order(start, len).len() ==> 0 <= #[trigger] ripple_order(start, len)[k]
                < len,
{
    lemma_ripple_from_props(start - 1, start + 1, len);
    let tail = ripple_from(start - 1, start + 1, len);
    let s = ripple_order(start, len);
    assert(s == seq![start] + tail);
    assert(s[0] == start);
    assert forall|i: int| 0 <= i < len implies s.contains(i) by {
        if i == start {
            assert(s[0] == start);
        } else {
            assert(tail.contains(i));
            let k = choose|k: int| 0 <= k < tail.len() && tail[k] == i;
            assert(s[1 + k] == i);
        }
    }
    assert forall|ki: int, kj: int|
        0 <= ki < s.len() && 0 <= kj < s.len() && ki != kj implies s[ki] != s[kj] by {
        if ki >= 1 {
            assert(s[ki] == tail[ki - 1]);
        }
        if kj >= 1 {
            assert(s[kj] == tail[kj - 1]);
        }
    }
}

/// What a sequence of visits does flag by flag: a position that is visited
/// (once) carries the action's effect, an unvisited one keeps its flag.
proof fn lemma_apply_in_order_pointwise<A: LampAction>(states: Seq<bool>, order: Seq<int>, a: A)
    requires
        order.no_duplicates(),
        forall|k: int| 0 <= k < order.len() ==> 0 <= #[trigger] order[k] < states.len(),
    ensures
        apply_in_order(states, order, a).len() == states.len(),
        forall|i: int|
            0 <= i < states.len() ==> #[trigger] apply_in_order(states, order, a)[i] == (if order
                .contains(i) {
                a.effect(states[i])
            } else {
                states[i]
            }),
    decreases order.len(),
{
    if order.len() == 0 {
    } else {
        let o0 = order[0];
        let s1 = apply_at(states, a, o0);
        let rest = order.skip(1);
        assert forall|k: int| 0 <= k < rest.len() implies 0 <= #[trigger] rest[k] < s1.len() by {
            assert(rest[k] == order[k + 1]);
        }
        assert forall|ki: int, kj: int|
            0 <= ki < rest.len() && 0 <= kj < rest.len() && ki != kj implies rest[ki] != rest[kj] by {
            assert(rest[ki] == order[ki + 1]);
            assert(rest[kj] == order[kj + 1]);
        }
        lemma_apply_in_order_pointwise(s1, rest, a);
        assert(!rest.contains(o0)) by {
            if rest.contains(o0) {
                let k = choose|k: int| 0 <= k < rest.len() && rest[k] == o0;
                assert(order[k + 1] == order[0]);
            }
        }
        assert(apply_in_order(states, order, a) == apply_in_order(s1, rest, a));
        assert forall|i: int|
            0 <= i < states.len() implies #[trigger] apply_in_order(states, order, a)[i] == (
        if order.contains(i) {
            a.effect(states[i])
        } else {
            states[i]
        }) by {
            if i == o0 {
                assert(order.contains(i)) by {
                    assert(order[0] == i);
                }
                assert(s1[i] == a.effect(states[i]));
            } else {
                assert(s1[i] == states[i]);
                if order.contains(i) {
                    let k = choose|k: int| 0 <= k < order.len() && order[k] == i;
                    assert(rest[k - 1] == i);
                    assert(rest.contains(i));
                } else {
                    assert(!rest.contains(i)) by {
                        if rest.contains(i) {
                            let k = choose|k: int| 0 <= k < rest.len() && rest[k] == i;
                            assert(order[k + 1] == i);
                        }
                    }
                }
            }
        }
    }
}

/// A traversal visits every position exactly once, so the flags it leaves
/// behind are the action's effect applied to each flag independently — the
/// same as acting on every lamp directly.
pub proof fn lemma_traversal_applies_each_once<A: LampAction>(states: Seq<bool>, a: A, start: int)
    requires
        0 <= start < states.len(),
    ensures
        apply_in_order(states, ripple_order(start, states.len() as int), a) == states.map(
            |i: int, s: bool| a.effect(s),
        ),
{
    let len = states.len() as int;
    lemma_ripple_order_visits_each_once(start, len);
    lemma_apply_in_order_pointwise(states, ripple_order(start, len), a);
    assert(apply_in_order(states, ripple_order(start, len), a) =~= states.map(
        |i: int, s: bool| a.effect(s),
    ));
}

/// Order independence: traversals of the same chain with the same action end
/// in the same flags, whatever their starting positions.
pub proof fn lemma_order_independence<A: LampAction>(states: Seq<bool>, a: A, p1: int, p2: int)
    requires
        0 <= p1 < states.len(),
        0 <= p2 < states.len(),
    ensures
        apply_in_order(states, ripple_order(p1, states.len() as int), a) == apply_in_order(
            states,
            ripple_order(p2, states.len() as int),
            a,
        ),
{
    lemma_traversal_applies_each_once(states, a, p1);
    lemma_traversal_applies_each_once(states, a, p2);
}

/// Idempotence: when the action leaves an already-treated flag alone, a
/// second traversal with it changes nothing.
pub proof fn lemma_traversal_idempotent<A: LampAction>(states: Seq<bool>, a: A, start: int)
    requires
        0 <= start < states.len(),
        forall|s: bool| a.effect(a.effect(s)) == #[trigger] a.effect(s),
    ensures
        apply_in_order(
            apply_in_order(states, ripple_order(start, states.len() as int), a),
            ripple_order(start, states.len() as int),
            a,
        ) == apply_in_order(states, ripple_order(start, states.len() as int), a),
{
    let len = states.len() as int;
    let once = apply_in_order(states, ripple_order(start, len), a);
    lemma_traversal_applies_each_once(states, a, start);
    lemma_traversal_applies_each_once(once, a, start);
    assert(apply_in_order(once, ripple_order(start, len), a) =~= once);
}

} // verus!
