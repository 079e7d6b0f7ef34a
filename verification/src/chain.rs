use vstd::prelude::*;

use crate::lamp::Lamp;

verus! {

/// A linear, acyclic chain of lamps. The lamps live in an arena (a vector)
/// and the neighbour links of each lamp are indices into that arena, so the
/// lamp in the middle is reachable from both sides without shared ownership.
pub struct Chain {
    pub lamps: Vec<Lamp>,
}

impl Chain {
    /// The on/off flags of the lamps, in arena order.
    pub open spec fn states(self) -> Seq<bool> {
        self.lamps@.map(|i: int, l: Lamp| l.on)
    }

    /// Well-formed chain: consecutive lamps are linked by a symmetric
    /// prev/next pair, the first lamp has no predecessor and the last no
    /// successor, and there is no cycle or branch.
    pub open spec fn wf(self) -> bool {
        forall|i: int| 0 <= i < self.lamps.len() ==> {
            &&& (#[trigger] self.lamps[i]).prev == (if i == 0 {
                None::<usize>
            } else {
                Some((i - 1) as usize)
            })
            &&& self.lamps[i].next == (if i + 1 == self.lamps.len() {
                None::<usize>
            } else {
                Some((i + 1) as usize)
            })
        }
    }

    /// `other` has the same lamps as `self` in every respect but the on/off
    /// flag: same count, same names, same links.
    pub open spec fn same_shape(self, other: Chain) -> bool {
        &&& other.lamps.len() == self.lamps.len()
        &&& forall|i: int| 0 <= i < self.lamps.len() ==> {
            &&& (#[trigger] other.lamps[i]).name@ == self.lamps[i].name@
            &&& other.lamps[i].prev == self.lamps[i].prev
            &&& other.lamps[i].next == self.lamps[i].next
        }
    }

    /// Build a chain of one fresh lamp per name, linked pairwise in the given
    /// order, every lamp off. Returns the chain together with its entry
    /// point, the last lamp in construction order. An empty name list is a
    /// caller error: there would be no lamp to hand back.
    pub fn build(names: Vec<&'static str>) -> (r: (Chain, usize))
        requires
            names.len() > 0,
        ensures
            r.0.wf(),
            r.0.lamps.len() == names.len(),
            r.1 == names.len() - 1,
            forall|i: int| 0 <= i < names.len() ==> {
                &&& (#[trigger] r.0.lamps[i]).name@ == names[i]@
                &&& !r.0.lamps[i].on
            },
    {
        let mut lamps: Vec<Lamp> = Vec::new();
        let mut i: usize = 0;
        while i < names.len()
            invariant
                i <= names.len(),
                lamps.len() == i,
                forall|j: int| 0 <= j < i ==> {
                    &&& (#[trigger] lamps[j]).name@ == names[j]@
                    &&& !lamps[j].on
                    &&& lamps[j].prev is None
                    &&& lamps[j].next is None
                },
            decreases names.len() - i,
        {
            lamps.push(Lamp::new(names[i]));
            i += 1;
        }
        let mut c = Chain { lamps };
        let n = c.lamps.len();
        let mut k: usize = 0;
        while k + 1 < n
            invariant
                n == c.lamps.len(),
                n == names.len(),
                n >= 1,
                k <= n - 1,
                forall|j: int| 0 <= j < n ==> {
                    &&& (#[trigger] c.lamps[j]).name@ == names[j]@
                    &&& !c.lamps[j].on
                },
                forall|j: int| 0 <= j < n ==> (#[trigger] c.lamps[j]).prev == (if 1 <= j <= k {
                    Some((j - 1) as usize)
                } else {
                    None::<usize>
                }),
                forall|j: int| 0 <= j < n ==> (#[trigger] c.lamps[j]).next == (if j < k {
                    Some((j + 1) as usize)
                } else {
                    None::<usize>
                }),
            decreases n - k,
        {
            link_with(&mut c, k, k + 1);
            k += 1;
        }
        let entry = n - 1;
        (c, entry)
    }
}

/// Link two lamps of the chain as direct neighbours: afterwards lamp `a`
/// points forward to lamp `b` and lamp `b` points back to lamp `a`, so the
/// symmetric pair invariant holds for this pair. Nothing else changes.
pub fn link_with(chain: &mut Chain, a: usize, b: usize)
    requires
        a < old(chain).lamps.len(),
        b < old(chain).lamps.len(),
        a != b,
    ensures
        final(chain).lamps.len() == old(chain).lamps.len(),
        final(chain).lamps[a as int].next == Some(b),
        final(chain).lamps[b as int].prev == Some(a),
        final(chain).lamps[a as int].prev == old(chain).lamps[a as int].prev,
        final(chain).lamps[a as int].on == old(chain).lamps[a as int].on,
        final(chain).lamps[a as int].name@ == old(chain).lamps[a as int].name@,
        final(chain).lamps[b as int].next == old(chain).lamps[b as int].next,
        final(chain).lamps[b as int].on == old(chain).lamps[b as int].on,
        final(chain).lamps[b as int].name@ == old(chain).lamps[b as int].name@,
        forall|i: int|
            0 <= i < old(chain).lamps.len() && i != a && i != b
                ==> #[trigger] final(chain).lamps[i] == old(chain).lamps[i],
{
    let mut la = chain.lamps[a];
    la.next = Some(b);
    chain.lamps.set(a, la);
    let mut lb = chain.lamps[b];
    lb.prev = Some(a);
    chain.lamps.set(b, lb);
}

/// Build the reference chain of nine lamps, A through I, linked in that
/// order, and hand back the chain with its entry point: the last lamp.
pub fn setup_chain() -> (r: (Chain, usize))
    ensures
        r.0.wf(),
        r.0.lamps.len() == 9,
        r.1 == 8,
        forall|i: int| 0 <= i < 9 ==> !((#[trigger] r.0.lamps[i]).on),
        r.0.lamps[0].name@ == "Lamp A"@,
        r.0.lamps[1].name@ == "Lamp B"@,
        r.0.lamps[2].name@ == "Lamp C"@,
        r.0.lamps[3].name@ == "Lamp D"@,
        r.0.lamps[4].name@ == "Lamp E"@,
        r.0.lamps[5].name@ == "Lamp F"@,
        r.0.lamps[6].name@ == "Lamp G"@,
        r.0.lamps[7].name@ == "Lamp H"@,
        r.0.lamps[8].name@ == "Lamp I"@,
{
    let mut names: Vec<&'static str> = Vec::new();
    names.push("Lamp A");
    names.push("Lamp B");
    names.push("Lamp C");
    names.push("Lamp D");
    names.push("Lamp E");
    names.push("Lamp F");
    names.push("Lamp G");
    names.push("Lamp H");
    names.push("Lamp I");
    Chain::build(names)
}

} // verus!
