//! The escape-time decision.
//!
//! The orbit of a point `c` is `z0 = 0`, `z(n+1) = z(n)^2 + c`. The point
//! belongs to the set at depth `d` when none of `z0, ..., zd` has a magnitude
//! above 2. As `z0 = 0` never does, what decides is, for each of `z1` to
//! `zd`, whether its magnitude is above 2. The tracker below is handed those
//! answers one by one, says when it has seen enough, and gives the decision.
use vstd::prelude::*;

verus! {

/// True when one of the first `d` answers in `exceeds` is yes: the orbit
/// leaves the disc of radius 2 within `d` iterations. `exceeds[i]` tells
/// whether the magnitude of `z(i+1)` is above 2.
pub open spec fn escapes_within(exceeds: Seq<bool>, d: int) -> bool {
    exists|i: int| 0 <= i < d && i < exceeds.len() && #[trigger] exceeds[i]
}

/// The decision at depth `d` for an orbit whose answers are `exceeds`
/// (at least `d` of them): in the set when the orbit does not escape.
pub open spec fn in_set_at(exceeds: Seq<bool>, d: int) -> bool {
    !escapes_within(exceeds, d)
}

/// The decision for one point, fed with the answers for `z1, z2, ...` in
/// order until it has seen enough.
pub struct EscapeTracker {
    depth: usize,
    seen: usize,
    escaped: bool,
    answers: Ghost<Seq<bool>>,
}

impl EscapeTracker {
    /// The answers handed in so far.
    pub closed spec fn answers(&self) -> Seq<bool> {
        self.answers@
    }

    /// The depth the decision is made at.
    pub closed spec fn depth(&self) -> int {
        self.depth as int
    }

    /// The tracker's counters agree with the answers it was handed.
    pub closed spec fn wf(&self) -> bool {
        &&& self.seen == self.answers@.len()
        &&& self.seen <= self.depth
        &&& self.escaped == escapes_within(self.answers@, self.seen as int)
    }

    /// True while the decision still depends on answers not yet seen.
    pub open spec fn wants_more(&self) -> bool {
        !escapes_within(self.answers(), self.answers().len() as int) && self.answers().len()
            < self.depth()
    }

    /// A tracker for the decision at depth `depth`, with no answer seen.
    pub fn new(depth: usize) -> (t: EscapeTracker)
        ensures
            t.wf(),
            t.depth() == depth,
            t.answers() == Seq::<bool>::empty(),
    {
        EscapeTracker { depth, seen: 0, escaped: false, answers: Ghost(Seq::empty()) }
    }

    /// Whether the next answer is still needed: no answer so far was yes and
    /// fewer than `depth` were seen.
    pub fn needs_more(&self) -> (r: bool)
        requires
            self.wf(),
        ensures
            r == self.wants_more(),
    {
        !self.escaped && self.seen < self.depth
    }

    /// Hands in the answer for the next term of the orbit: whether its
    /// magnitude is above 2.
    pub fn observe(&mut self, exceeds: bool)
        requires
            old(self).wf(),
            old(self).wants_more(),
        ensures
            final(self).wf(),
            final(self).depth() == old(self).depth(),
            final(self).answers() == old(self).answers().push(exceeds),
    {
        let ghost before = self.answers@;
        self.answers = Ghost(before.push(exceeds));
        self.seen = self.seen + 1;
        self.escaped = exceeds;
        proof {
            let after = self.answers@;
            assert(after[before.len() as int] == exceeds);
            if exceeds {
                assert(escapes_within(after, self.seen as int));
            } else {
                assert forall|i: int| 0 <= i < self.seen && i < after.len() implies !after[i] by {
                    if i < before.len() {
                        assert(after[i] == before[i]);
                    }
                }
            }
        }
    }

    /// The decision: in the set unless some term seen so far left the disc.
    /// Once nothing more is wanted, this is the decision at the tracker's depth
    /// for every orbit whose first terms are those seen.
    pub fn in_set(&self) -> (r: bool)
        requires
            self.wf(),
        ensures
            r == in_set_at(self.answers(), self.answers().len() as int),
            !self.wants_more() ==> forall|orbit: Seq<bool>|
                #![trigger in_set_at(orbit, self.depth())]
                orbit.len() >= self.depth() && self.answers() =~= orbit.subrange(
                    0,
                    self.answers().len() as int,
                ) ==> (r == in_set_at(orbit, self.depth())),
    {
        proof {
            if !self.wants_more() {
                assert forall|orbit: Seq<bool>|
                    orbit.len() >= self.depth() && self.answers() =~= orbit.subrange(
                        0,
                        self.answers().len() as int,
                    ) implies (!self.escaped == in_set_at(orbit, self.depth())) by {
                    let a = self.answers();
                    if self.escaped {
                        let i = choose|i: int| 0 <= i < a.len() && #[trigger] a[i];
                        assert(orbit[i] == a[i]);
                        assert(escapes_within(orbit, self.depth()));
                    } else {
                        assert(a.len() == self.depth());
                        assert forall|i: int| 0 <= i < self.depth() && i < orbit.len() implies !orbit[i] by {
                            assert(orbit[i] == a[i]);
                        }
                    }
                }
            }
        }
        !self.escaped
    }
}

/// At depth 0 every point is in the set: only `z0 = 0` is looked at.
pub proof fn lemma_depth_zero_in_set(exceeds: Seq<bool>)
    ensures
        in_set_at(exceeds, 0),
{
}

/// Escaping is for good: a point found outside the set at depth `d` is
/// outside at every greater depth.
pub proof fn lemma_escape_monotone(exceeds: Seq<bool>, d: int, e: int)
    requires
        0 <= d <= e,
        !in_set_at(exceeds, d),
    ensures
        !in_set_at(exceeds, e),
{
    let i = choose|i: int| 0 <= i < d && i < exceeds.len() && #[trigger] exceeds[i];
    assert(0 <= i < e && i < exceeds.len() && exceeds[i]);
}

} // verus!
