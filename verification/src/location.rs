//! Locations relative to the chain that reads them, and their algebra.

use crate::junction::{Junction, JunctionView};
use crate::junctions::{Junctions, MAX_JUNCTIONS};
use vstd::prelude::*;
use vstd::std_specs::cmp::PartialEqSpecImpl;

verus! {

/// A location: `parents` steps up, then down through `interior`.
#[derive(Debug)]
pub struct MultiLocation {
    /// The number of steps up.
    pub parents: u8,
    /// The junctions to go down through after the steps up.
    pub interior: Junctions,
}

/// The mathematical value of a [`MultiLocation`].
pub struct MultiLocationView {
    pub parents: u8,
    pub interior: Seq<JunctionView>,
}

impl View for MultiLocation {
    type V = MultiLocationView;

    open spec fn view(&self) -> MultiLocationView {
        MultiLocationView { parents: self.parents, interior: self.interior@ }
    }
}

impl DeepView for MultiLocation {
    type V = MultiLocationView;

    open spec fn deep_view(&self) -> MultiLocationView {
        self@
    }
}

/// A location that an executable value can hold: its interior is bounded.
pub open spec fn representable(loc: MultiLocationView) -> bool {
    loc.interior.len() <= MAX_JUNCTIONS
}

/// The location of the reader itself.
pub open spec fn here_view() -> MultiLocationView {
    MultiLocationView { parents: 0, interior: Seq::empty() }
}

/// The location of the reader's parent.
pub open spec fn parent_view() -> MultiLocationView {
    MultiLocationView { parents: 1, interior: Seq::empty() }
}

/// `base` with `suffix` added at the end of its interior; `None` when the
/// interior would grow beyond the bound.
pub open spec fn append_spec(base: MultiLocationView, suffix: Seq<JunctionView>) -> Option<
    MultiLocationView,
> {
    if base.interior.len() + suffix.len() > MAX_JUNCTIONS {
        None
    } else {
        Some(MultiLocationView { parents: base.parents, interior: base.interior + suffix })
    }
}

/// How many steps up of `suffix` cancel against trailing junctions of `prefix`.
pub open spec fn cancelled(suffix: MultiLocationView, prefix: MultiLocationView) -> int {
    if suffix.parents <= prefix.interior.len() {
        suffix.parents as int
    } else {
        prefix.interior.len() as int
    }
}

/// `suffix` as seen from where `prefix` is read: each step up of `suffix`
/// cancels one trailing junction of `prefix`, and what is left of the two is
/// joined. `None` when the interior would hold more than the bound or the
/// steps up more than 255.
pub open spec fn prepend_spec(suffix: MultiLocationView, prefix: MultiLocationView) -> Option<
    MultiLocationView,
> {
    let k = cancelled(suffix, prefix);
    let interior = prefix.interior.take(prefix.interior.len() - k) + suffix.interior;
    let parents = prefix.parents + suffix.parents - k;
    if interior.len() > MAX_JUNCTIONS || parents > 255 {
        None
    } else {
        Some(MultiLocationView { parents: parents as u8, interior })
    }
}

/// The junction at index `i` of the way down from the ancestor `steps`
/// steps up to a chain whose ancestry is `ancestry`: the last `steps`
/// junctions of the ancestry, with `OnlyChild` in front for each step that
/// the ancestry does not reach.
pub open spec fn ancestry_junction(ancestry: MultiLocationView, steps: int, i: int) -> JunctionView {
    let j = ancestry.interior.len() - steps + i;
    if 0 <= j < ancestry.interior.len() {
        ancestry.interior[j]
    } else {
        JunctionView::OnlyChild
    }
}

/// How the chain at `target` refers back to the chain whose ancestry is
/// `ancestry`: one step up for each junction of `target`, then down through
/// the last junctions of the ancestry, as many as `target` has steps up.
/// `None` when `target` has more steps up than an interior can hold.
pub open spec fn invert_spec(ancestry: MultiLocationView, target: MultiLocationView) -> Option<
    MultiLocationView,
> {
    if target.parents > MAX_JUNCTIONS {
        None
    } else {
        Some(
            MultiLocationView {
                parents: target.interior.len() as u8,
                interior: Seq::new(
                    target.parents as nat,
                    |i: int| ancestry_junction(ancestry, target.parents as int, i),
                ),
            },
        )
    }
}

/// The chain that a location lies on: the parent, a sibling parachain or a
/// child parachain. `None` for every other location.
pub open spec fn chain_part_spec(loc: MultiLocationView) -> Option<MultiLocationView> {
    if loc.parents == 1 {
        if loc.interior.len() > 0 && loc.interior[0] is Parachain {
            Some(MultiLocationView { parents: 1, interior: seq![loc.interior[0]] })
        } else {
            Some(parent_view())
        }
    } else if loc.parents == 0 && loc.interior.len() > 0 && loc.interior[0] is Parachain {
        Some(MultiLocationView { parents: 0, interior: seq![loc.interior[0]] })
    } else {
        None
    }
}

/// The number of parachain junctions at the start of `interior`.
pub open spec fn leading_chain(interior: Seq<JunctionView>) -> nat
    decreases interior.len(),
{
    if interior.len() > 0 && interior[0] is Parachain {
        1 + leading_chain(interior.skip(1))
    } else {
        0
    }
}

/// What a location names on its chain: the interior without its leading
/// parachain junctions, read from that chain. `None` when nothing is left.
pub open spec fn non_chain_part_spec(loc: MultiLocationView) -> Option<MultiLocationView> {
    let rest = loc.interior.skip(leading_chain(loc.interior) as int);
    if rest.len() == 0 {
        None
    } else {
        Some(MultiLocationView { parents: 0, interior: rest })
    }
}

/// The leading parachain junctions are exactly those before the first
/// junction of another kind.
pub proof fn lemma_leading_chain(interior: Seq<JunctionView>)
    ensures
        leading_chain(interior) <= interior.len(),
        forall|i: int| 0 <= i < leading_chain(interior) ==> interior[i] is Parachain,
        leading_chain(interior) < interior.len() ==> !(interior[leading_chain(interior) as int]
            is Parachain),
    decreases interior.len(),
{
    if interior.len() > 0 && interior[0] is Parachain {
        let rest = interior.skip(1);
        lemma_leading_chain(rest);
        assert forall|i: int| 0 <= i < leading_chain(interior) implies interior[i]
            is Parachain by {
            if i > 0 {
                assert(rest[i - 1] == interior[i]);
            }
        }
        if leading_chain(interior) < interior.len() {
            assert(rest[leading_chain(rest) as int] == interior[leading_chain(interior) as int]);
        }
    }
}

/// If the first `n` junctions are parachains and the next one, if any, is
/// not, then `n` is the number of leading parachain junctions.
pub proof fn lemma_leading_chain_is(interior: Seq<JunctionView>, n: nat)
    requires
        n <= interior.len(),
        forall|i: int| 0 <= i < n ==> interior[i] is Parachain,
        n < interior.len() ==> !(interior[n as int] is Parachain),
    ensures
        leading_chain(interior) == n,
    decreases n,
{
    if n > 0 {
        let rest = interior.skip(1);
        assert forall|i: int| 0 <= i < n - 1 implies rest[i] is Parachain by {
            assert(rest[i] == interior[i + 1]);
        }
        if n < interior.len() {
            assert(rest[n - 1] == interior[n as int]);
        }
        lemma_leading_chain_is(rest, (n - 1) as nat);
    }
}

impl MultiLocation {
    /// The location with the given steps up and interior.
    pub fn new(parents: u8, interior: Junctions) -> (loc: Self)
        ensures
            loc@ == (MultiLocationView { parents, interior: interior@ }),
    {
        MultiLocation { parents, interior }
    }

    /// The location of the reader itself.
    pub fn here() -> (loc: Self)
        ensures
            loc@ == here_view(),
    {
        MultiLocation { parents: 0, interior: Junctions::here() }
    }

    /// The location of the reader's parent.
    pub fn parent() -> (loc: Self)
        ensures
            loc@ == parent_view(),
    {
        MultiLocation { parents: 1, interior: Junctions::here() }
    }

    /// The ancestor `parents` steps up.
    pub fn ancestor(parents: u8) -> (loc: Self)
        ensures
            loc@ == (MultiLocationView { parents, interior: Seq::empty() }),
    {
        MultiLocation { parents, interior: Junctions::here() }
    }

    /// Whether this is the location of the reader itself.
    pub fn is_here(&self) -> (yes: bool)
        ensures
            yes == (self@ == here_view()),
    {
        let yes = self.parents == 0 && self.interior.is_here();
        assert(yes ==> self@.interior =~= Seq::<JunctionView>::empty());
        yes
    }

    /// The number of steps up.
    pub fn parent_count(&self) -> (n: u8)
        ensures
            n == self@.parents,
    {
        self.parents
    }

    /// The first junction of the interior, if there is one.
    pub fn first_interior(&self) -> (found: Option<&Junction>)
        ensures
            found is Some <==> self@.interior.len() > 0,
            found is Some ==> found->0@ == self@.interior[0],
    {
        self.interior.first()
    }

    /// Whether the location is `count` steps up and nothing else.
    pub fn contains_parents_only(&self, count: u8) -> (yes: bool)
        ensures
            yes == (self@.parents == count && self@.interior.len() == 0),
    {
        self.parents == count && self.interior.is_here()
    }

    /// Adds `suffix` at the end of the interior. When the interior would grow
    /// beyond the bound, the location stays as it is and `suffix` comes back.
    pub fn append_with(&mut self, suffix: Junctions) -> (done: Result<(), Junctions>)
        ensures
            match append_spec(old(self)@, suffix@) {
                Some(joined) => done is Ok && final(self)@ == joined,
                None => done == Err::<(), Junctions>(suffix) && final(self)@ == old(self)@,
            },
    {
        match self.interior.concat(&suffix) {
            Some(joined) => {
                self.interior = joined;
                Ok(())
            },
            None => Err(suffix),
        }
    }

    /// Re-expresses this location, read at `prefix`, as read from where
    /// `prefix` is read. When the result cannot be held, the location stays
    /// as it is and `prefix` comes back.
    pub fn prepend_with(&mut self, prefix: MultiLocation) -> (done: Result<(), MultiLocation>)
        ensures
            match prepend_spec(old(self)@, prefix@) {
                Some(joined) => done is Ok && final(self)@ == joined,
                None => done == Err::<(), MultiLocation>(prefix) && final(self)@ == old(self)@,
            },
    {
        let prefix_len = prefix.interior.len();
        let k: usize = if (self.parents as usize) <= prefix_len {
            self.parents as usize
        } else {
            prefix_len
        };
        let kept = prefix.interior.range(0, prefix_len - k);
        assert(kept@ =~= prefix@.interior.take(prefix_len - k));
        let parents: usize = prefix.parents as usize + (self.parents as usize - k);
        if parents > 255 {
            return Err(prefix);
        }
        match kept.concat(&self.interior) {
            Some(joined) => {
                self.parents = parents as u8;
                self.interior = joined;
                Ok(())
            },
            None => Err(prefix),
        }
    }

    /// The chain that the location lies on, if it is the parent, a sibling
    /// parachain or a child parachain.
    pub fn chain_part(&self) -> (chain: Option<MultiLocation>)
        ensures
            chain is Some <==> chain_part_spec(self@) is Some,
            chain is Some ==> chain->0@ == chain_part_spec(self@)->0,
    {
        let first = self.interior.first();
        if self.parents == 1 {
            match first {
                Some(Junction::Parachain(id)) => Some(
                    MultiLocation::new(1, Junctions::x1(Junction::Parachain(*id))),
                ),
                _ => Some(MultiLocation::parent()),
            }
        } else if self.parents == 0 {
            match first {
                Some(Junction::Parachain(id)) => Some(
                    MultiLocation::new(0, Junctions::x1(Junction::Parachain(*id))),
                ),
                _ => None,
            }
        } else {
            None
        }
    }

    /// What the location names on its chain, if anything is left after the
    /// leading parachain junctions.
    pub fn non_chain_part(&self) -> (rest: Option<MultiLocation>)
        ensures
            rest is Some <==> non_chain_part_spec(self@) is Some,
            rest is Some ==> rest->0@ == non_chain_part_spec(self@)->0,
    {
        let n = self.interior.len();
        let mut i: usize = 0;
        let mut found = false;
        while i < n && !found
            invariant
                n == self@.interior.len(),
                0 <= i <= n,
                forall|k: int| 0 <= k < i ==> self@.interior[k] is Parachain,
                found ==> i < n && !(self@.interior[i as int] is Parachain),
            decreases n - i + (if found { 0int } else { 1int }),
        {
            let chain = match self.interior.at(i) {
                Some(j) => j.is_chain(),
                None => false,
            };
            if chain {
                i += 1;
            } else {
                found = true;
            }
        }
        proof {
            lemma_leading_chain_is(self@.interior, i as nat);
        }
        if i < n {
            let rest = self.interior.range(i, n);
            assert(rest@ =~= self@.interior.skip(i as int));
            Some(MultiLocation::new(0, rest))
        } else {
            None
        }
    }
}

impl Clone for MultiLocation {
    fn clone(&self) -> (copy: Self)
        ensures
            copy@ == self@,
    {
        MultiLocation { parents: self.parents, interior: self.interior.clone() }
    }
}

impl PartialEq for MultiLocation {
    fn eq(&self, other: &Self) -> (same: bool) {
        self.parents == other.parents && self.interior == other.interior
    }
}

impl PartialEqSpecImpl for MultiLocation {
    open spec fn obeys_eq_spec() -> bool {
        true
    }

    open spec fn eq_spec(&self, other: &Self) -> bool {
        self@ == other@
    }
}

/// Computes how another chain refers back to this one, from this chain's
/// own place under the root.
#[derive(Debug)]
pub struct LocationInverter {
    /// The way from the root down to this chain.
    pub ancestry: MultiLocation,
}

impl LocationInverter {
    /// The inverter for a chain with the given ancestry.
    pub fn new(ancestry: MultiLocation) -> (inverter: Self)
        ensures
            inverter.ancestry@ == ancestry@,
    {
        LocationInverter { ancestry }
    }

    /// The ancestry that the inverter was made with.
    pub fn ancestry(&self) -> (ancestry: MultiLocation)
        ensures
            ancestry@ == self.ancestry@,
    {
        self.ancestry.clone()
    }

    /// The location by which the chain at `location` refers back to this
    /// chain. Fails when `location` has more steps up than an interior holds.
    pub fn invert_location(&self, location: &MultiLocation) -> (inverted: Result<
        MultiLocation,
        (),
    >)
        ensures
            inverted is Ok <==> invert_spec(self.ancestry@, location@) is Some,
            inverted is Ok ==> inverted->Ok_0@ == invert_spec(self.ancestry@, location@)->0,
    {
        if location.parents as usize > MAX_JUNCTIONS {
            return Err(());
        }
        let known = self.ancestry.interior.len();
        let steps = location.parents as usize;
        let mut junctions = Junctions::here();
        let mut i: usize = 0;
        while i < steps
            invariant
                0 <= i <= steps <= MAX_JUNCTIONS,
                steps == location.parents,
                known == self.ancestry@.interior.len(),
                known <= MAX_JUNCTIONS,
                junctions@.len() == i,
                forall|k: int|
                    0 <= k < i ==> junctions@[k] == ancestry_junction(
                        self.ancestry@,
                        steps as int,
                        k,
                    ),
            decreases steps - i,
        {
            let next = if known + i >= steps {
                match self.ancestry.interior.at(known + i - steps) {
                    Some(j) => j.clone(),
                    None => Junction::OnlyChild,
                }
            } else {
                Junction::OnlyChild
            };
            let pushed = junctions.push(next);
            i += 1;
        }
        let parents = location.interior.len() as u8;
        assert(junctions@ =~= invert_spec(self.ancestry@, location@)->0.interior);
        Ok(MultiLocation::new(parents, junctions))
    }
}

} // verus!
