//! The interior of a location: at most eight junctions, in order.

use crate::junction::{Junction, JunctionView};
use vstd::prelude::*;
use vstd::std_specs::cmp::PartialEqSpecImpl;

verus! {

/// The largest number of junctions that an interior may hold.
pub const MAX_JUNCTIONS: usize = 8;

/// The values of a sequence of junctions, one by one.
pub open spec fn views_of(items: Seq<Junction>) -> Seq<JunctionView> {
    items.map_values(|j: Junction| j@)
}

/// Taking the values commutes with appending a junction.
pub proof fn lemma_views_push(items: Seq<Junction>, j: Junction)
    ensures
        views_of(items.push(j)) == views_of(items).push(j@),
        views_of(items).len() == items.len(),
{
    assert(views_of(items.push(j)) =~= views_of(items).push(j@));
}

/// An ordered sequence of at most [`MAX_JUNCTIONS`] junctions.
#[derive(Debug)]
pub struct Junctions {
    items: Vec<Junction>,
}

impl View for Junctions {
    type V = Seq<JunctionView>;

    closed spec fn view(&self) -> Seq<JunctionView> {
        views_of(self.items@)
    }
}

impl Junctions {
    #[verifier::type_invariant]
    spec fn bounded(self) -> bool {
        self.items@.len() <= MAX_JUNCTIONS
    }

    /// The empty interior.
    pub fn here() -> (interior: Self)
        ensures
            interior@ == Seq::<JunctionView>::empty(),
    {
        let interior = Junctions { items: Vec::new() };
        assert(interior@ =~= Seq::<JunctionView>::empty());
        interior
    }

    /// The interior of one junction.
    pub fn x1(a: Junction) -> (interior: Self)
        ensures
            interior@ == seq![a@],
    {
        let mut items: Vec<Junction> = Vec::new();
        items.push(a);
        let interior = Junctions { items };
        assert(interior@ =~= seq![a@]);
        interior
    }

    /// The interior of two junctions.
    pub fn x2(a: Junction, b: Junction) -> (interior: Self)
        ensures
            interior@ == seq![a@, b@],
    {
        let mut items: Vec<Junction> = Vec::new();
        items.push(a);
        items.push(b);
        let interior = Junctions { items };
        assert(interior@ =~= seq![a@, b@]);
        interior
    }

    /// The interior made of the given junctions, unless they are too many.
    pub fn from_vec(items: Vec<Junction>) -> (made: Option<Self>)
        ensures
            made is Some <==> items@.len() <= MAX_JUNCTIONS,
            made is Some ==> made->0@ == views_of(items@),
    {
        if items.len() <= MAX_JUNCTIONS {
            Some(Junctions { items })
        } else {
            None
        }
    }

    /// The number of junctions.
    pub fn len(&self) -> (n: usize)
        ensures
            n == self@.len(),
            n <= MAX_JUNCTIONS,
    {
        proof {
            use_type_invariant(self);
        }
        self.items.len()
    }

    /// Whether there is no junction.
    pub fn is_here(&self) -> (empty: bool)
        ensures
            empty == (self@.len() == 0),
    {
        self.items.len() == 0
    }

    /// The junction at index `i`, if there is one.
    pub fn at(&self, i: usize) -> (found: Option<&Junction>)
        ensures
            found is Some <==> i < self@.len(),
            found is Some ==> found->0@ == self@[i as int],
    {
        if i < self.items.len() {
            Some(&self.items[i])
        } else {
            None
        }
    }

    /// The first junction, if there is one.
    pub fn first(&self) -> (found: Option<&Junction>)
        ensures
            found is Some <==> self@.len() > 0,
            found is Some ==> found->0@ == self@[0],
    {
        self.at(0)
    }

    /// The last junction, if there is one.
    pub fn last(&self) -> (found: Option<&Junction>)
        ensures
            found is Some <==> self@.len() > 0,
            found is Some ==> found->0@ == self@[self@.len() - 1],
    {
        let n = self.items.len();
        if n > 0 {
            Some(&self.items[n - 1])
        } else {
            None
        }
    }

    /// Takes the junctions out and leaves the interior empty.
    fn take_items(&mut self) -> (items: Vec<Junction>)
        ensures
            views_of(items@) == old(self)@,
            items@.len() == old(self)@.len(),
            items@.len() <= MAX_JUNCTIONS,
            final(self)@ == Seq::<JunctionView>::empty(),
    {
        proof {
            use_type_invariant(&*self);
        }
        let mut taken = Junctions::here();
        core::mem::swap(self, &mut taken);
        let Junctions { items } = taken;
        items
    }

    /// Appends a junction, or hands it back when the interior is full.
    pub fn push(&mut self, new: Junction) -> (done: Result<(), Junction>)
        ensures
            old(self)@.len() < MAX_JUNCTIONS ==> done is Ok && final(self)@ == old(self)@.push(new@),
            old(self)@.len() >= MAX_JUNCTIONS ==> done == Err::<(), Junction>(new) && final(self)@
                == old(self)@,
    {
        if self.items.len() < MAX_JUNCTIONS {
            let mut items = self.take_items();
            proof {
                lemma_views_push(items@, new);
            }
            items.push(new);
            *self = Junctions { items };
            Ok(())
        } else {
            Err(new)
        }
    }

    /// Puts a junction in front, or hands it back when the interior is full.
    pub fn push_front(&mut self, new: Junction) -> (done: Result<(), Junction>)
        ensures
            old(self)@.len() < MAX_JUNCTIONS ==> done is Ok && final(self)@ == seq![new@] + old(self)@,
            old(self)@.len() >= MAX_JUNCTIONS ==> done == Err::<(), Junction>(new) && final(self)@
                == old(self)@,
    {
        if self.items.len() < MAX_JUNCTIONS {
            let mut items = self.take_items();
            let ghost before = items@;
            items.insert(0, new);
            assert(views_of(items@) =~= seq![new@] + views_of(before));
            *self = Junctions { items };
            Ok(())
        } else {
            Err(new)
        }
    }

    /// Removes the first junction and returns it, if there is one.
    pub fn take_first(&mut self) -> (taken: Option<Junction>)
        ensures
            old(self)@.len() == 0 ==> taken is None && final(self)@ == old(self)@,
            old(self)@.len() > 0 ==> taken is Some && taken->0@ == old(self)@[0] && final(self)@
                == old(self)@.subrange(1, old(self)@.len() as int),
    {
        if self.items.len() > 0 {
            let mut items = self.take_items();
            let ghost before = items@;
            let taken = items.remove(0);
            assert(views_of(items@) =~= views_of(before).subrange(1, before.len() as int));
            *self = Junctions { items };
            Some(taken)
        } else {
            None
        }
    }

    /// Removes the last junction and returns it, if there is one.
    pub fn take_last(&mut self) -> (taken: Option<Junction>)
        ensures
            old(self)@.len() == 0 ==> taken is None && final(self)@ == old(self)@,
            old(self)@.len() > 0 ==> taken is Some && taken->0@ == old(self)@.last() && final(self)@
                == old(self)@.drop_last(),
    {
        if self.items.len() > 0 {
            let mut items = self.take_items();
            let ghost before = items@;
            let taken = items.pop();
            assert(views_of(items@) =~= views_of(before).drop_last());
            *self = Junctions { items };
            taken
        } else {
            None
        }
    }

    /// The junctions from index `from` up to, not including, index `to`.
    pub fn range(&self, from: usize, to: usize) -> (part: Self)
        requires
            from <= to <= self@.len(),
        ensures
            part@ == self@.subrange(from as int, to as int),
    {
        proof {
            use_type_invariant(self);
        }
        Junctions { items: copy_range(&self.items, from, to) }
    }

    /// This interior followed by `suffix`, unless the two are too long together.
    pub fn concat(&self, suffix: &Junctions) -> (joined: Option<Self>)
        ensures
            joined is Some <==> self@.len() + suffix@.len() <= MAX_JUNCTIONS,
            joined is Some ==> joined->0@ == self@ + suffix@,
    {
        proof {
            use_type_invariant(self);
            use_type_invariant(suffix);
        }
        if self.items.len() + suffix.items.len() > MAX_JUNCTIONS {
            return None;
        }
        let mut items = copy_range(&self.items, 0, self.items.len());
        assert(self@.subrange(0, self@.len() as int) =~= self@);
        let mut i: usize = 0;
        while i < suffix.items.len()
            invariant
                0 <= i <= suffix.items@.len(),
                views_of(items@) == views_of(self.items@) + views_of(suffix.items@).subrange(
                    0,
                    i as int,
                ),
            decreases suffix.items@.len() - i,
        {
            let next = suffix.items[i].clone();
            proof {
                lemma_views_push(items@, next);
            }
            items.push(next);
            assert(views_of(items@) =~= views_of(self.items@) + views_of(suffix.items@).subrange(
                0,
                i + 1,
            ));
            i += 1;
        }
        assert(suffix@.subrange(0, suffix@.len() as int) =~= suffix@);
        assert(views_of(items@).len() == items@.len());
        Some(Junctions { items })
    }
}

/// Copies the junctions from index `from` up to, not including, index `to`.
fn copy_range(items: &Vec<Junction>, from: usize, to: usize) -> (part: Vec<Junction>)
    requires
        from <= to <= items@.len(),
    ensures
        views_of(part@) == views_of(items@).subrange(from as int, to as int),
        part@.len() == to - from,
{
    let mut part: Vec<Junction> = Vec::new();
    let mut i: usize = from;
    while i < to
        invariant
            from <= i <= to <= items@.len(),
            part@.len() == i - from,
            views_of(part@) == views_of(items@).subrange(from as int, i as int),
        decreases to - i,
    {
        let next = items[i].clone();
        proof {
            lemma_views_push(part@, next);
        }
        part.push(next);
        assert(views_of(part@) =~= views_of(items@).subrange(from as int, i + 1));
        i += 1;
    }
    part
}

impl Clone for Junctions {
    fn clone(&self) -> (copy: Self)
        ensures
            copy@ == self@,
    {
        let copy = self.range(0, self.len());
        assert(self@.subrange(0, self@.len() as int) =~= self@);
        copy
    }
}

impl PartialEq for Junctions {
    fn eq(&self, other: &Self) -> (same: bool) {
        if self.items.len() != other.items.len() {
            assert(self@.len() != other@.len());
            return false;
        }
        let mut i: usize = 0;
        while i < self.items.len()
            invariant
                self.items@.len() == other.items@.len(),
                0 <= i <= self.items@.len(),
                forall|k: int| 0 <= k < i ==> self.items@[k]@ == other.items@[k]@,
            decreases self.items@.len() - i,
        {
            if !(self.items[i] == other.items[i]) {
                assert(self@[i as int] != other@[i as int]);
                return false;
            }
            i += 1;
        }
        assert(self@ =~= other@);
        true
    }
}

impl PartialEqSpecImpl for Junctions {
    open spec fn obeys_eq_spec() -> bool {
        true
    }

    open spec fn eq_spec(&self, other: &Self) -> bool {
        self@ == other@
    }
}

} // verus!
