//! Locations as they are stored: in the current form, or in the older form
//! of a single path, which must be brought to the current form before use.

use crate::junction::{Junction, JunctionView};
use crate::junctions::{Junctions, MAX_JUNCTIONS};
use crate::location::{MultiLocation, MultiLocationView};
use vstd::prelude::*;
use vstd::std_specs::cmp::PartialEqSpecImpl;
use vstd::std_specs::convert::FromSpecImpl;

verus! {

/// One step of a location that is written as a single path.
#[derive(Debug)]
pub enum PathStep {
    /// One step up.
    Parent,
    /// One step down, through a junction.
    Down(Junction),
}

/// The mathematical value of a [`PathStep`].
pub enum PathStepView {
    Parent,
    Down(JunctionView),
}

impl View for PathStep {
    type V = PathStepView;

    open spec fn view(&self) -> PathStepView {
        match *self {
            PathStep::Parent => PathStepView::Parent,
            PathStep::Down(junction) => PathStepView::Down(junction@),
        }
    }
}

impl Clone for PathStep {
    fn clone(&self) -> (copy: Self)
        ensures
            copy@ == self@,
    {
        match self {
            PathStep::Parent => PathStep::Parent,
            PathStep::Down(junction) => PathStep::Down(junction.clone()),
        }
    }
}

impl PartialEq for PathStep {
    fn eq(&self, other: &Self) -> (same: bool) {
        match (self, other) {
            (PathStep::Parent, PathStep::Parent) => true,
            (PathStep::Down(a), PathStep::Down(b)) => *a == *b,
            _ => false,
        }
    }
}

impl PartialEqSpecImpl for PathStep {
    open spec fn obeys_eq_spec() -> bool {
        true
    }

    open spec fn eq_spec(&self, other: &Self) -> bool {
        self@ == other@
    }
}

/// A location together with the form in which it is written.
#[derive(Debug)]
pub enum VersionedMultiLocation {
    /// The older form: a single path, in which a step up is a step like any
    /// other.
    V0(Vec<PathStep>),
    /// The current form.
    V1(MultiLocation),
}

/// The mathematical value of a [`VersionedMultiLocation`].
pub enum VersionedMultiLocationView {
    V0(Seq<PathStepView>),
    V1(MultiLocationView),
}

/// The values of the steps of a path.
pub open spec fn steps_of(path: Seq<PathStep>) -> Seq<PathStepView> {
    path.map_values(|step: PathStep| step@)
}

impl View for VersionedMultiLocation {
    type V = VersionedMultiLocationView;

    open spec fn view(&self) -> VersionedMultiLocationView {
        match *self {
            VersionedMultiLocation::V0(path) => VersionedMultiLocationView::V0(steps_of(path@)),
            VersionedMultiLocation::V1(location) => VersionedMultiLocationView::V1(location@),
        }
    }
}

/// The junction that a step goes down through; `OnlyChild` for a step up.
pub open spec fn junction_of(step: PathStepView) -> JunctionView {
    match step {
        PathStepView::Down(junction) => junction,
        PathStepView::Parent => JunctionView::OnlyChild,
    }
}

/// A path in the current form, which has `parents` steps up: the first
/// `parents` steps go up and all others go down, no more of them than an
/// interior holds.
pub open spec fn is_canonical(path: Seq<PathStepView>, parents: int) -> bool {
    &&& 0 <= parents <= path.len()
    &&& parents <= 255
    &&& path.len() - parents <= MAX_JUNCTIONS
    &&& forall|i: int| 0 <= i < parents ==> path[i] is Parent
    &&& forall|i: int| parents <= i < path.len() ==> path[i] is Down
}

/// The location that a path in the current form, with `parents` steps up,
/// stands for.
pub open spec fn location_of_path(path: Seq<PathStepView>, parents: int) -> MultiLocationView {
    MultiLocationView {
        parents: parents as u8,
        interior: Seq::new((path.len() - parents) as nat, |i: int| junction_of(path[parents + i])),
    }
}

/// Whether a path has a current form.
pub open spec fn has_canonical_form(path: Seq<PathStepView>) -> bool {
    exists|parents: int| is_canonical(path, parents)
}

/// The number of steps up of a path that has a current form.
pub open spec fn parents_of_path(path: Seq<PathStepView>) -> int {
    choose|parents: int| is_canonical(path, parents)
}

/// The location that a versioned location stands for; `None` when it is a
/// path in which a step up follows a step down, or which is too long.
pub open spec fn canonical(versioned: VersionedMultiLocationView) -> Option<MultiLocationView> {
    match versioned {
        VersionedMultiLocationView::V1(location) => Some(location),
        VersionedMultiLocationView::V0(path) => if has_canonical_form(path) {
            Some(location_of_path(path, parents_of_path(path)))
        } else {
            None
        },
    }
}

/// A path is in the current form for at most one number of steps up.
pub proof fn lemma_canonical_unique(path: Seq<PathStepView>, p: int, q: int)
    requires
        is_canonical(path, p),
        is_canonical(path, q),
    ensures
        p == q,
{
    if p < q {
        assert(path[p] is Down);
        assert(path[p] is Parent);
    } else if q < p {
        assert(path[q] is Down);
        assert(path[q] is Parent);
    }
}

impl VersionedMultiLocation {
    /// The location in the current form, unless this is a path that has no
    /// current form.
    pub fn try_into_location(&self) -> (converted: Result<MultiLocation, ()>)
        ensures
            converted is Ok <==> canonical(self@) is Some,
            converted is Ok ==> converted->Ok_0@ == canonical(self@)->0,
    {
        match self {
            VersionedMultiLocation::V1(location) => {
                assert(self@ == VersionedMultiLocationView::V1(location@));
                return Ok(location.clone());
            },
            VersionedMultiLocation::V0(path) => {
                assert(self@ == VersionedMultiLocationView::V0(steps_of(path@)));
                let n = path.len();
                let mut parents: usize = 0;
                let mut going_up = true;
                while parents < n && going_up
                    invariant
                        0 <= parents <= n == path@.len(),
                        forall|i: int| 0 <= i < parents ==> steps_of(path@)[i] is Parent,
                        !going_up ==> parents < n && steps_of(path@)[parents as int] is Down,
                    decreases n - parents + (if going_up { 1int } else { 0int }),
                {
                    match &path[parents] {
                        PathStep::Parent => {
                            parents += 1;
                        },
                        PathStep::Down(_) => {
                            going_up = false;
                        },
                    }
                }
                if parents > 255 || n - parents > MAX_JUNCTIONS {
                    assert forall|p: int| !is_canonical(steps_of(path@), p) by {
                        if is_canonical(steps_of(path@), p) {
                            if p < parents {
                                assert(steps_of(path@)[p] is Down);
                            } else if p > parents {
                                assert(steps_of(path@)[parents as int] is Parent);
                            }
                        }
                    }
                    return Err(());
                }
                let mut interior = Junctions::here();
                let mut i: usize = parents;
                while i < n
                    invariant
                        parents <= i <= n == path@.len(),
                        n - parents <= MAX_JUNCTIONS,
                        interior@.len() == i - parents,
                        self@ == VersionedMultiLocationView::V0(steps_of(path@)),
                        parents < n ==> steps_of(path@)[parents as int] is Down,
                        forall|k: int| 0 <= k < parents ==> steps_of(path@)[k] is Parent,
                        forall|k: int| parents <= k < i ==> steps_of(path@)[k] is Down,
                        forall|k: int|
                            0 <= k < i - parents ==> interior@[k] == junction_of(
                                steps_of(path@)[parents + k],
                            ),
                    decreases n - i,
                {
                    match &path[i] {
                        PathStep::Parent => {
                            assert forall|p: int| !is_canonical(steps_of(path@), p) by {
                                if is_canonical(steps_of(path@), p) {
                                    if p <= i {
                                        assert(steps_of(path@)[i as int] is Down);
                                    } else {
                                        assert(steps_of(path@)[parents as int] is Parent);
                                    }
                                }
                            }
                            return Err(());
                        },
                        PathStep::Down(junction) => {
                            let pushed = interior.push(junction.clone());
                        },
                    }
                    i += 1;
                }
                proof {
                    assert(is_canonical(steps_of(path@), parents as int));
                    lemma_canonical_unique(
                        steps_of(path@),
                        parents_of_path(steps_of(path@)),
                        parents as int,
                    );
                    assert(interior@ =~= location_of_path(steps_of(path@), parents as int).interior);
                }
                return Ok(MultiLocation::new(parents as u8, interior));
            },
        }
    }
}

/// Copies a path.
fn clone_path(path: &Vec<PathStep>) -> (copy: Vec<PathStep>)
    ensures
        steps_of(copy@) == steps_of(path@),
{
    let mut copy: Vec<PathStep> = Vec::new();
    let mut i: usize = 0;
    while i < path.len()
        invariant
            0 <= i <= path@.len(),
            copy@.len() == i,
            forall|k: int| 0 <= k < i ==> copy@[k]@ == path@[k]@,
        decreases path@.len() - i,
    {
        copy.push(path[i].clone());
        i += 1;
    }
    assert(steps_of(copy@) =~= steps_of(path@));
    copy
}

/// Compares two paths.
fn same_path(a: &Vec<PathStep>, b: &Vec<PathStep>) -> (same: bool)
    ensures
        same == (steps_of(a@) == steps_of(b@)),
{
    if a.len() != b.len() {
        assert(steps_of(a@).len() != steps_of(b@).len());
        return false;
    }
    let mut i: usize = 0;
    while i < a.len()
        invariant
            a@.len() == b@.len(),
            0 <= i <= a@.len(),
            forall|k: int| 0 <= k < i ==> a@[k]@ == b@[k]@,
        decreases a@.len() - i,
    {
        if !(a[i] == b[i]) {
            assert(steps_of(a@)[i as int] != steps_of(b@)[i as int]);
            return false;
        }
        i += 1;
    }
    assert(steps_of(a@) =~= steps_of(b@));
    true
}

impl Clone for VersionedMultiLocation {
    fn clone(&self) -> (copy: Self)
        ensures
            copy@ == self@,
    {
        match self {
            VersionedMultiLocation::V0(path) => VersionedMultiLocation::V0(clone_path(path)),
            VersionedMultiLocation::V1(location) => VersionedMultiLocation::V1(location.clone()),
        }
    }
}

impl PartialEq for VersionedMultiLocation {
    fn eq(&self, other: &Self) -> (same: bool) {
        match (self, other) {
            (VersionedMultiLocation::V0(a), VersionedMultiLocation::V0(b)) => same_path(a, b),
            (VersionedMultiLocation::V1(a), VersionedMultiLocation::V1(b)) => *a == *b,
            _ => false,
        }
    }
}

impl PartialEqSpecImpl for VersionedMultiLocation {
    open spec fn obeys_eq_spec() -> bool {
        true
    }

    open spec fn eq_spec(&self, other: &Self) -> bool {
        self@ == other@
    }
}

impl From<MultiLocation> for VersionedMultiLocation {
    fn from(location: MultiLocation) -> (versioned: Self) {
        VersionedMultiLocation::V1(location)
    }
}

impl FromSpecImpl<MultiLocation> for VersionedMultiLocation {
    open spec fn obeys_from_spec() -> bool {
        true
    }

    open spec fn from_spec(location: MultiLocation) -> Self {
        VersionedMultiLocation::V1(location)
    }
}

} // verus!
