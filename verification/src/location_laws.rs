//! What holds of the algebra of locations.

use crate::junction::JunctionView;
use crate::junctions::MAX_JUNCTIONS;
use crate::location::{
    ancestry_junction, append_spec, cancelled, chain_part_spec, here_view, invert_spec,
    leading_chain, lemma_leading_chain, non_chain_part_spec, prepend_spec, representable,
    MultiLocationView,
};
use vstd::prelude::*;

verus! {

/// Read from where it is read already, a location stays what it is.
pub proof fn lemma_prepend_here(location: MultiLocationView)
    requires
        representable(location),
    ensures
        prepend_spec(location, here_view()) == Some(location),
{
    let joined = prepend_spec(location, here_view())->0;
    assert(here_view().interior.take(0) + location.interior =~= location.interior);
}

/// The reader's own location, read at `prefix`, is `prefix`.
pub proof fn lemma_prepend_to_here(prefix: MultiLocationView)
    requires
        representable(prefix),
    ensures
        prepend_spec(here_view(), prefix) == Some(prefix),
{
    assert(prefix.interior.take(prefix.interior.len() as int) + here_view().interior
        =~= prefix.interior);
}

/// A location without steps up joins the prefix as an appended interior
/// does.
pub proof fn lemma_prepend_without_parents_appends(
    interior: Seq<JunctionView>,
    prefix: MultiLocationView,
)
    ensures
        prepend_spec(MultiLocationView { parents: 0, interior }, prefix) == append_spec(
            prefix,
            interior,
        ),
{
    assert(prefix.interior.take(prefix.interior.len() as int) =~= prefix.interior);
}

/// What prepending leaves is bounded, and it does as many steps up as the
/// two locations together, less two for each step that cancelled.
pub proof fn lemma_prepend_counts(suffix: MultiLocationView, prefix: MultiLocationView)
    requires
        prepend_spec(suffix, prefix) is Some,
    ensures
        representable(prepend_spec(suffix, prefix)->0),
        prepend_spec(suffix, prefix)->0.parents == prefix.parents + suffix.parents - cancelled(
            suffix,
            prefix,
        ),
        prepend_spec(suffix, prefix)->0.interior.len() == prefix.interior.len()
            + suffix.interior.len() - cancelled(suffix, prefix),
        0 <= cancelled(suffix, prefix) <= suffix.parents,
        cancelled(suffix, prefix) <= prefix.interior.len(),
{
}

/// Appending keeps the steps up and the junctions that were there, in
/// their places.
pub proof fn lemma_append_extends(base: MultiLocationView, suffix: Seq<JunctionView>)
    requires
        append_spec(base, suffix) is Some,
    ensures
        representable(append_spec(base, suffix)->0),
        append_spec(base, suffix)->0.parents == base.parents,
        append_spec(base, suffix)->0.interior.take(base.interior.len() as int) == base.interior,
        append_spec(base, suffix)->0.interior.skip(base.interior.len() as int) == suffix,
{
    let joined = append_spec(base, suffix)->0.interior;
    assert(joined.take(base.interior.len() as int) =~= base.interior);
    assert(joined.skip(base.interior.len() as int) =~= suffix);
}

/// The way back from a location below the chain is as many steps up as
/// the location is deep, and nothing else, whatever the ancestry.
pub proof fn lemma_invert_below(ancestry: MultiLocationView, target: MultiLocationView)
    requires
        target.parents == 0,
        representable(target),
    ensures
        invert_spec(ancestry, target) == Some(
            MultiLocationView {
                parents: target.interior.len() as u8,
                interior: Seq::<JunctionView>::empty(),
            },
        ),
{
    assert(invert_spec(ancestry, target)->0.interior =~= Seq::<JunctionView>::empty());
}

/// A chain that knows nothing of its own place is named from elsewhere
/// with the steps up and the depth of the target swapped: one step up for
/// each junction of the target, and one only child down for each of its
/// steps up.
pub proof fn lemma_invert_from_here(target: MultiLocationView)
    requires
        representable(target),
        target.parents <= MAX_JUNCTIONS,
    ensures
        invert_spec(here_view(), target) == Some(
            MultiLocationView {
                parents: target.interior.len() as u8,
                interior: Seq::new(target.parents as nat, |i: int| JunctionView::OnlyChild),
            },
        ),
{
    assert(invert_spec(here_view(), target)->0.interior =~= Seq::new(
        target.parents as nat,
        |i: int| JunctionView::OnlyChild,
    ));
}

/// Inverting the way back again gives a location that is as far up and
/// as deep as the target was, with junctions of the ancestry in the place
/// of the target's own: the target itself comes back only when it lies
/// where the ancestry says.
pub proof fn lemma_invert_twice(ancestry: MultiLocationView, target: MultiLocationView)
    requires
        representable(target),
        target.parents <= MAX_JUNCTIONS,
    ensures
        invert_spec(ancestry, invert_spec(ancestry, target)->0) is Some,
        invert_spec(ancestry, invert_spec(ancestry, target)->0)->0.parents == target.parents,
        invert_spec(ancestry, invert_spec(ancestry, target)->0)->0.interior.len()
            == target.interior.len(),
        forall|i: int|
            0 <= i < target.interior.len() ==> #[trigger] invert_spec(
                ancestry,
                invert_spec(ancestry, target)->0,
            )->0.interior[i] == ancestry_junction(ancestry, target.interior.len() as int, i),
{
}

/// The way back from the ancestor that is as many steps up as the
/// ancestry is deep is the ancestry's interior itself.
pub proof fn lemma_invert_root(ancestry: MultiLocationView)
    requires
        representable(ancestry),
    ensures
        invert_spec(
            ancestry,
            MultiLocationView {
                parents: ancestry.interior.len() as u8,
                interior: Seq::<JunctionView>::empty(),
            },
        ) == Some(MultiLocationView { parents: 0, interior: ancestry.interior }),
{
    let target = MultiLocationView {
        parents: ancestry.interior.len() as u8,
        interior: Seq::<JunctionView>::empty(),
    };
    assert(invert_spec(ancestry, target)->0.interior =~= ancestry.interior);
}

/// The way back forgets the target's own junctions but for their number:
/// two siblings that are equally deep get the same way back.
pub proof fn lemma_invert_forgets_junctions(
    ancestry: MultiLocationView,
    one: MultiLocationView,
    other: MultiLocationView,
)
    requires
        one.parents == other.parents,
        one.interior.len() == other.interior.len(),
    ensures
        invert_spec(ancestry, one) == invert_spec(ancestry, other),
{
}

/// The way back is bounded, and as deep as the target has steps up.
pub proof fn lemma_invert_counts(ancestry: MultiLocationView, target: MultiLocationView)
    requires
        representable(target),
    ensures
        invert_spec(ancestry, target) is Some <==> target.parents <= MAX_JUNCTIONS,
        invert_spec(ancestry, target) is Some ==> representable(invert_spec(ancestry, target)->0)
            && invert_spec(ancestry, target)->0.parents == target.interior.len() && invert_spec(
            ancestry,
            target,
        )->0.interior.len() == target.parents,
{
}

/// The chain of a location names a chain and nothing on it, and is its
/// own chain.
pub proof fn lemma_chain_part_is_a_chain(location: MultiLocationView)
    requires
        chain_part_spec(location) is Some,
    ensures
        chain_part_spec(chain_part_spec(location)->0) == chain_part_spec(location),
        non_chain_part_spec(chain_part_spec(location)->0) is None,
        chain_part_spec(location)->0.parents == location.parents,
        chain_part_spec(location)->0.interior.len() <= 1,
{
    let chain = chain_part_spec(location)->0;
    lemma_leading_chain(chain.interior);
    if chain.interior.len() == 1 {
        assert(chain.interior[0] is Parachain);
        assert(leading_chain(chain.interior.skip(1)) == 0);
        assert(leading_chain(chain.interior) == 1);
    }
}

/// What a location names on its chain is read from that chain, is not
/// empty, and does not start with a parachain.
pub proof fn lemma_non_chain_part_is_local(location: MultiLocationView)
    requires
        non_chain_part_spec(location) is Some,
    ensures
        non_chain_part_spec(location)->0.parents == 0,
        non_chain_part_spec(location)->0.interior.len() > 0,
        !(non_chain_part_spec(location)->0.interior[0] is Parachain),
        non_chain_part_spec(location)->0.interior.len() <= location.interior.len(),
{
    lemma_leading_chain(location.interior);
}

} // verus!
