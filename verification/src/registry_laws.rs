//! What holds of the asset registry whatever calls are made on it.

use crate::error::Error;
use crate::impls::{next_id, SequentialId};
use crate::location::MultiLocationView;
use crate::registry::{
    bound_to, empty_registry, insert_spec, lemma_empty_has_no_stale_entries,
    lemma_insert_keeps_no_stale_entries, lemma_update_conflict,
    lemma_update_keeps_no_stale_entries, located_at, location_of, no_stale_entries, readable,
    register_spec, set_location_spec, update_asset_spec, with_location, AssetMetadata,
    AssetMetadataView, Balance, RegistryView,
};
use crate::traits::AssetProcessor;
use crate::versioned::{canonical, VersionedMultiLocationView};
use vstd::prelude::*;

verus! {

/// The registry that a registration leaves: the new one when it went
/// through, the old one when it was refused.
pub open spec fn after_register<C, P: AssetProcessor<AssetMetadata<Balance, C>>>(
    registry: RegistryView<C>,
    authorized: bool,
    metadata: AssetMetadataView<Balance, C>,
    asset_id: Option<u32>,
) -> RegistryView<C> {
    match register_spec::<C, P>(registry, authorized, metadata, asset_id) {
        Ok((id, after)) => after,
        Err(_) => registry,
    }
}

/// A registration leaves nothing stale.
pub proof fn lemma_register_keeps_no_stale_entries<C, P: AssetProcessor<AssetMetadata<Balance, C>>>(
    registry: RegistryView<C>,
    authorized: bool,
    metadata: AssetMetadataView<Balance, C>,
    asset_id: Option<u32>,
)
    requires
        no_stale_entries(registry),
    ensures
        no_stale_entries(after_register::<C, P>(registry, authorized, metadata, asset_id)),
{
    if authorized && !(location_of(metadata) is Some && registry.location_lookup.contains_key(
        location_of(metadata)->0,
    )) {
        match P::assign_spec(registry.last_asset_id, asset_id) {
            Ok((id, last)) => {
                let staged = RegistryView {
                    metadata: registry.metadata,
                    location_lookup: registry.location_lookup,
                    last_asset_id: last,
                };
                assert(no_stale_entries(staged)) by {
                    assert forall|l: MultiLocationView, k: u32| #[trigger]
                        bound_to(staged, l, k) <==> located_at(staged, k, l) by {
                        assert(bound_to(registry, l, k) <==> located_at(registry, k, l));
                    }
                }
                if !registry.metadata.contains_key(id) && insert_spec(staged, id, metadata) is Ok {
                    lemma_insert_keeps_no_stale_entries(staged, id, metadata);
                }
            },
            Err(_) => {},
        }
    }
}

/// Registering metadata that gives a location a second time yields the id
/// of the first time and changes nothing: no id is given anew, whatever id
/// the caller asks for.
pub proof fn lemma_registration_is_idempotent<C, P: AssetProcessor<AssetMetadata<Balance, C>>>(
    registry: RegistryView<C>,
    metadata: AssetMetadataView<Balance, C>,
    first: Option<u32>,
    second: Option<u32>,
)
    requires
        location_of(metadata) is Some,
        register_spec::<C, P>(registry, true, metadata, first) is Ok,
    ensures
        register_spec::<C, P>(
            register_spec::<C, P>(registry, true, metadata, first)->Ok_0.1,
            true,
            metadata,
            second,
        ) == register_spec::<C, P>(registry, true, metadata, first),
{
}

/// New metadata for asset `b` whose location is bound to another asset `a`
/// is refused as a conflict.
pub proof fn lemma_conflicting_update_is_rejected<C>(
    registry: RegistryView<C>,
    metadata: AssetMetadataView<Balance, C>,
    a: u32,
    b: u32,
)
    requires
        no_stale_entries(registry),
        registry.metadata.contains_key(b),
        location_of(metadata) is Some,
        bound_to(registry, location_of(metadata)->0, a),
        a != b,
    ensures
        update_asset_spec(registry, true, metadata, b) == Err::<RegistryView<C>, Error>(
            Error::ConflictingLocation,
        ),
{
    lemma_update_conflict(registry, b, metadata);
}

/// A location for asset `b` that is bound to another asset `a` is refused
/// as a conflict.
pub proof fn lemma_conflicting_location_is_rejected<C>(
    registry: RegistryView<C>,
    location: VersionedMultiLocationView,
    a: u32,
    b: u32,
)
    requires
        no_stale_entries(registry),
        registry.metadata.contains_key(b),
        canonical(location) is Some,
        bound_to(registry, canonical(location)->0, a),
        a != b,
    ensures
        set_location_spec(registry, true, b, location) == Err::<RegistryView<C>, Error>(
            Error::ConflictingLocation,
        ),
{
    lemma_update_conflict(registry, b, with_location(registry.metadata[b], location));
}

/// One call on a registry.
pub enum RegistryCall<C> {
    /// Register an asset.
    Register { authorized: bool, metadata: AssetMetadataView<Balance, C>, asked: Option<u32> },
    /// Replace the metadata of an asset.
    Update { authorized: bool, metadata: AssetMetadataView<Balance, C>, asset_id: u32 },
    /// Set the location of an asset.
    SetLocation { authorized: bool, asset_id: u32, location: VersionedMultiLocationView },
}

/// The registry that a call leaves: changed when the call went through, as
/// it was when the call was refused.
pub open spec fn apply<C, P: AssetProcessor<AssetMetadata<Balance, C>>>(
    registry: RegistryView<C>,
    call: RegistryCall<C>,
) -> RegistryView<C> {
    match call {
        RegistryCall::Register { authorized, metadata, asked } => after_register::<C, P>(
            registry,
            authorized,
            metadata,
            asked,
        ),
        RegistryCall::Update { authorized, metadata, asset_id } => match update_asset_spec(
            registry,
            authorized,
            metadata,
            asset_id,
        ) {
            Ok(after) => after,
            Err(_) => registry,
        },
        RegistryCall::SetLocation { authorized, asset_id, location } => match set_location_spec(
            registry,
            authorized,
            asset_id,
            location,
        ) {
            Ok(after) => after,
            Err(_) => registry,
        },
    }
}

/// The registry that the calls, made in order on an empty registry, leave.
pub open spec fn registry_after<C, P: AssetProcessor<AssetMetadata<Balance, C>>>(
    calls: Seq<RegistryCall<C>>,
) -> RegistryView<C>
    decreases calls.len(),
{
    if calls.len() == 0 {
        empty_registry()
    } else {
        apply::<C, P>(registry_after::<C, P>(calls.drop_last()), calls.last())
    }
}

/// A call leaves nothing stale.
pub proof fn lemma_call_keeps_no_stale_entries<C, P: AssetProcessor<AssetMetadata<Balance, C>>>(
    registry: RegistryView<C>,
    call: RegistryCall<C>,
)
    requires
        no_stale_entries(registry),
    ensures
        no_stale_entries(apply::<C, P>(registry, call)),
{
    match call {
        RegistryCall::Register { authorized, metadata, asked } => {
            lemma_register_keeps_no_stale_entries::<C, P>(registry, authorized, metadata, asked);
        },
        RegistryCall::Update { authorized, metadata, asset_id } => {
            if update_asset_spec(registry, authorized, metadata, asset_id) is Ok {
                lemma_update_keeps_no_stale_entries(registry, asset_id, metadata);
            }
        },
        RegistryCall::SetLocation { authorized, asset_id, location } => {
            if set_location_spec(registry, authorized, asset_id, location) is Ok {
                lemma_update_keeps_no_stale_entries(
                    registry,
                    asset_id,
                    with_location(registry.metadata[asset_id], location),
                );
            }
        },
    }
}

/// Whatever calls are made, in whatever order, a location is bound to an
/// id exactly when the metadata under that id gives that location.
pub proof fn lemma_never_stale<C, P: AssetProcessor<AssetMetadata<Balance, C>>>(
    calls: Seq<RegistryCall<C>>,
)
    ensures
        no_stale_entries(registry_after::<C, P>(calls)),
    decreases calls.len(),
{
    if calls.len() == 0 {
        lemma_empty_has_no_stale_entries::<C>();
    } else {
        lemma_never_stale::<C, P>(calls.drop_last());
        lemma_call_keeps_no_stale_entries::<C, P>(
            registry_after::<C, P>(calls.drop_last()),
            calls.last(),
        );
    }
}

/// Whether `earlier` is no later in the sequence of ids than `later`.
pub open spec fn not_after(earlier: Option<u32>, later: Option<u32>) -> bool {
    match earlier {
        None => true,
        Some(x) => later is Some && x <= later->0,
    }
}

/// With ids given in sequence, no call moves the last id given backwards.
pub proof fn lemma_counter_never_decreases<C>(registry: RegistryView<C>, call: RegistryCall<C>)
    ensures
        not_after(registry.last_asset_id, apply::<C, SequentialId>(registry, call).last_asset_id),
{
}

/// Every registered id has been given in sequence, and the sequence has
/// not run out.
pub open spec fn in_sequence<C>(registry: RegistryView<C>) -> bool {
    &&& registry.last_asset_id != Some(u32::MAX)
    &&& forall|id: u32| #[trigger]
        registry.metadata.contains_key(id) ==> registry.last_asset_id is Some && id
            <= registry.last_asset_id->0
}

/// With ids given in sequence and none asked for, an asset whose location,
/// if it gives one, can be read and is not bound yet gets the id that
/// follows the last one.
pub proof fn lemma_next_registration_gets_next_id<C>(
    registry: RegistryView<C>,
    metadata: AssetMetadataView<Balance, C>,
)
    requires
        in_sequence(registry),
        readable(metadata),
        location_of(metadata) is Some ==> !registry.location_lookup.contains_key(
            location_of(metadata)->0,
        ),
    ensures
        register_spec::<C, SequentialId>(registry, true, metadata, None) is Ok,
        register_spec::<C, SequentialId>(registry, true, metadata, None)->Ok_0.0 == next_id(
            registry.last_asset_id,
        ),
        after_register::<C, SequentialId>(registry, true, metadata, None).last_asset_id == Some(
            next_id(registry.last_asset_id),
        ),
        next_id(registry.last_asset_id) < u32::MAX ==> in_sequence(
            after_register::<C, SequentialId>(registry, true, metadata, None),
        ),
{
    let next = next_id(registry.last_asset_id);
    if registry.metadata.contains_key(next) {
        assert(next <= registry.last_asset_id->0);
    }
}

/// The registry after the assets of `batch` were registered one by one,
/// none with an id of the caller's choice, starting with nothing
/// registered and with ids given in sequence.
pub open spec fn after_batch<C>(batch: Seq<AssetMetadataView<Balance, C>>) -> RegistryView<C>
    decreases batch.len(),
{
    if batch.len() == 0 {
        empty_registry()
    } else {
        after_register::<C, SequentialId>(after_batch(batch.drop_last()), true, batch.last(), None)
    }
}

/// The metadata of a batch can be told apart by location: each location can
/// be read, and no two assets give the same.
pub open spec fn separate<C>(batch: Seq<AssetMetadataView<Balance, C>>) -> bool {
    &&& forall|i: int| 0 <= i < batch.len() ==> readable(#[trigger] batch[i])
    &&& forall|i: int, j: int|
        0 <= i < j < batch.len() && location_of(batch[i]) is Some ==> location_of(batch[i])
            != location_of(batch[j])
}

/// Whether `metadata` is registered under `id`.
pub open spec fn registered_as<C>(
    registry: RegistryView<C>,
    id: int,
    metadata: AssetMetadataView<Balance, C>,
) -> bool {
    0 <= id <= u32::MAX && registry.metadata.contains_key(id as u32) && registry.metadata[id as u32]
        == metadata
}

/// After a batch of separate assets, the ids 0, 1, 2 and so on are taken,
/// in the order of registration, and the locations bound are those of the
/// batch.
pub proof fn lemma_batch_takes_ids_in_order<C>(batch: Seq<AssetMetadataView<Balance, C>>)
    requires
        separate(batch),
        batch.len() < u32::MAX,
    ensures
        batch.len() == 0 ==> after_batch(batch).last_asset_id is None,
        batch.len() > 0 ==> after_batch(batch).last_asset_id == Some((batch.len() - 1) as u32),
        in_sequence(after_batch(batch)),
        forall|l: MultiLocationView| #[trigger]
            after_batch(batch).location_lookup.contains_key(l) ==> exists|i: int|
                0 <= i < batch.len() && location_of(#[trigger] batch[i]) == Some(l),
        forall|i: int|
            0 <= i < batch.len() ==> #[trigger] registered_as(after_batch(batch), i, batch[i]),
    decreases batch.len(),
{
    if batch.len() > 0 {
        let earlier = batch.drop_last();
        let last = batch.last();
        let n = earlier.len();
        assert(separate(earlier)) by {
            assert forall|i: int| 0 <= i < earlier.len() implies readable(
                #[trigger] earlier[i],
            ) by {
                assert(earlier[i] == batch[i]);
            }
            assert forall|i: int, j: int|
                0 <= i < j < earlier.len() && location_of(earlier[i]) is Some implies location_of(
                earlier[i],
            ) != location_of(earlier[j]) by {
                assert(earlier[i] == batch[i]);
                assert(earlier[j] == batch[j]);
            }
        }
        lemma_batch_takes_ids_in_order(earlier);
        let before = after_batch(earlier);
        assert(readable(batch[n as int]));
        if location_of(last) is Some && before.location_lookup.contains_key(location_of(last)->0) {
            let i = choose|i: int|
                0 <= i < earlier.len() && location_of(#[trigger] earlier[i]) == Some(
                    location_of(last)->0,
                );
            assert(earlier[i] == batch[i]);
            assert(location_of(batch[i]) != location_of(batch[n as int]));
        }
        lemma_next_registration_gets_next_id(before, last);
        let after = after_batch(batch);
        assert forall|l: MultiLocationView| #[trigger]
            after.location_lookup.contains_key(l) implies exists|i: int|
            0 <= i < batch.len() && location_of(#[trigger] batch[i]) == Some(l) by {
            if before.location_lookup.contains_key(l) {
                let i = choose|i: int|
                    0 <= i < earlier.len() && location_of(#[trigger] earlier[i]) == Some(l);
                assert(earlier[i] == batch[i]);
            } else {
                assert(location_of(batch[n as int]) == Some(l));
            }
        }
        assert forall|i: int| 0 <= i < batch.len() implies #[trigger] registered_as(
            after,
            i,
            batch[i],
        ) by {
            if i < n {
                assert(registered_as(before, i, earlier[i]));
                assert(earlier[i] == batch[i]);
            }
        }
    }
}

/// Consecutive registrations of separate assets, none with an id of the
/// caller's choice, get the ids 0, 1, 2 and so on, in the order of the
/// calls: the registration that follows `batch` gets the id `batch.len()`.
pub proof fn lemma_sequential_ids<C>(
    batch: Seq<AssetMetadataView<Balance, C>>,
    next: AssetMetadataView<Balance, C>,
)
    requires
        separate(batch.push(next)),
        batch.len() < u32::MAX,
    ensures
        register_spec::<C, SequentialId>(after_batch(batch), true, next, None) is Ok,
        register_spec::<C, SequentialId>(after_batch(batch), true, next, None)->Ok_0.0
            == batch.len(),
{
    let all = batch.push(next);
    assert(all.drop_last() =~= batch);
    assert(separate(batch)) by {
        assert forall|i: int| 0 <= i < batch.len() implies readable(#[trigger] batch[i]) by {
            assert(batch[i] == all[i]);
        }
        assert forall|i: int, j: int|
            0 <= i < j < batch.len() && location_of(batch[i]) is Some implies location_of(
            batch[i],
        ) != location_of(batch[j]) by {
            assert(batch[i] == all[i]);
            assert(batch[j] == all[j]);
        }
    }
    lemma_batch_takes_ids_in_order(batch);
    let before = after_batch(batch);
    assert(readable(all[batch.len() as int]));
    if location_of(next) is Some && before.location_lookup.contains_key(location_of(next)->0) {
        let i = choose|i: int|
            0 <= i < batch.len() && location_of(#[trigger] batch[i]) == Some(
                location_of(next)->0,
            );
        assert(batch[i] == all[i]);
        assert(location_of(all[i]) != location_of(all[batch.len() as int]));
    }
    lemma_next_registration_gets_next_id(before, next);
}

} // verus!
