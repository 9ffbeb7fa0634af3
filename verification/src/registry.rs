//! The rules of the asset registry, stated over mathematical values: what
//! each call changes, and what holds of every registry.

use crate::error::Error;
use crate::junction::bytes_clone;
use crate::location::MultiLocationView;
use crate::traits::AssetProcessor;
use crate::versioned::{canonical, VersionedMultiLocation, VersionedMultiLocationView};
use vstd::prelude::*;

verus! {

/// The amounts of assets.
pub type Balance = u128;

/// What is known of a registered asset.
#[derive(Debug, PartialEq)]
pub struct AssetMetadata<Balance, CustomMetadata> {
    /// The number of decimal places of an amount.
    pub decimals: u32,
    /// The name of the asset.
    pub name: Vec<u8>,
    /// The ticker symbol of the asset.
    pub symbol: Vec<u8>,
    /// The least amount that an account may hold.
    pub existential_deposit: Balance,
    /// Where the asset lives, if it has a location.
    pub location: Option<VersionedMultiLocation>,
    /// What the deployment keeps with each asset besides.
    pub additional: CustomMetadata,
}

/// The mathematical value of an [`AssetMetadata`].
pub struct AssetMetadataView<Balance, CustomMetadata> {
    pub decimals: u32,
    pub name: Seq<u8>,
    pub symbol: Seq<u8>,
    pub existential_deposit: Balance,
    pub location: Option<VersionedMultiLocationView>,
    pub additional: CustomMetadata,
}

impl<Balance, CustomMetadata> View for AssetMetadata<Balance, CustomMetadata> {
    type V = AssetMetadataView<Balance, CustomMetadata>;

    open spec fn view(&self) -> AssetMetadataView<Balance, CustomMetadata> {
        AssetMetadataView {
            decimals: self.decimals,
            name: self.name@,
            symbol: self.symbol@,
            existential_deposit: self.existential_deposit,
            location: match self.location {
                Some(versioned) => Some(versioned@),
                None => None,
            },
            additional: self.additional,
        }
    }
}

impl<Balance: Clone, CustomMetadata: Clone> Clone for AssetMetadata<Balance, CustomMetadata> {
    fn clone(&self) -> (copy: Self)
        ensures
            copy.decimals == self.decimals,
            copy.name@ == self.name@,
            copy.symbol@ == self.symbol@,
            copy@.location == self@.location,
            cloned(self.existential_deposit, copy.existential_deposit),
            cloned(self.additional, copy.additional),
    {
        AssetMetadata {
            decimals: self.decimals,
            name: bytes_clone(&self.name),
            symbol: bytes_clone(&self.symbol),
            existential_deposit: self.existential_deposit.clone(),
            location: match &self.location {
                Some(versioned) => Some(versioned.clone()),
                None => None,
            },
            additional: self.additional.clone(),
        }
    }
}

/// The mathematical value of a registry: the metadata of each registered
/// id, the id that each location is bound to, and the last id that was
/// given in sequence.
pub struct RegistryView<C> {
    pub metadata: Map<u32, AssetMetadataView<Balance, C>>,
    pub location_lookup: Map<MultiLocationView, u32>,
    pub last_asset_id: Option<u32>,
}

/// The registry in which nothing is registered.
pub open spec fn empty_registry<C>() -> RegistryView<C> {
    RegistryView { metadata: Map::empty(), location_lookup: Map::empty(), last_asset_id: None }
}

/// The location that metadata gives, in the current form; `None` when the
/// metadata gives none or gives one that cannot be read.
pub open spec fn location_of<C>(metadata: AssetMetadataView<Balance, C>) -> Option<
    MultiLocationView,
> {
    match metadata.location {
        Some(versioned) => canonical(versioned),
        None => None,
    }
}

/// Whether the location that the metadata gives, if any, can be read.
pub open spec fn readable<C>(metadata: AssetMetadataView<Balance, C>) -> bool {
    metadata.location is Some ==> canonical(metadata.location->0) is Some
}

/// Whether the registry binds `location` to `id`.
pub open spec fn bound_to<C>(registry: RegistryView<C>, location: MultiLocationView, id: u32) -> bool {
    registry.location_lookup.contains_key(location) && registry.location_lookup[location] == id
}

/// Whether the metadata registered under `id` gives `location`.
pub open spec fn located_at<C>(registry: RegistryView<C>, id: u32, location: MultiLocationView) -> bool {
    registry.metadata.contains_key(id) && location_of(registry.metadata[id]) == Some(location)
}

/// The locations of all registered metadata can be read, and a location is
/// bound to an id exactly when the metadata under that id gives it.
pub open spec fn no_stale_entries<C>(registry: RegistryView<C>) -> bool {
    &&& forall|id: u32| #[trigger]
        registry.metadata.contains_key(id) ==> readable(registry.metadata[id])
    &&& forall|location: MultiLocationView, id: u32| #[trigger]
        bound_to(registry, location, id) <==> located_at(registry, id, location)
}

/// The registry after `metadata` was put under `id`: the metadata is
/// stored, and its location, if it gives one, is bound to `id`. Refused
/// when the location cannot be read or is bound already.
pub open spec fn insert_spec<C>(
    registry: RegistryView<C>,
    id: u32,
    metadata: AssetMetadataView<Balance, C>,
) -> Result<RegistryView<C>, Error> {
    match metadata.location {
        Some(versioned) => match canonical(versioned) {
            Some(location) => if registry.location_lookup.contains_key(location) {
                Err(Error::ConflictingLocation)
            } else {
                Ok(
                    RegistryView {
                        metadata: registry.metadata.insert(id, metadata),
                        location_lookup: registry.location_lookup.insert(location, id),
                        last_asset_id: registry.last_asset_id,
                    },
                )
            },
            None => Err(Error::BadVersion),
        },
        None => Ok(
            RegistryView {
                metadata: registry.metadata.insert(id, metadata),
                location_lookup: registry.location_lookup,
                last_asset_id: registry.last_asset_id,
            },
        ),
    }
}

/// The registry without the binding of the location that the metadata
/// under `id` gives.
pub open spec fn unbind_spec<C>(registry: RegistryView<C>, id: u32) -> RegistryView<C> {
    match location_of(registry.metadata[id]) {
        Some(location) => RegistryView {
            metadata: registry.metadata,
            location_lookup: registry.location_lookup.remove(location),
            last_asset_id: registry.last_asset_id,
        },
        None => registry,
    }
}

/// The registry after the metadata under `id` was replaced: the binding of
/// the old location is retired first, then the new metadata is put in.
/// Refused when nothing is registered under `id`, or when the new metadata
/// cannot be put in.
pub open spec fn update_spec<C>(
    registry: RegistryView<C>,
    id: u32,
    metadata: AssetMetadataView<Balance, C>,
) -> Result<RegistryView<C>, Error> {
    if !registry.metadata.contains_key(id) {
        Err(Error::AssetNotFound)
    } else {
        insert_spec(unbind_spec(registry, id), id, metadata)
    }
}

/// What a registration comes to: the id of the asset and the registry
/// afterwards.
///
/// Metadata whose location is bound already names an asset that is
/// registered: its id is the answer, whatever id the caller asked for, and
/// nothing changes. Else the processor `P` gives the id, which must be
/// free, and the metadata is put in under it.
pub open spec fn register_spec<C, P: AssetProcessor<crate::registry::AssetMetadata<Balance, C>>>(
    registry: RegistryView<C>,
    authorized: bool,
    metadata: AssetMetadataView<Balance, C>,
    asset_id: Option<u32>,
) -> Result<(u32, RegistryView<C>), Error> {
    if !authorized {
        Err(Error::BadOrigin)
    } else if location_of(metadata) is Some && registry.location_lookup.contains_key(
        location_of(metadata)->0,
    ) {
        Ok((registry.location_lookup[location_of(metadata)->0], registry))
    } else {
        match P::assign_spec(registry.last_asset_id, asset_id) {
            Ok((id, last)) => if registry.metadata.contains_key(id) {
                Err(Error::InvalidAssetId)
            } else {
                match insert_spec(
                    RegistryView {
                        metadata: registry.metadata,
                        location_lookup: registry.location_lookup,
                        last_asset_id: last,
                    },
                    id,
                    metadata,
                ) {
                    Ok(after) => Ok((id, after)),
                    Err(e) => Err(e),
                }
            },
            Err(e) => Err(e),
        }
    }
}

/// The registry after the metadata under `asset_id` was replaced by an
/// authorized caller.
pub open spec fn update_asset_spec<C>(
    registry: RegistryView<C>,
    authorized: bool,
    metadata: AssetMetadataView<Balance, C>,
    asset_id: u32,
) -> Result<RegistryView<C>, Error> {
    if !authorized {
        Err(Error::BadOrigin)
    } else {
        update_spec(registry, asset_id, metadata)
    }
}

/// `metadata` with its location replaced.
pub open spec fn with_location<C>(
    metadata: AssetMetadataView<Balance, C>,
    location: VersionedMultiLocationView,
) -> AssetMetadataView<Balance, C> {
    AssetMetadataView {
        decimals: metadata.decimals,
        name: metadata.name,
        symbol: metadata.symbol,
        existential_deposit: metadata.existential_deposit,
        location: Some(location),
        additional: metadata.additional,
    }
}

/// The registry after the location of the asset under `asset_id` was set by
/// an authorized caller: an update in which nothing but the location
/// changes.
pub open spec fn set_location_spec<C>(
    registry: RegistryView<C>,
    authorized: bool,
    asset_id: u32,
    location: VersionedMultiLocationView,
) -> Result<RegistryView<C>, Error> {
    if !authorized {
        Err(Error::BadOrigin)
    } else if !registry.metadata.contains_key(asset_id) {
        Err(Error::AssetNotFound)
    } else {
        update_spec(registry, asset_id, with_location(registry.metadata[asset_id], location))
    }
}

/// The metadata of the asset that lives at `location`, if one is registered
/// there.
pub open spec fn metadata_at<C>(registry: RegistryView<C>, location: MultiLocationView) -> Option<
    AssetMetadataView<Balance, C>,
> {
    if registry.location_lookup.contains_key(location) && registry.metadata.contains_key(
        registry.location_lookup[location],
    ) {
        Some(registry.metadata[registry.location_lookup[location]])
    } else {
        None
    }
}

/// Nothing is stale in the empty registry.
pub proof fn lemma_empty_has_no_stale_entries<C>()
    ensures
        no_stale_entries(empty_registry::<C>()),
{
    let registry = empty_registry::<C>();
    assert forall|location: MultiLocationView, id: u32| #[trigger]
        bound_to(registry, location, id) <==> located_at(registry, id, location) by {}
}

/// Putting metadata under a free id leaves nothing stale.
pub proof fn lemma_insert_keeps_no_stale_entries<C>(
    registry: RegistryView<C>,
    id: u32,
    metadata: AssetMetadataView<Balance, C>,
)
    requires
        no_stale_entries(registry),
        !registry.metadata.contains_key(id),
        insert_spec(registry, id, metadata) is Ok,
    ensures
        no_stale_entries(insert_spec(registry, id, metadata)->Ok_0),
{
    let after = insert_spec(registry, id, metadata)->Ok_0;
    assert forall|k: u32| #[trigger] after.metadata.contains_key(k) implies readable(
        after.metadata[k],
    ) by {
        if k != id {
            assert(registry.metadata.contains_key(k));
        }
    }
    assert forall|location: MultiLocationView, k: u32| #[trigger]
        bound_to(after, location, k) <==> located_at(after, k, location) by {
        assert(bound_to(registry, location, k) <==> located_at(registry, k, location));
        if location_of(metadata) is Some {
            let new = location_of(metadata)->0;
            assert(bound_to(registry, new, registry.location_lookup[new]) <==> located_at(
                registry,
                registry.location_lookup[new],
                new,
            ));
        }
    }
}

/// Retiring the binding of an asset's location and putting new metadata
/// under its id leaves nothing stale.
pub proof fn lemma_update_keeps_no_stale_entries<C>(
    registry: RegistryView<C>,
    id: u32,
    metadata: AssetMetadataView<Balance, C>,
)
    requires
        no_stale_entries(registry),
        update_spec(registry, id, metadata) is Ok,
    ensures
        no_stale_entries(update_spec(registry, id, metadata)->Ok_0),
{
    let cleared = unbind_spec(registry, id);
    let after = update_spec(registry, id, metadata)->Ok_0;
    assert(registry.metadata.contains_key(id));
    assert forall|k: u32| #[trigger] after.metadata.contains_key(k) implies readable(
        after.metadata[k],
    ) by {
        if k != id {
            assert(registry.metadata.contains_key(k));
        }
    }
    assert forall|location: MultiLocationView, k: u32| #[trigger]
        bound_to(after, location, k) <==> located_at(after, k, location) by {
        assert(bound_to(registry, location, k) <==> located_at(registry, k, location));
        assert(bound_to(registry, location, id) <==> located_at(registry, id, location));
        if location_of(registry.metadata[id]) is Some {
            let old = location_of(registry.metadata[id])->0;
            assert(bound_to(registry, old, id) <==> located_at(registry, id, old));
            assert(bound_to(registry, old, k) <==> located_at(registry, k, old));
        }
        if location_of(metadata) is Some {
            let new = location_of(metadata)->0;
            assert(bound_to(registry, new, id) <==> located_at(registry, id, new));
            assert(bound_to(registry, new, registry.location_lookup[new]) <==> located_at(
                registry,
                registry.location_lookup[new],
                new,
            ));
        }
    }
}

/// In a registry without stale entries, new metadata for an asset is
/// refused for its location exactly when that location is bound to another
/// asset.
pub proof fn lemma_update_conflict<C>(
    registry: RegistryView<C>,
    id: u32,
    metadata: AssetMetadataView<Balance, C>,
)
    requires
        no_stale_entries(registry),
        registry.metadata.contains_key(id),
        location_of(metadata) is Some,
    ensures
        update_spec(registry, id, metadata) == Err::<RegistryView<C>, Error>(
            Error::ConflictingLocation,
        ) <==> (registry.location_lookup.contains_key(location_of(metadata)->0)
            && registry.location_lookup[location_of(metadata)->0] != id),
{
    let new = location_of(metadata)->0;
    assert(bound_to(registry, new, id) <==> located_at(registry, id, new));
    if location_of(registry.metadata[id]) is Some {
        let old = location_of(registry.metadata[id])->0;
        assert(bound_to(registry, old, id) <==> located_at(registry, id, old));
    }
}

} // verus!
