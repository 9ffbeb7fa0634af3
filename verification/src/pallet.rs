//! The asset registry: metadata by id, ids by location, and the calls that
//! change them.

use crate::assoc::{distinct_keys, has_key, lemma_entry_at, lemma_push, lemma_remove, to_map};
use crate::error::Error;
use crate::location::{MultiLocation, MultiLocationView};
use crate::registry::{
    bound_to, empty_registry, lemma_empty_has_no_stale_entries,
    lemma_insert_keeps_no_stale_entries, lemma_update_keeps_no_stale_entries, located_at,
    location_of, metadata_at, no_stale_entries, readable, register_spec, set_location_spec,
    update_asset_spec, update_spec, with_location, AssetMetadata, AssetMetadataView, Balance,
    RegistryView,
};
use crate::traits::{AssetProcessor, FixedConversionRateProvider};
use crate::versioned::{canonical, VersionedMultiLocation};
use vstd::prelude::*;

verus! {

/// What a deployment chooses for its registry.
pub trait Config {
    /// What is kept with each asset besides the standard metadata.
    type CustomMetadata;

    /// How ids are given to new assets.
    type ProcessAsset: AssetProcessor<AssetMetadata<Balance, Self::CustomMetadata>>;
}

/// The values of the stored metadata entries.
pub open spec fn metadata_views<C>(entries: Seq<(u32, AssetMetadata<Balance, C>)>) -> Seq<
    (u32, AssetMetadataView<Balance, C>),
> {
    entries.map_values(|e: (u32, AssetMetadata<Balance, C>)| (e.0, e.1@))
}

/// The values of the stored bindings of locations.
pub open spec fn binding_views(entries: Seq<(MultiLocation, u32)>) -> Seq<
    (MultiLocationView, u32),
> {
    entries.map_values(|e: (MultiLocation, u32)| (e.0@, e.1))
}

/// Finds the entry of the id.
fn find_id<C>(entries: &Vec<(u32, AssetMetadata<Balance, C>)>, id: u32) -> (found: Option<usize>)
    ensures
        match found {
            Some(i) => i < entries@.len() && entries@[i as int].0 == id,
            None => !has_key(metadata_views(entries@), id),
        },
{
    let mut i: usize = 0;
    while i < entries.len()
        invariant
            0 <= i <= entries@.len(),
            forall|k: int| 0 <= k < i ==> entries@[k].0 != id,
        decreases entries@.len() - i,
    {
        if entries[i].0 == id {
            return Some(i);
        }
        i += 1;
    }
    assert forall|k: int| 0 <= k < metadata_views(entries@).len() implies metadata_views(
        entries@,
    )[k].0 != id by {
        assert(metadata_views(entries@)[k].0 == entries@[k].0);
    }
    None
}

/// Finds the binding of the location.
fn find_location(entries: &Vec<(MultiLocation, u32)>, location: &MultiLocation) -> (found: Option<
    usize,
>)
    ensures
        match found {
            Some(i) => i < entries@.len() && entries@[i as int].0@ == location@,
            None => !has_key(binding_views(entries@), location@),
        },
{
    let mut i: usize = 0;
    while i < entries.len()
        invariant
            0 <= i <= entries@.len(),
            forall|k: int| 0 <= k < i ==> entries@[k].0@ != location@,
        decreases entries@.len() - i,
    {
        if entries[i].0 == *location {
            return Some(i);
        }
        i += 1;
    }
    assert forall|k: int| 0 <= k < binding_views(entries@).len() implies binding_views(
        entries@,
    )[k].0 != location@ by {
        assert(binding_views(entries@)[k].0 == entries@[k].0@);
    }
    None
}

/// The location that stored metadata gives, in the current form.
fn current_location<C>(metadata: &AssetMetadata<Balance, C>) -> (location: Option<MultiLocation>)
    ensures
        location is Some <==> location_of(metadata@) is Some,
        location is Some ==> location->0@ == location_of(metadata@)->0,
{
    match &metadata.location {
        Some(versioned) => match versioned.try_into_location() {
            Ok(location) => Some(location),
            Err(_) => None,
        },
        None => None,
    }
}

/// What replaces the metadata of an asset: new metadata, or the old with a
/// new location.
enum Replacement<C> {
    Whole(AssetMetadata<Balance, C>),
    Location(VersionedMultiLocation),
}

/// The metadata that a replacement leaves under `id`.
spec fn replaced<C>(registry: RegistryView<C>, id: u32, replacement: Replacement<C>) -> AssetMetadataView<
    Balance,
    C,
> {
    match replacement {
        Replacement::Whole(metadata) => metadata@,
        Replacement::Location(location) => with_location(registry.metadata[id], location@),
    }
}

/// The registry of assets.
pub struct Pallet<T: Config> {
    metadata: Vec<(u32, AssetMetadata<Balance, T::CustomMetadata>)>,
    location_lookup: Vec<(MultiLocation, u32)>,
    last_asset_id: Option<u32>,
}

impl<T: Config> View for Pallet<T> {
    type V = RegistryView<T::CustomMetadata>;

    closed spec fn view(&self) -> RegistryView<T::CustomMetadata> {
        RegistryView {
            metadata: to_map(metadata_views(self.metadata@)),
            location_lookup: to_map(binding_views(self.location_lookup@)),
            last_asset_id: self.last_asset_id,
        }
    }
}

impl<T: Config> Pallet<T> {
    #[verifier::type_invariant]
    spec fn sound(self) -> bool {
        &&& distinct_keys(metadata_views(self.metadata@))
        &&& distinct_keys(binding_views(self.location_lookup@))
        &&& no_stale_entries(self@)
    }

    /// The registry in which nothing is registered.
    pub fn new() -> (registry: Self)
        ensures
            registry@ == empty_registry::<T::CustomMetadata>(),
    {
        let registry = Pallet { metadata: Vec::new(), location_lookup: Vec::new(), last_asset_id: None };
        proof {
            assert(registry@.metadata =~= Map::empty());
            assert(registry@.location_lookup =~= Map::empty());
            lemma_empty_has_no_stale_entries::<T::CustomMetadata>();
        }
        registry
    }

    /// The metadata registered under `asset_id`, if any.
    pub fn get_metadata(&self, asset_id: u32) -> (found: Option<
        &AssetMetadata<Balance, T::CustomMetadata>,
    >)
        ensures
            found is Some <==> self@.metadata.contains_key(asset_id),
            found is Some ==> found->0@ == self@.metadata[asset_id],
            no_stale_entries(self@),
    {
        proof {
            use_type_invariant(self);
        }
        match find_id(&self.metadata, asset_id) {
            Some(i) => {
                proof {
                    lemma_entry_at(metadata_views(self.metadata@), i as int);
                }
                Some(&self.metadata[i].1)
            },
            None => None,
        }
    }

    /// The id that `location` is bound to, if any.
    pub fn get_asset_id(&self, location: &MultiLocation) -> (found: Option<u32>)
        ensures
            found is Some <==> self@.location_lookup.contains_key(location@),
            found is Some ==> found->0 == self@.location_lookup[location@],
    {
        proof {
            use_type_invariant(self);
        }
        match find_location(&self.location_lookup, location) {
            Some(i) => {
                proof {
                    lemma_entry_at(binding_views(self.location_lookup@), i as int);
                }
                Some(self.location_lookup[i].1)
            },
            None => None,
        }
    }

    /// The last id that was given in sequence, if any was.
    pub fn last_asset_id(&self) -> (last: Option<u32>)
        ensures
            last == self@.last_asset_id,
    {
        self.last_asset_id
    }

    /// The metadata of the asset that lives at `location`, if one is
    /// registered there.
    pub fn fetch_metadata_by_location(&self, location: &MultiLocation) -> (found: Option<
        &AssetMetadata<Balance, T::CustomMetadata>,
    >)
        ensures
            found is Some <==> metadata_at(self@, location@) is Some,
            found is Some ==> found->0@ == metadata_at(self@, location@)->0,
    {
        match self.get_asset_id(location) {
            Some(asset_id) => self.get_metadata(asset_id),
            None => None,
        }
    }

    /// The least amount that an account may hold of the asset under
    /// `asset_id`; the largest amount there is when nothing is registered
    /// under it.
    pub fn get(&self, asset_id: &u32) -> (deposit: Balance)
        ensures
            deposit == if self@.metadata.contains_key(*asset_id) {
                self@.metadata[*asset_id].existential_deposit
            } else {
                Balance::MAX
            },
    {
        match self.get_metadata(*asset_id) {
            Some(metadata) => metadata.existential_deposit,
            None => Balance::MAX,
        }
    }

    /// Registers an asset and returns its id. Metadata whose location is
    /// bound already names a registered asset: its id is returned and
    /// nothing changes. Else the asset gets the id that the processor gives.
    pub fn register_asset(
        &mut self,
        authorized: bool,
        metadata: AssetMetadata<Balance, T::CustomMetadata>,
        asset_id: Option<u32>,
    ) -> (registered: Result<u32, Error>)
        ensures
            no_stale_entries(final(self)@),
            match register_spec::<T::CustomMetadata, T::ProcessAsset>(
                old(self)@,
                authorized,
                metadata@,
                asset_id,
            ) {
                Ok((id, after)) => registered == Ok::<u32, Error>(id) && final(self)@ == after,
                Err(e) => registered == Err::<u32, Error>(e) && final(self)@ == old(self)@,
            },
    {
        proof {
            use_type_invariant(&*self);
        }
        if !authorized {
            return Err(Error::BadOrigin);
        }
        let location = current_location(&metadata);
        match &location {
            Some(known) => match find_location(&self.location_lookup, known) {
                Some(j) => {
                    proof {
                        lemma_entry_at(binding_views(self.location_lookup@), j as int);
                    }
                    return Ok(self.location_lookup[j].1);
                },
                None => {},
            },
            None => {},
        }
        let mut last = self.last_asset_id;
        let has_location = metadata.location.is_some();
        let ghost given = metadata@;
        let (id, stored) = match T::ProcessAsset::process_asset(&mut last, asset_id, metadata) {
            Ok(processed) => processed,
            Err(e) => {
                return Err(e);
            },
        };
        match find_id(&self.metadata, id) {
            Some(taken) => {
                proof {
                    lemma_entry_at(metadata_views(self.metadata@), taken as int);
                }
                return Err(Error::InvalidAssetId);
            },
            None => {},
        }
        if has_location && location.is_none() {
            return Err(Error::BadVersion);
        }
        let ghost before = self@;
        let ghost staged = RegistryView {
            metadata: before.metadata,
            location_lookup: before.location_lookup,
            last_asset_id: last,
        };
        let mut taken = Pallet::new();
        core::mem::swap(self, &mut taken);
        let Pallet { metadata: entries, location_lookup: bindings, last_asset_id: _ } = taken;
        let mut entries = entries;
        let mut bindings = bindings;
        proof {
            assert(no_stale_entries(staged)) by {
                assert forall|l: MultiLocationView, k: u32| #[trigger]
                    bound_to(staged, l, k) <==> located_at(staged, k, l) by {
                    assert(bound_to(before, l, k) <==> located_at(before, k, l));
                }
            }
            lemma_insert_keeps_no_stale_entries(staged, id, given);
            lemma_push(metadata_views(entries@), id, given);
            assert(metadata_views(entries@.push((id, stored))) =~= metadata_views(entries@).push(
                (id, given),
            ));
        }
        entries.push((id, stored));
        match location {
            Some(known) => {
                proof {
                    lemma_push(binding_views(bindings@), known@, id);
                    assert(binding_views(bindings@.push((known, id))) =~= binding_views(
                        bindings@,
                    ).push((known@, id)));
                }
                bindings.push((known, id));
            },
            None => {},
        }
        *self = Pallet { metadata: entries, location_lookup: bindings, last_asset_id: last };
        Ok(id)
    }

    /// Replaces the metadata of the asset under `asset_id`. The binding of
    /// its old location is retired before the new one is made.
    pub fn update_asset(
        &mut self,
        authorized: bool,
        metadata: AssetMetadata<Balance, T::CustomMetadata>,
        asset_id: u32,
    ) -> (done: Result<(), Error>)
        ensures
            no_stale_entries(final(self)@),
            match update_asset_spec(old(self)@, authorized, metadata@, asset_id) {
                Ok(after) => done is Ok && final(self)@ == after,
                Err(e) => done == Err::<(), Error>(e) && final(self)@ == old(self)@,
            },
    {
        proof {
            use_type_invariant(&*self);
        }
        if !authorized {
            return Err(Error::BadOrigin);
        }
        self.update_metadata(asset_id, Replacement::Whole(metadata))
    }

    /// Sets the location of the asset under `asset_id` and leaves the rest
    /// of its metadata as it is.
    pub fn set_asset_location(
        &mut self,
        authorized: bool,
        asset_id: u32,
        location: VersionedMultiLocation,
    ) -> (done: Result<(), Error>)
        ensures
            no_stale_entries(final(self)@),
            match set_location_spec(old(self)@, authorized, asset_id, location@) {
                Ok(after) => done is Ok && final(self)@ == after,
                Err(e) => done == Err::<(), Error>(e) && final(self)@ == old(self)@,
            },
    {
        proof {
            use_type_invariant(&*self);
        }
        if !authorized {
            return Err(Error::BadOrigin);
        }
        self.update_metadata(asset_id, Replacement::Location(location))
    }

    /// Replaces the metadata under `asset_id`, after all checks, in one step.
    fn update_metadata(&mut self, asset_id: u32, replacement: Replacement<T::CustomMetadata>) -> (done:
        Result<(), Error>)
        ensures
            no_stale_entries(final(self)@),
            match update_spec(old(self)@, asset_id, replaced(old(self)@, asset_id, replacement)) {
                Ok(after) => done is Ok && final(self)@ == after,
                Err(e) => done == Err::<(), Error>(e) && final(self)@ == old(self)@,
            },
    {
        proof {
            use_type_invariant(&*self);
        }
        let ghost before = self@;
        let ghost new_view = replaced(before, asset_id, replacement);
        let index = match find_id(&self.metadata, asset_id) {
            Some(index) => index,
            None => {
                return Err(Error::AssetNotFound);
            },
        };
        proof {
            lemma_entry_at(metadata_views(self.metadata@), index as int);
        }
        let new_location: Option<MultiLocation> = match &replacement {
            Replacement::Whole(metadata) => {
                let converted = current_location(metadata);
                if metadata.location.is_some() && converted.is_none() {
                    return Err(Error::BadVersion);
                }
                converted
            },
            Replacement::Location(versioned) => match versioned.try_into_location() {
                Ok(location) => Some(location),
                Err(_) => {
                    return Err(Error::BadVersion);
                },
            },
        };
        assert(new_location is Some <==> location_of(new_view) is Some);
        assert(new_location is Some ==> new_location->0@ == location_of(new_view)->0);
        assert(readable(new_view));
        let old_location = current_location(&self.metadata[index].1);
        let old_binding: Option<usize> = match &old_location {
            Some(location) => find_location(&self.location_lookup, location),
            None => None,
        };
        proof {
            if old_location is Some {
                let old = old_location->0@;
                assert(bound_to(before, old, asset_id) <==> located_at(before, asset_id, old));
                lemma_entry_at(binding_views(self.location_lookup@), old_binding->0 as int);
            }
        }
        match &new_location {
            Some(location) => match find_location(&self.location_lookup, location) {
                Some(j) => {
                    proof {
                        lemma_entry_at(binding_views(self.location_lookup@), j as int);
                        assert(bound_to(before, location@, asset_id) <==> located_at(
                            before,
                            asset_id,
                            location@,
                        ));
                    }
                    if self.location_lookup[j].1 != asset_id {
                        return Err(Error::ConflictingLocation);
                    }
                },
                None => {},
            },
            None => {},
        }
        proof {
            lemma_update_keeps_no_stale_entries(before, asset_id, new_view);
        }
        let mut taken = Pallet::new();
        core::mem::swap(self, &mut taken);
        let Pallet { metadata: entries, location_lookup: bindings, last_asset_id: last } = taken;
        let mut entries = entries;
        let mut bindings = bindings;
        proof {
            lemma_remove(metadata_views(entries@), index as int);
            assert(metadata_views(entries@.remove(index as int)) =~= metadata_views(
                entries@,
            ).remove(index as int));
        }
        let (_, old) = entries.remove(index);
        let new_metadata = match replacement {
            Replacement::Whole(metadata) => metadata,
            Replacement::Location(versioned) => AssetMetadata {
                decimals: old.decimals,
                name: old.name,
                symbol: old.symbol,
                existential_deposit: old.existential_deposit,
                location: Some(versioned),
                additional: old.additional,
            },
        };
        assert(new_metadata@ == new_view);
        match old_binding {
            Some(b) => {
                proof {
                    lemma_remove(binding_views(bindings@), b as int);
                    assert(binding_views(bindings@.remove(b as int)) =~= binding_views(
                        bindings@,
                    ).remove(b as int));
                }
                let retired = bindings.remove(b);
            },
            None => {},
        }
        match new_location {
            Some(location) => {
                proof {
                    lemma_push(binding_views(bindings@), location@, asset_id);
                    assert(binding_views(bindings@.push((location, asset_id))) =~= binding_views(
                        bindings@,
                    ).push((location@, asset_id)));
                }
                bindings.push((location, asset_id));
            },
            None => {},
        }
        proof {
            lemma_push(metadata_views(entries@), asset_id, new_view);
            assert(metadata_views(entries@.push((asset_id, new_metadata))) =~= metadata_views(
                entries@,
            ).push((asset_id, new_view)));
        }
        entries.push((asset_id, new_metadata));
        let ghost after = update_spec(before, asset_id, new_view)->Ok_0;
        assert(to_map(metadata_views(entries@)) =~= after.metadata);
        assert(to_map(binding_views(bindings@)) =~= after.location_lookup);
        *self = Pallet { metadata: entries, location_lookup: bindings, last_asset_id: last };
        Ok(())
    }
}

/// Custom metadata that holds the fee that an asset pays for one second of
/// computation.
#[derive(Debug, Clone, Copy, PartialEq, Eq, Structural)]
pub struct CustomMetadata {
    /// The fee for one second of computation.
    pub fee_per_second: u128,
}

/// The rate of the asset registered at `location`; `None` when no asset is
/// registered there.
pub open spec fn registered_rate(
    registry: RegistryView<CustomMetadata>,
    location: MultiLocationView,
) -> Option<u128> {
    match metadata_at(registry, location) {
        Some(metadata) => Some(metadata.additional.fee_per_second),
        None => None,
    }
}

impl<'a, T: Config<CustomMetadata = CustomMetadata>> FixedConversionRateProvider for &'a Pallet<T> {
    open spec fn rate_spec(&self, location: MultiLocationView) -> Option<u128> {
        registered_rate(self@, location)
    }

    fn get_fee_per_second(&self, location: &MultiLocation) -> (rate: Option<u128>) {
        match self.fetch_metadata_by_location(location) {
            Some(metadata) => Some(metadata.additional.fee_per_second),
            None => None,
        }
    }
}

/// How a registry starts out.
#[derive(Debug, Clone, Copy)]
pub struct GenesisConfig;

impl Default for GenesisConfig {
    fn default() -> (config: Self)
        ensures
            config == GenesisConfig,
    {
        GenesisConfig
    }
}

impl GenesisConfig {
    /// Builds the registry at genesis: nothing is registered.
    pub fn build<T: Config>(&self) -> (registry: Pallet<T>)
        ensures
            registry@ == empty_registry::<T::CustomMetadata>(),
    {
        Pallet::new()
    }
}

} // verus!
