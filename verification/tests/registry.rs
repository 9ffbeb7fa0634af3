use asset_registry::error::Error;
use asset_registry::junction::Junction;
use asset_registry::junctions::Junctions;
use asset_registry::location::MultiLocation;
use asset_registry::mock::{AssetRegistry, Runtime};
use asset_registry::pallet::{CustomMetadata, GenesisConfig};
use asset_registry::registry::AssetMetadata;
use asset_registry::versioned::{PathStep, VersionedMultiLocation};

type Metadata = AssetMetadata<u128, CustomMetadata>;

fn new_registry() -> AssetRegistry {
    GenesisConfig::default().build::<Runtime>()
}

fn key_location(parents: u8, para: u32, key: u8) -> MultiLocation {
    MultiLocation::new(parents, Junctions::x2(Junction::Parachain(para), Junction::GeneralKey(vec![key])))
}

fn dummy_metadata() -> Metadata {
    AssetMetadata {
        decimals: 12,
        name: "para A native token".as_bytes().to_vec(),
        symbol: "paraA".as_bytes().to_vec(),
        existential_deposit: 0,
        location: Some(key_location(1, 1, 0).into()),
        additional: CustomMetadata { fee_per_second: 1_000_000_000_000 },
    }
}

#[test]
fn test_sequential_id() {
    let mut registry = new_registry();
    let metadata1 = dummy_metadata();

    let metadata2 = AssetMetadata {
        name: "para A native token 2".as_bytes().to_vec(),
        symbol: "paraA2".as_bytes().to_vec(),
        location: Some(key_location(1, 1, 1).into()),
        ..dummy_metadata()
    };
    registry.register_asset(true, metadata1.clone(), None).unwrap();
    registry.register_asset(true, metadata2.clone(), None).unwrap();

    assert_eq!(registry.get_metadata(0).unwrap(), &metadata1);
    assert_eq!(registry.get_metadata(1).unwrap(), &metadata2);
}

#[test]
fn test_register_duplicate_location_returns_error() {
    let mut registry = new_registry();
    let metadata = dummy_metadata();

    assert_eq!(registry.register_asset(true, metadata.clone(), None), Ok(0));
    // the location names the asset that is registered already: its id comes
    // back, no new id is given, and nothing changes
    assert_eq!(registry.register_asset(true, metadata.clone(), None), Ok(0));
    assert_eq!(registry.last_asset_id(), Some(0));
    assert_eq!(registry.get_metadata(1), None);

    // binding the location to another asset is the conflict
    let other = AssetMetadata { location: Some(key_location(1, 1, 9).into()), ..dummy_metadata() };
    assert_eq!(registry.register_asset(true, other.clone(), None), Ok(1));
    assert_eq!(registry.update_asset(true, metadata.clone(), 1), Err(Error::ConflictingLocation));
    assert_eq!(
        registry.set_asset_location(true, 1, key_location(1, 1, 0).into()),
        Err(Error::ConflictingLocation)
    );
    assert_eq!(registry.get_metadata(1), Some(&other));
    assert_eq!(registry.get_asset_id(&key_location(1, 1, 0)), Some(0));
    assert_eq!(registry.get_asset_id(&key_location(1, 1, 9)), Some(1));
}

#[test]
fn test_update_metadata_works() {
    let mut registry = new_registry();
    let old_metadata = dummy_metadata();
    assert_eq!(registry.register_asset(true, old_metadata.clone(), None), Ok(0));

    let new_metadata = AssetMetadata {
        decimals: 11,
        name: "para A native token2".as_bytes().to_vec(),
        symbol: "paraA2".as_bytes().to_vec(),
        existential_deposit: 1,
        location: Some(key_location(1, 1, 1).into()),
        additional: CustomMetadata { fee_per_second: 2_000_000_000_000 },
    };
    assert_eq!(registry.update_asset(true, new_metadata.clone(), 0), Ok(()));

    let old_location = old_metadata.location.clone().unwrap().try_into_location().unwrap();
    let new_location = new_metadata.location.clone().unwrap().try_into_location().unwrap();

    // the old location was removed and the new one added
    assert_eq!(registry.get_asset_id(&old_location), None);
    assert_eq!(registry.get_asset_id(&new_location), Some(0));

    assert_eq!(registry.get_metadata(0).unwrap(), &new_metadata);
}

#[test]
fn registration_is_idempotent_by_location() {
    let mut registry = new_registry();
    assert_eq!(registry.register_asset(true, dummy_metadata(), None), Ok(0));

    // other metadata at the same location, and an id of the caller's choice
    let same_place = AssetMetadata { decimals: 3, ..dummy_metadata() };
    assert_eq!(registry.register_asset(true, same_place, Some(7)), Ok(0));
    assert_eq!(registry.get_metadata(0), Some(&dummy_metadata()));
    assert_eq!(registry.last_asset_id(), Some(0));

    let next = AssetMetadata { location: None, ..dummy_metadata() };
    assert_eq!(registry.register_asset(true, next, None), Ok(1));
}

#[test]
fn ids_are_given_in_sequence() {
    let mut registry = new_registry();
    assert_eq!(registry.last_asset_id(), None);
    for i in 0u32..5 {
        let metadata = AssetMetadata { location: Some(key_location(1, 1, i as u8).into()), ..dummy_metadata() };
        assert_eq!(registry.register_asset(true, metadata, None), Ok(i));
        assert_eq!(registry.last_asset_id(), Some(i));
    }
    // assets without a location are told apart by nothing: each gets a new id
    let bare = AssetMetadata { location: None, ..dummy_metadata() };
    assert_eq!(registry.register_asset(true, bare.clone(), None), Ok(5));
    assert_eq!(registry.register_asset(true, bare, None), Ok(6));
}

#[test]
fn explicit_ids_must_not_run_ahead() {
    let mut registry = new_registry();
    let at = |key: u8| AssetMetadata { location: Some(key_location(1, 1, key).into()), ..dummy_metadata() };

    // the next id in sequence is 0: 1 is ahead of it
    assert_eq!(registry.register_asset(true, at(0), Some(1)), Err(Error::InvalidAssetId));
    assert_eq!(registry.get_asset_id(&key_location(1, 1, 0)), None);
    assert_eq!(registry.last_asset_id(), None);

    assert_eq!(registry.register_asset(true, at(0), None), Ok(0));
    assert_eq!(registry.register_asset(true, at(1), None), Ok(1));
    // 2 is the next id: it may be named, and the sequence does not move
    assert_eq!(registry.register_asset(true, at(2), Some(2)), Ok(2));
    assert_eq!(registry.last_asset_id(), Some(1));
    // an id that is taken is not given again
    assert_eq!(registry.register_asset(true, at(3), Some(1)), Err(Error::InvalidAssetId));
    assert_eq!(registry.register_asset(true, at(3), None), Err(Error::InvalidAssetId));
    assert_eq!(registry.get_asset_id(&key_location(1, 1, 3)), None);
    assert_eq!(registry.last_asset_id(), Some(1));
    assert_eq!(registry.register_asset(true, at(3), Some(4)), Err(Error::InvalidAssetId));
}

#[test]
fn unauthorized_callers_change_nothing() {
    let mut registry = new_registry();
    assert_eq!(registry.register_asset(false, dummy_metadata(), None), Err(Error::BadOrigin));
    assert_eq!(registry.get_metadata(0), None);
    assert_eq!(registry.register_asset(true, dummy_metadata(), None), Ok(0));
    assert_eq!(registry.update_asset(false, dummy_metadata(), 0), Err(Error::BadOrigin));
    assert_eq!(registry.set_asset_location(false, 0, key_location(1, 2, 0).into()), Err(Error::BadOrigin));
    assert_eq!(registry.get_asset_id(&key_location(1, 2, 0)), None);
}

#[test]
fn unknown_assets_cannot_be_updated() {
    let mut registry = new_registry();
    assert_eq!(registry.update_asset(true, dummy_metadata(), 0), Err(Error::AssetNotFound));
    assert_eq!(registry.set_asset_location(true, 3, key_location(1, 2, 0).into()), Err(Error::AssetNotFound));
    assert_eq!(registry.get_asset_id(&key_location(1, 1, 0)), None);
    assert_eq!(registry.get(&0), u128::MAX);
}

#[test]
fn set_location_changes_the_location_only() {
    let mut registry = new_registry();
    assert_eq!(registry.register_asset(true, dummy_metadata(), None), Ok(0));
    assert_eq!(registry.set_asset_location(true, 0, key_location(1, 2, 5).into()), Ok(()));

    let expected = AssetMetadata { location: Some(key_location(1, 2, 5).into()), ..dummy_metadata() };
    assert_eq!(registry.get_metadata(0), Some(&expected));
    assert_eq!(registry.get_asset_id(&key_location(1, 1, 0)), None);
    assert_eq!(registry.get_asset_id(&key_location(1, 2, 5)), Some(0));
    assert_eq!(registry.fetch_metadata_by_location(&key_location(1, 2, 5)), Some(&expected));
    assert_eq!(registry.fetch_metadata_by_location(&key_location(1, 1, 0)), None);

    // setting the location that the asset has already is no conflict
    assert_eq!(registry.set_asset_location(true, 0, key_location(1, 2, 5).into()), Ok(()));
    assert_eq!(registry.get_asset_id(&key_location(1, 2, 5)), Some(0));

    // an asset without a location gets one
    let bare = AssetMetadata { location: None, ..dummy_metadata() };
    assert_eq!(registry.register_asset(true, bare, None), Ok(1));
    assert_eq!(registry.set_asset_location(true, 1, key_location(1, 1, 0).into()), Ok(()));
    assert_eq!(registry.get_asset_id(&key_location(1, 1, 0)), Some(1));
    // and loses it again with metadata that gives none
    let bare = AssetMetadata { location: None, ..dummy_metadata() };
    assert_eq!(registry.update_asset(true, bare, 1), Ok(()));
    assert_eq!(registry.get_asset_id(&key_location(1, 1, 0)), None);
}

#[test]
fn existential_deposit_by_id() {
    let mut registry = new_registry();
    let metadata = AssetMetadata { existential_deposit: 17, ..dummy_metadata() };
    assert_eq!(registry.register_asset(true, metadata, None), Ok(0));
    assert_eq!(registry.get(&0), 17);
    assert_eq!(registry.get(&1), u128::MAX);
}

#[test]
fn locations_in_the_older_form() {
    let up = || PathStep::Parent;
    let down = |j: Junction| PathStep::Down(j);

    let path = VersionedMultiLocation::V0(vec![up(), down(Junction::Parachain(1)), down(Junction::GeneralKey(vec![0]))]);
    assert_eq!(path.try_into_location(), Ok(key_location(1, 1, 0)));
    assert_eq!(VersionedMultiLocation::V0(vec![]).try_into_location(), Ok(MultiLocation::here()));
    assert_eq!(VersionedMultiLocation::V0(vec![up(), up()]).try_into_location(), Ok(MultiLocation::ancestor(2)));
    assert_eq!(
        VersionedMultiLocation::V1(key_location(0, 4, 4)).try_into_location(),
        Ok(key_location(0, 4, 4))
    );

    // a step up after a step down has no current form
    let bad = VersionedMultiLocation::V0(vec![down(Junction::Parachain(1)), up()]);
    assert_eq!(bad.try_into_location(), Err(()));
    // nor has a path with more than eight steps down
    let long = VersionedMultiLocation::V0((0..9).map(|_| down(Junction::OnlyChild)).collect());
    assert_eq!(long.try_into_location(), Err(()));
    let fits = VersionedMultiLocation::V0((0..9).map(|i| if i == 0 { up() } else { down(Junction::OnlyChild) }).collect());
    assert_eq!(fits.try_into_location().map(|l| (l.parents, l.interior.len())), Ok((1, 8)));

    let mut registry = new_registry();
    let unreadable = AssetMetadata { location: Some(bad.clone()), ..dummy_metadata() };
    assert_eq!(registry.register_asset(true, unreadable.clone(), None), Err(Error::BadVersion));
    assert_eq!(registry.last_asset_id(), None);
    assert_eq!(registry.get_metadata(0), None);

    assert_eq!(registry.register_asset(true, dummy_metadata(), None), Ok(0));
    assert_eq!(registry.update_asset(true, unreadable, 0), Err(Error::BadVersion));
    assert_eq!(registry.set_asset_location(true, 0, bad), Err(Error::BadVersion));
    assert_eq!(registry.get_metadata(0), Some(&dummy_metadata()));
    assert_eq!(registry.get_asset_id(&key_location(1, 1, 0)), Some(0));

    // the older form of a bound location names the same asset
    let older = AssetMetadata { location: Some(path), ..dummy_metadata() };
    assert_eq!(registry.register_asset(true, older, None), Ok(0));
}

#[test]
fn no_stale_entries_after_any_call() {
    let mut registry = new_registry();
    let at = |key: u8| AssetMetadata { location: Some(key_location(1, 1, key).into()), ..dummy_metadata() };
    registry.register_asset(true, at(0), None).unwrap();
    registry.register_asset(true, at(1), None).unwrap();
    registry.update_asset(true, at(2), 0).unwrap();
    registry.set_asset_location(true, 1, key_location(1, 1, 0).into()).unwrap();
    let _ = registry.update_asset(true, at(0), 0);
    let _ = registry.register_asset(true, at(5), Some(9));

    for key in 0u8..8 {
        let location = key_location(1, 1, key);
        for id in 0u32..4 {
            let bound = registry.get_asset_id(&location) == Some(id);
            let located = registry
                .get_metadata(id)
                .and_then(|m| m.location.clone())
                .and_then(|v| v.try_into_location().ok())
                == Some(location.clone());
            assert_eq!(bound, located);
        }
    }
    assert_eq!(registry.get_asset_id(&key_location(1, 1, 2)), Some(0));
    assert_eq!(registry.get_asset_id(&key_location(1, 1, 0)), Some(1));
    assert_eq!(registry.get_asset_id(&key_location(1, 1, 1)), None);
}
