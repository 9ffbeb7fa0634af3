use asset_registry::asset::{AssetId, Fungibility, MultiAsset};
use asset_registry::junction::{Junction, NetworkId};
use asset_registry::junctions::{Junctions, MAX_JUNCTIONS};
use asset_registry::location::{LocationInverter, MultiLocation};

const ALICE: [u8; 32] = [0u8; 32];

fn here() -> MultiLocation {
    MultiLocation::here()
}

fn parent() -> MultiLocation {
    MultiLocation::parent()
}

fn loc(parents: u8, interior: Vec<Junction>) -> MultiLocation {
    MultiLocation::new(parents, Junctions::from_vec(interior).unwrap())
}

fn asset(location: MultiLocation, amount: u128) -> MultiAsset {
    MultiAsset::concrete_fungible(location, amount)
}

fn inverter(ancestry: MultiLocation) -> LocationInverter {
    LocationInverter::new(ancestry)
}

#[test]
fn test_relay_assets_invert_reanchor() {
    // the relay chain's ancestry is Here; the destination is a parachain
    let dest = loc(0, vec![Junction::Parachain(2)]);
    let inv_dest = inverter(here()).invert_location(&dest).unwrap();

    assert_eq!(inv_dest, loc(1, vec![]));
    assert_eq!(inv_dest, MultiLocation::new(1, Junctions::here()));
    assert_eq!(inv_dest, parent());

    let mut a = asset(here(), 100u128);
    a.reanchor(&inv_dest).unwrap();
    assert_eq!(a, asset(parent(), 100));
}

#[test]
fn test_parachain_invert_parent() {
    let ancestry = loc(0, vec![Junction::Parachain(1)]);
    let dest = parent();

    let inv_dest = inverter(ancestry).invert_location(&dest).unwrap();
    assert_eq!(inv_dest, loc(0, vec![Junction::Parachain(1)]));

    let mut a = asset(parent(), 100u128);
    a.reanchor(&inv_dest).unwrap();
    assert_eq!(a, asset(loc(0, vec![]), 100));

    let mut a = asset(here(), 100u128);
    a.reanchor(&inv_dest).unwrap();
    assert_eq!(a, asset(loc(0, vec![Junction::Parachain(1)]), 100));

    let inv_dest = loc(0, vec![]);
    let mut a = asset(parent(), 100u128);
    a.reanchor(&inv_dest).unwrap();
    assert_eq!(a, asset(loc(1, vec![]), 100));
    assert_eq!(a, asset(parent(), 100));
}

#[test]
fn test_parachain_invert_sibling_unexpected() {
    let ancestry = loc(0, vec![Junction::Parachain(1)]);
    let dest = loc(0, vec![Junction::Parachain(2)]);

    let inv_dest = inverter(ancestry).invert_location(&dest).unwrap();
    assert_eq!(inv_dest, loc(1, vec![]));
    assert_eq!(inv_dest, parent());

    let mut a = asset(here(), 100u128);
    a.reanchor(&inv_dest).unwrap();
    assert_eq!(a, asset(loc(1, vec![]), 100));
    assert_eq!(a, asset(MultiLocation::ancestor(1), 100));
    assert_eq!(a, asset(parent(), 100));

    let mut a = asset(parent(), 100u128);
    a.reanchor(&inv_dest).unwrap();
    assert_eq!(a, asset(loc(2, vec![]), 100));

    let mut a = asset(loc(0, vec![Junction::Parachain(1)]), 100u128);
    a.reanchor(&inv_dest).unwrap();
    assert_eq!(a, asset(loc(1, vec![Junction::Parachain(1)]), 100));

    let mut a = asset(MultiLocation::new(0, Junctions::x1(Junction::Parachain(1))), 100u128);
    a.reanchor(&inv_dest).unwrap();
    assert_eq!(a, asset(loc(1, vec![Junction::Parachain(1)]), 100));
}

#[test]
fn test_parachain_invert_sibling2() {
    let ancestry = loc(0, vec![Junction::Parachain(1)]);
    let dest = loc(1, vec![Junction::Parachain(2)]);

    let inv_dest = inverter(ancestry).invert_location(&dest).unwrap();
    assert_eq!(inv_dest, loc(1, vec![Junction::Parachain(1)]));

    let mut a = asset(here(), 100u128);
    a.reanchor(&inv_dest).unwrap();
    assert_eq!(a, asset(MultiLocation::new(1, Junctions::x1(Junction::Parachain(1))), 100));
    assert_eq!(a, asset(loc(1, vec![Junction::Parachain(1)]), 100));

    let mut a = asset(parent(), 100u128);
    a.reanchor(&inv_dest).unwrap();
    assert_eq!(a, asset(parent(), 100));

    let mut a = asset(loc(0, vec![Junction::Parachain(1)]), 100u128);
    a.reanchor(&inv_dest).unwrap();
    assert_eq!(
        a,
        asset(MultiLocation::new(1, Junctions::x2(Junction::Parachain(1), Junction::Parachain(1))), 100)
    );

    let mut a = asset(MultiLocation::new(0, Junctions::x1(Junction::Parachain(1))), 100u128);
    a.reanchor(&inv_dest).unwrap();
    assert_eq!(
        a,
        asset(MultiLocation::new(1, Junctions::x2(Junction::Parachain(1), Junction::Parachain(1))), 100)
    );

    let mut a = asset(loc(0, vec![Junction::GeneralIndex(42)]), 100u128);
    a.reanchor(&inv_dest).unwrap();
    assert_eq!(
        a,
        asset(MultiLocation::new(1, Junctions::x2(Junction::Parachain(1), Junction::GeneralIndex(42))), 100)
    );
}

#[test]
fn test_invert_reanchor_others() {
    let inv_dest = MultiLocation::new(1, Junctions::x1(Junction::Parachain(1)));
    let mut a = asset(parent(), 100u128);
    a.reanchor(&inv_dest).unwrap();
    assert_eq!(a, asset(loc(1, vec![]), 100));
    assert_eq!(a, asset(parent(), 100));

    let inv_dest = MultiLocation::new(2, Junctions::x1(Junction::Parachain(1)));
    let mut a = asset(parent(), 100u128);
    a.reanchor(&inv_dest).unwrap();
    assert_eq!(a, asset(loc(2, vec![]), 100));

    let inv_dest = MultiLocation::new(1, Junctions::x2(Junction::Parachain(1), Junction::OnlyChild));
    let mut a = asset(MultiLocation::new(2, Junctions::x1(Junction::PalletInstance(3))), 100);
    a.reanchor(&inv_dest).unwrap();
    assert_eq!(a, asset(MultiLocation::new(1, Junctions::x1(Junction::PalletInstance(3))), 100));
}

#[test]
fn test_account_location_convert() {
    let account = Junction::AccountId32 { network: NetworkId::Any, id: ALICE };

    let p = parent();
    assert_eq!(p.parents, 1);
    assert_eq!(p.interior, Junctions::here());
    assert_eq!(p.contains_parents_only(1), true);

    let destination = MultiLocation::new(1, Junctions::x2(Junction::Parachain(2), account.clone()));
    assert_eq!(destination.parents, 1);
    assert_eq!(destination.interior, Junctions::x2(Junction::Parachain(2), account.clone()));

    let destination = loc(1, vec![account.clone()]);
    assert_eq!(destination.parents, 1);
    assert_eq!(destination.interior, Junctions::x1(account.clone()));

    let destination = loc(0, vec![Junction::Parachain(2), account.clone()]);
    assert_eq!(destination.parents, 0);
    assert_eq!(destination.interior, Junctions::x2(Junction::Parachain(2), account.clone()));

    let junction = Junctions::x1(account.clone());
    let mut destination = parent();
    destination.append_with(junction).unwrap();
    assert_eq!(destination.parents, 1);
    assert_eq!(destination.interior, Junctions::x1(account.clone()));
}

#[test]
fn test_asset_matches_fungible() {
    let a = asset(parent(), 100u128);
    let reserve_location = a.reserve().unwrap();
    assert_eq!(reserve_location.contains_parents_only(1), true);
    assert_eq!(reserve_location, MultiLocation::new(1, Junctions::here()));
}

#[test]
fn append_beyond_the_bound_is_refused() {
    let mut base = loc(1, vec![Junction::Parachain(1); 7]);
    let suffix = Junctions::x2(Junction::GeneralIndex(1), Junction::GeneralIndex(2));
    let before = base.clone();
    assert_eq!(base.append_with(suffix.clone()), Err(suffix));
    assert_eq!(base, before);

    assert_eq!(base.append_with(Junctions::x1(Junction::OnlyChild)), Ok(()));
    assert_eq!(base.interior.len(), MAX_JUNCTIONS);
    assert_eq!(base.interior.last(), Some(&Junction::OnlyChild));
}

#[test]
fn junctions_hold_at_most_eight() {
    assert!(Junctions::from_vec(vec![Junction::OnlyChild; 8]).is_some());
    assert!(Junctions::from_vec(vec![Junction::OnlyChild; 9]).is_none());

    let mut full = Junctions::from_vec(vec![Junction::OnlyChild; 8]).unwrap();
    assert_eq!(full.push(Junction::Parachain(1)), Err(Junction::Parachain(1)));
    assert_eq!(full.push_front(Junction::Parachain(1)), Err(Junction::Parachain(1)));
    assert_eq!(full.len(), 8);

    let mut some = Junctions::x2(Junction::Parachain(1), Junction::PalletInstance(2));
    assert_eq!(some.push(Junction::GeneralIndex(3)), Ok(()));
    assert_eq!(some.push_front(Junction::OnlyChild), Ok(()));
    assert_eq!(some.take_first(), Some(Junction::OnlyChild));
    assert_eq!(some.take_last(), Some(Junction::GeneralIndex(3)));
    assert_eq!(some, Junctions::x2(Junction::Parachain(1), Junction::PalletInstance(2)));
    assert_eq!(some.at(1), Some(&Junction::PalletInstance(2)));
    assert_eq!(some.at(2), None);
    assert_eq!(some.first(), Some(&Junction::Parachain(1)));

    let mut none = Junctions::here();
    assert!(none.is_here());
    assert_eq!(none.take_first(), None);
    assert_eq!(none.take_last(), None);
}

#[test]
fn prepend_cancels_parents_against_the_prefix() {
    // two steps up meet a prefix of one junction: one step up is left
    let mut l = loc(2, vec![Junction::PalletInstance(3)]);
    assert_eq!(l.prepend_with(loc(1, vec![Junction::Parachain(21)])), Ok(()));
    assert_eq!(l, loc(2, vec![Junction::PalletInstance(3)]));

    // no step up: the prefix stays whole in front
    let mut l = loc(0, vec![Junction::GeneralIndex(7)]);
    assert_eq!(l.prepend_with(loc(3, vec![Junction::Parachain(1), Junction::PalletInstance(2)])), Ok(()));
    assert_eq!(
        l,
        loc(3, vec![Junction::Parachain(1), Junction::PalletInstance(2), Junction::GeneralIndex(7)])
    );
}

#[test]
fn prepend_that_cannot_be_held_changes_nothing() {
    let mut l = loc(0, vec![Junction::OnlyChild; 5]);
    let prefix = loc(0, vec![Junction::Parachain(1); 4]);
    let before = l.clone();
    assert_eq!(l.prepend_with(prefix.clone()), Err(prefix));
    assert_eq!(l, before);

    let mut l = loc(200, vec![]);
    let prefix = loc(100, vec![]);
    assert_eq!(l.prepend_with(prefix.clone()), Err(prefix));
    assert_eq!(l, loc(200, vec![]));

    let mut l = loc(200, vec![]);
    assert_eq!(l.prepend_with(loc(55, vec![])), Ok(()));
    assert_eq!(l, loc(255, vec![]));
}

#[test]
fn reanchor_leaves_abstract_assets_alone() {
    let mut a = MultiAsset::new(AssetId::Abstract(vec![1, 2, 3]), Fungibility::Fungible(5));
    assert_eq!(a.reanchor(&loc(1, vec![Junction::Parachain(1)])), Ok(()));
    assert_eq!(a, MultiAsset::new(AssetId::Abstract(vec![1, 2, 3]), Fungibility::Fungible(5)));
    assert_eq!(a.reserve(), None);

    let mut a = asset(loc(0, vec![Junction::OnlyChild; 8]), 1);
    assert_eq!(a.reanchor(&loc(0, vec![Junction::Parachain(1)])), Err(()));
    assert_eq!(a, asset(loc(0, vec![Junction::OnlyChild; 8]), 1));
}

#[test]
fn invert_takes_the_last_junctions_of_the_ancestry() {
    let account20 = Junction::AccountKey20 { network: NetworkId::Any, key: [0u8; 20] };
    let account32 = Junction::AccountId32 { network: NetworkId::Any, id: [0u8; 32] };

    let ancestry = loc(0, vec![Junction::Parachain(1), account20.clone(), account20.clone()]);
    let input = loc(3, vec![Junction::Parachain(2), account32.clone()]);
    assert_eq!(
        inverter(ancestry).invert_location(&input),
        Ok(loc(2, vec![Junction::Parachain(1), account20.clone(), account20.clone()]))
    );

    let ancestry = loc(0, vec![Junction::Parachain(1000), Junction::PalletInstance(42)]);
    let input = loc(1, vec![Junction::PalletInstance(69)]);
    assert_eq!(inverter(ancestry).invert_location(&input), Ok(loc(1, vec![Junction::PalletInstance(42)])));

    // the ancestry does not reach as far up as the target: an only child stands in
    let ancestry = loc(0, vec![Junction::PalletInstance(5)]);
    let input = loc(2, vec![]);
    assert_eq!(
        inverter(ancestry).invert_location(&input),
        Ok(loc(0, vec![Junction::OnlyChild, Junction::PalletInstance(5)]))
    );

    let input = loc(99, vec![Junction::Parachain(88)]);
    assert_eq!(inverter(here()).invert_location(&input), Err(()));

    // from Here, the way back to a location below is as many steps up as it is deep
    let below = loc(0, vec![Junction::Parachain(2), Junction::PalletInstance(1)]);
    assert_eq!(inverter(here()).invert_location(&below), Ok(loc(2, vec![])));
    assert_eq!(inverter(here()).ancestry(), here());
}

#[test]
fn chain_part_and_non_chain_part_split_a_location() {
    let bob = Junction::AccountId32 { network: NetworkId::Any, id: [1u8; 32] };

    let sibling = loc(1, vec![Junction::Parachain(2), bob.clone()]);
    assert_eq!(sibling.chain_part(), Some(loc(1, vec![Junction::Parachain(2)])));
    assert_eq!(sibling.non_chain_part(), Some(loc(0, vec![bob.clone()])));

    let on_parent = loc(1, vec![bob.clone()]);
    assert_eq!(on_parent.chain_part(), Some(parent()));
    assert_eq!(on_parent.non_chain_part(), Some(loc(0, vec![bob.clone()])));

    let child = loc(0, vec![Junction::Parachain(3), Junction::GeneralIndex(1)]);
    assert_eq!(child.chain_part(), Some(loc(0, vec![Junction::Parachain(3)])));
    assert_eq!(child.non_chain_part(), Some(loc(0, vec![Junction::GeneralIndex(1)])));

    let local = loc(0, vec![bob.clone()]);
    assert_eq!(local.chain_part(), None);
    assert_eq!(local.non_chain_part(), Some(loc(0, vec![bob.clone()])));

    assert_eq!(parent().chain_part(), Some(parent()));
    assert_eq!(parent().non_chain_part(), None);
    assert_eq!(loc(2, vec![]).chain_part(), None);
    assert_eq!(loc(1, vec![Junction::Parachain(2)]).non_chain_part(), None);
    assert_eq!(here().parent_count(), 0);
    assert!(here().is_here());
    assert_eq!(sibling.first_interior(), Some(&Junction::Parachain(2)));
}
