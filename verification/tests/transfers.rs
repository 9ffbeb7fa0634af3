use asset_registry::asset::{AssetId, AssetInstance, Fungibility, MultiAsset};
use asset_registry::error::Error;
use asset_registry::holding::Assets;
use asset_registry::junction::{Junction, NetworkId};
use asset_registry::junctions::Junctions;
use asset_registry::location::{LocationInverter, MultiLocation};
use asset_registry::mock::{AccountId32Aliases2, CurrencyId, CurrencyIdConvert};
use asset_registry::traits::{Contains, Convert};
use asset_registry::xcm_support::{
    AllowEquivalentParentAccountsFrom, DispatchError, IsNativeConcrete, IsParent, MultiNativeAsset,
    ParentFilterAsset, RelaychainAccountId32Aliases, UnknownAsset,
};
use asset_registry::xtokens::{
    buy_execution, ensure_valid_dest, transfer_kind, AbsoluteReserveProvider, Outcome,
    RelativeReserveProvider, Reserve, Route, TransferKind, WeightLimit,
};

const ALICE: [u8; 32] = [0u8; 32];
const BOB: [u8; 32] = [1u8; 32];

fn loc(parents: u8, interior: Vec<Junction>) -> MultiLocation {
    MultiLocation::new(parents, Junctions::from_vec(interior).unwrap())
}

fn account(network: NetworkId, id: [u8; 32]) -> Junction {
    Junction::AccountId32 { network, id }
}

fn key(text: &str) -> Junction {
    Junction::GeneralKey(text.as_bytes().to_vec())
}

fn fungible(location: MultiLocation, amount: u128) -> MultiAsset {
    MultiAsset::concrete_fungible(location, amount)
}

fn sibling_parachain_asset(para: u32, name: &str, amount: u128) -> MultiAsset {
    fungible(loc(1, vec![Junction::Parachain(para), key(name)]), amount)
}

fn currency_location(id: CurrencyId) -> MultiLocation {
    <CurrencyIdConvert as Convert<CurrencyId, Option<MultiLocation>>>::convert(id).unwrap()
}

fn currency_at(location: MultiLocation) -> Option<CurrencyId> {
    <CurrencyIdConvert as Convert<MultiLocation, Option<CurrencyId>>>::convert(location)
}

fn currency_of(asset: MultiAsset) -> Option<CurrencyId> {
    <CurrencyIdConvert as Convert<MultiAsset, Option<CurrencyId>>>::convert(asset)
}

fn self_location() -> MultiLocation {
    loc(1, vec![Junction::Parachain(1)])
}

/// Routing as a chain does it that names itself from the relay chain.
fn route(asset: &MultiAsset, dest: &MultiLocation) -> Result<Route, Error> {
    transfer_kind::<AbsoluteReserveProvider>(asset, dest, &self_location())
}

#[test]
fn transfer_no_reserve_assets_fails() {
    let asset = fungible(loc(0, vec![key("B")]), 100);
    let dest = loc(1, vec![Junction::Parachain(2), account(NetworkId::Any, BOB)]);
    assert_eq!(route(&asset, &dest).map(|r| r.kind), Err(Error::AssetHasNoReserve));
}

#[test]
fn transfer_to_self_chain_fails() {
    let asset = sibling_parachain_asset(1, "A", 100);
    let dest = loc(1, vec![Junction::Parachain(1), account(NetworkId::Any, BOB)]);
    assert_eq!(
        route(&asset, &dest).map(|r| r.kind),
        Err(Error::NotCrossChainTransfer)
    );
}

#[test]
fn transfer_to_invalid_dest_fails() {
    let asset = sibling_parachain_asset(1, "A", 100);
    let dest = loc(0, vec![account(NetworkId::Any, BOB)]);
    assert_eq!(route(&asset, &dest).map(|r| r.kind), Err(Error::InvalidDest));
}

#[test]
fn send_relay_chain_asset_to_relay_chain() {
    let asset = fungible(currency_location(CurrencyId::R), 500);
    let dest = loc(1, vec![account(NetworkId::Any, BOB)]);
    let route = route(&asset, &dest).unwrap();
    assert_eq!(route.kind, TransferKind::ToReserve);
    assert_eq!(route.dest, MultiLocation::parent());
    assert_eq!(route.reserve, MultiLocation::parent());
    assert_eq!(route.recipient, loc(0, vec![account(NetworkId::Any, BOB)]));

    // on the relay chain the relay token is named Here
    let inverter = LocationInverter::new(loc(0, vec![Junction::Parachain(1)]));
    let order = buy_execution(&inverter, asset, &route.reserve, 40).unwrap();
    assert_eq!(order.fees, fungible(MultiLocation::here(), 500));
    assert_eq!(order.weight_limit, WeightLimit::Limited(40));
}

#[test]
fn send_relay_chain_asset_to_sibling() {
    let asset = fungible(currency_location(CurrencyId::R), 500);
    let dest = loc(1, vec![Junction::Parachain(2), account(NetworkId::Any, BOB)]);
    let route = route(&asset, &dest).unwrap();
    assert_eq!(route.kind, TransferKind::ToNonReserve);
    assert_eq!(route.dest, loc(1, vec![Junction::Parachain(2)]));
    assert_eq!(route.reserve, MultiLocation::parent());
    assert_eq!(route.recipient, loc(0, vec![account(NetworkId::Any, BOB)]));
}

#[test]
fn send_sibling_asset_to_reserve_sibling() {
    let asset = fungible(currency_location(CurrencyId::B), 500);
    let dest = loc(1, vec![Junction::Parachain(2), account(NetworkId::Any, BOB)]);
    let route = route(&asset, &dest).unwrap();
    assert_eq!(route.kind, TransferKind::ToReserve);
    assert_eq!(route.dest, loc(1, vec![Junction::Parachain(2)]));
    assert_eq!(route.reserve, loc(1, vec![Junction::Parachain(2)]));
}

#[test]
fn tests_send_sibling_asset_to_non_reserve_sibling() {
    let asset = fungible(currency_location(CurrencyId::B), 500);
    let dest = loc(1, vec![Junction::Parachain(3), account(NetworkId::Any, BOB)]);
    let route = route(&asset, &dest).unwrap();
    assert_eq!(route.kind, TransferKind::ToNonReserve);
    assert_eq!(route.dest, loc(1, vec![Junction::Parachain(3)]));
    assert_eq!(route.reserve, loc(1, vec![Junction::Parachain(2)]));
}

#[test]
fn tests_send_self_parachain_asset_to_sibling() {
    let asset = fungible(currency_location(CurrencyId::A), 500);
    let dest = loc(1, vec![Junction::Parachain(2), account(NetworkId::Any, BOB)]);
    let route = route(&asset, &dest).unwrap();
    assert_eq!(route.kind, TransferKind::SelfReserveAsset);
    assert_eq!(route.dest, loc(1, vec![Junction::Parachain(2)]));
    assert_eq!(route.reserve, self_location());
}

#[test]
fn cannot_lost_fund_on_send_failed() {
    // the route to a parachain that does not exist is fine in itself
    let asset = fungible(currency_location(CurrencyId::A), 500);
    let dest = loc(1, vec![Junction::Parachain(100), account(NetworkId::Kusama, BOB)]);
    assert_eq!(route(&asset, &dest).map(|r| r.kind), Ok(TransferKind::SelfReserveAsset));

    // the message fails: the transfer fails with it
    assert_eq!(Outcome::Incomplete(10, Error::TooExpensive).ensure_complete(), Err(Error::XcmExecutionFailed));
    assert_eq!(Outcome::Error(Error::TooExpensive).ensure_complete(), Err(Error::XcmExecutionFailed));
    assert_eq!(Outcome::Complete(40).ensure_complete(), Ok(()));
}

#[test]
fn destinations_need_a_chain_and_a_recipient() {
    let bob = account(NetworkId::Any, BOB);
    assert_eq!(
        ensure_valid_dest(&loc(1, vec![Junction::Parachain(2), bob.clone()])),
        Ok((loc(1, vec![Junction::Parachain(2)]), loc(0, vec![bob.clone()])))
    );
    assert_eq!(
        ensure_valid_dest(&loc(1, vec![bob.clone()])),
        Ok((MultiLocation::parent(), loc(0, vec![bob.clone()])))
    );
    assert_eq!(ensure_valid_dest(&loc(1, vec![Junction::Parachain(2)])), Err(Error::InvalidDest));
    assert_eq!(ensure_valid_dest(&MultiLocation::parent()), Err(Error::InvalidDest));
    assert_eq!(ensure_valid_dest(&loc(2, vec![bob.clone()])), Err(Error::InvalidDest));
    assert_eq!(ensure_valid_dest(&loc(0, vec![bob])), Err(Error::InvalidDest));
}

#[test]
fn an_invalid_destination_is_reported_first() {
    let no_reserve = fungible(loc(0, vec![key("B")]), 100);
    let bob = account(NetworkId::Any, BOB);
    assert_eq!(
        route(&no_reserve, &loc(0, vec![bob.clone()])).map(|r| r.kind),
        Err(Error::InvalidDest)
    );
    assert_eq!(
        route(&no_reserve, &loc(1, vec![Junction::Parachain(1), bob])).map(|r| r.kind),
        Err(Error::NotCrossChainTransfer)
    );
}

#[test]
fn fees_that_cannot_be_named_on_the_other_side() {
    let inverter = LocationInverter::new(loc(0, vec![Junction::Parachain(1)]));
    let far = loc(9, vec![]);
    assert!(buy_execution(&inverter, fungible(MultiLocation::here(), 1), &far, 1).is_err());

    let deep = fungible(loc(0, vec![Junction::OnlyChild; 8]), 1);
    let sibling = loc(1, vec![Junction::Parachain(2)]);
    assert!(buy_execution(&inverter, deep, &sibling, 1).is_err());
}

#[test]
fn currencies_and_their_locations() {
    assert_eq!(currency_location(CurrencyId::R), MultiLocation::parent());
    assert_eq!(currency_location(CurrencyId::A), loc(1, vec![Junction::Parachain(1), key("A")]));
    assert_eq!(currency_location(CurrencyId::B), loc(1, vec![Junction::Parachain(2), key("B")]));

    for id in [CurrencyId::R, CurrencyId::A, CurrencyId::B] {
        assert_eq!(currency_at(currency_location(id)), Some(id));
        assert_eq!(currency_of(fungible(currency_location(id), 5)), Some(id));
    }
    assert_eq!(currency_at(loc(1, vec![Junction::Parachain(1), key("B")])), None);
    assert_eq!(currency_at(loc(1, vec![Junction::Parachain(2), key("A")])), None);
    assert_eq!(currency_at(loc(0, vec![Junction::Parachain(1), key("A")])), None);
    assert_eq!(currency_at(loc(1, vec![Junction::Parachain(1), key("AA")])), None);
    assert_eq!(currency_at(loc(1, vec![Junction::Parachain(1)])), None);
    assert_eq!(currency_at(loc(1, vec![key("A"), Junction::Parachain(1)])), None);
    assert_eq!(currency_at(MultiLocation::here()), None);
    assert_eq!(currency_at(loc(2, vec![])), None);

    let instance = MultiAsset::new(
        AssetId::Concrete(MultiLocation::parent()),
        Fungibility::NonFungible(AssetInstance::Undefined),
    );
    assert_eq!(currency_of(instance), None);
    assert_eq!(currency_of(MultiAsset::new(AssetId::Abstract(vec![1]), Fungibility::Fungible(1))), None);
    assert!(CurrencyId::R < CurrencyId::A && CurrencyId::A < CurrencyId::B);
}

#[test]
fn native_assets_match_their_amount() {
    type Matcher = IsNativeConcrete<CurrencyId, CurrencyIdConvert>;
    assert_eq!(Matcher::matches_fungible(&fungible(MultiLocation::parent(), 100)), Some(100));
    assert_eq!(Matcher::matches_fungible(&sibling_parachain_asset(2, "B", 7)), Some(7));
    assert_eq!(Matcher::matches_fungible(&sibling_parachain_asset(2, "A", 7)), None);
    assert_eq!(Matcher::matches_fungible(&fungible(MultiLocation::here(), 100)), None);
    let instance = MultiAsset::new(
        AssetId::Concrete(MultiLocation::parent()),
        Fungibility::NonFungible(AssetInstance::Index(3)),
    );
    assert_eq!(Matcher::matches_fungible(&instance), None);
    let named = MultiAsset::new(AssetId::Abstract(vec![1]), Fungibility::Fungible(1));
    assert_eq!(Matcher::matches_fungible(&named), None);
}

#[test]
fn assets_are_accepted_from_their_reserve() {
    let b = sibling_parachain_asset(2, "B", 10);
    assert!(MultiNativeAsset::filter_asset_location(&b, &loc(1, vec![Junction::Parachain(2)])));
    assert!(!MultiNativeAsset::filter_asset_location(&b, &loc(1, vec![Junction::Parachain(3)])));
    assert!(!MultiNativeAsset::filter_asset_location(&b, &MultiLocation::parent()));
    let r = fungible(MultiLocation::parent(), 10);
    assert!(MultiNativeAsset::filter_asset_location(&r, &MultiLocation::parent()));
    // an asset that is named without a step up is the chain's own
    let own = fungible(loc(0, vec![key("B")]), 10);
    assert!(MultiNativeAsset::filter_asset_location(&own, &MultiLocation::here()));
    assert!(!MultiNativeAsset::filter_asset_location(&own, &MultiLocation::parent()));
    let far = fungible(loc(2, vec![key("B")]), 10);
    assert!(!MultiNativeAsset::filter_asset_location(&far, &loc(2, vec![])));
    let named = MultiAsset::new(AssetId::Abstract(vec![1]), Fungibility::Fungible(1));
    assert!(!MultiNativeAsset::filter_asset_location(&named, &MultiLocation::here()));
}

#[test]
fn the_reserve_of_an_asset() {
    let bob = account(NetworkId::Any, BOB);
    let cases = [
        // location, reserve, reserve as a chain tells that names itself from the relay chain
        (loc(1, vec![]), Some(loc(1, vec![])), Some(loc(1, vec![]))),
        (loc(1, vec![key("x")]), Some(loc(1, vec![])), Some(loc(1, vec![]))),
        (
            loc(1, vec![Junction::Parachain(2), key("B")]),
            Some(loc(1, vec![Junction::Parachain(2)])),
            Some(loc(1, vec![Junction::Parachain(2)])),
        ),
        (
            loc(0, vec![Junction::Parachain(3), bob.clone()]),
            Some(loc(0, vec![Junction::Parachain(3)])),
            Some(loc(0, vec![Junction::Parachain(3)])),
        ),
        (loc(0, vec![key("B")]), Some(MultiLocation::here()), None),
        (MultiLocation::here(), Some(MultiLocation::here()), None),
        (loc(2, vec![]), None, None),
        (loc(2, vec![Junction::Parachain(1)]), None, None),
    ];
    for (location, relative, absolute) in cases {
        let asset = fungible(location, 1);
        assert_eq!(asset.reserve(), relative);
        assert_eq!(RelativeReserveProvider::reserve(&asset), relative);
        assert_eq!(AbsoluteReserveProvider::reserve(&asset), absolute);
    }
    let named = MultiAsset::new(AssetId::Abstract(vec![1]), Fungibility::Fungible(1));
    assert_eq!(RelativeReserveProvider::reserve(&named), None);
    assert_eq!(AbsoluteReserveProvider::reserve(&named), None);
}

#[test]
fn a_chain_that_names_itself_here_routes_its_own_assets() {
    let bob = account(NetworkId::Any, BOB);
    let dest = loc(1, vec![Junction::Parachain(2), bob]);
    let own = fungible(loc(0, vec![key("B")]), 100);
    let here = MultiLocation::here();

    let routed = transfer_kind::<RelativeReserveProvider>(&own, &dest, &here).unwrap();
    assert_eq!(routed.kind, TransferKind::SelfReserveAsset);
    assert_eq!(routed.reserve, here);

    let theirs = sibling_parachain_asset(2, "B", 100);
    assert_eq!(
        transfer_kind::<RelativeReserveProvider>(&theirs, &dest, &here).map(|r| r.kind),
        Ok(TransferKind::ToReserve)
    );
    let third = sibling_parachain_asset(3, "C", 100);
    assert_eq!(
        transfer_kind::<RelativeReserveProvider>(&third, &dest, &here).map(|r| r.kind),
        Ok(TransferKind::ToNonReserve)
    );
    let far = fungible(loc(2, vec![]), 100);
    assert_eq!(
        transfer_kind::<RelativeReserveProvider>(&far, &dest, &here).map(|r| r.kind),
        Err(Error::AssetHasNoReserve)
    );
}

#[test]
fn the_parent_asset_is_accepted_from_parent_accounts() {
    let r = fungible(MultiLocation::parent(), 10);
    let alice_on_parent = loc(1, vec![account(NetworkId::Kusama, ALICE)]);
    assert!(ParentFilterAsset::filter_asset_location(&r, &alice_on_parent));
    assert!(ParentFilterAsset::filter_asset_location(
        &fungible(loc(1, vec![key("x")]), 1),
        &alice_on_parent
    ));
    assert!(!ParentFilterAsset::filter_asset_location(&r, &MultiLocation::parent()));
    assert!(!ParentFilterAsset::filter_asset_location(&r, &loc(0, vec![account(NetworkId::Kusama, ALICE)])));
    assert!(!ParentFilterAsset::filter_asset_location(
        &r,
        &loc(1, vec![Junction::Parachain(1), account(NetworkId::Kusama, ALICE)])
    ));
    assert!(!ParentFilterAsset::filter_asset_location(&sibling_parachain_asset(2, "B", 1), &alice_on_parent));
    let named = MultiAsset::new(AssetId::Abstract(vec![1]), Fungibility::Fungible(1));
    assert!(!ParentFilterAsset::filter_asset_location(&named, &alice_on_parent));
}

#[test]
fn test_parachain_convert_location_to_account() {
    let aliases = RelaychainAccountId32Aliases { network: NetworkId::Kusama };
    let alice = account(NetworkId::Kusama, ALICE);

    // an account of the relay chain
    assert_eq!(aliases.convert(loc(1, vec![alice.clone()])), Ok(ALICE));
    assert_eq!(aliases.convert(loc(1, vec![account(NetworkId::Any, ALICE)])), Ok(ALICE));

    // ../Parachain/Account
    let destination = loc(1, vec![Junction::Parachain(1), alice.clone()]);
    assert_eq!(aliases.convert(destination.clone()), Err(destination));

    // ./Parachain
    let destination = loc(0, vec![Junction::Parachain(1)]);
    assert_eq!(aliases.convert(destination.clone()), Err(destination));

    // an account of another network
    let destination = loc(1, vec![account(NetworkId::Polkadot, ALICE)]);
    assert_eq!(aliases.convert(destination.clone()), Err(destination));
    let destination = loc(0, vec![alice.clone()]);
    assert_eq!(aliases.convert(destination.clone()), Err(destination));

    assert_eq!(aliases.reverse(BOB), Ok(loc(1, vec![account(NetworkId::Kusama, BOB)])));
}

#[test]
fn account_aliases_of_the_parachain() {
    let aliases = AccountId32Aliases2 { network: NetworkId::Named(vec![1, 2]) };
    let any = account(NetworkId::Any, ALICE);
    let own = account(NetworkId::Named(vec![1, 2]), BOB);
    let other = account(NetworkId::Named(vec![1, 3]), BOB);

    assert_eq!(aliases.convert(loc(0, vec![any.clone()])), Ok(ALICE));
    assert_eq!(aliases.convert(loc(1, vec![any.clone()])), Ok(ALICE));
    assert_eq!(aliases.convert(loc(1, vec![Junction::Parachain(7), any.clone()])), Ok(ALICE));
    assert_eq!(aliases.convert(loc(0, vec![own.clone()])), Ok(BOB));

    for refused in [
        loc(1, vec![own.clone()]),
        loc(0, vec![other]),
        loc(2, vec![any.clone()]),
        loc(0, vec![Junction::Parachain(7), any.clone()]),
        loc(1, vec![Junction::Parachain(7), own]),
        loc(1, vec![Junction::PalletInstance(7), any.clone()]),
        loc(1, vec![Junction::Parachain(7), any, Junction::OnlyChild]),
        loc(0, vec![Junction::Parachain(7)]),
        MultiLocation::here(),
    ] {
        assert_eq!(aliases.convert(refused.clone()), Err(refused));
    }
    assert_eq!(
        aliases.reverse(BOB),
        Ok(loc(0, vec![account(NetworkId::Named(vec![1, 2]), BOB)]))
    );
}

#[test]
fn only_the_parent_may_execute() {
    assert!(IsParent::contains(&MultiLocation::parent()));
    assert!(!IsParent::contains(&MultiLocation::here()));
    assert!(!IsParent::contains(&loc(2, vec![])));
    assert!(!IsParent::contains(&loc(1, vec![Junction::Parachain(1)])));

    let mut credit: u64 = 17;
    type Barrier = AllowEquivalentParentAccountsFrom<IsParent>;
    assert_eq!(Barrier::should_execute(&MultiLocation::parent(), 100, &mut credit), Ok(()));
    assert_eq!(Barrier::should_execute(&loc(1, vec![account(NetworkId::Any, ALICE)]), 100, &mut credit), Err(()));
    assert_eq!(credit, 17);
}

#[test]
fn no_handler_of_unknown_assets() {
    let asset = fungible(MultiLocation::parent(), 1);
    let who = loc(0, vec![account(NetworkId::Any, ALICE)]);
    match <() as UnknownAsset>::deposit(&asset, &who) {
        Err(DispatchError::Other(reason)) => assert_eq!(reason, "NoUnknownAssetImpl"),
        Ok(()) => panic!("there is no handler"),
    }
    match <() as UnknownAsset>::withdraw(&asset, &who) {
        Err(DispatchError::Other(reason)) => assert_eq!(reason, "NoUnknownAssetImpl"),
        Ok(()) => panic!("there is no handler"),
    }
}

#[test]
fn holdings_take_in_and_give_out() {
    let r = AssetId::Concrete(MultiLocation::parent());
    let mut holding = Assets::new();
    assert!(holding.is_empty());
    holding.subsume(fungible(MultiLocation::parent(), 1000));
    holding.subsume(fungible(MultiLocation::parent(), 5));
    holding.subsume(fungible(MultiLocation::here(), 1));
    assert_eq!(holding.fungible_len(), 2);
    assert_eq!(holding.fungible_id(0), &r);
    assert_eq!(holding.fungible_amount(0), 1005);
    assert_eq!(holding.balance(&r), 1005);
    assert_eq!(holding.balance(&AssetId::Abstract(vec![])), 0);

    // more than is held: the holding comes back as it was
    let back = holding.clone().checked_sub(fungible(MultiLocation::parent(), 1006)).unwrap_err();
    assert_eq!(back, holding);
    let back = holding.clone().checked_sub(fungible(MultiLocation::ancestor(2), 1)).unwrap_err();
    assert_eq!(back, holding);

    let less = holding.clone().checked_sub(fungible(MultiLocation::parent(), 5)).unwrap();
    assert_eq!(less.balance(&r), 1000);
    assert_eq!(less.fungible_len(), 2);
    // an entry that is left with nothing is removed
    let less = less.checked_sub(fungible(MultiLocation::parent(), 1000)).unwrap();
    assert_eq!(less.balance(&r), 0);
    assert_eq!(less.fungible_len(), 1);
    assert_eq!(less.fungible_id(0), &AssetId::Concrete(MultiLocation::here()));

    // amounts stop at the largest
    let mut rich = Assets::new();
    rich.subsume(fungible(MultiLocation::here(), u128::MAX - 1));
    rich.subsume(fungible(MultiLocation::here(), 2));
    assert_eq!(rich.balance(&AssetId::Concrete(MultiLocation::here())), u128::MAX);

    // instances are held once
    let token = |i: u128| MultiAsset::new(r.clone(), Fungibility::NonFungible(AssetInstance::Index(i)));
    let mut tokens = Assets::new();
    tokens.subsume(token(1));
    tokens.subsume(token(1));
    tokens.subsume(token(2));
    assert!(!tokens.is_empty());
    assert_eq!(tokens.fungible_len(), 0);
    let tokens = tokens.checked_sub(token(1)).unwrap();
    let tokens = tokens.checked_sub(token(1)).unwrap_err();
    let tokens = tokens.checked_sub(token(2)).unwrap();
    assert!(tokens.is_empty());
    assert!(fungible(MultiLocation::here(), 1).is_fungible());
    assert!(!token(1).is_fungible());
}
