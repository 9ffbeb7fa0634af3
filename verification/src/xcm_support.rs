//! Rules that tie assets and locations to the currencies and accounts of a
//! chain.

use crate::asset::{reserve_spec, AssetId, AssetIdView, Fungibility, MultiAsset, MultiAssetView};
use crate::junction::{Junction, JunctionView, NetworkId, NetworkIdView};
use crate::junctions::Junctions;
use crate::location::{chain_part_spec, parent_view, MultiLocation, MultiLocationView};
use crate::registry::Balance;
use crate::traits::{Contains, Convert, Weight};
use core::marker::PhantomData;
use vstd::prelude::*;

verus! {

/// The amount of the asset, when it is fungible and lives at a location
/// that the converter has a currency for.
pub open spec fn native_amount<
    CurrencyId: DeepView,
    CurrencyIdConvert: Convert<MultiLocation, Option<CurrencyId>>,
>(asset: MultiAssetView) -> Option<Balance> {
    match (asset.fun, asset.id) {
        (
            Fungibility::Fungible(amount),
            AssetIdView::Concrete(location),
        ) => if CurrencyIdConvert::convert_spec(location) is Some {
            Some(amount)
        } else {
            None
        },
        _ => None,
    }
}

/// Matches the fungible assets whose location the chain has a currency for.
pub struct IsNativeConcrete<CurrencyId, CurrencyIdConvert>(
    PhantomData<(CurrencyId, CurrencyIdConvert)>,
);

impl<CurrencyId: DeepView, CurrencyIdConvert: Convert<MultiLocation, Option<CurrencyId>>> IsNativeConcrete<
    CurrencyId,
    CurrencyIdConvert,
> {
    /// The amount of the asset, if it is fungible and the chain has a
    /// currency for its location.
    pub fn matches_fungible(a: &MultiAsset) -> (amount: Option<Balance>)
        ensures
            amount == native_amount::<CurrencyId, CurrencyIdConvert>(a@),
    {
        match (&a.fun, &a.id) {
            (Fungibility::Fungible(amount), AssetId::Concrete(location)) => {
                if CurrencyIdConvert::convert(location.clone()).is_some() {
                    return Some(*amount);
                }
            },
            _ => {},
        }
        None
    }
}

/// Accepts an asset from an origin that is the chain holding its reserve.
pub struct MultiNativeAsset;

impl MultiNativeAsset {
    /// Whether `origin` is the chain that holds the reserve of `asset`.
    pub fn filter_asset_location(asset: &MultiAsset, origin: &MultiLocation) -> (accepted: bool)
        ensures
            accepted == (reserve_spec(asset@) == Some(origin@)),
    {
        match asset.reserve() {
            Some(reserve) => {
                if reserve == *origin {
                    return true;
                }
            },
            None => {},
        }
        false
    }
}

/// Whether the location is an account of the parent chain with a 32-byte id.
pub open spec fn is_parent_account(origin: MultiLocationView) -> bool {
    origin.parents == 1 && origin.interior.len() == 1 && origin.interior[0] is AccountId32
}

/// Accepts the parent chain's asset from an account of the parent chain.
pub struct ParentFilterAsset;

impl ParentFilterAsset {
    /// Whether the reserve of `asset` is the parent chain and `origin` is
    /// an account of the parent chain.
    pub fn filter_asset_location(asset: &MultiAsset, origin: &MultiLocation) -> (accepted: bool)
        ensures
            accepted == (asset@.id is Concrete && chain_part_spec(asset@.id->Concrete_0) == Some(
                parent_view(),
            ) && is_parent_account(origin@)),
    {
        match &asset.id {
            AssetId::Concrete(location) => {
                let on_parent = match location.chain_part() {
                    Some(chain) => chain == MultiLocation::parent(),
                    None => false,
                };
                if on_parent {
                    if origin.parents == 1 && origin.interior.len() == 1 {
                        match origin.interior.first() {
                            Some(Junction::AccountId32 { .. }) => {
                                return true;
                            },
                            _ => {},
                        }
                    }
                }
            },
            AssetId::Abstract(_) => {},
        }
        false
    }
}

/// Why a call into the chain was refused.
#[derive(Debug, Clone, Copy)]
pub enum DispatchError {
    /// A reason given in words.
    Other(&'static str),
}

/// What the handler of unknown assets answers when there is none.
pub const NO_UNKNOWN_ASSET_IMPL: &'static str = "NoUnknownAssetImpl";

/// Takes in and gives out assets that the chain has no currency for.
pub trait UnknownAsset {
    /// Takes in an unknown asset for `to`.
    fn deposit(asset: &MultiAsset, to: &MultiLocation) -> Result<(), DispatchError>;

    /// Gives out an unknown asset of `from`.
    fn withdraw(asset: &MultiAsset, from: &MultiLocation) -> Result<(), DispatchError>;
}

impl UnknownAsset for () {
    fn deposit(asset: &MultiAsset, to: &MultiLocation) -> (done: Result<(), DispatchError>)
        ensures
            done == Err::<(), DispatchError>(DispatchError::Other(NO_UNKNOWN_ASSET_IMPL)),
    {
        Err(DispatchError::Other(NO_UNKNOWN_ASSET_IMPL))
    }

    fn withdraw(asset: &MultiAsset, from: &MultiLocation) -> (done: Result<(), DispatchError>)
        ensures
            done == Err::<(), DispatchError>(DispatchError::Other(NO_UNKNOWN_ASSET_IMPL)),
    {
        Err(DispatchError::Other(NO_UNKNOWN_ASSET_IMPL))
    }
}

/// The location of the account `id` of the parent chain, on `network`.
pub open spec fn parent_account(network: NetworkIdView, id: Seq<u8>) -> MultiLocationView {
    MultiLocationView { parents: 1, interior: seq![JunctionView::AccountId32 { network, id }] }
}

/// The id of the account of the parent chain that `location` names, when
/// it names one on any network or on `network`.
pub open spec fn relay_account_of(network: NetworkIdView, location: MultiLocationView) -> Option<
    Seq<u8>,
> {
    if is_parent_account(location) && (location.interior[0]->AccountId32_network
        == NetworkIdView::Any || location.interior[0]->AccountId32_network == network) {
        Some(location.interior[0]->AccountId32_id)
    } else {
        None
    }
}

/// Takes the accounts of the parent chain for accounts of this chain, id
/// for id, when they are on the given network or on any.
#[derive(Debug)]
pub struct RelaychainAccountId32Aliases {
    /// The network of the parent chain.
    pub network: NetworkId,
}

impl RelaychainAccountId32Aliases {
    /// The account that `location` stands for; the location comes back
    /// when it stands for none.
    pub fn convert(&self, location: MultiLocation) -> (account: Result<[u8; 32], MultiLocation>)
        ensures
            match relay_account_of(self.network@, location@) {
                Some(id) => account is Ok && account->Ok_0@ == id,
                None => account == Err::<[u8; 32], MultiLocation>(location),
            },
    {
        if location.parents == 1 && location.interior.len() == 1 {
            match location.interior.first() {
                Some(Junction::AccountId32 { network, id }) => {
                    let any = match network {
                        NetworkId::Any => true,
                        _ => false,
                    };
                    if any || *network == self.network {
                        return Ok(*id);
                    }
                },
                _ => {},
            }
        }
        Err(location)
    }

    /// The location of the account `who` on the parent chain.
    pub fn reverse(&self, who: [u8; 32]) -> (location: Result<MultiLocation, [u8; 32]>)
        ensures
            location is Ok,
            location->Ok_0@ == parent_account(self.network@, who@),
    {
        Ok(
            MultiLocation::new(
                1,
                Junctions::x1(Junction::AccountId32 { network: self.network.clone(), id: who }),
            ),
        )
    }
}

/// The set that holds the parent chain and nothing else.
pub struct IsParent;

impl Contains for IsParent {
    open spec fn contains_spec(location: MultiLocationView) -> bool {
        location == parent_view()
    }

    fn contains(location: &MultiLocation) -> (held: bool) {
        let held = location.contains_parents_only(1);
        assert(held ==> location@.interior =~= parent_view().interior);
        held
    }
}

/// Lets messages pass that come from an origin in the set `T`.
pub struct AllowEquivalentParentAccountsFrom<T>(PhantomData<T>);

impl<T: Contains> AllowEquivalentParentAccountsFrom<T> {
    /// Whether a message from `origin` may be executed. The weight credit
    /// is left as it is.
    pub fn should_execute(origin: &MultiLocation, max_weight: Weight, weight_credit: &mut Weight) -> (allowed:
        Result<(), ()>)
        ensures
            allowed is Ok <==> T::contains_spec(origin@),
            *final(weight_credit) == *old(weight_credit),
    {
        if !T::contains(origin) {
            return Err(());
        }
        Ok(())
    }
}

} // verus!
