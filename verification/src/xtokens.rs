//! Routing of cross-chain transfers: which way an asset must travel to
//! reach its destination, and what it pays on the way.

use crate::asset::{
    reanchor_spec, reserve_spec, AssetId, AssetIdView, MultiAsset, MultiAssetView,
};
use crate::error::Error;
use crate::location::{
    chain_part_spec, invert_spec, non_chain_part_spec, LocationInverter, MultiLocation,
    MultiLocationView,
};
use crate::pallet::{Config, Pallet};
use crate::registry::{location_of, RegistryView};
use crate::trade::fungible_at;
use crate::traits::Weight;
use vstd::prelude::*;

verus! {

/// The way an asset travels from the sending chain to its destination.
#[derive(Debug, Clone, Copy, PartialEq, Eq, Structural)]
pub enum TransferKind {
    /// The sending chain holds the reserve.
    SelfReserveAsset,
    /// The destination chain holds the reserve.
    ToReserve,
    /// A third chain holds the reserve: the asset travels through it.
    ToNonReserve,
}

/// A transfer that has been routed.
#[derive(Debug)]
pub struct Route {
    /// The way the asset travels.
    pub kind: TransferKind,
    /// The chain of the destination.
    pub dest: MultiLocation,
    /// The chain that holds the reserve of the asset.
    pub reserve: MultiLocation,
    /// The recipient, as the chain of the destination names it.
    pub recipient: MultiLocation,
}

/// The mathematical value of a [`Route`].
pub struct RouteView {
    pub kind: TransferKind,
    pub dest: MultiLocationView,
    pub reserve: MultiLocationView,
    pub recipient: MultiLocationView,
}

impl View for Route {
    type V = RouteView;

    open spec fn view(&self) -> RouteView {
        RouteView {
            kind: self.kind,
            dest: self.dest@,
            reserve: self.reserve@,
            recipient: self.recipient@,
        }
    }
}

/// Tells which chain holds the reserve of an asset.
pub trait Reserve {
    /// The chain that holds the reserve of the asset; `None` when it has
    /// none.
    spec fn reserve_of(asset: MultiAssetView) -> Option<MultiLocationView>;

    /// The chain that holds the reserve of the asset, if it has one.
    fn reserve(asset: &MultiAsset) -> (reserve: Option<MultiLocation>)
        ensures
            reserve is Some <==> Self::reserve_of(asset@) is Some,
            reserve is Some ==> reserve->0@ == Self::reserve_of(asset@)->0,
    ;
}

/// Takes the chain that the asset's location lies on for its reserve. An
/// asset that the sending chain names without a step up and without a
/// parachain has none.
pub struct AbsoluteReserveProvider;

impl Reserve for AbsoluteReserveProvider {
    open spec fn reserve_of(asset: MultiAssetView) -> Option<MultiLocationView> {
        match asset.id {
            AssetIdView::Concrete(location) => chain_part_spec(location),
            AssetIdView::Abstract(_) => None,
        }
    }

    fn reserve(asset: &MultiAsset) -> (reserve: Option<MultiLocation>) {
        match &asset.id {
            AssetId::Concrete(location) => location.chain_part(),
            AssetId::Abstract(_) => None,
        }
    }
}

/// Takes the sending chain itself for the reserve of an asset that it
/// names without a step up and without a parachain, and else the chain
/// that the asset's location lies on.
pub struct RelativeReserveProvider;

impl Reserve for RelativeReserveProvider {
    open spec fn reserve_of(asset: MultiAssetView) -> Option<MultiLocationView> {
        reserve_spec(asset)
    }

    fn reserve(asset: &MultiAsset) -> (reserve: Option<MultiLocation>) {
        asset.reserve()
    }
}

/// The chain and the recipient that a destination names; refused when it
/// does not name both.
pub open spec fn valid_dest_spec(dest: MultiLocationView) -> Result<
    (MultiLocationView, MultiLocationView),
    Error,
> {
    match (chain_part_spec(dest), non_chain_part_spec(dest)) {
        (Some(chain), Some(recipient)) => Ok((chain, recipient)),
        _ => Err(Error::InvalidDest),
    }
}

/// The way of a transfer, given where the reserve of the asset is: the
/// sending chain comes first, the destination second.
pub open spec fn kind_spec(
    reserve: MultiLocationView,
    dest: MultiLocationView,
    self_location: MultiLocationView,
) -> TransferKind {
    if reserve == self_location {
        TransferKind::SelfReserveAsset
    } else if reserve == dest {
        TransferKind::ToReserve
    } else {
        TransferKind::ToNonReserve
    }
}

/// The route of `asset` from the chain at `self_location` to `dest`, with
/// the reserve that `R` tells. Refused when `dest` does not name a chain
/// and a recipient on it, when that chain is the sending chain, or when
/// the asset has no reserve.
pub open spec fn transfer_kind_spec<R: Reserve>(
    asset: MultiAssetView,
    dest: MultiLocationView,
    self_location: MultiLocationView,
) -> Result<RouteView, Error> {
    match valid_dest_spec(dest) {
        Ok((chain, recipient)) => if chain == self_location {
            Err(Error::NotCrossChainTransfer)
        } else {
            match R::reserve_of(asset) {
                Some(reserve) => Ok(
                    RouteView {
                        kind: kind_spec(reserve, chain, self_location),
                        dest: chain,
                        reserve,
                        recipient,
                    },
                ),
                None => Err(Error::AssetHasNoReserve),
            }
        },
        Err(e) => Err(e),
    }
}

/// Splits a destination into its chain and the recipient on that chain.
pub fn ensure_valid_dest(dest: &MultiLocation) -> (parts: Result<
    (MultiLocation, MultiLocation),
    Error,
>)
    ensures
        match valid_dest_spec(dest@) {
            Ok((chain, recipient)) => parts is Ok && parts->Ok_0.0@ == chain && parts->Ok_0.1@
                == recipient,
            Err(e) => parts == Err::<(MultiLocation, MultiLocation), Error>(e),
        },
{
    match (dest.chain_part(), dest.non_chain_part()) {
        (Some(chain), Some(recipient)) => Ok((chain, recipient)),
        _ => Err(Error::InvalidDest),
    }
}

/// Routes the transfer of `asset` from the chain at `self_location` to
/// `dest`.
pub fn transfer_kind<R: Reserve>(
    asset: &MultiAsset,
    dest: &MultiLocation,
    self_location: &MultiLocation,
) -> (routed: Result<Route, Error>)
    ensures
        match transfer_kind_spec::<R>(asset@, dest@, self_location@) {
            Ok(route) => routed is Ok && routed->Ok_0@ == route,
            Err(e) => routed is Err && routed->Err_0 == e,
        },
{
    let (chain, recipient) = match ensure_valid_dest(dest) {
        Ok(parts) => parts,
        Err(e) => {
            return Err(e);
        },
    };
    if chain == *self_location {
        return Err(Error::NotCrossChainTransfer);
    }
    let reserve = match R::reserve(asset) {
        Some(reserve) => reserve,
        None => {
            return Err(Error::AssetHasNoReserve);
        },
    };
    let kind = if reserve == *self_location {
        TransferKind::SelfReserveAsset
    } else if reserve == chain {
        TransferKind::ToReserve
    } else {
        TransferKind::ToNonReserve
    };
    Ok(Route { kind, dest: chain, reserve, recipient })
}

/// The asset that a transfer of `amount` of the registered asset
/// `asset_id` moves, as the sending chain names it. Refused when nothing is
/// registered under the id, or when the asset has no location and with it
/// no reserve.
pub open spec fn registered_asset_spec<C>(
    registry: RegistryView<C>,
    asset_id: u32,
    amount: u128,
) -> Result<MultiAssetView, Error> {
    if !registry.metadata.contains_key(asset_id) {
        Err(Error::AssetNotFound)
    } else {
        match location_of(registry.metadata[asset_id]) {
            Some(location) => Ok(fungible_at(location, amount)),
            None => Err(Error::AssetHasNoReserve),
        }
    }
}

/// The route of `amount` of the registered asset `asset_id` from the chain
/// at `self_location` to `dest`.
pub open spec fn transfer_spec<C, R: Reserve>(
    registry: RegistryView<C>,
    asset_id: u32,
    amount: u128,
    dest: MultiLocationView,
    self_location: MultiLocationView,
) -> Result<(MultiAssetView, RouteView), Error> {
    match registered_asset_spec(registry, asset_id, amount) {
        Ok(asset) => match transfer_kind_spec::<R>(asset, dest, self_location) {
            Ok(route) => Ok((asset, route)),
            Err(e) => Err(e),
        },
        Err(e) => Err(e),
    }
}

/// Routes the transfer of `amount` of the registered asset `asset_id`
/// from the chain at `self_location` to `dest`, and returns the asset that
/// travels together with its route.
pub fn transfer<T: Config, R: Reserve>(
    registry: &Pallet<T>,
    asset_id: u32,
    amount: u128,
    dest: &MultiLocation,
    self_location: &MultiLocation,
) -> (routed: Result<(MultiAsset, Route), Error>)
    ensures
        match transfer_spec::<T::CustomMetadata, R>(
            registry@,
            asset_id,
            amount,
            dest@,
            self_location@,
        ) {
            Ok((asset, route)) => routed is Ok && routed->Ok_0.0@ == asset && routed->Ok_0.1@
                == route,
            Err(e) => routed is Err && routed->Err_0 == e,
        },
{
    let metadata = match registry.get_metadata(asset_id) {
        Some(metadata) => metadata,
        None => {
            return Err(Error::AssetNotFound);
        },
    };
    let location = match &metadata.location {
        Some(versioned) => match versioned.try_into_location() {
            Ok(location) => location,
            Err(_) => {
                return Err(Error::AssetHasNoReserve);
            },
        },
        None => {
            return Err(Error::AssetHasNoReserve);
        },
    };
    let asset = MultiAsset::concrete_fungible(location, amount);
    match transfer_kind::<R>(&asset, dest, self_location) {
        Ok(route) => Ok((asset, route)),
        Err(e) => Err(e),
    }
}

/// How much weight a purchase of execution may use.
#[derive(Debug, Clone, Copy, PartialEq, Eq, Structural)]
pub enum WeightLimit {
    /// As much as it takes.
    Unlimited,
    /// No more than the given weight.
    Limited(Weight),
}

/// The order to buy execution on a receiving chain.
#[derive(Debug)]
pub struct BuyExecution {
    /// The asset that pays, as the receiving chain names it.
    pub fees: MultiAsset,
    /// How much weight may be bought.
    pub weight_limit: WeightLimit,
}

/// The asset that pays for execution at `at`, as the chain there names
/// it: the asset, re-expressed by the way back from `at` to the sending
/// chain. `None` when there is no way back or the name cannot be held.
pub open spec fn fees_spec(
    ancestry: MultiLocationView,
    asset: MultiAssetView,
    at: MultiLocationView,
) -> Option<MultiAssetView> {
    match invert_spec(ancestry, at) {
        Some(way_back) => reanchor_spec(asset, way_back),
        None => None,
    }
}

/// Makes the order to buy `weight` of execution at `at` with `asset`.
pub fn buy_execution(
    inverter: &LocationInverter,
    asset: MultiAsset,
    at: &MultiLocation,
    weight: Weight,
) -> (order: Result<BuyExecution, ()>)
    ensures
        order is Ok <==> fees_spec(inverter.ancestry@, asset@, at@) is Some,
        order is Ok ==> order->Ok_0.fees@ == fees_spec(inverter.ancestry@, asset@, at@)->0
            && order->Ok_0.weight_limit == WeightLimit::Limited(weight),
{
    let way_back = match inverter.invert_location(at) {
        Ok(way_back) => way_back,
        Err(_) => {
            return Err(());
        },
    };
    let mut fees = asset;
    match fees.reanchor(&way_back) {
        Ok(()) => Ok(BuyExecution { fees, weight_limit: WeightLimit::Limited(weight) }),
        Err(_) => Err(()),
    }
}

/// How the execution of a message ended.
#[derive(Debug, Clone, Copy, PartialEq, Eq, Structural)]
pub enum Outcome {
    /// All of it was executed, with the given weight.
    Complete(Weight),
    /// It stopped on an error after the given weight.
    Incomplete(Weight, Error),
    /// It could not be started.
    Error(Error),
}

impl Outcome {
    /// Whether the message of a transfer went through. When it did not,
    /// the transfer has failed and nothing of it may stay in place.
    pub fn ensure_complete(&self) -> (done: Result<(), Error>)
        ensures
            *self is Complete ==> done is Ok,
            !(*self is Complete) ==> done == Err::<(), Error>(Error::XcmExecutionFailed),
    {
        match self {
            Outcome::Complete(_) => Ok(()),
            _ => Err(Error::XcmExecutionFailed),
        }
    }
}

} // verus!
