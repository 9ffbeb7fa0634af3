//! Assets as they are named in cross-chain messages.

use crate::junction::{bytes_clone, bytes_eq};
use crate::location::{
    chain_part_spec, here_view, prepend_spec, MultiLocation, MultiLocationView,
};
use vstd::prelude::*;
use vstd::std_specs::cmp::PartialEqSpecImpl;

verus! {

/// The name of a class of asset.
#[derive(Debug)]
pub enum AssetId {
    /// The asset that lives at a location.
    Concrete(MultiLocation),
    /// An asset known by an abstract name.
    Abstract(Vec<u8>),
}

/// The mathematical value of an [`AssetId`].
pub enum AssetIdView {
    Concrete(MultiLocationView),
    Abstract(Seq<u8>),
}

impl View for AssetId {
    type V = AssetIdView;

    open spec fn view(&self) -> AssetIdView {
        match *self {
            AssetId::Concrete(location) => AssetIdView::Concrete(location@),
            AssetId::Abstract(name) => AssetIdView::Abstract(name@),
        }
    }
}

impl Clone for AssetId {
    fn clone(&self) -> (copy: Self)
        ensures
            copy@ == self@,
    {
        match self {
            AssetId::Concrete(location) => AssetId::Concrete(location.clone()),
            AssetId::Abstract(name) => AssetId::Abstract(bytes_clone(name)),
        }
    }
}

impl PartialEq for AssetId {
    fn eq(&self, other: &Self) -> (same: bool) {
        match (self, other) {
            (AssetId::Concrete(a), AssetId::Concrete(b)) => *a == *b,
            (AssetId::Abstract(a), AssetId::Abstract(b)) => bytes_eq(a.as_slice(), b.as_slice()),
            _ => false,
        }
    }
}

impl PartialEqSpecImpl for AssetId {
    open spec fn obeys_eq_spec() -> bool {
        true
    }

    open spec fn eq_spec(&self, other: &Self) -> bool {
        self@ == other@
    }
}

/// One instance of a non-fungible asset class.
#[derive(Debug, Clone, Copy, PartialEq, Eq, Structural)]
pub enum AssetInstance {
    /// The only instance of its class.
    Undefined,
    /// The instance with the given index.
    Index(u128),
}

/// How much of an asset class, or which instance of it.
#[derive(Debug, Clone, Copy, PartialEq, Eq, Structural)]
pub enum Fungibility {
    /// An amount of a fungible asset.
    Fungible(u128),
    /// One instance of a non-fungible asset.
    NonFungible(AssetInstance),
}

/// An asset: what it is and how much of it.
#[derive(Debug)]
pub struct MultiAsset {
    /// The class of the asset.
    pub id: AssetId,
    /// The amount or the instance.
    pub fun: Fungibility,
}

/// The mathematical value of a [`MultiAsset`].
pub struct MultiAssetView {
    pub id: AssetIdView,
    pub fun: Fungibility,
}

impl View for MultiAsset {
    type V = MultiAssetView;

    open spec fn view(&self) -> MultiAssetView {
        MultiAssetView { id: self.id@, fun: self.fun }
    }
}

impl DeepView for MultiAsset {
    type V = MultiAssetView;

    open spec fn deep_view(&self) -> MultiAssetView {
        self@
    }
}

/// What an asset is after its location, read at `prepend`, is re-expressed
/// as read from where `prepend` is read; `None` when the location cannot be
/// held. An asset with an abstract name stays as it is.
pub open spec fn reanchor_spec(asset: MultiAssetView, prepend: MultiLocationView) -> Option<
    MultiAssetView,
> {
    match asset.id {
        AssetIdView::Concrete(location) => match prepend_spec(location, prepend) {
            Some(moved) => Some(
                MultiAssetView { id: AssetIdView::Concrete(moved), fun: asset.fun },
            ),
            None => None,
        },
        AssetIdView::Abstract(_) => Some(asset),
    }
}

/// The chain that holds the reserve of the asset at `location`: the
/// reader's own chain when the location has no step up and does not start
/// with a parachain, and else the chain that the location lies on.
pub open spec fn reserve_of_location(location: MultiLocationView) -> Option<MultiLocationView> {
    if location.parents == 0 && !(location.interior.len() > 0 && location.interior[0]
        is Parachain) {
        Some(here_view())
    } else {
        chain_part_spec(location)
    }
}

/// The chain that holds the reserve of an asset. An asset with an abstract
/// name has none.
pub open spec fn reserve_spec(asset: MultiAssetView) -> Option<MultiLocationView> {
    match asset.id {
        AssetIdView::Concrete(location) => reserve_of_location(location),
        AssetIdView::Abstract(_) => None,
    }
}

impl MultiAsset {
    /// The asset of the given class and amount or instance.
    pub fn new(id: AssetId, fun: Fungibility) -> (asset: Self)
        ensures
            asset@ == (MultiAssetView { id: id@, fun }),
    {
        MultiAsset { id, fun }
    }

    /// `amount` of the fungible asset that lives at `location`.
    pub fn concrete_fungible(location: MultiLocation, amount: u128) -> (asset: Self)
        ensures
            asset@ == (MultiAssetView {
                id: AssetIdView::Concrete(location@),
                fun: Fungibility::Fungible(amount),
            }),
    {
        MultiAsset { id: AssetId::Concrete(location), fun: Fungibility::Fungible(amount) }
    }

    /// Whether the asset is fungible.
    pub fn is_fungible(&self) -> (yes: bool)
        ensures
            yes == (self@.fun is Fungible),
    {
        match self.fun {
            Fungibility::Fungible(_) => true,
            Fungibility::NonFungible(_) => false,
        }
    }

    /// Re-expresses the asset's location, read at `prepend`, as read from
    /// where `prepend` is read. On failure the asset stays as it is.
    pub fn reanchor(&mut self, prepend: &MultiLocation) -> (done: Result<(), ()>)
        ensures
            match reanchor_spec(old(self)@, prepend@) {
                Some(moved) => done is Ok && final(self)@ == moved,
                None => done is Err && final(self)@ == old(self)@,
            },
    {
        let moved = match &self.id {
            AssetId::Concrete(location) => {
                let mut location = location.clone();
                match location.prepend_with(prepend.clone()) {
                    Ok(()) => Some(location),
                    Err(_) => {
                        return Err(());
                    },
                }
            },
            AssetId::Abstract(_) => None,
        };
        match moved {
            Some(location) => {
                self.id = AssetId::Concrete(location);
            },
            None => {},
        }
        Ok(())
    }

    /// The chain that holds the reserve of the asset, if it has one.
    pub fn reserve(&self) -> (reserve: Option<MultiLocation>)
        ensures
            reserve is Some <==> reserve_spec(self@) is Some,
            reserve is Some ==> reserve->0@ == reserve_spec(self@)->0,
    {
        match &self.id {
            AssetId::Concrete(location) => {
                let starts_with_chain = match location.first_interior() {
                    Some(first) => first.is_chain(),
                    None => false,
                };
                if location.parents == 0 && !starts_with_chain {
                    Some(MultiLocation::here())
                } else {
                    location.chain_part()
                }
            },
            AssetId::Abstract(_) => None,
        }
    }
}

impl Clone for MultiAsset {
    fn clone(&self) -> (copy: Self)
        ensures
            copy@ == self@,
    {
        MultiAsset { id: self.id.clone(), fun: self.fun }
    }
}

impl PartialEq for MultiAsset {
    fn eq(&self, other: &Self) -> (same: bool) {
        self.id == other.id && self.fun == other.fun
    }
}

impl PartialEqSpecImpl for MultiAsset {
    open spec fn obeys_eq_spec() -> bool {
        true
    }

    open spec fn eq_spec(&self, other: &Self) -> bool {
        self@ == other@
    }
}

} // verus!
