//! A small chain configuration: three currencies and the accounts that
//! locations stand for.

use crate::asset::{AssetId, AssetIdView, Fungibility, MultiAsset, MultiAssetView};
use crate::junction::{Junction, JunctionView, NetworkId, NetworkIdView};
use crate::junctions::Junctions;
use crate::location::{parent_view, MultiLocation, MultiLocationView};
use crate::impls::SequentialId;
use crate::pallet::{Config, CustomMetadata, Pallet};
use crate::traits::Convert;
use vstd::prelude::*;

verus! {

/// The configuration of a parachain: it keeps a fee rate with each asset
/// and gives ids in sequence.
pub struct Runtime;

impl Config for Runtime {
    type CustomMetadata = CustomMetadata;

    type ProcessAsset = SequentialId;
}

/// The asset registry of the parachain.
pub type AssetRegistry = Pallet<Runtime>;

/// The currencies of the configuration.
#[derive(Debug, Clone, Copy, PartialEq, Eq, Structural, PartialOrd, Ord)]
pub enum CurrencyId {
    /// The token of the relay chain.
    R,
    /// The token of parachain A.
    A,
    /// The token of parachain B.
    B,
}

impl DeepView for CurrencyId {
    type V = CurrencyId;

    open spec fn deep_view(&self) -> CurrencyId {
        *self
    }
}

/// The key `A`.
pub open spec fn key_a() -> Seq<u8> {
    seq![65u8]
}

/// The key `B`.
pub open spec fn key_b() -> Seq<u8> {
    seq![66u8]
}

/// Where a currency lives.
pub open spec fn location_of_currency(id: CurrencyId) -> MultiLocationView {
    match id {
        CurrencyId::R => parent_view(),
        CurrencyId::A => MultiLocationView {
            parents: 1,
            interior: seq![JunctionView::Parachain(1), JunctionView::GeneralKey(key_a())],
        },
        CurrencyId::B => MultiLocationView {
            parents: 1,
            interior: seq![JunctionView::Parachain(2), JunctionView::GeneralKey(key_b())],
        },
    }
}

/// The currency that lives at a location, if one does.
pub open spec fn currency_at(location: MultiLocationView) -> Option<CurrencyId> {
    if location == location_of_currency(CurrencyId::R) {
        Some(CurrencyId::R)
    } else if location == location_of_currency(CurrencyId::A) {
        Some(CurrencyId::A)
    } else if location == location_of_currency(CurrencyId::B) {
        Some(CurrencyId::B)
    } else {
        None
    }
}

/// The currency of an asset, if it is fungible and a currency lives at its
/// location.
pub open spec fn currency_of_asset(asset: MultiAssetView) -> Option<CurrencyId> {
    match (asset.fun, asset.id) {
        (Fungibility::Fungible(_), AssetIdView::Concrete(location)) => currency_at(location),
        _ => None,
    }
}

/// Each currency is the one that lives at its own location.
pub proof fn lemma_currency_round_trip(id: CurrencyId)
    ensures
        currency_at(location_of_currency(id)) == Some(id),
{
    let a = location_of_currency(CurrencyId::A);
    let b = location_of_currency(CurrencyId::B);
    assert(a.interior[0] != b.interior[0]);
    assert(a.interior.len() != parent_view().interior.len());
    assert(b.interior.len() != parent_view().interior.len());
}

/// Converts between currencies, the locations they live at and the assets
/// made of them.
pub struct CurrencyIdConvert;

impl Convert<CurrencyId, Option<MultiLocation>> for CurrencyIdConvert {
    open spec fn convert_spec(id: CurrencyId) -> Option<MultiLocationView> {
        Some(location_of_currency(id))
    }

    fn convert(id: CurrencyId) -> (location: Option<MultiLocation>) {
        match id {
            CurrencyId::R => Some(MultiLocation::parent()),
            CurrencyId::A => {
                let mut key: Vec<u8> = Vec::new();
                key.push(65u8);
                assert(key@ =~= key_a());
                Some(
                    MultiLocation::new(
                        1,
                        Junctions::x2(Junction::Parachain(1), Junction::GeneralKey(key)),
                    ),
                )
            },
            CurrencyId::B => {
                let mut key: Vec<u8> = Vec::new();
                key.push(66u8);
                assert(key@ =~= key_b());
                Some(
                    MultiLocation::new(
                        1,
                        Junctions::x2(Junction::Parachain(2), Junction::GeneralKey(key)),
                    ),
                )
            },
        }
    }
}

/// Tells whether `key` is the one byte `byte`.
fn is_key(key: &Vec<u8>, byte: u8) -> (yes: bool)
    ensures
        yes == (key@ == seq![byte]),
{
    let yes = key.len() == 1 && key[0] == byte;
    assert(yes ==> key@ =~= seq![byte]);
    yes
}

impl Convert<MultiLocation, Option<CurrencyId>> for CurrencyIdConvert {
    open spec fn convert_spec(location: MultiLocationView) -> Option<CurrencyId> {
        currency_at(location)
    }

    fn convert(l: MultiLocation) -> (currency: Option<CurrencyId>) {
        if l.parents != 1 {
            return None;
        }
        let n = l.interior.len();
        if n == 0 {
            assert(l@.interior =~= parent_view().interior);
            return Some(CurrencyId::R);
        }
        if n != 2 {
            return None;
        }
        match (l.interior.at(0), l.interior.at(1)) {
            (Some(Junction::Parachain(para)), Some(Junction::GeneralKey(k))) => {
                if *para == 1 && is_key(k, 65u8) {
                    assert(l@.interior =~= location_of_currency(CurrencyId::A).interior);
                    Some(CurrencyId::A)
                } else if *para == 2 && is_key(k, 66u8) {
                    assert(l@.interior =~= location_of_currency(CurrencyId::B).interior);
                    assert(l@.interior[0] != location_of_currency(CurrencyId::A).interior[0]);
                    Some(CurrencyId::B)
                } else {
                    assert(l@.interior[0] != location_of_currency(CurrencyId::A).interior[0]
                        || l@.interior[1] != location_of_currency(CurrencyId::A).interior[1]);
                    assert(l@.interior[0] != location_of_currency(CurrencyId::B).interior[0]
                        || l@.interior[1] != location_of_currency(CurrencyId::B).interior[1]);
                    None
                }
            },
            _ => {
                assert(l@.interior[0] != location_of_currency(CurrencyId::A).interior[0]
                    || l@.interior[1] != location_of_currency(CurrencyId::A).interior[1]);
                assert(l@.interior[0] != location_of_currency(CurrencyId::B).interior[0]
                    || l@.interior[1] != location_of_currency(CurrencyId::B).interior[1]);
                None
            },
        }
    }
}

impl Convert<MultiAsset, Option<CurrencyId>> for CurrencyIdConvert {
    open spec fn convert_spec(asset: MultiAssetView) -> Option<CurrencyId> {
        currency_of_asset(asset)
    }

    fn convert(a: MultiAsset) -> (currency: Option<CurrencyId>) {
        let MultiAsset { id, fun } = a;
        match (fun, id) {
            (Fungibility::Fungible(_), AssetId::Concrete(location)) => <Self as Convert<
                MultiLocation,
                Option<CurrencyId>,
            >>::convert(location),
            _ => None,
        }
    }
}

/// The account that a location stands for under the rules of
/// [`AccountId32Aliases2`]: an account of this chain or of its parent on
/// any network, an account of a sibling parachain on any network, or an
/// account of this chain on `network`.
pub open spec fn alias_of(network: NetworkIdView, location: MultiLocationView) -> Option<Seq<u8>> {
    let interior = location.interior;
    if location.parents <= 1 && interior.len() == 1 && interior[0] is AccountId32
        && interior[0]->AccountId32_network == NetworkIdView::Any {
        Some(interior[0]->AccountId32_id)
    } else if location.parents == 1 && interior.len() == 2 && interior[0] is Parachain
        && interior[1] is AccountId32 && interior[1]->AccountId32_network == NetworkIdView::Any {
        Some(interior[1]->AccountId32_id)
    } else if location.parents == 0 && interior.len() == 1 && interior[0] is AccountId32
        && interior[0]->AccountId32_network == network {
        Some(interior[0]->AccountId32_id)
    } else {
        None
    }
}

/// Takes accounts named by location for accounts of this chain, id for id.
#[derive(Debug)]
pub struct AccountId32Aliases2 {
    /// The network of this chain.
    pub network: NetworkId,
}

/// Tells whether the network is `Any`.
fn is_any(network: &NetworkId) -> (any: bool)
    ensures
        any == (network@ == NetworkIdView::Any),
{
    match network {
        NetworkId::Any => true,
        _ => false,
    }
}

impl AccountId32Aliases2 {
    /// The account that `location` stands for; the location comes back
    /// when it stands for none.
    pub fn convert(&self, location: MultiLocation) -> (account: Result<[u8; 32], MultiLocation>)
        ensures
            match alias_of(self.network@, location@) {
                Some(id) => account is Ok && account->Ok_0@ == id,
                None => account == Err::<[u8; 32], MultiLocation>(location),
            },
    {
        let n = location.interior.len();
        if n == 1 {
            match location.interior.at(0) {
                Some(Junction::AccountId32 { network, id }) => {
                    if location.parents <= 1 && is_any(network) {
                        return Ok(*id);
                    }
                    if location.parents == 0 && *network == self.network {
                        return Ok(*id);
                    }
                },
                _ => {},
            }
        } else if n == 2 && location.parents == 1 {
            match (location.interior.at(0), location.interior.at(1)) {
                (Some(Junction::Parachain(_)), Some(Junction::AccountId32 { network, id })) => {
                    if is_any(network) {
                        return Ok(*id);
                    }
                },
                _ => {},
            }
        }
        Err(location)
    }

    /// The location of the account `who` on this chain.
    pub fn reverse(&self, who: [u8; 32]) -> (location: Result<MultiLocation, [u8; 32]>)
        ensures
            location is Ok,
            location->Ok_0@ == (MultiLocationView {
                parents: 0,
                interior: seq![JunctionView::AccountId32 { network: self.network@, id: who@ }],
            }),
    {
        Ok(
            MultiLocation::new(
                0,
                Junctions::x1(Junction::AccountId32 { network: self.network.clone(), id: who }),
            ),
        )
    }
}

} // verus!
