//! What a deployment plugs into the library: how weight is priced and how
//! ids are given to new assets.

use crate::error::Error;
use crate::location::{MultiLocation, MultiLocationView};
use vstd::prelude::*;

verus! {

/// An amount of computation.
pub type Weight = u64;

/// Turns a weight into the fee that an asset pays for it.
pub trait WeightToFeeConverter {
    /// The fee for `weight` in the asset at `location`; `None` when the
    /// asset is not priced.
    spec fn fee_spec(&self, location: MultiLocationView, weight: Weight) -> Option<u128>;

    /// The fee for `weight` in the asset at `location`, if the asset is priced.
    fn convert_weight_to_fee(&self, location: &MultiLocation, weight: Weight) -> (fee: Option<
        u128,
    >)
        ensures
            fee == self.fee_spec(location@, weight),
    ;

    /// For one asset, more weight never costs less.
    proof fn fee_is_monotonic(&self, location: MultiLocationView, lighter: Weight, heavier: Weight)
        requires
            lighter <= heavier,
            self.fee_spec(location, lighter) is Some,
            self.fee_spec(location, heavier) is Some,
        ensures
            self.fee_spec(location, lighter)->0 <= self.fee_spec(location, heavier)->0,
    ;
}

/// Knows the fee that an asset pays for one second of computation.
pub trait FixedConversionRateProvider {
    /// The fee per second of the asset at `location`; `None` when the asset
    /// has no rate.
    spec fn rate_spec(&self, location: MultiLocationView) -> Option<u128>;

    /// The fee per second of the asset at `location`, if it has a rate.
    fn get_fee_per_second(&self, location: &MultiLocation) -> (rate: Option<u128>)
        ensures
            rate == self.rate_spec(location@),
    ;
}

/// Turns a value of one kind into a value of another.
pub trait Convert<A: DeepView, B: DeepView> {
    /// What `a` is turned into.
    spec fn convert_spec(a: A::V) -> B::V;

    /// Turns `a` into a value of the other kind.
    fn convert(a: A) -> (b: B)
        ensures
            b.deep_view() == Self::convert_spec(a.deep_view()),
    ;
}

/// A set of locations.
pub trait Contains {
    /// Whether the set holds `location`.
    spec fn contains_spec(location: MultiLocationView) -> bool;

    /// Tells whether the set holds `location`.
    fn contains(location: &MultiLocation) -> (held: bool)
        ensures
            held == Self::contains_spec(location@),
    ;
}

/// Gives an id to an asset that is about to be registered.
pub trait AssetProcessor<Metadata> {
    /// The id given when the last id given in sequence is `last` and the
    /// caller asks for `id`, together with the last id given in sequence
    /// afterwards.
    spec fn assign_spec(last: Option<u32>, id: Option<u32>) -> Result<(u32, Option<u32>), Error>;

    /// Gives the asset an id and hands its metadata back. `last_asset_id` is
    /// the last id given in sequence, and is brought up to date.
    fn process_asset(
        last_asset_id: &mut Option<u32>,
        id: Option<u32>,
        asset_metadata: Metadata,
    ) -> (processed: Result<(u32, Metadata), Error>)
        ensures
            match Self::assign_spec(*old(last_asset_id), id) {
                Ok((given, last)) => processed == Ok::<(u32, Metadata), Error>(
                    (given, asset_metadata),
                ) && *final(last_asset_id) == last,
                Err(e) => processed == Err::<(u32, Metadata), Error>(e) && *final(last_asset_id)
                    == *old(last_asset_id),
            },
    ;
}

} // verus!
