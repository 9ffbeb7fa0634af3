//! The standard ways to give ids and to price weight, and the trader that
//! buys weight with one registered asset.

use crate::asset::{AssetId, Fungibility, MultiAsset};
use crate::error::Error;
use crate::holding::{lemma_class_index_unique, well_formed, Assets};
use crate::location::{MultiLocation, MultiLocationView};
use crate::trade::{
    buy_from, buy_spec, consistent, fee_increase, offer, refund_spec, settle_spec, BoughtWeightView,
    BuyOutcome, TraderState,
};
use crate::traits::{AssetProcessor, FixedConversionRateProvider, Weight, WeightToFeeConverter};
use vstd::arithmetic::div_mod::lemma_div_is_ordered;
use vstd::prelude::*;

verus! {

/// The weight of one second of computation.
pub const WEIGHT_PER_SECOND: Weight = 1_000_000_000_000;

/// The id that follows `last` in sequence: zero at the start, then one more
/// each time, never beyond the largest id.
pub open spec fn next_id(last: Option<u32>) -> u32 {
    match last {
        None => 0,
        Some(x) => x.saturating_add(1),
    }
}

/// Gives ids in sequence: 0, 1, 2 and so on. A caller may name an id of
/// its own, as long as it is not beyond the next id in sequence.
#[derive(Debug, Clone, Copy)]
pub struct SequentialId;

impl<Metadata> AssetProcessor<Metadata> for SequentialId {
    open spec fn assign_spec(last: Option<u32>, id: Option<u32>) -> Result<
        (u32, Option<u32>),
        Error,
    > {
        match id {
            Some(explicit_id) => if explicit_id > next_id(last) {
                Err(Error::InvalidAssetId)
            } else {
                Ok((explicit_id, last))
            },
            None => Ok((next_id(last), Some(next_id(last)))),
        }
    }

    fn process_asset(
        last_asset_id: &mut Option<u32>,
        id: Option<u32>,
        asset_metadata: Metadata,
    ) -> (processed: Result<(u32, Metadata), Error>) {
        let next: u32 = match *last_asset_id {
            None => 0,
            Some(x) => x.saturating_add(1),
        };
        match id {
            Some(explicit_id) => {
                if explicit_id > next {
                    Err(Error::InvalidAssetId)
                } else {
                    Ok((explicit_id, asset_metadata))
                }
            },
            None => {
                *last_asset_id = Some(next);
                Ok((next, asset_metadata))
            },
        }
    }
}

/// The product of `rate` and `weight`, or the largest amount when the
/// product is beyond it.
pub open spec fn saturating_product(rate: u128, weight: Weight) -> u128 {
    if rate * weight > u128::MAX {
        u128::MAX
    } else {
        (rate * weight) as u128
    }
}

/// The fee for `weight` at `rate` per second.
pub open spec fn fixed_rate_fee(rate: u128, weight: Weight) -> u128 {
    saturating_product(rate, weight) / (WEIGHT_PER_SECOND as u128)
}

/// At a fixed rate, more weight never costs less.
pub proof fn lemma_fixed_rate_fee_monotonic(rate: u128, lighter: Weight, heavier: Weight)
    requires
        lighter <= heavier,
    ensures
        fixed_rate_fee(rate, lighter) <= fixed_rate_fee(rate, heavier),
{
    assert(rate * lighter <= rate * heavier) by (nonlinear_arith)
        requires
            lighter <= heavier,
            0 <= rate,
    ;
    lemma_div_is_ordered(
        saturating_product(rate, lighter) as int,
        saturating_product(rate, heavier) as int,
        WEIGHT_PER_SECOND as int,
    );
}

/// Prices weight at the fixed rate per second that a provider knows for
/// each asset.
#[derive(Debug)]
pub struct FixedRateAssetRegistryTrader<P: FixedConversionRateProvider> {
    /// Where the rates come from.
    pub provider: P,
}

impl<P: FixedConversionRateProvider> FixedRateAssetRegistryTrader<P> {
    /// The converter that takes its rates from `provider`.
    pub fn new(provider: P) -> (converter: Self)
        ensures
            converter.provider == provider,
    {
        FixedRateAssetRegistryTrader { provider }
    }
}

impl<P: FixedConversionRateProvider> WeightToFeeConverter for FixedRateAssetRegistryTrader<P> {
    open spec fn fee_spec(&self, location: MultiLocationView, weight: Weight) -> Option<u128> {
        match self.provider.rate_spec(location) {
            Some(rate) => Some(fixed_rate_fee(rate, weight)),
            None => None,
        }
    }

    fn convert_weight_to_fee(&self, location: &MultiLocation, weight: Weight) -> (fee: Option<
        u128,
    >) {
        match self.provider.get_fee_per_second(location) {
            Some(fee_per_second) => {
                let wide: u128 = weight as u128;
                let product = match fee_per_second.checked_mul(wide) {
                    Some(product) => product,
                    None => u128::MAX,
                };
                Some(product / (WEIGHT_PER_SECOND as u128))
            },
            None => None,
        }
    }

    proof fn fee_is_monotonic(&self, location: MultiLocationView, lighter: Weight, heavier: Weight) {
        lemma_fixed_rate_fee_monotonic(self.provider.rate_spec(location)->0, lighter, heavier);
    }
}

/// What a trader has bought so far.
#[derive(Debug)]
pub struct BoughtWeight {
    weight: Weight,
    asset_location: MultiLocation,
    amount: u128,
}

impl View for BoughtWeight {
    type V = BoughtWeightView;

    closed spec fn view(&self) -> BoughtWeightView {
        BoughtWeightView {
            weight: self.weight,
            asset_location: self.asset_location@,
            amount: self.amount,
        }
    }
}

impl BoughtWeight {
    /// The weight bought.
    pub fn weight(&self) -> (weight: Weight)
        ensures
            weight == self@.weight,
    {
        self.weight
    }

    /// The asset that pays.
    pub fn asset_location(&self) -> (location: &MultiLocation)
        ensures
            location@ == self@.asset_location,
    {
        &self.asset_location
    }

    /// The fee paid and not given back.
    pub fn amount(&self) -> (amount: u128)
        ensures
            amount == self@.amount,
    {
        self.amount
    }
}

/// Buys execution weight with a single asset. It tries the assets of the
/// payment in order and takes the first that can pay. From then on it is
/// locked to that asset: later purchases for the same message try that
/// asset only, because only one asset can be handed back. The fee of each
/// purchase is the fee for all the weight bought less what was paid, so the
/// converter need not be linear.
#[derive(Debug)]
pub struct AssetRegistryTrader<W: WeightToFeeConverter> {
    converter: W,
    bought_weight: Option<BoughtWeight>,
}

impl<W: WeightToFeeConverter> View for AssetRegistryTrader<W> {
    type V = TraderState;

    closed spec fn view(&self) -> TraderState {
        match self.bought_weight {
            Some(bought) => Some(bought@),
            None => None,
        }
    }
}

impl<W: WeightToFeeConverter> AssetRegistryTrader<W> {
    #[verifier::type_invariant]
    spec fn record_is_consistent(self) -> bool {
        consistent(self.converter, self@)
    }

    /// The converter that prices the weight.
    pub closed spec fn converter(&self) -> W {
        self.converter
    }

    /// A trader that has bought nothing.
    pub fn new(converter: W) -> (trader: Self)
        ensures
            trader@ is None,
            trader.converter() == converter,
    {
        AssetRegistryTrader { converter, bought_weight: None }
    }

    /// What the trader has bought so far, if anything.
    pub fn bought_weight(&self) -> (bought: &Option<BoughtWeight>)
        ensures
            bought is Some <==> self@ is Some,
            bought is Some ==> bought->0@ == self@->0,
            consistent(self.converter(), self@),
    {
        proof {
            use_type_invariant(self);
        }
        &self.bought_weight
    }

    /// Buys `weight` with `payment` and returns what is left of the payment.
    /// Fails, and changes nothing, when no offered asset can pay.
    pub fn buy_weight(&mut self, weight: Weight, payment: Assets) -> (unused: Result<
        Assets,
        Error,
    >)
        ensures
            final(self).converter() == old(self).converter(),
            match buy_spec(old(self).converter(), old(self)@, weight, payment@) {
                BuyOutcome::Bought { unused: rest, state } => unused is Ok && unused->Ok_0@ == rest
                    && final(self)@ == state,
                BuyOutcome::TooExpensive => unused == Err::<Assets, Error>(Error::TooExpensive)
                    && final(self)@ == old(self)@,
            },
    {
        proof {
            use_type_invariant(&*self);
        }
        let n = payment.fungible_len();
        let mut i: usize = 0;
        while i < n
            invariant
                0 <= i <= n,
                n == payment@.fungible.len(),
                well_formed(payment@),
                *self == *old(self),
                consistent(self.converter, self@),
                buy_from(self.converter, self@, weight, payment@, i as int) == buy_spec(
                    self.converter,
                    self@,
                    weight,
                    payment@,
                ),
            decreases n - i,
        {
            let asset = payment.fungible_id(i);
            let candidate: Option<(MultiLocation, Weight, u128, u128)> = match asset {
                AssetId::Concrete(location) => {
                    let (locked_elsewhere, existing_weight, existing_fee) =
                        match &self.bought_weight {
                        Some(bought) => (
                            !(bought.asset_location == *location),
                            bought.weight,
                            bought.amount,
                        ),
                        None => (false, 0, 0),
                    };
                    if locked_elsewhere {
                        None
                    } else {
                        let new_weight = existing_weight.saturating_add(weight);
                        match self.converter.convert_weight_to_fee(location, new_weight) {
                            Some(amount) => Some(
                                (
                                    location.clone(),
                                    new_weight,
                                    amount,
                                    amount.saturating_sub(existing_fee),
                                ),
                            ),
                            None => None,
                        }
                    }
                },
                AssetId::Abstract(_) => None,
            };
            assert(match candidate {
                Some((location, new_weight, amount, increase)) => {
                    let offered = offer(self.converter, self@, weight, payment@.fungible[i as int].0);
                    &&& offered == Some(
                        BoughtWeightView { weight: new_weight, asset_location: location@, amount },
                    )
                    &&& increase == fee_increase(self@, offered->0)
                },
                None => offer(self.converter, self@, weight, payment@.fungible[i as int].0)
                    is None,
            });
            match candidate {
                Some((location, new_weight, amount, fee_increase)) => {
                    if fee_increase == 0 {
                        return Ok(payment);
                    }
                    let fee = MultiAsset::new(
                        AssetId::Concrete(location.clone()),
                        Fungibility::Fungible(fee_increase),
                    );
                    proof {
                        lemma_class_index_unique(payment@.fungible, i as int);
                    }
                    match payment.clone().checked_sub(fee) {
                        Ok(unused) => {
                            self.bought_weight = Some(
                                BoughtWeight { amount, weight: new_weight, asset_location: location },
                            );
                            return Ok(unused);
                        },
                        Err(_) => {},
                    }
                },
                None => {},
            }
            i += 1;
        }
        Err(Error::TooExpensive)
    }

    /// Gives `weight` back and returns the asset that is owed to the payer
    /// for it. A trader that bought nothing owes nothing. Where the
    /// converter has no fee for the weight that is left, nothing comes back
    /// either, and the record stays as it was: the weight is still counted
    /// as bought, and its fee goes to the revenue at settlement.
    pub fn refund_weight(&mut self, weight: Weight) -> (refunded: Option<MultiAsset>)
        ensures
            final(self).converter() == old(self).converter(),
            final(self)@ == refund_spec(old(self).converter(), old(self)@, weight).state,
            refunded is Some <==> refund_spec(old(self).converter(), old(self)@, weight).refunded
                is Some,
            refunded is Some ==> refunded->0@ == refund_spec(
                old(self).converter(),
                old(self)@,
                weight,
            ).refunded->0,
    {
        proof {
            use_type_invariant(&*self);
        }
        let (location, new_weight, held) = match &self.bought_weight {
            Some(bought) => (
                bought.asset_location.clone(),
                bought.weight.saturating_sub(weight),
                bought.amount,
            ),
            None => {
                return None;
            },
        };
        let new_amount = match self.converter.convert_weight_to_fee(&location, new_weight) {
            Some(new_amount) => new_amount,
            None => {
                return None;
            },
        };
        let refunded_amount = held.saturating_sub(new_amount);
        self.bought_weight = Some(
            BoughtWeight {
                weight: new_weight,
                asset_location: location.clone(),
                amount: new_amount,
            },
        );
        Some(MultiAsset::new(AssetId::Concrete(location), Fungibility::Fungible(refunded_amount)))
    }

    /// Ends the trader and returns what goes to the revenue sink: all that
    /// was paid and not given back, if the trader ever bought with an asset.
    /// The amount is zero when all of it was given back.
    pub fn settle(self) -> (revenue: Option<MultiAsset>)
        ensures
            revenue is Some <==> settle_spec(self@) is Some,
            revenue is Some ==> revenue->0@ == settle_spec(self@)->0,
    {
        match self.bought_weight {
            Some(bought) => Some(
                MultiAsset::new(
                    AssetId::Concrete(bought.asset_location),
                    Fungibility::Fungible(bought.amount),
                ),
            ),
            None => None,
        }
    }
}

} // verus!
