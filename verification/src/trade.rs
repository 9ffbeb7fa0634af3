//! The rules by which execution weight is bought with one asset, given back
//! and settled, stated over mathematical values.

use crate::asset::{AssetIdView, Fungibility, MultiAssetView};
use crate::holding::{
    balance_of, deduct_at, distinct_classes, holds_class, lemma_class_index_unique,
    lemma_deduct_keeps_distinct, well_formed, AssetsView,
};
use crate::location::MultiLocationView;
use crate::traits::{Weight, WeightToFeeConverter};
use vstd::prelude::*;

verus! {

/// What a trader has bought so far: the weight, the asset that pays for it
/// and the fee paid for it.
pub struct BoughtWeightView {
    pub weight: Weight,
    pub asset_location: MultiLocationView,
    pub amount: u128,
}

/// The state of a trader: nothing bought yet, or what was bought with the
/// one asset that the trader is locked to.
pub type TraderState = Option<BoughtWeightView>;

/// The weight bought so far.
pub open spec fn bought_weight(state: TraderState) -> Weight {
    match state {
        Some(bought) => bought.weight,
        None => 0,
    }
}

/// The fee paid so far and not given back.
pub open spec fn paid_amount(state: TraderState) -> u128 {
    match state {
        Some(bought) => bought.amount,
        None => 0,
    }
}

/// The fee on record is the fee that the converter asks for the weight on
/// record.
pub open spec fn consistent<W: WeightToFeeConverter>(converter: W, state: TraderState) -> bool {
    match state {
        Some(bought) => converter.fee_spec(bought.asset_location, bought.weight) == Some(
            bought.amount,
        ),
        None => true,
    }
}

/// What buying `weight` more with the asset class `id` would come to: the
/// record after the purchase. `None` when the class is no location, is not
/// the one that the trader is locked to, or is not priced.
pub open spec fn offer<W: WeightToFeeConverter>(
    converter: W,
    state: TraderState,
    weight: Weight,
    id: AssetIdView,
) -> Option<BoughtWeightView> {
    match id {
        AssetIdView::Concrete(location) => if state is Some && state->0.asset_location
            != location {
            None
        } else {
            let new_weight = bought_weight(state).saturating_add(weight);
            match converter.fee_spec(location, new_weight) {
                Some(amount) => Some(
                    BoughtWeightView { weight: new_weight, asset_location: location, amount },
                ),
                None => None,
            }
        },
        AssetIdView::Abstract(_) => None,
    }
}

/// By how much the fee of `offered` exceeds what was paid; zero when it
/// does not.
pub open spec fn fee_increase(state: TraderState, offered: BoughtWeightView) -> u128 {
    offered.amount.saturating_sub(paid_amount(state))
}

/// How a purchase ends.
pub enum BuyOutcome {
    /// The purchase went through: what is left of the payment, and the
    /// trader's state afterwards.
    Bought { unused: AssetsView, state: TraderState },
    /// No offered asset could pay.
    TooExpensive,
}

/// The purchase of `weight` with the entries of `payment` from index `i`
/// on, tried in order. An entry is passed over when it makes no offer or
/// holds less than the increase of the fee. The first other entry decides:
/// where the fee does not increase, the payment comes back whole and the
/// state stays; else the increase leaves the entry and the offer becomes the
/// record.
pub open spec fn buy_from<W: WeightToFeeConverter>(
    converter: W,
    state: TraderState,
    weight: Weight,
    payment: AssetsView,
    i: int,
) -> BuyOutcome
    decreases payment.fungible.len() - i,
{
    if i < 0 || i >= payment.fungible.len() {
        BuyOutcome::TooExpensive
    } else {
        match offer(converter, state, weight, payment.fungible[i].0) {
            Some(offered) => {
                let increase = fee_increase(state, offered);
                if increase == 0 {
                    BuyOutcome::Bought { unused: payment, state }
                } else if payment.fungible[i].1 >= increase {
                    BuyOutcome::Bought {
                        unused: AssetsView {
                            fungible: deduct_at(payment.fungible, i, increase),
                            non_fungible: payment.non_fungible,
                        },
                        state: Some(offered),
                    }
                } else {
                    buy_from(converter, state, weight, payment, i + 1)
                }
            },
            None => buy_from(converter, state, weight, payment, i + 1),
        }
    }
}

/// The purchase of `weight` with `payment`.
pub open spec fn buy_spec<W: WeightToFeeConverter>(
    converter: W,
    state: TraderState,
    weight: Weight,
    payment: AssetsView,
) -> BuyOutcome {
    buy_from(converter, state, weight, payment, 0)
}

/// `amount` of the fungible asset at `location`.
pub open spec fn fungible_at(location: MultiLocationView, amount: u128) -> MultiAssetView {
    MultiAssetView { id: AssetIdView::Concrete(location), fun: Fungibility::Fungible(amount) }
}

/// The amount of an asset that is handed over; zero when none is.
pub open spec fn amount_of(asset: Option<MultiAssetView>) -> int {
    match asset {
        Some(asset) => match asset.fun {
            Fungibility::Fungible(amount) => amount as int,
            Fungibility::NonFungible(_) => 0,
        },
        None => 0,
    }
}

/// How giving weight back ends: the asset handed back, if any, and the
/// trader's state afterwards.
pub struct RefundOutcome {
    pub refunded: Option<MultiAssetView>,
    pub state: TraderState,
}

/// What giving back `weight` comes to. A trader that bought nothing hands
/// nothing back. Where the converter has no fee for the weight that is
/// left, nothing is handed back and the record stays as it was.
pub open spec fn refund_spec<W: WeightToFeeConverter>(
    converter: W,
    state: TraderState,
    weight: Weight,
) -> RefundOutcome {
    match state {
        Some(bought) => {
            let new_weight = bought.weight.saturating_sub(weight);
            match converter.fee_spec(bought.asset_location, new_weight) {
                Some(new_amount) => RefundOutcome {
                    refunded: Some(
                        fungible_at(
                            bought.asset_location,
                            bought.amount.saturating_sub(new_amount),
                        ),
                    ),
                    state: Some(
                        BoughtWeightView {
                            weight: new_weight,
                            asset_location: bought.asset_location,
                            amount: new_amount,
                        },
                    ),
                },
                None => RefundOutcome { refunded: None, state },
            }
        },
        None => RefundOutcome { refunded: None, state },
    }
}

/// What goes to the revenue sink when the trader is done: all that was paid
/// and not given back, in the asset that the trader is locked to.
pub open spec fn settle_spec(state: TraderState) -> Option<MultiAssetView> {
    match state {
        Some(bought) => Some(fungible_at(bought.asset_location, bought.amount)),
        None => None,
    }
}

/// The sum of the amounts of the entries.
pub open spec fn total(fungible: Seq<(AssetIdView, u128)>) -> int
    decreases fungible.len(),
{
    if fungible.len() == 0 {
        0
    } else {
        total(fungible.drop_last()) + fungible.last().1
    }
}

/// Taking `amount` out of an entry lowers the sum by `amount`.
pub proof fn lemma_total_deduct(fungible: Seq<(AssetIdView, u128)>, i: int, amount: u128)
    requires
        0 <= i < fungible.len(),
        amount <= fungible[i].1,
    ensures
        total(deduct_at(fungible, i, amount)) == total(fungible) - amount,
    decreases fungible.len(),
{
    let after = deduct_at(fungible, i, amount);
    let n = fungible.len() as int;
    if i == n - 1 {
        if fungible[i].1 == amount {
            assert(after =~= fungible.drop_last());
        } else {
            assert(after.drop_last() =~= fungible.drop_last());
        }
    } else {
        let shorter = fungible.drop_last();
        lemma_total_deduct(shorter, i, amount);
        if fungible[i].1 == amount {
            assert(after.drop_last() =~= deduct_at(shorter, i, amount));
            assert(after.last() == fungible.last());
        } else {
            assert(after.drop_last() =~= deduct_at(shorter, i, amount));
            assert(after.last() == fungible.last());
        }
    }
}

/// What a purchase took out of the payment.
pub open spec fn spent(payment: AssetsView, outcome: BuyOutcome) -> int {
    match outcome {
        BuyOutcome::Bought { unused, state } => total(payment.fungible) - total(unused.fungible),
        BuyOutcome::TooExpensive => 0,
    }
}

/// The state after a purchase.
pub open spec fn state_after_buy(state: TraderState, outcome: BuyOutcome) -> TraderState {
    match outcome {
        BuyOutcome::Bought { unused, state: after } => after,
        BuyOutcome::TooExpensive => state,
    }
}

/// A purchase with the entries from index `i` on keeps the record
/// consistent and the holding well formed, keeps a locked trader locked to
/// its asset, and raises the fee on record by exactly what it took out of
/// the payment.
pub proof fn lemma_buy_from_conserves<W: WeightToFeeConverter>(
    converter: W,
    state: TraderState,
    weight: Weight,
    payment: AssetsView,
    i: int,
)
    requires
        consistent(converter, state),
        well_formed(payment),
        0 <= i,
    ensures
        ({
            let outcome = buy_from(converter, state, weight, payment, i);
            let after = state_after_buy(state, outcome);
            &&& consistent(converter, after)
            &&& paid_amount(after) == paid_amount(state) + spent(payment, outcome)
            &&& spent(payment, outcome) >= 0
            &&& state is Some ==> after is Some && after->0.asset_location
                == state->0.asset_location
            &&& outcome is Bought ==> well_formed(outcome->unused)
        }),
    decreases payment.fungible.len() - i,
{
    if i < payment.fungible.len() {
        match offer(converter, state, weight, payment.fungible[i].0) {
            Some(offered) => {
                let increase = fee_increase(state, offered);
                if increase == 0 {
                } else if payment.fungible[i].1 >= increase {
                    lemma_total_deduct(payment.fungible, i, increase);
                    lemma_deduct_keeps_distinct(payment.fungible, i, increase);
                } else {
                    lemma_buy_from_conserves(converter, state, weight, payment, i + 1);
                }
            },
            None => {
                lemma_buy_from_conserves(converter, state, weight, payment, i + 1);
            },
        }
    }
}

/// A locked trader passes over every entry from index `i` on when the
/// payment holds no entry of its asset.
pub proof fn lemma_locked_passes_over_others_from<W: WeightToFeeConverter>(
    converter: W,
    state: TraderState,
    weight: Weight,
    payment: AssetsView,
    i: int,
)
    requires
        state is Some,
        !holds_class(payment.fungible, AssetIdView::Concrete(state->0.asset_location)),
        0 <= i,
    ensures
        buy_from(converter, state, weight, payment, i) is TooExpensive,
    decreases payment.fungible.len() - i,
{
    if i < payment.fungible.len() {
        assert(payment.fungible[i].0 != AssetIdView::Concrete(state->0.asset_location));
        lemma_locked_passes_over_others_from(converter, state, weight, payment, i + 1);
    }
}

/// A locked trader passes over every entry from index `i` on when the
/// entry of its asset holds less than the increase of the fee.
pub proof fn lemma_locked_fails_when_short_from<W: WeightToFeeConverter>(
    converter: W,
    state: TraderState,
    weight: Weight,
    payment: AssetsView,
    i: int,
)
    requires
        state is Some,
        distinct_classes(payment.fungible),
        0 <= i,
        forall|k: int|
            0 <= k < payment.fungible.len() && payment.fungible[k].0 == AssetIdView::Concrete(
                state->0.asset_location,
            ) ==> {
                let offered = offer(converter, state, weight, payment.fungible[k].0);
                offered is Some ==> 0 < fee_increase(state, offered->0)
                    && payment.fungible[k].1 < fee_increase(state, offered->0)
            },
    ensures
        buy_from(converter, state, weight, payment, i) is TooExpensive,
    decreases payment.fungible.len() - i,
{
    if i < payment.fungible.len() {
        lemma_locked_fails_when_short_from(converter, state, weight, payment, i + 1);
    }
}

/// A purchase keeps the record consistent and the holding well formed,
/// keeps a locked trader locked to its asset, and raises the fee on record
/// by exactly what it took out of the payment.
pub proof fn lemma_buy_conserves<W: WeightToFeeConverter>(
    converter: W,
    state: TraderState,
    weight: Weight,
    payment: AssetsView,
)
    requires
        consistent(converter, state),
        well_formed(payment),
    ensures
        ({
            let outcome = buy_spec(converter, state, weight, payment);
            let after = state_after_buy(state, outcome);
            &&& consistent(converter, after)
            &&& paid_amount(after) == paid_amount(state) + spent(payment, outcome)
            &&& spent(payment, outcome) >= 0
            &&& state is Some ==> after is Some && after->0.asset_location
                == state->0.asset_location
            &&& outcome is Bought ==> well_formed(outcome->unused)
        }),
{
    lemma_buy_from_conserves(converter, state, weight, payment, 0);
}

/// A trader that is locked to an asset buys with that asset only: when the
/// payment holds no entry of it, whatever else it holds, the purchase
/// fails as too expensive and the trader's state stays as it is.
pub proof fn lemma_locked_buys_with_its_asset_only<W: WeightToFeeConverter>(
    converter: W,
    state: TraderState,
    weight: Weight,
    payment: AssetsView,
)
    requires
        state is Some,
        !holds_class(payment.fungible, AssetIdView::Concrete(state->0.asset_location)),
    ensures
        buy_spec(converter, state, weight, payment) is TooExpensive,
        state_after_buy(state, buy_spec(converter, state, weight, payment)) == state,
{
    lemma_locked_passes_over_others_from(converter, state, weight, payment, 0);
}

/// A trader that is locked to an asset fails as too expensive when the
/// payment holds less of that asset than the fee increases by, whatever
/// else the payment offers: no other asset takes its place.
pub proof fn lemma_locked_fails_when_short<W: WeightToFeeConverter>(
    converter: W,
    state: TraderState,
    weight: Weight,
    payment: AssetsView,
)
    requires
        state is Some,
        well_formed(payment),
        offer(
            converter,
            state,
            weight,
            AssetIdView::Concrete(state->0.asset_location),
        ) is Some ==> balance_of(payment.fungible, AssetIdView::Concrete(state->0.asset_location))
            < fee_increase(
            state,
            offer(converter, state, weight, AssetIdView::Concrete(state->0.asset_location))->0,
        ),
    ensures
        buy_spec(converter, state, weight, payment) is TooExpensive,
        state_after_buy(state, buy_spec(converter, state, weight, payment)) == state,
{
    let locked = AssetIdView::Concrete(state->0.asset_location);
    assert forall|k: int|
        0 <= k < payment.fungible.len() && payment.fungible[k].0 == locked implies {
        let offered = offer(converter, state, weight, payment.fungible[k].0);
        offered is Some ==> 0 < fee_increase(state, offered->0) && payment.fungible[k].1
            < fee_increase(state, offered->0)
    } by {
        lemma_class_index_unique(payment.fungible, k);
    }
    lemma_locked_fails_when_short_from(converter, state, weight, payment, 0);
}

/// Giving weight back keeps the record consistent, keeps the lock, and
/// lowers the fee on record by exactly what is handed back, which is of the
/// asset that the trader is locked to.
pub proof fn lemma_refund_conserves<W: WeightToFeeConverter>(
    converter: W,
    state: TraderState,
    weight: Weight,
)
    requires
        consistent(converter, state),
    ensures
        ({
            let outcome = refund_spec(converter, state, weight);
            &&& consistent(converter, outcome.state)
            &&& paid_amount(outcome.state) == paid_amount(state) - amount_of(outcome.refunded)
            &&& outcome.refunded is Some ==> state is Some && outcome.refunded->0.id
                == AssetIdView::Concrete(state->0.asset_location)
            &&& state is Some ==> outcome.state is Some && outcome.state->0.asset_location
                == state->0.asset_location
            &&& state is None ==> outcome.state is None
        }),
{
    match state {
        Some(bought) => {
            let new_weight = bought.weight.saturating_sub(weight);
            match converter.fee_spec(bought.asset_location, new_weight) {
                Some(new_amount) => {
                    converter.fee_is_monotonic(bought.asset_location, new_weight, bought.weight);
                },
                None => {},
            }
        },
        None => {},
    }
}

/// One call on a trader.
pub enum TraderCall {
    /// Buy `weight` with `payment`.
    Buy { weight: Weight, payment: AssetsView },
    /// Give `weight` back.
    Refund { weight: Weight },
}

/// Whether the payment of the call, if it is a purchase, is well formed.
pub open spec fn call_well_formed(call: TraderCall) -> bool {
    match call {
        TraderCall::Buy { weight, payment } => well_formed(payment),
        TraderCall::Refund { weight } => true,
    }
}

/// Whether the payments of all purchases among the calls are well formed.
pub open spec fn payments_well_formed(calls: Seq<TraderCall>) -> bool {
    forall|k: int| 0 <= k < calls.len() ==> call_well_formed(#[trigger] calls[k])
}

/// The state of a trader after one call.
pub open spec fn step<W: WeightToFeeConverter>(
    converter: W,
    state: TraderState,
    call: TraderCall,
) -> TraderState {
    match call {
        TraderCall::Buy { weight, payment } => state_after_buy(
            state,
            buy_spec(converter, state, weight, payment),
        ),
        TraderCall::Refund { weight } => refund_spec(converter, state, weight).state,
    }
}

/// What one call took from the payer, less what it handed back.
pub open spec fn net_paid<W: WeightToFeeConverter>(
    converter: W,
    state: TraderState,
    call: TraderCall,
) -> int {
    match call {
        TraderCall::Buy { weight, payment } => spent(
            payment,
            buy_spec(converter, state, weight, payment),
        ),
        TraderCall::Refund { weight } => -amount_of(
            refund_spec(converter, state, weight).refunded,
        ),
    }
}

/// The state of a new trader after the calls, made in order.
pub open spec fn run<W: WeightToFeeConverter>(converter: W, calls: Seq<TraderCall>) -> TraderState
    decreases calls.len(),
{
    if calls.len() == 0 {
        None
    } else {
        step(converter, run(converter, calls.drop_last()), calls.last())
    }
}

/// What the calls, made in order on a new trader, took from the payer in
/// all, less what they handed back.
pub open spec fn net_paid_in_all<W: WeightToFeeConverter>(
    converter: W,
    calls: Seq<TraderCall>,
) -> int
    decreases calls.len(),
{
    if calls.len() == 0 {
        0
    } else {
        net_paid_in_all(converter, calls.drop_last()) + net_paid(
            converter,
            run(converter, calls.drop_last()),
            calls.last(),
        )
    }
}

/// What goes to the revenue sink at settlement.
pub open spec fn revenue(state: TraderState) -> int {
    amount_of(settle_spec(state))
}

/// Whatever calls are made on a new trader, what goes to the revenue sink at
/// settlement is what the payer paid in all, less what was handed back.
pub proof fn lemma_trader_conservation<W: WeightToFeeConverter>(
    converter: W,
    calls: Seq<TraderCall>,
)
    requires
        payments_well_formed(calls),
    ensures
        consistent(converter, run(converter, calls)),
        revenue(run(converter, calls)) == net_paid_in_all(converter, calls),
    decreases calls.len(),
{
    if calls.len() > 0 {
        let before = calls.drop_last();
        assert(payments_well_formed(before)) by {
            assert forall|k: int| 0 <= k < before.len() implies call_well_formed(
                #[trigger] before[k],
            ) by {
                assert(before[k] == calls[k]);
            }
        }
        lemma_trader_conservation(converter, before);
        let state = run(converter, before);
        match calls.last() {
            TraderCall::Buy { weight, payment } => {
                assert(call_well_formed(calls[calls.len() - 1]));
                lemma_buy_conserves(converter, state, weight, payment);
            },
            TraderCall::Refund { weight } => {
                lemma_refund_conserves(converter, state, weight);
            },
        }
    }
}

/// Once a trader is locked to an asset, every later call leaves it locked
/// to that asset.
pub proof fn lemma_lock_is_kept<W: WeightToFeeConverter>(
    converter: W,
    state: TraderState,
    call: TraderCall,
)
    requires
        state is Some,
        consistent(converter, state),
        call_well_formed(call),
    ensures
        step(converter, state, call) is Some,
        step(converter, state, call)->0.asset_location == state->0.asset_location,
{
    match call {
        TraderCall::Buy { weight, payment } => {
            lemma_buy_conserves(converter, state, weight, payment);
        },
        TraderCall::Refund { weight } => {
            lemma_refund_conserves(converter, state, weight);
        },
    }
}

} // verus!
