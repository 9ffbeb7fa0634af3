//! A holding of assets, such as the payment offered for execution.

use crate::asset::{AssetId, AssetIdView, AssetInstance, Fungibility, MultiAsset, MultiAssetView};
use vstd::prelude::*;
use vstd::std_specs::cmp::PartialEqSpecImpl;

verus! {

/// The mathematical value of a holding: its fungible classes with their
/// amounts and its non-fungible instances, each in the order in which the
/// holding keeps them.
pub struct AssetsView {
    pub fungible: Seq<(AssetIdView, u128)>,
    pub non_fungible: Seq<(AssetIdView, AssetInstance)>,
}

/// The values of a list of fungible entries.
pub open spec fn fungible_views(items: Seq<(AssetId, u128)>) -> Seq<(AssetIdView, u128)> {
    items.map_values(|e: (AssetId, u128)| (e.0@, e.1))
}

/// The values of a list of non-fungible entries.
pub open spec fn instance_views(items: Seq<(AssetId, AssetInstance)>) -> Seq<
    (AssetIdView, AssetInstance),
> {
    items.map_values(|e: (AssetId, AssetInstance)| (e.0@, e.1))
}

/// No class occurs twice among the fungible entries.
pub open spec fn distinct_classes(fungible: Seq<(AssetIdView, u128)>) -> bool {
    forall|i: int, j: int| 0 <= i < j < fungible.len() ==> fungible[i].0 != fungible[j].0
}

/// No instance occurs twice among the non-fungible entries.
pub open spec fn distinct_instances(items: Seq<(AssetIdView, AssetInstance)>) -> bool {
    forall|i: int, j: int| 0 <= i < j < items.len() ==> items[i] != items[j]
}

/// A holding as an executable value keeps it: nothing occurs twice.
pub open spec fn well_formed(assets: AssetsView) -> bool {
    distinct_classes(assets.fungible) && distinct_instances(assets.non_fungible)
}

/// Whether the entries hold the class `id`.
pub open spec fn holds_class(fungible: Seq<(AssetIdView, u128)>, id: AssetIdView) -> bool {
    exists|i: int| 0 <= i < fungible.len() && fungible[i].0 == id
}

/// An index at which the entries hold the class `id`.
pub open spec fn class_index(fungible: Seq<(AssetIdView, u128)>, id: AssetIdView) -> int {
    choose|i: int| 0 <= i < fungible.len() && fungible[i].0 == id
}

/// The amount held of the class `id`; zero when the class is not held.
pub open spec fn balance_of(fungible: Seq<(AssetIdView, u128)>, id: AssetIdView) -> u128 {
    if holds_class(fungible, id) {
        fungible[class_index(fungible, id)].1
    } else {
        0
    }
}

/// The entries after `amount` has left the entry at index `i`, which holds
/// at least that much. An entry that is left with nothing is removed.
pub open spec fn deduct_at(fungible: Seq<(AssetIdView, u128)>, i: int, amount: u128) -> Seq<
    (AssetIdView, u128),
> {
    if fungible[i].1 == amount {
        fungible.remove(i)
    } else {
        fungible.update(i, (fungible[i].0, (fungible[i].1 - amount) as u128))
    }
}

/// The entries after `amount` of the class `id` has come in: added to the
/// entry of that class, never beyond the largest amount, or put at the end
/// as a new entry.
pub open spec fn credit(fungible: Seq<(AssetIdView, u128)>, id: AssetIdView, amount: u128) -> Seq<
    (AssetIdView, u128),
> {
    if holds_class(fungible, id) {
        let i = class_index(fungible, id);
        let sum = fungible[i].1 + amount;
        fungible.update(i, (id, if sum > u128::MAX { u128::MAX } else { sum as u128 }))
    } else {
        fungible.push((id, amount))
    }
}

/// Whether the entries hold the instance `item`.
pub open spec fn holds_instance(
    items: Seq<(AssetIdView, AssetInstance)>,
    item: (AssetIdView, AssetInstance),
) -> bool {
    exists|i: int| 0 <= i < items.len() && items[i] == item
}

/// An index at which the entries hold the instance `item`.
pub open spec fn instance_index(
    items: Seq<(AssetIdView, AssetInstance)>,
    item: (AssetIdView, AssetInstance),
) -> int {
    choose|i: int| 0 <= i < items.len() && items[i] == item
}

/// The holding after `asset` has come in.
pub open spec fn subsume_spec(assets: AssetsView, asset: MultiAssetView) -> AssetsView {
    match asset.fun {
        Fungibility::Fungible(amount) => AssetsView {
            fungible: credit(assets.fungible, asset.id, amount),
            non_fungible: assets.non_fungible,
        },
        Fungibility::NonFungible(instance) => if holds_instance(
            assets.non_fungible,
            (asset.id, instance),
        ) {
            assets
        } else {
            AssetsView {
                fungible: assets.fungible,
                non_fungible: assets.non_fungible.push((asset.id, instance)),
            }
        },
    }
}

/// The holding after `asset` has left it; `None` when the holding does not
/// hold that much of the class, or not that instance.
pub open spec fn checked_sub_spec(assets: AssetsView, asset: MultiAssetView) -> Option<
    AssetsView,
> {
    match asset.fun {
        Fungibility::Fungible(amount) => if holds_class(assets.fungible, asset.id) && balance_of(
            assets.fungible,
            asset.id,
        ) >= amount {
            Some(
                AssetsView {
                    fungible: deduct_at(
                        assets.fungible,
                        class_index(assets.fungible, asset.id),
                        amount,
                    ),
                    non_fungible: assets.non_fungible,
                },
            )
        } else {
            None
        },
        Fungibility::NonFungible(instance) => if holds_instance(
            assets.non_fungible,
            (asset.id, instance),
        ) {
            Some(
                AssetsView {
                    fungible: assets.fungible,
                    non_fungible: assets.non_fungible.remove(
                        instance_index(assets.non_fungible, (asset.id, instance)),
                    ),
                },
            )
        } else {
            None
        },
    }
}

/// Among distinct classes, a class is held at one index only.
pub proof fn lemma_class_index_unique(fungible: Seq<(AssetIdView, u128)>, i: int)
    requires
        distinct_classes(fungible),
        0 <= i < fungible.len(),
    ensures
        holds_class(fungible, fungible[i].0),
        class_index(fungible, fungible[i].0) == i,
        balance_of(fungible, fungible[i].0) == fungible[i].1,
{
    let id = fungible[i].0;
    assert(holds_class(fungible, id));
    let k = class_index(fungible, id);
    if k < i {
        assert(fungible[k].0 != fungible[i].0);
    } else if i < k {
        assert(fungible[i].0 != fungible[k].0);
    }
}

/// Among distinct instances, an instance is held at one index only.
pub proof fn lemma_instance_index_unique(items: Seq<(AssetIdView, AssetInstance)>, i: int)
    requires
        distinct_instances(items),
        0 <= i < items.len(),
    ensures
        holds_instance(items, items[i]),
        instance_index(items, items[i]) == i,
{
    let item = items[i];
    assert(holds_instance(items, item));
    let k = instance_index(items, item);
    if k < i {
        assert(items[k] != items[i]);
    } else if i < k {
        assert(items[i] != items[k]);
    }
}

/// Taking an amount out of an entry keeps the classes distinct.
pub proof fn lemma_deduct_keeps_distinct(fungible: Seq<(AssetIdView, u128)>, i: int, amount: u128)
    requires
        distinct_classes(fungible),
        0 <= i < fungible.len(),
        amount <= fungible[i].1,
    ensures
        distinct_classes(deduct_at(fungible, i, amount)),
{
    let after = deduct_at(fungible, i, amount);
    if fungible[i].1 == amount {
        assert forall|a: int, b: int| 0 <= a < b < after.len() implies after[a].0 != after[b].0 by {
            let a0 = if a < i { a } else { a + 1 };
            let b0 = if b < i { b } else { b + 1 };
            assert(after[a] == fungible[a0]);
            assert(after[b] == fungible[b0]);
        }
    } else {
        assert forall|a: int, b: int| 0 <= a < b < after.len() implies after[a].0 != after[b].0 by {
            assert(after[a].0 == fungible[a].0);
            assert(after[b].0 == fungible[b].0);
        }
    }
}

/// A holding of assets: fungible classes with their amounts, and
/// non-fungible instances. No class and no instance is held twice.
#[derive(Debug)]
pub struct Assets {
    fungible: Vec<(AssetId, u128)>,
    non_fungible: Vec<(AssetId, AssetInstance)>,
}

impl View for Assets {
    type V = AssetsView;

    closed spec fn view(&self) -> AssetsView {
        AssetsView {
            fungible: fungible_views(self.fungible@),
            non_fungible: instance_views(self.non_fungible@),
        }
    }
}

/// Finds the index of the entry of the class `id`.
fn find_class(items: &Vec<(AssetId, u128)>, id: &AssetId) -> (found: Option<usize>)
    ensures
        match found {
            Some(i) => i < items@.len() && items@[i as int].0@ == id@,
            None => !holds_class(fungible_views(items@), id@),
        },
{
    let mut i: usize = 0;
    while i < items.len()
        invariant
            0 <= i <= items@.len(),
            forall|k: int| 0 <= k < i ==> items@[k].0@ != id@,
        decreases items@.len() - i,
    {
        if items[i].0 == *id {
            return Some(i);
        }
        i += 1;
    }
    assert forall|k: int| 0 <= k < fungible_views(items@).len() implies fungible_views(
        items@,
    )[k].0 != id@ by {
        assert(fungible_views(items@)[k].0 == items@[k].0@);
    }
    None
}

/// Finds the index of the entry of the instance `instance` of class `id`.
fn find_instance(items: &Vec<(AssetId, AssetInstance)>, id: &AssetId, instance: AssetInstance) -> (found:
    Option<usize>)
    ensures
        match found {
            Some(i) => i < items@.len() && items@[i as int].0@ == id@ && items@[i as int].1
                == instance,
            None => !holds_instance(instance_views(items@), (id@, instance)),
        },
{
    let mut i: usize = 0;
    while i < items.len()
        invariant
            0 <= i <= items@.len(),
            forall|k: int| 0 <= k < i ==> !(items@[k].0@ == id@ && items@[k].1 == instance),
        decreases items@.len() - i,
    {
        if items[i].0 == *id && items[i].1 == instance {
            return Some(i);
        }
        i += 1;
    }
    assert forall|k: int| 0 <= k < instance_views(items@).len() implies instance_views(
        items@,
    )[k] != (id@, instance) by {
        assert(instance_views(items@)[k] == (items@[k].0@, items@[k].1));
    }
    None
}

impl Assets {
    #[verifier::type_invariant]
    spec fn distinct(self) -> bool {
        well_formed(self@)
    }

    /// The empty holding.
    pub fn new() -> (assets: Self)
        ensures
            assets@.fungible == Seq::<(AssetIdView, u128)>::empty(),
            assets@.non_fungible == Seq::<(AssetIdView, AssetInstance)>::empty(),
    {
        let assets = Assets { fungible: Vec::new(), non_fungible: Vec::new() };
        assert(assets@.fungible =~= Seq::<(AssetIdView, u128)>::empty());
        assert(assets@.non_fungible =~= Seq::<(AssetIdView, AssetInstance)>::empty());
        assets
    }

    /// Whether the holding holds nothing.
    pub fn is_empty(&self) -> (empty: bool)
        ensures
            empty == (self@.fungible.len() == 0 && self@.non_fungible.len() == 0),
    {
        self.fungible.len() == 0 && self.non_fungible.len() == 0
    }

    /// The number of fungible classes held.
    pub fn fungible_len(&self) -> (n: usize)
        ensures
            n == self@.fungible.len(),
            well_formed(self@),
    {
        proof {
            use_type_invariant(self);
        }
        self.fungible.len()
    }

    /// The class of the fungible entry at index `i`.
    pub fn fungible_id(&self, i: usize) -> (id: &AssetId)
        requires
            i < self@.fungible.len(),
        ensures
            id@ == self@.fungible[i as int].0,
    {
        &self.fungible[i].0
    }

    /// The amount of the fungible entry at index `i`.
    pub fn fungible_amount(&self, i: usize) -> (amount: u128)
        requires
            i < self@.fungible.len(),
        ensures
            amount == self@.fungible[i as int].1,
    {
        self.fungible[i].1
    }

    /// The amount held of the class `id`; zero when the class is not held.
    pub fn balance(&self, id: &AssetId) -> (amount: u128)
        ensures
            amount == balance_of(self@.fungible, id@),
    {
        proof {
            use_type_invariant(self);
        }
        match find_class(&self.fungible, id) {
            Some(i) => {
                proof {
                    lemma_class_index_unique(self@.fungible, i as int);
                }
                self.fungible[i].1
            },
            None => 0,
        }
    }

    /// Takes `asset` into the holding.
    pub fn subsume(&mut self, asset: MultiAsset)
        ensures
            final(self)@ == subsume_spec(old(self)@, asset@),
    {
        proof {
            use_type_invariant(&*self);
        }
        let mut taken = Assets::new();
        core::mem::swap(self, &mut taken);
        let Assets { fungible, non_fungible } = taken;
        let mut fungible = fungible;
        let mut non_fungible = non_fungible;
        let MultiAsset { id, fun } = asset;
        match fun {
            Fungibility::Fungible(amount) => {
                match find_class(&fungible, &id) {
                    Some(i) => {
                        proof {
                            lemma_class_index_unique(fungible_views(fungible@), i as int);
                        }
                        let ghost before = fungible@;
                        let (_, held) = fungible.remove(i);
                        let sum = match held.checked_add(amount) {
                            Some(sum) => sum,
                            None => u128::MAX,
                        };
                        fungible.insert(i, (id, sum));
                        assert(fungible_views(fungible@) =~= credit(
                            fungible_views(before),
                            id@,
                            amount,
                        ));
                        assert(distinct_classes(fungible_views(fungible@))) by {
                            assert forall|a: int, b: int|
                                0 <= a < b < fungible@.len() implies fungible_views(
                                fungible@,
                            )[a].0 != fungible_views(fungible@)[b].0 by {
                                assert(fungible_views(fungible@)[a].0 == fungible_views(
                                    before,
                                )[a].0);
                                assert(fungible_views(fungible@)[b].0 == fungible_views(
                                    before,
                                )[b].0);
                            }
                        }
                    },
                    None => {
                        let ghost before = fungible@;
                        fungible.push((id, amount));
                        assert(fungible_views(fungible@) =~= fungible_views(before).push(
                            (id@, amount),
                        ));
                        assert(distinct_classes(fungible_views(fungible@))) by {
                            assert forall|a: int, b: int|
                                0 <= a < b < fungible@.len() implies fungible_views(
                                fungible@,
                            )[a].0 != fungible_views(fungible@)[b].0 by {
                                assert(fungible_views(fungible@)[a] == fungible_views(before)[a]);
                                if b < before.len() {
                                    assert(fungible_views(fungible@)[b] == fungible_views(
                                        before,
                                    )[b]);
                                }
                            }
                        }
                    },
                }
            },
            Fungibility::NonFungible(instance) => {
                match find_instance(&non_fungible, &id, instance) {
                    Some(i) => {
                        assert(instance_views(non_fungible@)[i as int] == (id@, instance));
                    },
                    None => {
                        let ghost before = non_fungible@;
                        non_fungible.push((id, instance));
                        assert(instance_views(non_fungible@) =~= instance_views(before).push(
                            (id@, instance),
                        ));
                        assert(distinct_instances(instance_views(non_fungible@))) by {
                            assert forall|a: int, b: int|
                                0 <= a < b < non_fungible@.len() implies instance_views(
                                non_fungible@,
                            )[a] != instance_views(non_fungible@)[b] by {
                                assert(instance_views(non_fungible@)[a] == instance_views(
                                    before,
                                )[a]);
                                if b < before.len() {
                                    assert(instance_views(non_fungible@)[b] == instance_views(
                                        before,
                                    )[b]);
                                }
                            }
                        }
                    },
                }
            },
        }
        *self = Assets { fungible, non_fungible };
    }

    /// Takes `asset` out of the holding. When the holding does not hold it,
    /// the holding comes back unchanged as the error.
    pub fn checked_sub(self, asset: MultiAsset) -> (left: Result<Assets, Assets>)
        ensures
            match checked_sub_spec(self@, asset@) {
                Some(rest) => left is Ok && left->Ok_0@ == rest,
                None => left is Err && left->Err_0@ == self@,
            },
    {
        proof {
            use_type_invariant(&self);
        }
        let Assets { fungible, non_fungible } = self;
        let mut fungible = fungible;
        let mut non_fungible = non_fungible;
        match asset.fun {
            Fungibility::Fungible(amount) => {
                match find_class(&fungible, &asset.id) {
                    Some(i) => {
                        proof {
                            lemma_class_index_unique(fungible_views(fungible@), i as int);
                            lemma_deduct_keeps_distinct(
                                fungible_views(fungible@),
                                i as int,
                                if amount <= fungible@[i as int].1 {
                                    amount
                                } else {
                                    0
                                },
                            );
                        }
                        if fungible[i].1 < amount {
                            return Err(Assets { fungible, non_fungible });
                        }
                        let ghost before = fungible@;
                        let (id, held) = fungible.remove(i);
                        if held > amount {
                            fungible.insert(i, (id, held - amount));
                        }
                        assert(fungible_views(fungible@) =~= deduct_at(
                            fungible_views(before),
                            i as int,
                            amount,
                        ));
                        Ok(Assets { fungible, non_fungible })
                    },
                    None => Err(Assets { fungible, non_fungible }),
                }
            },
            Fungibility::NonFungible(instance) => {
                match find_instance(&non_fungible, &asset.id, instance) {
                    Some(i) => {
                        proof {
                            lemma_instance_index_unique(instance_views(non_fungible@), i as int);
                        }
                        let ghost before = non_fungible@;
                        let removed = non_fungible.remove(i);
                        assert(instance_views(non_fungible@) =~= instance_views(before).remove(
                            i as int,
                        ));
                        assert(distinct_instances(instance_views(non_fungible@))) by {
                            assert forall|a: int, b: int|
                                0 <= a < b < non_fungible@.len() implies instance_views(
                                non_fungible@,
                            )[a] != instance_views(non_fungible@)[b] by {
                                let a0 = if a < i { a } else { a + 1 };
                                let b0 = if b < i { b } else { b + 1 };
                                assert(instance_views(non_fungible@)[a] == instance_views(
                                    before,
                                )[a0]);
                                assert(instance_views(non_fungible@)[b] == instance_views(
                                    before,
                                )[b0]);
                            }
                        }
                        Ok(Assets { fungible, non_fungible })
                    },
                    None => Err(Assets { fungible, non_fungible }),
                }
            },
        }
    }
}

impl Clone for Assets {
    fn clone(&self) -> (copy: Self)
        ensures
            copy@ == self@,
    {
        proof {
            use_type_invariant(self);
        }
        let mut fungible: Vec<(AssetId, u128)> = Vec::new();
        let mut i: usize = 0;
        while i < self.fungible.len()
            invariant
                0 <= i <= self.fungible@.len(),
                fungible@.len() == i,
                forall|m: int|
                    0 <= m < i ==> fungible@[m].0@ == self.fungible@[m].0@ && fungible@[m].1
                        == self.fungible@[m].1,
            decreases self.fungible@.len() - i,
        {
            fungible.push((self.fungible[i].0.clone(), self.fungible[i].1));
            i += 1;
        }
        let mut non_fungible: Vec<(AssetId, AssetInstance)> = Vec::new();
        let mut k: usize = 0;
        while k < self.non_fungible.len()
            invariant
                0 <= k <= self.non_fungible@.len(),
                non_fungible@.len() == k,
                forall|m: int|
                    0 <= m < k ==> non_fungible@[m].0@ == self.non_fungible@[m].0@
                        && non_fungible@[m].1 == self.non_fungible@[m].1,
            decreases self.non_fungible@.len() - k,
        {
            non_fungible.push((self.non_fungible[k].0.clone(), self.non_fungible[k].1));
            k += 1;
        }
        assert(fungible_views(fungible@) =~= fungible_views(self.fungible@));
        assert(instance_views(non_fungible@) =~= instance_views(self.non_fungible@));
        Assets { fungible, non_fungible }
    }
}

impl PartialEq for Assets {
    fn eq(&self, other: &Self) -> (same: bool) {
        if self.fungible.len() != other.fungible.len() || self.non_fungible.len()
            != other.non_fungible.len() {
            assert(self@.fungible.len() != other@.fungible.len() || self@.non_fungible.len()
                != other@.non_fungible.len());
            return false;
        }
        let mut i: usize = 0;
        while i < self.fungible.len()
            invariant
                self.fungible@.len() == other.fungible@.len(),
                0 <= i <= self.fungible@.len(),
                forall|k: int| 0 <= k < i ==> self@.fungible[k] == other@.fungible[k],
            decreases self.fungible@.len() - i,
        {
            if !(self.fungible[i].0 == other.fungible[i].0) || self.fungible[i].1
                != other.fungible[i].1 {
                assert(self@.fungible[i as int] != other@.fungible[i as int]);
                return false;
            }
            i += 1;
        }
        let mut k: usize = 0;
        while k < self.non_fungible.len()
            invariant
                self.non_fungible@.len() == other.non_fungible@.len(),
                0 <= k <= self.non_fungible@.len(),
                forall|m: int| 0 <= m < k ==> self@.non_fungible[m] == other@.non_fungible[m],
            decreases self.non_fungible@.len() - k,
        {
            if !(self.non_fungible[k].0 == other.non_fungible[k].0) || self.non_fungible[k].1
                != other.non_fungible[k].1 {
                assert(self@.non_fungible[k as int] != other@.non_fungible[k as int]);
                return false;
            }
            k += 1;
        }
        assert(self@.fungible =~= other@.fungible);
        assert(self@.non_fungible =~= other@.non_fungible);
        true
    }
}

impl PartialEqSpecImpl for Assets {
    open spec fn obeys_eq_spec() -> bool {
        true
    }

    open spec fn eq_spec(&self, other: &Self) -> bool {
        self@ == other@
    }
}

} // verus!
