//! Junctions: the single hops of which a location is made.

use vstd::prelude::*;
use vstd::std_specs::cmp::PartialEqSpecImpl;

verus! {

/// Compares two byte strings.
pub fn bytes_eq(a: &[u8], b: &[u8]) -> (same: bool)
    ensures
        same == (a@ == b@),
{
    if a.len() != b.len() {
        return false;
    }
    let mut i: usize = 0;
    while i < a.len()
        invariant
            a@.len() == b@.len(),
            0 <= i <= a@.len(),
            forall|k: int| 0 <= k < i ==> a@[k] == b@[k],
        decreases a@.len() - i,
    {
        if a[i] != b[i] {
            return false;
        }
        i += 1;
    }
    assert(a@ =~= b@);
    true
}

/// Copies a byte string.
pub fn bytes_clone(a: &Vec<u8>) -> (copy: Vec<u8>)
    ensures
        copy@ == a@,
{
    let mut copy: Vec<u8> = Vec::new();
    let mut i: usize = 0;
    while i < a.len()
        invariant
            0 <= i <= a@.len(),
            copy@ == a@.take(i as int),
        decreases a@.len() - i,
    {
        copy.push(a[i]);
        assert(a@.take(i as int + 1) =~= a@.take(i as int).push(a@[i as int]));
        i += 1;
    }
    assert(a@.take(a@.len() as int) =~= a@);
    copy
}

/// The network that an account junction belongs to.
#[derive(Debug)]
pub enum NetworkId {
    /// Any network.
    Any,
    /// A network known by a name.
    Named(Vec<u8>),
    /// The Polkadot relay chain.
    Polkadot,
    /// The Kusama relay chain.
    Kusama,
}

/// The mathematical value of a [`NetworkId`].
pub enum NetworkIdView {
    Any,
    Named(Seq<u8>),
    Polkadot,
    Kusama,
}

impl View for NetworkId {
    type V = NetworkIdView;

    open spec fn view(&self) -> NetworkIdView {
        match *self {
            NetworkId::Any => NetworkIdView::Any,
            NetworkId::Named(name) => NetworkIdView::Named(name@),
            NetworkId::Polkadot => NetworkIdView::Polkadot,
            NetworkId::Kusama => NetworkIdView::Kusama,
        }
    }
}

impl Clone for NetworkId {
    fn clone(&self) -> (copy: Self)
        ensures
            copy@ == self@,
    {
        match self {
            NetworkId::Any => NetworkId::Any,
            NetworkId::Named(name) => NetworkId::Named(bytes_clone(name)),
            NetworkId::Polkadot => NetworkId::Polkadot,
            NetworkId::Kusama => NetworkId::Kusama,
        }
    }
}

impl PartialEq for NetworkId {
    fn eq(&self, other: &Self) -> (same: bool) {
        match (self, other) {
            (NetworkId::Any, NetworkId::Any) => true,
            (NetworkId::Named(a), NetworkId::Named(b)) => bytes_eq(a.as_slice(), b.as_slice()),
            (NetworkId::Polkadot, NetworkId::Polkadot) => true,
            (NetworkId::Kusama, NetworkId::Kusama) => true,
            _ => false,
        }
    }
}

impl PartialEqSpecImpl for NetworkId {
    open spec fn obeys_eq_spec() -> bool {
        true
    }

    open spec fn eq_spec(&self, other: &Self) -> bool {
        self@ == other@
    }
}

/// One hop of a location.
#[derive(Debug)]
pub enum Junction {
    /// A parachain, by its id.
    Parachain(u32),
    /// An account with a 32-byte id.
    AccountId32 { network: NetworkId, id: [u8; 32] },
    /// An account with a 64-bit index.
    AccountIndex64 { network: NetworkId, index: u64 },
    /// An account with a 20-byte key.
    AccountKey20 { network: NetworkId, key: [u8; 20] },
    /// An instance of a pallet, by its index.
    PalletInstance(u8),
    /// An index without further meaning.
    GeneralIndex(u128),
    /// A key without further meaning.
    GeneralKey(Vec<u8>),
    /// The only child of the context.
    OnlyChild,
}

/// The mathematical value of a [`Junction`].
pub enum JunctionView {
    Parachain(u32),
    AccountId32 { network: NetworkIdView, id: Seq<u8> },
    AccountIndex64 { network: NetworkIdView, index: u64 },
    AccountKey20 { network: NetworkIdView, key: Seq<u8> },
    PalletInstance(u8),
    GeneralIndex(u128),
    GeneralKey(Seq<u8>),
    OnlyChild,
}

impl View for Junction {
    type V = JunctionView;

    open spec fn view(&self) -> JunctionView {
        match *self {
            Junction::Parachain(id) => JunctionView::Parachain(id),
            Junction::AccountId32 { network, id } => JunctionView::AccountId32 {
                network: network@,
                id: id@,
            },
            Junction::AccountIndex64 { network, index } => JunctionView::AccountIndex64 {
                network: network@,
                index,
            },
            Junction::AccountKey20 { network, key } => JunctionView::AccountKey20 {
                network: network@,
                key: key@,
            },
            Junction::PalletInstance(index) => JunctionView::PalletInstance(index),
            Junction::GeneralIndex(index) => JunctionView::GeneralIndex(index),
            Junction::GeneralKey(key) => JunctionView::GeneralKey(key@),
            Junction::OnlyChild => JunctionView::OnlyChild,
        }
    }
}

impl Junction {
    /// Whether the junction names a parachain.
    pub open spec fn is_parachain(v: JunctionView) -> bool {
        v is Parachain
    }

    /// Tells whether the junction names a parachain.
    pub fn is_chain(&self) -> (chain: bool)
        ensures
            chain == Self::is_parachain(self@),
    {
        match self {
            Junction::Parachain(_) => true,
            _ => false,
        }
    }
}

impl Clone for Junction {
    fn clone(&self) -> (copy: Self)
        ensures
            copy@ == self@,
    {
        match self {
            Junction::Parachain(id) => Junction::Parachain(*id),
            Junction::AccountId32 { network, id } => Junction::AccountId32 {
                network: network.clone(),
                id: *id,
            },
            Junction::AccountIndex64 { network, index } => Junction::AccountIndex64 {
                network: network.clone(),
                index: *index,
            },
            Junction::AccountKey20 { network, key } => Junction::AccountKey20 {
                network: network.clone(),
                key: *key,
            },
            Junction::PalletInstance(index) => Junction::PalletInstance(*index),
            Junction::GeneralIndex(index) => Junction::GeneralIndex(*index),
            Junction::GeneralKey(key) => Junction::GeneralKey(bytes_clone(key)),
            Junction::OnlyChild => Junction::OnlyChild,
        }
    }
}

impl PartialEq for Junction {
    fn eq(&self, other: &Self) -> (same: bool) {
        match (self, other) {
            (Junction::Parachain(a), Junction::Parachain(b)) => *a == *b,
            (
                Junction::AccountId32 { network: na, id: a },
                Junction::AccountId32 { network: nb, id: b },
            ) => *na == *nb && bytes_eq(a.as_slice(), b.as_slice()),
            (
                Junction::AccountIndex64 { network: na, index: a },
                Junction::AccountIndex64 { network: nb, index: b },
            ) => *na == *nb && *a == *b,
            (
                Junction::AccountKey20 { network: na, key: a },
                Junction::AccountKey20 { network: nb, key: b },
            ) => *na == *nb && bytes_eq(a.as_slice(), b.as_slice()),
            (Junction::PalletInstance(a), Junction::PalletInstance(b)) => *a == *b,
            (Junction::GeneralIndex(a), Junction::GeneralIndex(b)) => *a == *b,
            (Junction::GeneralKey(a), Junction::GeneralKey(b)) => bytes_eq(
                a.as_slice(),
                b.as_slice(),
            ),
            (Junction::OnlyChild, Junction::OnlyChild) => true,
            _ => false,
        }
    }
}

impl PartialEqSpecImpl for Junction {
    open spec fn obeys_eq_spec() -> bool {
        true
    }

    open spec fn eq_spec(&self, other: &Self) -> bool {
        self@ == other@
    }
}

} // verus!
