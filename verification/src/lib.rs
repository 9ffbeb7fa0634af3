//! Registration of fungible assets under chain-relative locations, the
//! algebra of those locations, and the purchase of execution weight with a
//! registered asset.

pub mod junction;
pub mod junctions;
pub mod location;
pub mod asset;
pub mod holding;
pub mod error;
pub mod traits;
pub mod trade;
pub mod impls;
pub mod assoc;
pub mod versioned;
pub mod registry;
pub mod pallet;
pub mod registry_laws;
pub mod xcm_support;
pub mod xtokens;
pub mod mock;
pub mod location_laws;
