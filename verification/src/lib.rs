//! Synchronisation of software-vendor records between a remote table and a
//! local store, with the small utilities that the synchronisation jobs share.

pub mod decimal;
pub mod enrichment;
pub mod finance;
pub mod laws;
pub mod slack;
pub mod store;
pub mod utils;
pub mod vendor;
