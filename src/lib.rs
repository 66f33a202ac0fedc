//! Provenance tracking for physical products: mint, custody transfer, burn,
//! authenticity checks and cross-chain relocation of charm tokens.

mod digest;
pub mod product_id;
pub mod contract;
pub mod charm;


pub use digest::{be_bytes, sha256_of};
