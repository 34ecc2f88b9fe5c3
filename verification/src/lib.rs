//! Verified core of the hodlers pipeline: the Phoenix swap accumulator that a
//! circuit runs for every swap event, the payload encodings that carry a
//! trader's XLM delta to Stellar, and the decision logic of the on-chain
//! handler and points ledger.
pub mod phoenix;
pub mod xdr;
pub mod payload;
pub mod abi;
pub mod hodlers;
pub mod handler;
pub mod circuit;
