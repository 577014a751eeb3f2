//! An NFT marketplace: sellers list cw721 tokens for sale, buyers bid on
//! them (or on any token of a collection) with native coins or cw20 tokens,
//! and a settled sale pays the collection's royalty members and the
//! seller and sends the token to the buyer.
pub mod decimal;
pub mod types;
pub mod encode;
pub mod model;
pub mod settle;
pub mod market;
pub mod query;
pub mod sums;
pub mod laws;
pub mod volume;
pub mod expiry;
