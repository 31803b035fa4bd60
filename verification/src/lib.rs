//! A verified core for a meal-logging and nutrition-lookup service.
//!
//! Domain records (users, meals, food products, cached searches) are encoded
//! as JSON text and kept in a key-value store under `{collection}:{id}`
//! keys, with secondary index sets and a name-prefix search index. Nutrient
//! facts are normalized to a fixed eight-field record and aggregated into
//! meal-level totals.
pub mod bytes;
pub mod codec;
pub mod date;
pub mod ids;
pub mod kv;
pub mod store;
pub mod meal;
pub mod nutrients;
pub mod product;
pub mod usda;
pub mod user;
