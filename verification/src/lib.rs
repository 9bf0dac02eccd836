//! Core of a shop price crawler: a deduplicating entity store with an
//! append-only price history, HTML price extraction rules, crawl-pass
//! bookkeeping, and the best-price-per-category aggregation query.

pub mod config;
pub mod database;
pub mod entity;
pub mod error;
pub mod extract;
pub mod handler;
pub mod price;
pub mod product;
pub mod scheduler;
pub mod settings;
pub mod text;

pub use database::Database;
pub use entity::Category;
pub use entity::IterationPrice;
pub use entity::PriceObservation;
pub use entity::ProductPrice;
pub use entity::Shop;
pub use error::DatabaseError;
pub use price::Price;
pub use settings::Settings;
