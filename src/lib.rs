//! Turns lists of trading cards into priced records: header validation for
//! tabular input, deck-list tallying, candidate arbitration, currency scaling
//! and totals.

pub mod amounts;
pub mod api;
pub mod deck;
pub mod encoding;
pub mod record;
pub mod schema;
