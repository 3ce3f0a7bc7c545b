//! The three lookups the pipeline consults: card names by identifier, price
//! candidates by card name, and exchange rates. Only the parts that build
//! requests and interpret answers live here; transport is the caller's.

pub mod card_info;
pub mod currency_conversion;
pub mod get_card_prices;
