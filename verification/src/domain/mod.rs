pub mod decimal;
pub mod events;
pub mod feed_state;
pub mod instrument;
pub mod models;
pub mod orderbook;
