pub mod book_sync;
pub mod bybit;
pub mod websocket_client;
