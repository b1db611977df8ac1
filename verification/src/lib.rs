//! Core library of a statistical-arbitrage trading engine: order books,
//! feed synchronisation, risk checks, order tracking and paper trading.

pub mod config;
pub mod domain;
pub mod exchange_clients;
pub mod order_manager;
pub mod risk_manager;
pub mod utils;
pub mod backtest;
pub mod replay;
pub mod strategies;
pub mod telemetry;
