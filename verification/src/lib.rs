//! Terminal casino: blackjack and slots engines, chip formatting and the
//! player ledger, with their contracts proved by Verus.

pub mod app;
pub mod config;
pub mod games;
pub mod models;
pub mod network;
pub mod security;
pub mod services;
pub mod storage;
pub mod ui;
pub mod utils;
