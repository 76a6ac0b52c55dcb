//! The logic of a trading bot that watches configured equities at Charles Schwab and Interactive
//! Brokers, derives momentum signals from their quotes, and sends limit orders that pass a set of
//! risk checks.
//!
//! Talking to the brokers and to the chat is left to the program around this library. It hands in
//! what was answered and carries out what comes back.
pub mod accounts;
pub mod bot;
pub mod clock;
pub mod decimal;
pub mod fills;
pub mod format;
pub mod history;
pub mod ibkr;
pub mod json;
pub mod models;
pub mod orders;
pub mod quotes;
pub mod report;
pub mod risk;
pub mod schwab;
pub mod settings;
pub mod setup;
pub mod signals;
pub mod status;
pub mod strategy;
pub mod table;
pub mod text;
pub mod update;
