//! A paper-trading ledger: accounts, contracts, orders, simulated fills,
//! positions and cash balances kept in six-decimal fixed point, together
//! with the account, session and e-mail verification rules of its web API.

pub mod decimal;
pub mod fixed;
pub mod text;
pub mod models;
pub mod ledger;
pub mod orders;
pub mod ids;
pub mod auth;
pub mod email;
pub mod responses;
pub mod migrations;
pub mod registration;
