//! Campus-network auto-login client: the decision logic, parsers and text
//! handling, each with its contract.

pub mod auth;
pub mod autostart;
pub mod bridge;
pub mod commands;
pub mod inject;
pub mod logger;
pub mod mock;
pub mod network;
pub mod poc;
pub mod scheduler;
pub mod startup;
pub mod state;
pub mod store;
pub mod text;
pub mod tray;
pub mod update;
