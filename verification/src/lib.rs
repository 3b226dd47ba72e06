//! Core logic of the Revolt chat backend: gateway protocol configuration,
//! the life of a gateway connection and its subscription bookkeeping,
//! request coalescing, account and MFA rules, moderation records, the
//! in-memory reference database, configuration rules, and the decision parts
//! of the event broker, push notifications and database migrations.

pub mod text;
pub mod subscriptions;
pub mod active_servers;
pub mod protocol;
pub mod coalesced;
pub mod errors;
pub mod timestamp;
pub mod accounts;
pub mod admin;
pub mod table;
pub mod reference_db;
pub mod gateway;
pub mod connection;
pub mod settings;
pub mod drivers;
pub mod broker;
pub mod migrations;
pub mod bridge;
