//! The logic of the web server: record ownership, session bookkeeping,
//! request flows, migrations and configuration defaults.

pub mod names;
pub mod trace;
pub mod otel;
pub mod auth_cache;
pub mod error;
pub mod api;
pub mod config;
pub mod auth;
pub mod migrate;
pub mod migration;
pub mod edit_user;
pub mod edit_flow;
pub mod web;
pub mod dns_service;
