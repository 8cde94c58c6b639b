//! Verified core of a subdomain registrar: input validation, DNS record
//! handling, provider selection, session bookkeeping, log formatting and the
//! decision logic of the web flows.

pub mod text;
pub mod validation;
pub mod dns;
pub mod entries;
pub mod random;
pub mod clock;
pub mod secret;
pub mod email;
pub mod logging;
pub mod user_database;
pub mod server;
