//! Decision logic of a composable reverse proxy: connection context, request
//! targets and their normalisation, routing, proxy request rewriting, the
//! connection pool, access-log records and the login state machine.

pub mod authenticator;
pub mod client;
pub mod context;
pub mod file;
pub mod handler;
pub mod hello;
pub mod listener;
pub mod log;
pub mod message;
pub mod proxy;
pub mod router;
pub mod segments;
pub mod service;
pub mod settings;
pub mod text;
pub mod tls;
pub mod tunnel;
pub mod uri;
