//! A per-request session and identity-resolution layer for a server request
//! pipeline: it binds an opaque client-held token (a cookie value) to
//! server-side state (a [`session::Session`]), persists that state through a
//! pluggable backend (the [`store::Store`] contract), and layers user-identity
//! resolution on top of it ([`user::UserManager`]).

pub mod auth;
pub mod extract;
mod kv;
pub mod memory;
pub mod password;
pub mod session;
pub mod store;
pub mod uid;
pub mod user;
pub mod value;
