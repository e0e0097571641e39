//! The request lifecycle of an HTTP client: how one logical request becomes
//! one or more wire exchanges, how bodies and cookies survive across those
//! exchanges, and how a multipart form is laid out as bytes.
//!
//! Sockets, TLS and HTTP framing are left to a transport that the caller
//! supplies; this crate decides what is submitted to it and what is made of
//! each answer.
//!
//! - [`body`]: request bodies, replayable or not.
//! - [`multipart`], [`percent`], [`boundary`]: `multipart/form-data`.
//! - [`redirect`], [`exchange`], [`client`]: following redirects.
//! - [`cookie`]: cookies and the store that keeps them.
//! - [`headers`], [`buffer`], [`url`], [`wire`], [`text`]: the values that
//!   the others work on.

pub mod body;
pub mod boundary;
pub mod buffer;
pub mod client;
pub mod cookie;
pub mod error;
pub mod exchange;
pub mod headers;
pub mod multipart;
pub mod percent;
pub mod redirect;
pub mod text;
pub mod url;
pub mod wire;

pub use crate::body::Body;
pub use crate::client::{Client, ClientBuilder};
pub use crate::cookie::{Cookie, CookieParseError, CookieStore, SimpleCookieStore};
pub use crate::error::Error;
pub use crate::multipart::{Form, Part};
