//! The request execution core of a client for the PeerTube REST API: how a
//! call is described, how it becomes an HTTP request, and how the answer
//! becomes a typed value or a typed error.
//!
//! Nothing here touches the network. A service method hands out a [`Call`];
//! whoever sends it hands back an [`Outcome`], and [`Call::conclude`] turns
//! that into the value or the failure.

pub mod api;
pub mod data;
pub mod error;
pub mod json;
pub mod pager;
pub mod param;
pub mod parse;
pub mod percent;
pub mod query;
pub mod readback;
pub mod render;
pub mod request;
pub mod response;
pub mod services;
pub mod text;

pub use api::{Api, Call, Config};
pub use error::Error;
pub use json::Json;
pub use pager::{Empty, Pager};
pub use request::{Method, Params, Request};
pub use response::{Answer, Decode, Outcome};
pub use services::accounts::Accounts;
pub use services::me::subscriptions::Subscriptions;
pub use services::me::Me;
