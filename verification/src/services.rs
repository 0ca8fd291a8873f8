//! The endpoints of the API, grouped by the resource they are about.

pub mod accounts;
pub mod me;
pub mod route;
