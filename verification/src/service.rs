//! The service layer: what the handlers of the web application call.

pub mod post;
pub mod user;
