//! Verified core of a small blogging backend: users, posts with tags,
//! owner-scoped and paginated queries, and the decisions of the service layer.

pub mod auth;
pub mod controller;
pub mod dao;
pub mod errors;
pub mod form;
pub mod model;
pub mod service;
pub mod store;
pub mod text;
pub mod util;
