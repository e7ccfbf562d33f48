//! Relational aggregation, request routing and error translation for a small
//! organization/user/device service.
pub mod errors;
pub mod models;
pub mod repository;
pub mod router;
pub mod service;
