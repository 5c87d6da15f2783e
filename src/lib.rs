//! A URL-shortening service core: a two-way link table, short-code
//! generation, idempotent shortening with bounded collision retry, request
//! classification and response construction.

pub mod config;
pub mod store;
pub mod codegen;
pub mod engine;
pub mod route;
pub mod form;
pub mod response;
pub mod service;
