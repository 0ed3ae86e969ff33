//! Verified core of a multi-tenant membership service: token-based
//! authentication, field validation, and the uniqueness / partial-update
//! rules of the entity services, backed by an in-memory model of the
//! relational store.

pub mod auth;
pub mod chars;
pub mod claims;
pub mod dates;
pub mod error;
pub mod ip;
pub mod jwt;
pub mod members;
pub mod models;
pub mod organizations;
pub mod pword;
pub mod shared;
pub mod store;
pub mod validator;
