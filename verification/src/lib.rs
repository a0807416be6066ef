//! Session and token lifecycle engine for a user-management service.
//!
//! The crate issues, validates and revokes authentication tokens: it signs
//! paired access/refresh tokens, persists refresh-token records, rotates a
//! refresh token when it is redeemed, and gates protected requests on a
//! verified access token and a sufficient role.

pub mod auth_usecase;
pub mod codec;
pub mod config;
pub mod error;
pub mod laws;
pub mod middleware;
pub mod numeral;
pub mod schemas;
pub mod seq_util;
pub mod token_model;
pub mod token_repository;
pub mod user_model;
pub mod user_repository;
pub mod user_usecase;
