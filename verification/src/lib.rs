//! Verified core of the events/products web service: entitlement rules,
//! Stripe webhook verification, event parsing and billing updates,
//! repository-backed product, event, profile and interest operations,
//! configuration resolution, language-model requests and answers, bearer-token
//! validation, mail composition and the HTTP status mapping of errors.

pub mod error;
pub mod user;
pub mod entitlement;
pub mod api_error;
pub mod json;
pub mod text;
pub mod stripe;
pub mod billing;
pub mod clock;
pub mod product;
pub mod config;
pub mod ports;
pub mod auth;
pub mod event;
pub mod users;
pub mod interests;
pub mod llm;
pub mod llm_config;
pub mod analysis;
pub mod jwt;
pub mod mail;
pub mod cli;
pub mod fakes;
