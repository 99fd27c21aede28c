//! Idempotent, transactional newsletter delivery.
//!
//! The heart of this crate is an idempotency-keyed publish path combined with
//! a transactional outbox and a delivery worker: when an operator publishes a
//! newsletter issue, every confirmed subscriber receives exactly one copy,
//! publish requests are safely retryable without duplicate sends or duplicate
//! responses, and delivery survives restarts because the intent to deliver is
//! committed durably before any email is attempted.
//!
//! The durable state (idempotency records, newsletter issues, the delivery
//! queue, subscribers and their confirmation tokens) is modelled by
//! [`store::Store`]; every transition on it is verified. The surrounding web
//! plumbing (HTTP, sessions, HTML) stays outside this crate.

pub mod auth;
pub mod domain;
pub mod helpers;
pub mod http;
pub mod idempotency;
pub mod newsletter;
pub mod password;
pub mod publish;
pub mod store;
pub mod subscriptions;
pub mod subscriptions_confirm;
pub mod worker;
