//! Exactly-once newsletter publishing: an idempotency-keyed command gateway,
//! a transactional outbox and the dispatcher that drains it, with the rules
//! that guard them stated as contracts and proved.

pub mod admin;
pub mod authentication;
pub mod configuration;
pub mod dispatcher;
pub mod domain;
pub mod gateway;
pub mod history;
pub mod invariants;
pub mod key;
pub mod laws;
pub mod login;
pub mod model;
pub mod outbox;
pub mod publish;
pub mod response;
pub mod startup;
pub mod store;
pub mod subscriptions;
