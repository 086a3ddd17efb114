//! Ingress: request validation, the replies the order-command service gives,
//! and the transport settings.

pub mod dispatcher;
pub mod orders_service;
pub mod proto;
pub mod settings;
