//! Protego spend authorizer: the verified core of a payment authorizer that enforces
//! pre-approved spending mandates before an order is authorized.

pub mod text;
pub mod models;
pub mod razorpay_client;
pub mod gate_service;
pub mod audit_service;
pub mod nlu_parser;
pub mod agent_service;
pub mod server_service;
pub mod config;
pub mod calendar;
