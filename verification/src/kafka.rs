pub mod config_builder;
pub mod message_decoder;
pub mod admin_service;
pub mod consumer_session;
pub mod connection_manager;
pub mod producer_service;
