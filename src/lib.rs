pub mod api;
pub mod config;
pub mod consumer;
pub mod notification;
pub mod routing;
pub mod templates;
pub mod topology;
pub mod worker;
