pub mod config;
pub mod config_store;
pub mod dashboard_service;
pub mod host;
pub mod json;
pub mod protocol;
pub mod refresh;
pub mod rpc_client;
pub mod rpc_limiter;
pub mod rpc_page;
pub mod schema;
pub mod text;
pub mod ui;
pub mod zmq;
