//! Control plane of a storage node in a monitored file-replication network:
//! the file inventory and its work queues, the node's rating, the placement
//! policies for newly uploaded files, and the decisions of the background
//! services, each with a verified contract.

mod clock;
pub mod text;
pub mod file_store;
pub mod config_store;
pub mod stat_store;
pub mod config;
pub mod app_state;
pub mod server;
pub mod http_requests;
pub mod placement;
pub mod distribution_service;
pub mod ping_service;
pub mod recover_service;
