//! Version monitoring for nodes of the IBP network: which release each
//! repository has published, which runtime each network runs, and how the
//! members' services are doing.

pub mod certificate;
pub mod config;
pub mod consistency;
pub mod digits;
pub mod github;
pub mod handlers;
pub mod members;
pub mod models;
pub mod modes;
pub mod order;
pub mod probe;
pub mod prometheus;
pub mod refresh;
pub mod repos;
pub mod rpc;
pub mod startup;
pub mod state;
pub mod stats;
pub mod store;
pub mod table;
pub mod templates;
pub mod text;
pub mod text_map;
pub mod time;
pub mod version;
