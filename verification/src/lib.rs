//! Configuration, monitoring and authorization logic of the `infra` tool.
pub mod text;
pub mod config;
pub mod config_laws;
pub mod agent_error;
pub mod document;
pub mod agent_config;
pub mod agent_laws;
pub mod network;
pub mod address;
pub mod snapshot;
pub mod observe;
pub mod observe_laws;
pub mod events;
pub mod event_laws;
pub mod auth;
pub mod cli;
pub mod runtime;
pub mod wizard;
pub mod wizard_laws;
