//! Verified core of the Daneel operator dashboard for an OpenClaw gateway:
//! agent-graph assembly, gateway payload mapping, relationship hints and
//! connection-state decisions.
pub mod adapter;
pub mod app_state;
pub mod chars;
pub mod client;
pub mod components;
pub mod gateway;
pub mod graph_laws;
pub mod graph_service;
pub mod json;
pub mod live;
pub mod models;
pub mod pages;
pub mod parse;
pub mod router;
pub mod text;
pub mod utils;
