//! A desktop companion's core: the header filter and the decisions of a
//! loopback gateway to a backend, the chunked transfer protocol and the
//! state machine of resumable uploads, and the rules of the local data.
//! Every function is verified against its contract.

pub mod auth;
pub mod commands;
pub mod data_url;
pub mod gateway;
pub mod header_map;
pub mod headers;
pub mod json;
pub mod local_data;
pub mod protocol;
pub mod registry;
pub mod secrets;
pub mod settings;
pub mod text;
pub mod upload;
pub mod upload_laws;
pub mod wallpapers;
