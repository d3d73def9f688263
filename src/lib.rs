use vstd::prelude::*;

pub mod auth;
pub mod config;
pub mod content_type;
pub mod errors;
pub mod lineage;
pub mod listing;
pub mod metadata;
pub mod object_key;
pub mod objects;
pub mod schemas;
pub mod store;
pub mod text;
pub mod users;
