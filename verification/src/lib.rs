use vstd::prelude::*;

pub mod api;
pub mod clock;
pub mod commands;
pub mod config;
pub mod dask;
pub mod events;
pub mod system;
pub mod jobs;
pub mod mpi;
pub mod network;
pub mod nodes;
pub mod plugin_api;
pub mod plugin_loader;
pub mod plugin_registry;
pub mod startup;
pub mod store;
pub mod text;
