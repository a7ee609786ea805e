pub mod adapter;
pub mod client;
pub mod components;
pub mod dashboard;
pub mod monitoring;
pub mod plugin;
pub mod scheduler;
pub mod scripts;
pub mod services;
pub mod settings;
pub mod types;
