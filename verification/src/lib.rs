//! The decisions of the Torii indexer, with their contracts.

pub mod allocation;
pub mod config;
pub mod dispatch;
pub mod distinct;
pub mod error;
pub mod events;
pub mod history;
pub mod linked;
pub mod places;
pub mod progress;
pub mod register_model_with_schema;
pub mod runner;
pub mod selector;
pub mod services;
pub mod task_manager;
pub mod text;
