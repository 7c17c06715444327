pub mod cli_args;
pub mod config;
pub mod metadata_variables;
pub mod stream_handler;
pub mod stream_manager;
pub mod text;
