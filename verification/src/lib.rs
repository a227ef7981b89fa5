pub mod text;
pub mod utils;
pub mod stats;
pub mod path;
pub mod ignore;
pub mod listing;
pub mod config;
pub mod worker;
pub mod app;
pub mod keys;
pub mod ui;
