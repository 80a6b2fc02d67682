pub mod app;
pub mod config;
pub mod hooks;
pub mod jj;
pub mod keys;
pub mod model;
pub mod rows;
pub mod setup;
pub mod text;
