//! The logic of a service that builds Android packages from uploaded projects: what requests are
//! answered, what the database is asked, how tasks are queued, leased and run, and how clients
//! are limited.
pub mod api;
pub mod assets;
pub mod build_test;
pub mod config;
pub mod database;
pub mod error;
pub mod middleware;
pub mod models;
pub mod outside;
pub mod path;
pub mod startup;
pub mod state;
pub mod table;
pub mod text;
pub mod time;
pub mod utils;
pub mod worker;
