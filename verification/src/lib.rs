//! Verified core of a WebDriver automation server.

pub mod text;
pub mod driver;
pub mod config;
pub mod pool;
pub mod json;
pub mod recipe;
pub mod error;
pub mod manager;
pub mod execution;
pub mod actions;
pub mod login;
pub mod forms;
pub mod performance;
pub mod client;
pub mod tools;
pub mod auth;
pub mod keycloak;
pub mod elements;
pub mod driver_tools;
pub mod recipe_tools;
