//! Core of a package-history tracker: a relational record of what was
//! installed, and the command templates that drive each package manager.
pub mod args;
pub mod cli;
pub mod clock;
pub mod command;
pub mod data;
pub mod db;
pub mod document;
pub mod error;
pub mod fmn;
pub mod laws;
pub mod listing;
pub mod manager;
pub mod models;
pub mod repository;
pub mod rows;
pub mod schema;
pub mod search;
pub mod service;
pub mod simple_app;
pub mod simpledata;
pub mod store;
pub mod text;
pub mod todo;
pub mod tracker;
