pub mod application;
pub mod cache;
pub mod cli;
pub mod commands;
pub mod config;
pub mod db;
pub mod domain;
pub mod metadata;
pub mod model;
pub mod order;
pub mod path;
pub mod text;
pub mod words;
