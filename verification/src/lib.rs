pub mod text;
pub mod split;
pub mod numbers;
pub mod sorting;
pub mod repo;
pub mod branches;
pub mod order;
pub mod time;
pub mod version;
pub mod gitio;
pub mod update;
pub mod prune;
pub mod scan;
pub mod report;
pub mod config;
pub mod states;
pub mod tui;
pub mod help;
pub mod display;
