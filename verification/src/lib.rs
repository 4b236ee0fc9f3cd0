//! The logic of a connectivity monitor: validated settings, probes of targets,
//! what is stored of them and read back, outages, statistics, and the decisions
//! behind the HTTP interface. Sockets, files and the database are the business of
//! the program around this library.
//!
//! Every function says in its contract what it returns, mostly over a `view` of
//! its arguments as plain mathematical values. What the functions are for, and
//! what relates them, is stated by proof functions whose names begin with `law_`,
//! in [`laws`] and beside the functions they speak of. What is taken from other
//! crates and believed without proof is in [`platform`].

pub mod api;
pub mod config;
pub mod db;
pub mod domain;
pub mod error;
pub mod health;
pub mod laws;
pub mod lookback;
pub mod monitor;
pub mod outages;
pub mod platform;
pub mod startup;
pub mod text;
