//! The verified core of a Discord music bot: per-channel track queues, their pages, the
//! `H:MM:SS` times it shows and reads, and the decisions its commands take.

pub mod commands;
pub mod events;
pub mod models;
pub mod persistence;
pub mod queue;
pub mod scrobbler;
pub mod spotify;
pub mod state;
pub mod text;
