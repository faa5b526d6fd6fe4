//! Secret-santa draws: a seed-reproducible assignment of who gives to whom,
//! the fingerprint of a roster, and an append-only record of every attempt to
//! tell a participant whom they drew.

pub mod actions;
pub mod cli;
pub mod config;
pub mod db;
pub mod despacho;
pub mod envio;
pub mod erro;
pub mod fingerprint;
pub mod mailbox;
pub mod rng;
pub mod text;
