//! Verification of on-chain donations: native transfers are collected from a
//! decoded transaction, matched against a registered creator, held to a minimum
//! amount, and recorded at most once per transaction signature.

pub mod chain;
pub mod json;
pub mod models;
pub mod commands;
pub mod db;
