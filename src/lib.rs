//! Core of a multi-model chat orchestrator: per-model transcript views,
//! serialized generation chains, title derivation, event application and
//! model catalog reconciliation.

pub mod catalog;
pub mod catalog_state;
pub mod chain;
pub mod chat;
pub mod clock;
pub mod event;
pub mod markdown;
pub mod model;
pub mod model_select;
pub mod provider;
pub mod session;
pub mod text;
pub mod transcript;
pub mod wire;
