//! Panoramix is a data-driven, declarative GUI framework.
//!
//! This crate holds the part of the framework that decides things: how a keyed
//! list of elements is compared with its previous version, how the resulting
//! mutation is applied to states and widgets, how widget actions are queued
//! and consumed, how component contexts hand out metadata, state and event
//! queues, and which functions the `#[component]` attribute accepts. Each of
//! these is verified against its contract.
pub mod component_signature;
pub mod ctx;
pub mod elements;
pub mod flex;
pub mod glue;
pub mod metadata;
pub mod widgets;

pub use ctx::{CompCtx, ProcessEventCtx};
pub use metadata::{Metadata, NoEvent, NoState};

