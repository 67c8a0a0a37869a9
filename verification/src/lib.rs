//! Configuration synchronisation core of a desktop control panel for a local
//! model-orchestration tool.
//!
//! The panel keeps two kinds of JSON documents in step: the central
//! configuration, and one model document per agent. This library decides
//! what is read from them and what is written into them; reading and writing
//! the files is left to its caller, who hands in texts and gets texts back.
//!
//! - [`json`] holds the document tree and its mathematical model, [`paths`]
//!   reading and setting along key paths, [`codec`] the text format.
//! - [`openclaw_config`] reads the view of the central configuration and
//!   applies sparse updates to it; [`update_laws`] states what an update
//!   sets and what it leaves alone.
//! - [`agents`] lists the known agents, shows an agent's document, compares
//!   its providers with the central ones and merges the central ones in.
//! - [`order`] and [`text`] hold the order of names and the handling of
//!   white space.
//! - [`detection`], [`models_available`], [`llmfit`], [`system`] and
//!   [`settings`] turn what probes and tools report into what the panel
//!   shows.

pub mod agents;
pub mod codec;
pub mod detection;
pub mod json;
pub mod llmfit;
pub mod models_available;
pub mod openclaw_config;
pub mod order;
pub mod paths;
pub mod settings;
pub mod system;
pub mod text;
pub mod update_laws;
