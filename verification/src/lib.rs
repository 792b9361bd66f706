//! Verified core of a project manager for Ableton Live sets.
//!
//! The library reads the XML inside `.als` files (version, tempo, time
//! signature, plugins, samples), parses search queries, builds project
//! listings, and checks configurations. Reading files, databases and
//! networks is left to callers, which hand the library bytes and texts.
pub mod assoc;
pub mod config;
pub mod errors;
pub mod files;
pub mod numbers;
pub mod output;
pub mod plugins;
pub mod project_query;
pub mod rescan;
pub mod samples;
pub mod search;
pub mod stats;
pub mod tags;
pub mod tempo;
pub mod text;
pub mod time_signature;
pub mod types;
pub mod version;
pub mod xml;
