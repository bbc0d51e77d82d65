//! A build-step generator for annotation-driven HTTP scaffolding.
//!
//! Methods of a controller type carry declarative route metadata (an HTTP
//! verb with a path template, and response shapes). From one controller
//! declaration the generator synthesizes two artifacts: an ordered route
//! registration table for the host HTTP layer, and a structured API
//! documentation object (paths, response descriptions, deduplicated schema
//! references). A sibling generator builds a tagged response union with its
//! status-code encoding rule from a literal list of status-mnemonic entries.

pub mod strutil;
pub mod status;
pub mod types;
pub mod parse;
pub mod error;
pub mod extract;
pub mod resolve;
pub mod generate;
pub mod response_enum;
pub mod model;
pub mod auth;
pub mod config;
pub mod response;
