//! Dotprompt: executable prompt templates with YAML frontmatter.
//!
//! A prompt template is a text document with an optional YAML metadata
//! block followed by a template body.  This crate splits such documents,
//! resolves their metadata, compiles compact "picoschema" shorthand into
//! full schema objects, and decodes the marker protocol that turns expanded
//! template text into typed conversation messages.

pub mod config;
pub mod dir;
pub mod dotprompt;
pub mod error;
pub mod helpers;
pub mod laws;
pub mod metadata;
pub mod parse;
pub mod picoschema;
pub mod render;
pub mod span;
pub mod store;
pub mod text;
pub mod types;
pub mod util;
pub mod value;
