//! Schema-aware generation of model artifacts.
//!
//! Given an entity name and a list of `(field name, type token)` pairs the
//! library resolves every token into a schema column or a foreign-key
//! relationship, assembles the generation context that the templates are
//! rendered against, and decides, step by step, what has to happen next:
//! which template to render, which build step to run, and what to report.
//!
//! Rendering and running build steps touch the file system and spawn
//! processes; they are left to the caller.  The caller performs each
//! [`generation::Request`] and hands the result back as a
//! [`generation::Event`].

pub mod context;
pub mod error;
pub mod fields;
pub mod generation;
pub mod mappings;
pub mod outcome;
pub mod pipeline;
pub mod sequences;
pub mod text;
