//! Declarative dotfile deployment: a manifest of entries, each linking a
//! source path to a destination for the machines whose tags it names.
//!
//! The library parses the manifest and the machine's identity into a typed
//! `Dartfile`, validates entries from existence checks made by the caller,
//! and decides, link by link, what a fail-fast deployment does next. The
//! caller performs the filesystem work and reports each outcome back.
pub mod deploy;
pub mod document;
pub mod model;
pub mod parser;
pub mod toml_doc;

pub use deploy::{DeployError, DeployStep, LinkOutcome, LinkRequest};
pub use document::Doc;
pub use model::{
    Dartfile, Dotfile, Fault, Field, Machine, Probe, SourceFault, Strategy, ValidationError,
};
pub use parser::{parse, ParseError, Section};
pub use toml_doc::{parse_text, read_toml};
