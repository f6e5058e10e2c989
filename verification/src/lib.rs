//! Package introspection and ordered image extraction for e-book containers.
//!
//! The pipeline locates a container's package document, indexes its manifest
//! and spine, classifies the declared layout, collects embedded image
//! references in reading order, plans their publication under fresh asset
//! keys, and records the terminal classification in a catalog model.

pub mod books;
pub mod catalog;
pub mod errors;
pub mod invitation;
pub mod opf;
pub mod orchestrator;
pub mod paths;
pub mod publisher;
pub mod resolver;
pub mod scanner;
pub mod strutil;
pub mod tags;
pub mod users;
pub mod xml;
