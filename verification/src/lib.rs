//! Collects `KEY=VALUE` secret definitions and plans their publication to a
//! remote secret store through an external command-line tool.
//!
//! The crate is split in two halves that data flows through in one direction:
//! the collector ([`firebase::FirebaseInterfaceBuilder`]) turns raw source text
//! into a key/value mapping plus a project alias, and the publisher
//! ([`firebase::Publisher`]) turns that mapping into external invocations and
//! folds their captured output into one result.
pub mod bindings;
pub mod cli;
pub mod firebase;
pub mod mapping;
pub mod secret;
pub mod text;
