//! Interactive management of DNS records for a zone hosted at a DNS/CDN
//! provider: resolving a zone, cataloguing its records by name, validating
//! and building record content, and planning create/delete/update requests.
//!
//! The crate holds the decision logic only; prompts and network transport
//! live outside it and hand plain values in and out.

pub mod args;
pub mod catalog;
pub mod content;
pub mod errors;
pub mod mutate;
pub mod namemap;
pub mod selection;
pub mod text;
pub mod workflow;
pub mod zones;
