//! A schema-driven, policy-gated data-access layer.
//!
//! The crate turns catalog metadata into table descriptors, merges row-level
//! policies into predicates, maps untyped payload values to typed parameters,
//! builds parameterized statements, and issues and verifies signed claims.
//!
//! - `schema` describes a table from the catalog's answer.
//! - `policy` holds the policies of a table and merges them.
//! - `value` maps payload values to typed parameters.
//! - `query` builds the statement for an operation on a table.
//! - `jwt` issues, signs and verifies claims; `base64url` writes their
//!   segments.
//! - `auth` holds users and decides on a login.
//! - `hook` and `events` keep the handlers of the application's events.
//! - `catalog` names what is asked of the catalog; `storage` names where
//!   files are kept.
//! - `ident`, `text` and `fresh` serve the others.

pub mod auth;
pub mod base64url;
pub mod catalog;
pub mod events;
pub mod fresh;
pub mod hook;
pub mod ident;
pub mod jwt;
pub mod policy;
pub mod query;
pub mod schema;
pub mod storage;
pub mod text;
pub mod value;
