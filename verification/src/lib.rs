//! Permissioned data spaces.
//!
//! A space is data that its members share: records, each under the account that wrote it, and for
//! each account an op log from which others follow what changed. This library holds the rules of
//! spaces: who may enter one and what they may do there, how writes are checked, carried out and
//! recorded, how the log is read, and what the server decides while it starts. What has to be asked
//! of a database or another server stands outside; where a rule depends on an answer, it is a
//! sequence of steps that say what to ask.

pub mod access;
pub mod batch;
pub mod clock;
pub mod credentials;
pub mod encoding;
pub mod entry;
pub mod error;
pub mod ids;
pub mod invites;
pub mod json;
pub mod oplog;
pub mod reads;
pub mod routes;
pub mod service;
pub mod spaces;
pub mod startup;
pub mod statement;
pub mod text;
pub mod tid;
pub mod types;
pub mod writes;
