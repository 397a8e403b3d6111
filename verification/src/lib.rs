//! Version management for a standalone runtime executable: deciding which
//! release to install, planning its download, extraction, verification and
//! installation, and keeping the mapping from declared version requirements
//! to installed versions consistent.
//!
//! The library performs no I/O. Callers carry out the actions it returns and
//! report back what happened as plain values.
//!
//! - [`version`], [`canonical`], [`numerals`], [`order`]: semantic versions,
//!   their text and their order.
//! - [`platform`]: what differs between the supported hosts.
//! - [`release`], [`fetch`], [`unpack`], [`integrity`]: the stages of an
//!   upgrade, each as a judgement on plain values.
//! - [`upgrade`]: the pipeline that strings the stages together; [`runs`]
//!   and [`history`]: what holds of every run of it.
//! - [`meta`] and [`clean`]: the version-mapping store and its cleanup.
//! - [`text`], [`sequences`], [`error`]: what the others share.

pub mod canonical;
pub mod clean;
pub mod error;
pub mod fetch;
pub mod history;
pub mod integrity;
pub mod meta;
pub mod numerals;
pub mod order;
pub mod platform;
pub mod release;
pub mod runs;
pub mod sequences;
pub mod text;
pub mod unpack;
pub mod upgrade;
pub mod version;
