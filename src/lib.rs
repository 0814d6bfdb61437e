//! A local archive of meeting transcripts kept in step with remote providers.
//!
//! The verified core: the synchronization session that lists, diffs, fetches and
//! records runs; the audit session that reconciles local and remote id sets; the
//! listing rules of each provider; tag-id resolution with its cache; and the
//! normalization rules that turn provider payloads into transcript text.
use vstd::prelude::*;

pub mod audit;
pub mod config;
pub mod display;
pub mod ingest;
pub mod listing;
pub mod model;
pub mod normalize;
pub mod orchestrator;
pub mod search;
pub mod tags;
pub mod text;
pub mod timestamp;

verus! {

pub use crate::model::{AuditReport, RemoteTranscript, RunStatus, SourceKind, SyncMode, SyncOptions, SyncReport};

} // verus!
