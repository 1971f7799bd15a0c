//! Synchronisation core of a cross-chain event scraper: configuration
//! validation, per-stream cursors, the sync loop's decisions, an idempotent
//! event table, and supervision of one task per chain and event kind.

use vstd::prelude::*;

pub mod cursor;
pub mod scraper;
pub mod settings;
pub mod store;
pub mod supervisor;
pub mod sync;

verus! {

} // verus!
