//! Mirrors a remote catalog of versioned build artifacts into a local tree.
//!
//! The library holds the decisions of the synchronisation engine: which
//! records are kept and which are stale, which artifacts must be fetched and
//! which local files must be removed, how a fetch response is judged, how
//! many fetches may hold a network slot at once, and how one channel moves
//! from fetching its catalog to running its tasks. The program around it
//! performs the network and disk work.

pub mod versions;
pub mod names;
pub mod plan;
pub mod fetch;
pub mod channel;
