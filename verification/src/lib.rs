//! Acquisition of a channel's most-viewed clips and their materialisation on
//! disk, as a library of decisions: what to ask the platform next, whether a
//! batch may be downloaded, which outcome each download had, and which name
//! each staged file gets. Network, threads and the file system belong to the
//! caller; every decision taken here is proved against its contract.

pub mod finalize;
pub mod utils;
