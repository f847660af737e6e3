//! Inventory of locally-materialized files of a cloud-sync client.
//!
//! The scan engine classifies files by their cloud-placeholder attribute
//! bits, accumulates the included files into a scan result, remaps their
//! paths under a backup root, and renders a tabular manifest of them.

pub mod attrs;
pub mod backup;
pub mod client;
pub mod report;
pub mod scan;
pub mod strutil;

use vstd::prelude::*;

verus! {

} // verus!
