//! Client library for a campus-network self-service portal: decoding of its
//! positional HTML tables, the session model, request construction,
//! reconciliation of yearly usage and the local usage archive.
use vstd::prelude::*;

pub mod archive;
pub mod bindings;
pub mod calendar;
pub mod client;
pub mod login;
pub mod model;
pub mod portal;
pub mod reconcile;
pub mod setting;
pub mod table;
pub mod text;
pub mod wlan;

verus! {

} // verus!
