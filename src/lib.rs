//! Scheduling engine for note reminders: timing decisions, the registry of
//! pending timer tasks, and what a fired reminder shows.
use vstd::prelude::*;

pub mod reminder;
pub mod registry;
pub mod timing;

verus! {

} // verus!
