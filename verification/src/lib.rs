//! Firmware triage: magic-number identification, structural verification of
//! the formats found, string prioritisation and the decisions of the
//! interactive viewer.
use vstd::prelude::*;

pub mod disassemble;
pub mod extract;
pub mod metadata;
pub mod text;
pub mod type_identify;
pub mod ui;
pub mod verify;

verus! {

} // verus!
