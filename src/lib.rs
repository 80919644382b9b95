//! Verified core of a desktop front-end for an OCR command-line tool: the list
//! of selected files, the naming of output files, and the plan of OCR runs.
use vstd::prelude::*;

pub mod batch;
pub mod path_rule;
pub mod selection;
pub mod session;

verus! {

} // verus!
