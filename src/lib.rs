use vstd::prelude::*;

pub mod db;
pub mod error;
pub mod label;
pub mod laws;
pub mod memory;
pub mod todo;

verus! {

} // verus!
