use vstd::prelude::*;

pub mod instruction;
pub mod grammar;
pub mod machine;
pub mod laws;

verus! {

} // verus!
