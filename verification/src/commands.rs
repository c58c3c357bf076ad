//! Commands that the commander runs by name, with the rest of the input as
//! their arguments.
use vstd::prelude::*;

pub mod split;

verus! {

/// A command known by its name.
pub trait EditorCommand {
    fn name(&self) -> &str;

    fn run_with_args(&self, args: &str);
}

} // verus!
