//! The command line of the compiler.

use vstd::prelude::*;

verus! {

/// What the compiler is asked to do: compile `in_file`, writing the assembly
/// to `out_file`, or to standard output where none is given.
pub struct Cli {
    /// the teeny script to compile
    pub in_file: String,
    /// where to output
    pub out_file: Option<String>,
}

} // verus!
