//! The command-line argument that names the input file.
use vstd::prelude::*;

verus! {

/// The one argument after the program name: the path of the input file.
pub fn filename_from_args(args: &[String]) -> (r: &str)
    requires
        args@.len() == 2,
    ensures
        r@ == args@[1]@,
{
    args[1].as_str()
}

} // verus!
