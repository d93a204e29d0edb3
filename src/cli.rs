//! Reading the target domain from the command line.
use vstd::prelude::*;

verus! {

/// The target domain: the first argument after the program name, if any.
pub fn parse_arguments(args: &Vec<String>) -> (r: Option<String>)
    ensures
        args.len() >= 2 ==> (r is Some && r->0@ == args@[1]@),
        args.len() < 2 ==> r is None,
{
    if args.len() >= 2 {
        Some(args[1].clone())
    } else {
        None
    }
}

} // verus!
