//! The command-line decision: the tool takes exactly one positional argument,
//! the article directory. The caller collects the process arguments (program
//! name first) and exits with a usage message when `None` comes back.

use vstd::prelude::*;

verus! {

/// Selects the article directory from the full argument list, program name
/// included. Exactly one positional argument is accepted: any other count is
/// a usage error, reported as `None` before any other work happens.
pub fn get_content_dir(args: &Vec<String>) -> (r: Option<String>)
    ensures
        r is Some <==> args@.len() == 2,
        args@.len() == 2 ==> r == Some::<String>(args@[1]),
{
    if args.len() == 2 {
        Some(args[1].clone())
    } else {
        None
    }
}

} // verus!
