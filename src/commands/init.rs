//! Setting up a shell session: the place of its multishell pointer.
use vstd::prelude::*;
use vstd::string::*;
use crate::config::{join, path_view};
use crate::text::{append_decimal, decimal_text};

verus! {

/// A request to print the set-up of a shell session.
#[derive(Debug)]
pub struct Init {}

/// `frum_<process id>_<milliseconds>`
pub open spec fn pointer_name(pid: u32, millis: u64) -> Seq<char> {
    "frum_"@ + decimal_text(pid as nat) + "_"@ + decimal_text(millis as nat)
}

/// Where a session's pointer is made: `<root>/frum_<pid>_<millis>`, named
/// after the process and the time so that sessions do not share one.
pub fn generate_symlink_path(root: &Vec<String>, pid: u32, millis: u64) -> (r: Vec<String>)
    ensures
        path_view(r@) == path_view(root@).push(pointer_name(pid, millis)),
{
    let mut name = String::from_str("frum_");
    append_decimal(&mut name, pid as u64);
    name.append("_");
    append_decimal(&mut name, millis);
    join(root, name.as_str())
}

} // verus!
