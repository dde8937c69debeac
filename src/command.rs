use vstd::prelude::*;

use crate::text::same_text;

verus! {

/// Splits the command line into a verb and its argument. The program name
/// comes first; with one word after it the argument is empty, and with no
/// word or more than two both are empty.
pub fn get_command(args: &[String]) -> (r: (&str, &str))
    ensures
        args@.len() == 3 ==> r.0@ == args@[1]@ && r.1@ == args@[2]@,
        args@.len() == 2 ==> r.0@ == args@[1]@ && r.1@.len() == 0,
        args@.len() != 2 && args@.len() != 3 ==> r.0@.len() == 0 && r.1@.len() == 0,
{
    proof {
        reveal_strlit("");
    }
    if args.len() == 3 {
        (args[1].as_str(), args[2].as_str())
    } else if args.len() == 2 {
        (args[1].as_str(), "")
    } else {
        ("", "")
    }
}

/// What the program does for a verb.
#[derive(Clone, Copy, Debug, PartialEq, Eq, Structural)]
pub enum Action {
    New,
    List,
    Unhandled,
}

/// The action for a verb: `new`, `list`, or nothing that is handled.
pub fn route(verb: &str) -> (r: Action)
    ensures
        verb@ == "new"@ ==> r == Action::New,
        verb@ == "list"@ ==> r == Action::List,
        verb@ != "new"@ && verb@ != "list"@ ==> r == Action::Unhandled,
{
    proof {
        reveal_strlit("new");
        reveal_strlit("list");
        assert("new"@.len() != "list"@.len());
    }
    if same_text(verb, "new") {
        Action::New
    } else if same_text(verb, "list") {
        Action::List
    } else {
        Action::Unhandled
    }
}

} // verus!
