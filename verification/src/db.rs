//! Storage rules. The database itself is an external collaborator; the
//! one rule of its content decided here is how a second journal entry
//! for the same user and day is merged into the first.

use vstd::prelude::*;

verus! {

/// The body stored when an entry already exists for the user and date:
/// the old body, a line break, and the new body.
pub fn merged_entry_body(existing: &str, addition: &str) -> (r: String)
    ensures
        r@ == existing@ + seq!['\n'] + addition@,
{
    let mut out = String::new();
    out.append(existing);
    out.append("\n");
    out.append(addition);
    proof {
        reveal_strlit("\n");
        assert(out@ =~= existing@ + seq!['\n'] + addition@);
    }
    out
}

} // verus!
