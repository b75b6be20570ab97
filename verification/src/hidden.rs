//! The test for hidden entries.

use vstd::prelude::*;
use vstd::string::StrSliceExecFns;

verus! {

/// A name is hidden where it begins with a period.
pub open spec fn hidden_name(name: Seq<char>) -> bool {
    name.len() > 0 && name[0] == '.'
}

/// Whether an entry of this name is hidden.
pub fn is_hidden(name: &str) -> (hidden: bool)
    ensures
        hidden == hidden_name(name@),
{
    !name.is_empty() && name.get_char(0) == '.'
}

/// Whether a walk leaves out an entry of this name, and with it all that lies
/// below it: where hidden entries are skipped, a hidden one; else none.
pub fn is_excluded(skip_hidden: bool, name: &str) -> (excluded: bool)
    ensures
        excluded == (skip_hidden && hidden_name(name@)),
{
    skip_hidden && is_hidden(name)
}

/// Whether a walk leaves out an entry whose name may not be readable as
/// text: a name that is not text counts as not hidden.
pub fn is_excluded_entry(skip_hidden: bool, name: Option<&str>) -> (excluded: bool)
    ensures
        excluded == match name {
            Some(text) => skip_hidden && hidden_name(text@),
            None => false,
        },
{
    match name {
        Some(text) => is_excluded(skip_hidden, text),
        None => false,
    }
}

} // verus!
