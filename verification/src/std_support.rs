//! Calls into the standard library that `vstd` does not yet describe.
//!
//! Each function here is trusted: its contract is taken from the standard
//! library's documentation and is not proved.

use std::sync::Arc;
use vstd::prelude::*;

verus! {

/// `String::push`: the character is appended at the end of the string, and
/// nothing else in it changes.
#[verifier::external_body]
pub(crate) fn push_char(text: &mut String, c: char)
    ensures
        final(text)@ == old(text)@.push(c),
{
    text.push(c)
}

/// `Arc::clone`: another handle on the same allocation, so what it points to
/// is what the first handle points to.
#[verifier::external_body]
pub(crate) fn share_records(records: &Arc<Vec<String>>) -> (shared: Arc<Vec<String>>)
    ensures
        shared == *records,
{
    Arc::clone(records)
}

} // verus!
