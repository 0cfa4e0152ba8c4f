//! Checking the answers typed at the prompts.
use vstd::prelude::*;

use crate::text::{trim, trim_text};

verus! {

/// An answer that must not be blank was blank.
#[derive(Debug, Clone, Copy, PartialEq, Eq, Structural)]
pub struct BlankAnswer;

/// The answer without surrounding white space, which must not be empty.
pub fn required_answer(raw: &str) -> (r: Result<String, BlankAnswer>)
    ensures
        r is Err <==> trim(raw@).len() == 0,
        r matches Ok(s) ==> s@ == trim(raw@),
{
    let t = trim_text(raw);
    if t.as_str().is_empty() {
        Err(BlankAnswer)
    } else {
        Ok(t)
    }
}

} // verus!
