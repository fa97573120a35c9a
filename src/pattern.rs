//! The glob pattern that selects the packs of a run: a malformed one ends the
//! run before any pack is touched.
use vstd::prelude::*;

verus! {

/// Whether glob's pattern compiler accepts `p`.
pub uninterp spec fn glob_pattern_valid(p: Seq<char>) -> bool;

/// A pattern refused by the glob syntax.
#[derive(Clone, Debug, PartialEq, Eq)]
pub struct PatternSyntaxError {
    /// Approximate character index of the fault.
    pub pos: usize,
    pub message: String,
}

/// Relies on glob::Pattern::new, the syntax check that glob::glob makes first:
/// its verdict depends on the pattern alone, and it refuses a pattern only at a
/// `*` or a `[` (a run of three stars, a misplaced `**`, an unclosed range).
#[verifier::external_body]
pub(crate) fn compile_glob(p: &str) -> (r: Result<(), PatternSyntaxError>)
    ensures
        r is Ok <==> glob_pattern_valid(p@),
        (forall|i: int| 0 <= i < p@.len() ==> p@[i] != '*' && p@[i] != '[') ==> r is Ok,
{
    match glob::Pattern::new(p) {
        Ok(_) => Ok(()),
        Err(e) => Err(PatternSyntaxError { pos: e.pos, message: e.msg.to_string() }),
    }
}

} // verus!
