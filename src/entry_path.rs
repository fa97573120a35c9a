//! Where an entry of a pack lands under the output directory, and which entry
//! paths are refused because they could leave it.
use vstd::prelude::*;

verus! {

/// A directory separator inside an entry path: packs may use either form.
pub open spec fn is_sep(c: char) -> bool {
    c == '/' || c == '\\'
}

pub open spec fn is_ascii_letter(c: char) -> bool {
    ('a' <= c && c <= 'z') || ('A' <= c && c <= 'Z')
}

/// A path rooted at the top of a filesystem, or at a drive (`C:`).
pub open spec fn is_absolute(p: Seq<char>) -> bool {
    (p.len() > 0 && is_sep(p[0])) || (p.len() >= 2 && is_ascii_letter(p[0]) && p[1] == ':')
}

/// A `..` segment starts at index `i`.
pub open spec fn parent_segment_at(p: Seq<char>, i: int) -> bool {
    &&& 0 <= i
    &&& i + 2 <= p.len()
    &&& p[i] == '.'
    &&& p[i + 1] == '.'
    &&& (i == 0 || is_sep(p[i - 1]))
    &&& (i + 2 == p.len() || is_sep(p[i + 2]))
}

pub open spec fn has_parent_segment(p: Seq<char>) -> bool {
    exists|i: int| parent_segment_at(p, i)
}

/// The path names no file: it is empty or ends with a separator.
pub open spec fn lacks_file_name(p: Seq<char>) -> bool {
    p.len() == 0 || is_sep(p.last())
}

/// Why an entry path is refused.
#[derive(Clone, Copy, Debug, PartialEq, Eq, Structural)]
pub enum PathError {
    /// The path is absolute, so joining it would ignore the output directory.
    Absolute,
    /// The path holds a `..` segment and could climb out of the output directory.
    ParentSegment,
    /// The path is empty or ends with a separator.
    NoFileName,
}

/// The verdict on an entry path, the first applicable reason winning.
pub open spec fn path_verdict(p: Seq<char>) -> Result<(), PathError> {
    if is_absolute(p) {
        Err(PathError::Absolute)
    } else if has_parent_segment(p) {
        Err(PathError::ParentSegment)
    } else if lacks_file_name(p) {
        Err(PathError::NoFileName)
    } else {
        Ok(())
    }
}

pub open spec fn is_safe_entry_path(p: Seq<char>) -> bool {
    path_verdict(p) is Ok
}

/// Separators of either form written as `/`.
pub open spec fn normalized(p: Seq<char>) -> Seq<char> {
    p.map_values(|c: char| if is_sep(c) { '/' } else { c })
}

/// The output directory as a prefix to which a relative path is appended.
pub open spec fn root_of(out: Seq<char>) -> Seq<char> {
    if out.len() == 0 || is_sep(out.last()) {
        out
    } else {
        out.push('/')
    }
}

/// Where the entry `rel` is written under `out`.
pub open spec fn target_of(out: Seq<char>, rel: Seq<char>) -> Seq<char> {
    root_of(out) + normalized(rel)
}

/// The directories before each of the first `n` characters of `rel` that is
/// a separator, shortest first.
pub open spec fn chain_upto(out: Seq<char>, rel: Seq<char>, n: nat) -> Seq<Seq<char>>
    decreases n,
{
    if n == 0 || n > rel.len() {
        seq![]
    } else {
        let prev = chain_upto(out, rel, (n - 1) as nat);
        if is_sep(rel[n - 1]) {
            prev.push(root_of(out) + normalized(rel).subrange(0, n - 1))
        } else {
            prev
        }
    }
}

/// Every directory between the output directory and the entry's file,
/// outermost first.
pub open spec fn dir_chain(out: Seq<char>, rel: Seq<char>) -> Seq<Seq<char>> {
    chain_upto(out, rel, rel.len())
}

/// What writing one entry takes: the directories to create, in order, and
/// the file to write.
#[derive(Clone, Debug, PartialEq, Eq)]
pub struct EntryPlan {
    pub dirs: Vec<String>,
    pub target: String,
}

impl EntryPlan {
    pub open spec fn dirs_view(&self) -> Seq<Seq<char>> {
        self.dirs@.map_values(|d: String| d@)
    }
}

fn char_is_sep(c: char) -> (r: bool)
    ensures
        r == is_sep(c),
{
    c == '/' || c == '\\'
}

fn parent_segment_at_exec(p: &str, n: usize, i: usize) -> (r: bool)
    requires
        n == p@.len(),
        i < n,
    ensures
        r == parent_segment_at(p@, i as int),
{
    if n - i < 2 {
        return false;
    }
    if p.get_char(i) != '.' || p.get_char(i + 1) != '.' {
        return false;
    }
    let before = i == 0 || char_is_sep(p.get_char(i - 1));
    let after = i + 2 == n || char_is_sep(p.get_char(i + 2));
    before && after
}

/// Decides whether an entry path may be extracted.
pub fn check_entry_path(p: &str) -> (r: Result<(), PathError>)
    ensures
        r == path_verdict(p@),
{
    let n = p.unicode_len();
    if n > 0 && char_is_sep(p.get_char(0)) {
        return Err(PathError::Absolute);
    }
    if n >= 2 && p.get_char(1) == ':' {
        let c = p.get_char(0);
        if ('a' <= c && c <= 'z') || ('A' <= c && c <= 'Z') {
            return Err(PathError::Absolute);
        }
    }
    let mut i: usize = 0;
    while i < n
        invariant
            n == p@.len(),
            i <= n,
            !is_absolute(p@),
            forall|j: int| 0 <= j < i ==> !parent_segment_at(p@, j),
        decreases n - i,
    {
        if parent_segment_at_exec(p, n, i) {
            assert(parent_segment_at(p@, i as int));
            return Err(PathError::ParentSegment);
        }
        i += 1;
    }
    assert(!has_parent_segment(p@)) by {
        assert forall|j: int| !parent_segment_at(p@, j) by {
            if 0 <= j < n {
            }
        }
    }
    if n == 0 || char_is_sep(p.get_char(n - 1)) {
        return Err(PathError::NoFileName);
    }
    Ok(())
}

/// The output directory as it prefixes every path written under it.
fn root_string(out: &str) -> (r: String)
    ensures
        r@ == root_of(out@),
{
    let mut r = out.to_owned();
    let n = out.unicode_len();
    if n > 0 && !char_is_sep(out.get_char(n - 1)) {
        proof {
            reveal_strlit("/");
        }
        r.append("/");
    }
    r
}

/// Plans the extraction of the entry `rel` under the output directory `out`:
/// refused exactly when the path is unsafe, else the directories to create,
/// outermost first, and the file to write.
pub fn plan_entry(out: &str, rel: &str) -> (r: Result<EntryPlan, PathError>)
    ensures
        is_safe_entry_path(rel@) <==> r is Ok,
        r matches Err(e) ==> path_verdict(rel@) == Err::<(), PathError>(e),
        r matches Ok(plan) ==> plan.target@ == target_of(out@, rel@) && plan.dirs_view()
            == dir_chain(out@, rel@),
{
    match check_entry_path(rel) {
        Err(e) => Err(e),
        Ok(()) => {
            let root = root_string(out);
            let mut target = root.clone();
            let mut dirs: Vec<String> = Vec::new();
            let n = rel.unicode_len();
            let mut i: usize = 0;
            while i < n
                invariant
                    n == rel@.len(),
                    i <= n,
                    root@ == root_of(out@),
                    target@ == root_of(out@) + normalized(rel@).subrange(0, i as int),
                    dirs@.map_values(|d: String| d@) == chain_upto(out@, rel@, i as nat),
                decreases n - i,
            {
                let c = rel.get_char(i);
                proof {
                    reveal_strlit("/");
                }
                if char_is_sep(c) {
                    dirs.push(target.clone());
                    target.append("/");
                } else {
                    let one = rel.substring_char(i, i + 1);
                    assert(one@ =~= seq![c]);
                    target.append(one);
                }
                assert(normalized(rel@).subrange(0, i + 1) =~= normalized(rel@).subrange(
                    0,
                    i as int,
                ).push(normalized(rel@)[i as int]));
                assert(target@ =~= root_of(out@) + normalized(rel@).subrange(0, i + 1));
                assert(dirs@.map_values(|d: String| d@) =~= chain_upto(out@, rel@, (i + 1) as nat));
                i += 1;
            }
            assert(normalized(rel@).subrange(0, n as int) =~= normalized(rel@));
            Ok(EntryPlan { dirs, target })
        },
    }
}

} // verus!
