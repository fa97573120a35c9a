//! A model of the files and directories that an extraction leaves under the
//! output directory, and the laws that extraction obeys in it.
use vstd::prelude::*;
use crate::entry_path::{
    chain_upto,
    dir_chain,
    has_parent_segment,
    is_absolute,
    is_safe_entry_path,
    is_sep,
    normalized,
    parent_segment_at,
    root_of,
    target_of,
};

verus! {

/// Directories by path, and files by path with their bytes.
pub struct FsModel {
    pub dirs: Set<Seq<char>>,
    pub files: Map<Seq<char>, Seq<u8>>,
}

/// An entry of a pack: its relative path and its payload.
pub type EntryModel = (Seq<char>, Seq<u8>);

/// Extracting one entry: its directory chain is created where missing, and
/// its file is created or overwritten. An entry with an unsafe path changes
/// nothing.
pub open spec fn extract_entry(fs: FsModel, out: Seq<char>, e: EntryModel) -> FsModel {
    if is_safe_entry_path(e.0) {
        FsModel {
            dirs: fs.dirs + dir_chain(out, e.0).to_set(),
            files: fs.files.insert(target_of(out, e.0), e.1),
        }
    } else {
        fs
    }
}

/// Extracting the entries of a pack in order.
pub open spec fn extract_all(fs: FsModel, out: Seq<char>, es: Seq<EntryModel>) -> FsModel
    decreases es.len(),
{
    if es.len() == 0 {
        fs
    } else {
        extract_all(extract_entry(fs, out, es[0]), out, es.drop_first())
    }
}

/// The files that extracting `es` writes.
pub open spec fn targets(out: Seq<char>, es: Seq<EntryModel>) -> Set<Seq<char>>
    decreases es.len(),
{
    if es.len() == 0 {
        Set::empty()
    } else {
        let rest = targets(out, es.drop_first());
        if is_safe_entry_path(es[0].0) {
            rest.insert(target_of(out, es[0].0))
        } else {
            rest
        }
    }
}

/// The directories that extracting `es` creates where missing.
pub open spec fn created_dirs(out: Seq<char>, es: Seq<EntryModel>) -> Set<Seq<char>>
    decreases es.len(),
{
    if es.len() == 0 {
        Set::empty()
    } else {
        let rest = created_dirs(out, es.drop_first());
        if is_safe_entry_path(es[0].0) {
            dir_chain(out, es[0].0).to_set() + rest
        } else {
            rest
        }
    }
}

/// Two filesystems with the same files outside `t`.
pub open spec fn agree_outside(a: Map<Seq<char>, Seq<u8>>, b: Map<Seq<char>, Seq<u8>>, t: Set<Seq<char>>) -> bool {
    forall|k: Seq<char>| !(#[trigger] t.contains(k)) ==> (a.contains_key(k) == b.contains_key(k) && (a.contains_key(k) ==> a[k] == b[k]))
}

proof fn lemma_extract_all_dirs(fs: FsModel, out: Seq<char>, es: Seq<EntryModel>)
    ensures
        extract_all(fs, out, es).dirs == fs.dirs + created_dirs(out, es),
    decreases es.len(),
{
    if es.len() == 0 {
        assert(fs.dirs + Set::empty() =~= fs.dirs);
    } else {
        lemma_extract_all_dirs(extract_entry(fs, out, es[0]), out, es.drop_first());
        assert(extract_all(fs, out, es).dirs =~= fs.dirs + created_dirs(out, es));
    }
}

proof fn lemma_extract_all_files_outside(fs: FsModel, out: Seq<char>, es: Seq<EntryModel>)
    ensures
        agree_outside(extract_all(fs, out, es).files, fs.files, targets(out, es)),
    decreases es.len(),
{
    if es.len() > 0 {
        lemma_extract_all_files_outside(extract_entry(fs, out, es[0]), out, es.drop_first());
    }
}

/// Extraction from two filesystems that differ only where it writes ends in
/// the same filesystem.
proof fn lemma_extract_all_converges(a: FsModel, b: FsModel, out: Seq<char>, es: Seq<EntryModel>)
    requires
        a.dirs + created_dirs(out, es) == b.dirs + created_dirs(out, es),
        agree_outside(a.files, b.files, targets(out, es)),
    ensures
        extract_all(a, out, es) == extract_all(b, out, es),
    decreases es.len(),
{
    if es.len() == 0 {
        assert(a.dirs =~= a.dirs + created_dirs(out, es));
        assert(b.dirs =~= b.dirs + created_dirs(out, es));
        assert forall|k: Seq<char>| #![auto] a.files.contains_key(k) == b.files.contains_key(k) by {
            assert(!targets(out, es).contains(k));
        }
        assert(a.files.dom() =~= b.files.dom());
        assert forall|k: Seq<char>| #![auto] a.files.contains_key(k) implies a.files[k] == b.files[k] by {
            assert(!targets(out, es).contains(k));
        }
        assert(a.files =~= b.files);
    } else {
        let e = es[0];
        let rest = es.drop_first();
        let a1 = extract_entry(a, out, e);
        let b1 = extract_entry(b, out, e);
        if is_safe_entry_path(e.0) {
            let c = dir_chain(out, e.0).to_set();
            let d = created_dirs(out, rest);
            assert(a1.dirs + d =~= a.dirs + (c + d));
            assert(b1.dirs + d =~= b.dirs + (c + d));
        }
        assert forall|k: Seq<char>| !(#[trigger] targets(out, rest).contains(k)) implies (a1.files.contains_key(k)
            == b1.files.contains_key(k) && (a1.files.contains_key(k) ==> a1.files[k]
            == b1.files[k])) by {
            if !(is_safe_entry_path(e.0) && k == target_of(out, e.0)) {
                assert(!targets(out, es).contains(k));
            }
        }
        assert(agree_outside(a1.files, b1.files, targets(out, rest)));
        lemma_extract_all_converges(a1, b1, out, rest);
    }
}

/// Extracting a pack a second time into the same place leaves exactly what
/// one extraction left: every write overwrites, and every directory it
/// creates already exists.
pub proof fn lemma_extract_twice_same_as_once(fs: FsModel, out: Seq<char>, es: Seq<EntryModel>)
    ensures
        extract_all(extract_all(fs, out, es), out, es) == extract_all(fs, out, es),
{
    let once = extract_all(fs, out, es);
    lemma_extract_all_dirs(fs, out, es);
    lemma_extract_all_files_outside(fs, out, es);
    assert(once.dirs + created_dirs(out, es) =~= fs.dirs + created_dirs(out, es));
    lemma_extract_all_converges(once, fs, out, es);
}

proof fn lemma_chain_upto_shape(out: Seq<char>, rel: Seq<char>, n: nat)
    requires
        n <= rel.len(),
    ensures
        forall|i: int|
            0 <= i < chain_upto(out, rel, n).len() ==> {
                let d = #[trigger] chain_upto(out, rel, n)[i];
                &&& root_of(out).len() <= d.len() < root_of(out).len() + n
                &&& d == target_of(out, rel).subrange(0, d.len() as int)
                &&& target_of(out, rel)[d.len() as int] == '/'
            },
        forall|i: int, j: int|
            0 <= i < j < chain_upto(out, rel, n).len() ==> (#[trigger] chain_upto(out, rel, n)[i]).len()
                < (#[trigger] chain_upto(out, rel, n)[j]).len(),
    decreases n,
{
    if n > 0 {
        let prev = chain_upto(out, rel, (n - 1) as nat);
        let t = target_of(out, rel);
        lemma_chain_upto_shape(out, rel, (n - 1) as nat);
        if is_sep(rel[n - 1]) {
            let d = root_of(out) + normalized(rel).subrange(0, n - 1);
            assert(d =~= t.subrange(0, d.len() as int));
            assert(t[d.len() as int] == normalized(rel)[n - 1]);
            let c = prev.push(d);
            assert(c == chain_upto(out, rel, n));
            assert forall|i: int| 0 <= i < c.len() implies {
                let x = #[trigger] c[i];
                &&& root_of(out).len() <= x.len() < root_of(out).len() + n
                &&& x == t.subrange(0, x.len() as int)
                &&& t[x.len() as int] == '/'
            } by {
                if i < prev.len() {
                    assert(c[i] == prev[i]);
                }
            }
            assert forall|i: int, j: int| 0 <= i < j < c.len() implies (#[trigger] c[i]).len() < (
            #[trigger] c[j]).len() by {
                assert(c[i] == prev[i]);
                if j < prev.len() {
                    assert(c[j] == prev[j]);
                }
            }
        }
    }
}

/// The directories created for an entry lead to its file: each lies on the
/// way to the file, each is created before those it contains, and all of
/// them before the file is written. Directories that already exist are no
/// obstacle: creating them again changes nothing.
pub proof fn lemma_dir_chain_leads_to_target(fs: FsModel, out: Seq<char>, e: EntryModel)
    ensures
        is_safe_entry_path(e.0) && dir_chain(out, e.0).to_set().subset_of(fs.dirs) ==> extract_entry(
            fs,
            out,
            e,
        ).dirs == fs.dirs,
        forall|i: int|
            0 <= i < dir_chain(out, e.0).len() ==> {
                let d = #[trigger] dir_chain(out, e.0)[i];
                &&& d.len() < target_of(out, e.0).len()
                &&& d == target_of(out, e.0).subrange(0, d.len() as int)
                &&& target_of(out, e.0)[d.len() as int] == '/'
            },
        forall|i: int, j: int|
            0 <= i < j < dir_chain(out, e.0).len() ==> (#[trigger] dir_chain(out, e.0)[i]).len()
                < (#[trigger] dir_chain(out, e.0)[j]).len(),
{
    lemma_chain_upto_shape(out, e.0, e.0.len());
    if is_safe_entry_path(e.0) && dir_chain(out, e.0).to_set().subset_of(fs.dirs) {
        assert(extract_entry(fs, out, e).dirs =~= fs.dirs);
    }
}

/// An entry whose path is safe is written below the output directory, by a
/// relative path that cannot climb out of it; an entry whose path is unsafe
/// changes nothing.
pub proof fn lemma_writes_stay_under_root(fs: FsModel, out: Seq<char>, e: EntryModel)
    ensures
        is_safe_entry_path(e.0) ==> {
            &&& target_of(out, e.0) == root_of(out) + normalized(e.0)
            &&& !is_absolute(normalized(e.0))
            &&& !has_parent_segment(normalized(e.0))
            &&& forall|i: int|
                0 <= i < dir_chain(out, e.0).len() ==> (#[trigger] dir_chain(out, e.0)[i]).subrange(
                    0,
                    root_of(out).len() as int,
                ) == root_of(out)
        },
        !is_safe_entry_path(e.0) ==> extract_entry(fs, out, e) == fs,
{
    let p = e.0;
    let np = normalized(p);
    if is_safe_entry_path(p) {
        assert forall|i: int| !parent_segment_at(np, i) by {
            if parent_segment_at(np, i) {
                assert(parent_segment_at(p, i));
            }
        }
        lemma_chain_upto_shape(out, p, p.len());
        assert forall|i: int|
            0 <= i < dir_chain(out, p).len() implies (#[trigger] dir_chain(out, p)[i]).subrange(
            0,
            root_of(out).len() as int,
        ) == root_of(out) by {
            let d = dir_chain(out, p)[i];
            assert(d.subrange(0, root_of(out).len() as int) =~= target_of(out, p).subrange(
                0,
                root_of(out).len() as int,
            ));
            assert(target_of(out, p).subrange(0, root_of(out).len() as int) =~= root_of(out));
        }
    }
}

} // verus!
