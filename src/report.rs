//! The decisions of a run: which entries of a pack are written, when a pack
//! stops, and what every failure is reported as. Each failure is scoped to
//! its pack or entry, so one bad pack never stops the others.
use vstd::prelude::*;
use crate::entry_path::{EntryPlan, PathError, plan_entry, path_verdict, target_of, dir_chain};
use crate::pattern::{PatternSyntaxError, compile_glob, glob_pattern_valid};

verus! {

/// What went wrong, with the underlying cause where there is one.
#[derive(Clone, Debug, PartialEq, Eq)]
pub enum FailureKind {
    /// A directory could not be read while the pattern was expanded.
    Traversal(String),
    /// The pack file could not be opened.
    Open(String),
    /// The pack file is not a valid container.
    Parse(String),
    /// The entry's path could leave the output directory.
    UnsafePath(PathError),
    /// The entry's payload could not be retrieved.
    Retrieval(String),
    /// A directory on the way to the entry's file could not be created.
    CreateDir(String),
    /// The entry's file could not be written.
    Write(String),
}

/// One reported failure: the pack (or the path the pattern met), the entry
/// where there is one, and what happened.
#[derive(Clone, Debug, PartialEq, Eq)]
pub struct Failure {
    pub pack: String,
    pub entry: Option<String>,
    pub kind: FailureKind,
}

/// What became of an entry that was planned.
#[derive(Clone, Debug, PartialEq, Eq)]
pub enum EntryOutcome {
    Written,
    RetrievalFailed(String),
    CreateDirFailed(String),
    WriteFailed(String),
}

/// The failure that an outcome other than `Written` reports.
pub open spec fn outcome_failure(o: EntryOutcome) -> Option<
    FailureKind,
> {
    match o {
        EntryOutcome::Written => None,
        EntryOutcome::RetrievalFailed(c) => Some(FailureKind::Retrieval(c)),
        EntryOutcome::CreateDirFailed(c) => Some(FailureKind::CreateDir(c)),
        EntryOutcome::WriteFailed(c) => Some(FailureKind::Write(c)),
    }
}

/// `after` is `before` with one more failure, of the entry `rel` of `pack`.
pub open spec fn one_entry_failure_added(
    before: Seq<Failure>,
    after: Seq<Failure>,
    pack: Seq<char>,
    rel: Seq<char>,
    kind: FailureKind,
) -> bool {
    &&& after.len() == before.len() + 1
    &&& after.drop_last() == before
    &&& after.last().pack@ == pack
    &&& after.last().entry matches Some(en) && en@ == rel
    &&& after.last().kind == kind
}

/// The extraction of one pack whose container was parsed.
pub struct PackSession {
    pack: String,
    out: String,
    stopped: bool,
    written: Vec<String>,
    failures: Vec<Failure>,
}

impl PackSession {
    pub closed spec fn pack_view(&self) -> Seq<char> {
        self.pack@
    }

    pub closed spec fn out_view(&self) -> Seq<char> {
        self.out@
    }

    /// No further entry of the pack is extracted.
    pub closed spec fn stopped_view(&self) -> bool {
        self.stopped
    }

    /// The files written so far, in order.
    pub closed spec fn written_view(&self) -> Seq<Seq<char>> {
        self.written@.map_values(|w: String| w@)
    }

    /// The failures reported so far, in order.
    pub closed spec fn failures_view(&self) -> Seq<Failure> {
        self.failures@
    }

    /// Starts extracting the pack at `pack` into the directory `out`.
    pub fn new(pack: String, out: String) -> (r: PackSession)
        ensures
            r.pack_view() == pack@,
            r.out_view() == out@,
            !r.stopped_view(),
            r.written_view() == Seq::<Seq<char>>::empty(),
            r.failures_view() == Seq::<Failure>::empty(),
    {
        let r = PackSession { pack, out, stopped: false, written: Vec::new(), failures: Vec::new() };
        assert(r.written_view() =~= Seq::<Seq<char>>::empty());
        r
    }

    pub fn pack(&self) -> (r: &String)
        ensures
            r@ == self.pack_view(),
    {
        &self.pack
    }

    pub fn is_stopped(&self) -> (r: bool)
        ensures
            r == self.stopped_view(),
    {
        self.stopped
    }

    pub fn failure_count(&self) -> (r: usize)
        ensures
            r == self.failures_view().len(),
    {
        self.failures.len()
    }

    pub fn written_count(&self) -> (r: usize)
        ensures
            r == self.written_view().len(),
    {
        self.written.len()
    }

    /// Decides whether the entry `rel` is extracted. After the pack stopped,
    /// nothing is. An unsafe path is reported as a failure of that entry and
    /// skipped; the entries after it are still extracted.
    pub fn plan(&mut self, rel: &str) -> (r: Option<EntryPlan>)
        ensures
            final(self).pack_view() == old(self).pack_view(),
            final(self).out_view() == old(self).out_view(),
            final(self).stopped_view() == old(self).stopped_view(),
            final(self).written_view() == old(self).written_view(),
            old(self).stopped_view() ==> r is None && final(self).failures_view() == old(
                self,
            ).failures_view(),
            !old(self).stopped_view() ==> match path_verdict(rel@) {
                Ok(()) => r matches Some(p) && p.target@ == target_of(old(self).out_view(), rel@)
                    && p.dirs_view() == dir_chain(old(self).out_view(), rel@)
                    && final(self).failures_view() == old(self).failures_view(),
                Err(e) => r is None && one_entry_failure_added(
                    old(self).failures_view(),
                    final(self).failures_view(),
                    old(self).pack_view(),
                    rel@,
                    FailureKind::UnsafePath(e),
                ),
            },
    {
        if self.stopped {
            return None;
        }
        match plan_entry(self.out.as_str(), rel) {
            Ok(p) => Some(p),
            Err(e) => {
                let f = Failure {
                    pack: self.pack.clone(),
                    entry: Some(rel.to_owned()),
                    kind: FailureKind::UnsafePath(e),
                };
                self.failures.push(f);
                assert(self.failures@.drop_last() =~= old(self).failures@);
                None
            },
        }
    }

    /// Records what became of a planned entry. A written file is kept in
    /// order; every other outcome is reported with the pack and the entry. A
    /// payload that cannot be retrieved stops the pack: the data behind the
    /// entries that follow cannot be trusted.
    pub fn record(&mut self, rel: &str, plan: &EntryPlan, outcome: EntryOutcome)
        ensures
            final(self).pack_view() == old(self).pack_view(),
            final(self).out_view() == old(self).out_view(),
            final(self).stopped_view() == (old(self).stopped_view()
                || outcome is RetrievalFailed),
            outcome is Written ==> final(self).written_view() == old(self).written_view().push(
                plan.target@,
            ) && final(self).failures_view() == old(self).failures_view(),
            !(outcome is Written) ==> final(self).written_view() == old(self).written_view(),
            outcome_failure(outcome) matches Some(k) ==> one_entry_failure_added(
                old(self).failures_view(),
                final(self).failures_view(),
                old(self).pack_view(),
                rel@,
                k,
            ),
    {
        let kind = match outcome {
            EntryOutcome::Written => {
                self.written.push(plan.target.clone());
                assert(self.written_view() =~= old(self).written_view().push(plan.target@));
                return ;
            },
            EntryOutcome::RetrievalFailed(c) => {
                self.stopped = true;
                FailureKind::Retrieval(c)
            },
            EntryOutcome::CreateDirFailed(c) => FailureKind::CreateDir(c),
            EntryOutcome::WriteFailed(c) => FailureKind::Write(c),
        };
        let f = Failure { pack: self.pack.clone(), entry: Some(rel.to_owned()), kind };
        self.failures.push(f);
        assert(self.failures@.drop_last() =~= old(self).failures@);
    }
}

/// The account of a whole run: every file written and every failure, in the
/// order they happened.
pub struct RunReport {
    written: Vec<String>,
    failures: Vec<Failure>,
}

/// `after` is `before` with the pack of session `s` added.
pub open spec fn adds_pack(before: RunReport, after: RunReport, s: PackSession) -> bool {
    &&& after.written_view() == before.written_view() + s.written_view()
    &&& after.failures_view() == before.failures_view() + s.failures_view()
}

/// `after` is `before` with one failure of the whole pack `pack` added.
pub open spec fn adds_pack_failure(
    before: RunReport,
    after: RunReport,
    pack: String,
    kind: FailureKind,
) -> bool {
    &&& after.written_view() == before.written_view()
    &&& after.failures_view() == before.failures_view().push(
        (Failure { pack: pack, entry: None, kind: kind }),
    )
}

impl RunReport {
    /// The files written, in order.
    pub closed spec fn written_view(&self) -> Seq<Seq<char>> {
        self.written@.map_values(|w: String| w@)
    }

    /// The failures reported, in order.
    pub closed spec fn failures_view(&self) -> Seq<Failure> {
        self.failures@
    }

    /// Begins a run over the packs that `pattern` selects: refused, before
    /// any pack is touched, exactly when the pattern is malformed.
    pub fn begin(pattern: &str) -> (r: Result<RunReport, PatternSyntaxError>)
        ensures
            r is Ok <==> glob_pattern_valid(pattern@),
            (forall|i: int| 0 <= i < pattern@.len() ==> pattern@[i] != '*' && pattern@[i] != '[')
                ==> r is Ok,
            r matches Ok(rep) ==> rep.written_view() == Seq::<Seq<char>>::empty()
                && rep.failures_view() == Seq::<Failure>::empty(),
    {
        match compile_glob(pattern) {
            Err(e) => Err(e),
            Ok(()) => {
                let rep = RunReport { written: Vec::new(), failures: Vec::new() };
                assert(rep.written_view() =~= Seq::<Seq<char>>::empty());
                Ok(rep)
            },
        }
    }

    /// Adds the outcome of a pack that was parsed.
    pub fn add_pack(&mut self, s: PackSession)
        ensures
            adds_pack(*old(self), *final(self), s),
    {
        let ghost sw = s.written_view();
        let PackSession { mut written, mut failures, .. } = s;
        self.written.append(&mut written);
        self.failures.append(&mut failures);
        assert(self.written_view() =~= old(self).written_view() + sw);
    }

    fn add_pack_failure(&mut self, pack: String, kind: FailureKind)
        ensures
            adds_pack_failure(*old(self), *final(self), pack, kind),
    {
        self.failures.push(Failure { pack, entry: None, kind });
    }

    /// Reports a path that the pattern met but could not read.
    pub fn traversal_failed(&mut self, path: String, cause: String)
        ensures
            adds_pack_failure(*old(self), *final(self), path, FailureKind::Traversal(cause)),
    {
        self.add_pack_failure(path, FailureKind::Traversal(cause));
    }

    /// Reports a pack that could not be opened; no file of it is written.
    pub fn open_failed(&mut self, pack: String, cause: String)
        ensures
            adds_pack_failure(*old(self), *final(self), pack, FailureKind::Open(cause)),
    {
        self.add_pack_failure(pack, FailureKind::Open(cause));
    }

    /// Reports a pack that is not a valid container; no file of it is written.
    pub fn parse_failed(&mut self, pack: String, cause: String)
        ensures
            adds_pack_failure(*old(self), *final(self), pack, FailureKind::Parse(cause)),
    {
        self.add_pack_failure(pack, FailureKind::Parse(cause));
    }

    pub fn written_count(&self) -> (r: usize)
        ensures
            r == self.written_view().len(),
    {
        self.written.len()
    }

    pub fn failures(&self) -> (r: &Vec<Failure>)
        ensures
            r@ == self.failures_view(),
    {
        &self.failures
    }

    /// The status the run ends with: zero exactly when nothing failed.
    pub fn exit_code(&self) -> (r: u8)
        ensures
            r == 0 <==> self.failures_view().len() == 0,
            r == 0 || r == 1,
    {
        if self.failures.len() == 0 {
            0
        } else {
            1
        }
    }
}

/// A pack that is not a valid container leaves the files of the run as they
/// were and is reported once, by its path, as a decode failure.
pub proof fn lemma_unparsable_pack_writes_nothing(
    before: RunReport,
    after: RunReport,
    pack: String,
    cause: String,
)
    requires
        adds_pack_failure(before, after, pack, FailureKind::Parse(cause)),
    ensures
        after.written_view() == before.written_view(),
        after.failures_view().len() == before.failures_view().len() + 1,
        after.failures_view().last().pack == pack,
        after.failures_view().last().entry is None,
        after.failures_view().last().kind is Parse,
{
}

/// Of three packs in a row whose second is corrupt, the files of the first
/// and the third are all written, and the second is reported exactly once.
pub proof fn lemma_corrupt_pack_isolated(
    r0: RunReport,
    r1: RunReport,
    r2: RunReport,
    r3: RunReport,
    first: PackSession,
    second: String,
    cause: String,
    third: PackSession,
)
    requires
        adds_pack(r0, r1, first),
        adds_pack_failure(r1, r2, second, FailureKind::Parse(cause)),
        adds_pack(r2, r3, third),
    ensures
        r3.written_view() == r0.written_view() + first.written_view() + third.written_view(),
        r3.failures_view() == r0.failures_view() + first.failures_view() + seq![
            (Failure { pack: second, entry: None, kind: FailureKind::Parse(cause) }),
        ] + third.failures_view(),
{
    assert(r3.written_view() =~= r0.written_view() + first.written_view()
        + third.written_view());
    assert(r3.failures_view() =~= r0.failures_view() + first.failures_view() + seq![
        (Failure { pack: second, entry: None, kind: FailureKind::Parse(cause) }),
    ] + third.failures_view());
}

} // verus!
