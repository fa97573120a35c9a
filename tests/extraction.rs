use tw_unpack::entry_path::{check_entry_path, plan_entry, EntryPlan, PathError};
use tw_unpack::report::{EntryOutcome, FailureKind, PackSession, RunReport};

fn plan(out: &str, rel: &str) -> EntryPlan {
    plan_entry(out, rel).expect("safe entry path")
}

fn written_pack(pack: &str, out: &str, entries: &[&str]) -> PackSession {
    let mut s = PackSession::new(pack.to_string(), out.to_string());
    for rel in entries {
        let p = s.plan(rel).expect("planned");
        s.record(rel, &p, EntryOutcome::Written);
    }
    s
}

#[test]
fn nested_entry_creates_each_parent_directory_first() {
    let p = plan("out", "a/b/c.txt");
    assert_eq!(p.dirs, vec!["out/a".to_string(), "out/a/b".to_string()]);
    assert_eq!(p.target, "out/a/b/c.txt");
}

#[test]
fn sibling_entry_reuses_an_existing_directory() {
    let first = plan("out", "a/x.txt");
    let second = plan("out", "a/b/c.txt");
    assert_eq!(first.dirs, vec!["out/a".to_string()]);
    assert_eq!(second.dirs[0], first.dirs[0]);
}

#[test]
fn backslash_separators_are_written_as_slashes() {
    let p = plan("out/", "db\\units\\data");
    assert_eq!(p.dirs, vec!["out/db".to_string(), "out/db/units".to_string()]);
    assert_eq!(p.target, "out/db/units/data");
}

#[test]
fn empty_output_directory_keeps_the_path_relative() {
    let p = plan("", "x.txt");
    assert!(p.dirs.is_empty());
    assert_eq!(p.target, "x.txt");
}

#[test]
fn output_directory_with_trailing_separator_is_not_doubled() {
    assert_eq!(plan("/tmp/out/", "f").target, "/tmp/out/f");
    assert_eq!(plan("/tmp/out", "f").target, "/tmp/out/f");
}

#[test]
fn parent_segment_is_refused() {
    assert_eq!(check_entry_path("../evil.txt"), Err(PathError::ParentSegment));
    assert_eq!(check_entry_path("a/../../evil.txt"), Err(PathError::ParentSegment));
    assert_eq!(check_entry_path("a\\..\\b"), Err(PathError::ParentSegment));
    assert_eq!(check_entry_path("a/.."), Err(PathError::ParentSegment));
    assert_eq!(plan_entry("out", "../evil.txt"), Err(PathError::ParentSegment));
}

#[test]
fn absolute_path_is_refused() {
    assert_eq!(check_entry_path("/etc/passwd"), Err(PathError::Absolute));
    assert_eq!(check_entry_path("\\evil"), Err(PathError::Absolute));
    assert_eq!(check_entry_path("C:\\evil.txt"), Err(PathError::Absolute));
    assert_eq!(plan_entry("out", "/etc/passwd"), Err(PathError::Absolute));
}

#[test]
fn dots_inside_names_are_accepted() {
    assert_eq!(check_entry_path("a/..b/c"), Ok(()));
    assert_eq!(check_entry_path("a../b"), Ok(()));
    assert_eq!(check_entry_path("..."), Ok(()));
    assert_eq!(check_entry_path("./a.txt"), Ok(()));
    assert_eq!(check_entry_path("1:x"), Ok(()));
}

#[test]
fn path_without_file_name_is_refused() {
    assert_eq!(check_entry_path(""), Err(PathError::NoFileName));
    assert_eq!(check_entry_path("a/b/"), Err(PathError::NoFileName));
}

#[test]
fn unsafe_entry_is_reported_and_its_siblings_still_extracted() {
    let mut s = PackSession::new("one.pack".to_string(), "out".to_string());
    assert!(s.plan("../evil.txt").is_none());
    assert_eq!(s.failure_count(), 1);
    let p = s.plan("good.txt").expect("planned");
    s.record("good.txt", &p, EntryOutcome::Written);
    assert_eq!(s.written_count(), 1);
    let mut r = RunReport::begin("*.pack").unwrap();
    r.add_pack(s);
    let f = &r.failures()[0];
    assert_eq!(f.pack, "one.pack");
    assert_eq!(f.entry, Some("../evil.txt".to_string()));
    assert_eq!(f.kind, FailureKind::UnsafePath(PathError::ParentSegment));
    assert_eq!(r.written_count(), 1);
}

#[test]
fn retrieval_failure_stops_the_pack() {
    let mut s = PackSession::new("p.pack".to_string(), "out".to_string());
    let p = s.plan("a.txt").unwrap();
    s.record("a.txt", &p, EntryOutcome::RetrievalFailed("corrupt".to_string()));
    assert!(s.is_stopped());
    assert!(s.plan("b.txt").is_none());
    assert_eq!(s.failure_count(), 1);
    assert_eq!(s.written_count(), 0);
}

#[test]
fn write_failures_do_not_stop_the_pack() {
    let mut s = PackSession::new("p.pack".to_string(), "out".to_string());
    let p = s.plan("a/x.txt").unwrap();
    s.record("a/x.txt", &p, EntryOutcome::CreateDirFailed("denied".to_string()));
    let p = s.plan("y.txt").unwrap();
    s.record("y.txt", &p, EntryOutcome::WriteFailed("disk full".to_string()));
    assert!(!s.is_stopped());
    let p = s.plan("z.txt").unwrap();
    s.record("z.txt", &p, EntryOutcome::Written);
    assert_eq!(s.failure_count(), 2);
    assert_eq!(s.written_count(), 1);
    let mut r = RunReport::begin("p.pack").unwrap();
    r.add_pack(s);
    assert_eq!(r.failures()[0].kind, FailureKind::CreateDir("denied".to_string()));
    assert_eq!(r.failures()[1].kind, FailureKind::Write("disk full".to_string()));
    assert_eq!(r.failures()[1].entry, Some("y.txt".to_string()));
    assert_eq!(r.exit_code(), 1);
}

#[test]
fn pattern_matching_nothing_ends_without_error() {
    let r = RunReport::begin("no_such_dir/*.pack").unwrap();
    assert_eq!(r.written_count(), 0);
    assert!(r.failures().is_empty());
    assert_eq!(r.exit_code(), 0);
}

#[test]
fn malformed_pattern_is_refused_before_any_work() {
    assert!(RunReport::begin("a***").is_err());
    assert!(RunReport::begin("[abc").is_err());
    assert!(RunReport::begin("a**b").is_err());
    let e = RunReport::begin("[abc").err().unwrap();
    assert_eq!(e.pos, 0);
    assert!(RunReport::begin("**/*.pack").is_ok());
    assert!(RunReport::begin("data_[0-9].pack").is_ok());
}

#[test]
fn unparsable_pack_is_reported_by_path_and_writes_nothing() {
    let mut r = RunReport::begin("*.pack").unwrap();
    r.parse_failed("random.pack".to_string(), "InvalidFileError".to_string());
    assert_eq!(r.written_count(), 0);
    assert_eq!(r.failures().len(), 1);
    assert_eq!(r.failures()[0].pack, "random.pack");
    assert_eq!(r.failures()[0].entry, None);
    assert_eq!(r.failures()[0].kind, FailureKind::Parse("InvalidFileError".to_string()));
    assert_eq!(r.exit_code(), 1);
}

#[test]
fn corrupt_second_pack_leaves_first_and_third_extracted() {
    let mut r = RunReport::begin("*.pack").unwrap();
    r.add_pack(written_pack("one.pack", "out", &["a.txt", "d/b.txt"]));
    r.parse_failed("two.pack".to_string(), "InvalidHeaderError".to_string());
    r.add_pack(written_pack("three.pack", "out", &["c.txt"]));
    assert_eq!(r.written_count(), 3);
    assert_eq!(r.failures().len(), 1);
    assert_eq!(r.failures()[0].pack, "two.pack");
    assert_eq!(r.exit_code(), 1);
}

#[test]
fn open_and_traversal_failures_are_reported() {
    let mut r = RunReport::begin("*").unwrap();
    r.open_failed("gone.pack".to_string(), "not found".to_string());
    r.traversal_failed("locked".to_string(), "permission denied".to_string());
    assert_eq!(r.failures()[0].kind, FailureKind::Open("not found".to_string()));
    assert_eq!(r.failures()[1].kind, FailureKind::Traversal("permission denied".to_string()));
    assert_eq!(r.failures()[1].pack, "locked");
}

#[test]
fn planning_the_same_entry_twice_gives_the_same_plan() {
    assert_eq!(plan("out", "a/b/c.txt"), plan("out", "a/b/c.txt"));
}
