use match_core::recovery::loader::Loader;
use match_core::storage::manifest::Manifest;
use match_core::storage::snapshot_store::snapshot_path;

#[test]
fn manifest_render_without_snapshot() {
    let m = Manifest::new("/data/wal.log");
    assert_eq!(m.render(), "snapshot=\nwal=/data/wal.log");
}

#[test]
fn manifest_render_with_snapshot() {
    let mut m = Manifest::new("/data/wal.log");
    m.current_snapshot = Some("/data/snapshots/snapshot-7.bin".to_string());
    assert_eq!(m.render(), "snapshot=/data/snapshots/snapshot-7.bin\nwal=/data/wal.log");
}

#[test]
fn manifest_parse_reads_back_render() {
    let mut m = Manifest::new("/data/wal.log");
    m.current_snapshot = Some("/data/s-1.bin".to_string());
    let back = Manifest::parse(&m.render());
    assert_eq!(back.current_snapshot, Some("/data/s-1.bin".to_string()));
    assert_eq!(back.wal_path, "/data/wal.log");

    let empty = Manifest::parse(&Manifest::new("w.log").render());
    assert_eq!(empty.current_snapshot, None);
    assert_eq!(empty.wal_path, "w.log");
}

#[test]
fn manifest_parse_later_lines_win_and_empty_snapshot_keeps_earlier() {
    let m = Manifest::parse("snapshot=a\nwal=x\nsnapshot=\nother=1\nwal=y\r\n");
    assert_eq!(m.current_snapshot, Some("a".to_string()));
    assert_eq!(m.wal_path, "y");
}

#[test]
fn manifest_parse_removes_every_key_occurrence() {
    let m = Manifest::parse("snapshot=pre-snapshot=post\nwal=a/wal=b");
    assert_eq!(m.current_snapshot, Some("pre-post".to_string()));
    assert_eq!(m.wal_path, "a/b");
}

#[test]
fn manifest_parse_of_empty_text() {
    let m = Manifest::parse("");
    assert_eq!(m.current_snapshot, None);
    assert_eq!(m.wal_path, "");
}

#[test]
fn loaded_state_splits_log_lines() {
    let st = Loader::loaded_state(Some(vec![1, 2, 3]), Some("foo\r\nbar\n\nbaz\r"));
    assert_eq!(st.snapshot, Some(vec![1, 2, 3]));
    assert_eq!(st.wal_entries, vec!["foo", "bar", "", "baz\r"]);
}

#[test]
fn loaded_state_without_log() {
    let st = Loader::loaded_state(None, None);
    assert_eq!(st.snapshot, None);
    assert!(st.wal_entries.is_empty());
    let st = Loader::loaded_state(None, Some("CMD|1|x\n"));
    assert_eq!(st.wal_entries, vec!["CMD|1|x"]);
}

#[test]
fn snapshot_path_names_the_second() {
    assert_eq!(snapshot_path("data/snapshots", 1700000000), "data/snapshots/snapshot-1700000000.bin");
    assert_eq!(snapshot_path("", 0), "/snapshot-0.bin");
}
