use std::path::PathBuf;

use rssh::walk::{EntryKind, LinkTarget, LocalWalk, LOCAL_WALK_DEPTH_CAP};
use rssh::watch::{
    AttentionThrottle, EventDecision, FileWatch, FsEvent, StatOutcome, WatchAction, WatchInput,
};
use rssh::error::ErrorDetail;

fn visit(w: &mut LocalWalk, path: &str, kind: EntryKind) {
    let p = PathBuf::from(path);
    let name = p.file_name().unwrap().to_string_lossy().into_owned();
    w.visit(p, path.to_string(), name, kind);
}

#[test]
fn walk_lists_files_breadth_first() {
    let mut w = LocalWalk::new(PathBuf::from("/r"), "/r".to_string());
    let d = w.next_dir().unwrap().unwrap();
    assert_eq!(d, PathBuf::from("/r"));
    visit(&mut w, "/r/sub", EntryKind::Dir);
    visit(&mut w, "/r/a.txt", EntryKind::File(5));
    visit(&mut w, "/r/link", EntryKind::Symlink(LinkTarget::File(7)));
    visit(&mut w, "/r/dirlink", EntryKind::Symlink(LinkTarget::NotFile));
    visit(&mut w, "/r/broken", EntryKind::Symlink(LinkTarget::Broken));
    visit(&mut w, "/r/fifo", EntryKind::Special);
    visit(&mut w, "/r/sub2", EntryKind::Dir);
    assert_eq!(w.next_dir().unwrap().unwrap(), PathBuf::from("/r/sub"));
    visit(&mut w, "/r/sub/deep", EntryKind::Dir);
    visit(&mut w, "/r/sub/b.bin", EntryKind::File(0));
    assert_eq!(w.next_dir().unwrap().unwrap(), PathBuf::from("/r/sub2"));
    assert_eq!(w.next_dir().unwrap().unwrap(), PathBuf::from("/r/sub/deep"));
    visit(&mut w, "/r/sub/deep/c", EntryKind::File(1));
    assert!(w.next_dir().unwrap().is_none());
    let found = w.finish();
    let listed: Vec<(String, u64)> = found.into_iter().map(|e| (e.rel_path, e.size)).collect();
    assert_eq!(
        listed,
        vec![
            ("a.txt".to_string(), 5),
            ("link".to_string(), 7),
            ("sub/b.bin".to_string(), 0),
            ("sub/deep/c".to_string(), 1),
        ]
    );
}

#[test]
fn walk_two_level_tree() {
    let mut w = LocalWalk::new(PathBuf::from("/r"), "/r".to_string());
    assert_eq!(w.next_dir().unwrap().unwrap(), PathBuf::from("/r"));
    visit(&mut w, "/r/a.txt", EntryKind::File(3));
    visit(&mut w, "/r/d", EntryKind::Dir);
    assert_eq!(w.next_dir().unwrap().unwrap(), PathBuf::from("/r/d"));
    visit(&mut w, "/r/d/b.txt", EntryKind::File(5));
    assert!(w.next_dir().unwrap().is_none());
    let listed: Vec<(String, u64)> = w.finish().into_iter().map(|e| (e.rel_path, e.size)).collect();
    assert_eq!(listed, vec![("a.txt".to_string(), 3), ("d/b.txt".to_string(), 5)]);
}

#[test]
fn walk_stops_at_depth_cap() {
    let mut w = LocalWalk::new(PathBuf::from("/r"), "/r".to_string());
    let mut path = PathBuf::from("/r");
    let mut levels = 0u32;
    loop {
        match w.next_dir() {
            Ok(Some(dir)) => {
                assert_eq!(dir, path);
                path = path.join("d");
                let shown = path.display().to_string();
                w.visit(path.clone(), shown, "d".to_string(), EntryKind::Dir);
                levels += 1;
            }
            Ok(None) => panic!("walk ended without hitting the cap"),
            Err(e) => {
                assert_eq!(e.code(), "local_tree_too_deep");
                match e.detail {
                    ErrorDetail::TreeTooDeep(p, depth, limit) => {
                        assert_eq!(p, path.display().to_string());
                        assert_eq!(depth, 32);
                        assert_eq!(limit, 32);
                    }
                    other => panic!("unexpected detail {:?}", other),
                }
                break;
            }
        }
    }
    assert_eq!(levels, LOCAL_WALK_DEPTH_CAP);
}

fn event(names: &[Option<&str>], is_remove: bool) -> WatchInput {
    WatchInput::Event(Some(FsEvent {
        file_names: names.iter().map(|n| n.map(|s| s.to_string())).collect(),
        is_remove,
    }))
}

#[test]
fn watch_start_needs_existing_file() {
    assert!(FileWatch::start(Some("f".to_string()), StatOutcome::Missing).is_none());
    assert!(FileWatch::start(Some("f".to_string()), StatOutcome::Present(None)).is_some());
}

#[test]
fn watch_decides_on_events() {
    let mut ended = FileWatch::start(Some("f.txt".to_string()), StatOutcome::Present(Some(10))).unwrap();
    assert_eq!(ended.decide(true, &WatchInput::Tick), EventDecision::Stop);
    assert_eq!(ended.decide(false, &event(&[Some("f.txt")], false)), EventDecision::Stop);
    let mut w = FileWatch::start(Some("f.txt".to_string()), StatOutcome::Present(Some(10))).unwrap();
    assert_eq!(w.decide(false, &WatchInput::Tick), EventDecision::Ignore);
    assert_eq!(w.decide(false, &event(&[Some("other")], false)), EventDecision::Ignore);
    assert_eq!(w.decide(false, &event(&[], false)), EventDecision::Ignore);
    assert_eq!(w.decide(false, &event(&[Some("x"), Some("f.txt")], false)), EventDecision::Debounce);
    assert_eq!(w.decide(false, &event(&[Some("f.txt")], true)), EventDecision::ConfirmRemoval);
    assert_eq!(w.decide(true, &event(&[Some("f.txt")], true)), EventDecision::Stop);
    assert_eq!(w.decide(false, &WatchInput::Tick), EventDecision::Stop);
    let mut closed = FileWatch::start(Some("f.txt".to_string()), StatOutcome::Present(None)).unwrap();
    assert_eq!(closed.decide(false, &WatchInput::Event(None)), EventDecision::Stop);
    assert_eq!(closed.after_stat(StatOutcome::Present(Some(5))), WatchAction::Continue);
}

#[test]
fn watch_reports_only_newer_saves() {
    let mut w = FileWatch::start(Some("f".to_string()), StatOutcome::Present(Some(100))).unwrap();
    assert_eq!(w.after_stat(StatOutcome::Present(Some(100))), WatchAction::Continue);
    assert_eq!(w.after_stat(StatOutcome::Present(Some(50))), WatchAction::Continue);
    assert_eq!(w.after_stat(StatOutcome::Present(None)), WatchAction::Continue);
    assert_eq!(w.after_stat(StatOutcome::Present(Some(101))), WatchAction::Changed);
    assert_eq!(w.after_stat(StatOutcome::Present(Some(101))), WatchAction::Continue);
    assert_eq!(w.after_removal_check(&StatOutcome::Present(Some(1))), WatchAction::Continue);
    assert_eq!(w.after_stat(StatOutcome::Missing), WatchAction::DeletedStop);
    assert_eq!(w.after_stat(StatOutcome::Missing), WatchAction::Continue);
    assert_eq!(w.after_removal_check(&StatOutcome::Missing), WatchAction::Continue);
    assert_eq!(w.after_stat(StatOutcome::Present(Some(1_000))), WatchAction::Continue);
    assert_eq!(w.decide(false, &WatchInput::Tick), EventDecision::Stop);
    let mut v = FileWatch::start(None, StatOutcome::Present(None)).unwrap();
    assert_eq!(v.after_removal_check(&StatOutcome::Missing), WatchAction::DeletedStop);
    assert_eq!(v.after_removal_check(&StatOutcome::Missing), WatchAction::Continue);
}

#[test]
fn watch_without_mtime_starts_at_epoch() {
    let mut w = FileWatch::start(None, StatOutcome::Present(None)).unwrap();
    assert_eq!(w.after_stat(StatOutcome::Present(Some(-5))), WatchAction::Continue);
    assert_eq!(w.after_stat(StatOutcome::Present(Some(1))), WatchAction::Changed);
    assert_eq!(w.decide(false, &event(&[None], false)), EventDecision::Debounce);
}

#[test]
fn attention_is_throttled() {
    let mut t = AttentionThrottle::new();
    assert!(t.request(1_000));
    assert!(!t.request(1_000 + 1_999_999_999));
    assert!(t.request(1_000 + 2_000_000_000));
    assert!(!t.request(500));
    assert!(t.request(10_000_000_000));
}
