use std::path::PathBuf;
use std::sync::atomic::Ordering;

use rssh::edit::{
    abandon_edit, cancel_edit, cancel_edits_for_session, edit_watch_target, plan_edit,
    register_edit, EditSession,
};
use rssh::error::{ErrorDetail, ErrorKind};
use rssh::names::{connect_timeout_secs, parse_u64, remote_filename, upload_remote_path, upload_target};
use rssh::paths::rel_unix;
use rssh::ids::new_id;
use rssh::registry::{get_sftp, get_ssh_session, Registry};
use rssh::text::join_with_slash;
use rssh::transfers::{cancel_transfer, CancelGuard};

fn is_uuid_text(s: &str) -> bool {
    let b: Vec<char> = s.chars().collect();
    b.len() == 36
        && b.iter().enumerate().all(|(i, c)| {
            if i == 8 || i == 13 || i == 18 || i == 23 {
                *c == '-'
            } else {
                c.is_ascii_digit() || ('a'..='f').contains(c)
            }
        })
        && b[14] == '4'
        && "89ab".contains(b[19])
}

#[test]
fn remote_filename_takes_last_segment() {
    assert_eq!(remote_filename("/home/u/notes.txt"), "notes.txt");
    assert_eq!(remote_filename("notes.txt"), "notes.txt");
    assert_eq!(remote_filename("/a/b/.bashrc"), ".bashrc");
}

#[test]
fn remote_filename_falls_back_for_unsafe_names() {
    assert_eq!(remote_filename(""), "file");
    assert_eq!(remote_filename("/home/u/"), "file");
    assert_eq!(remote_filename("/"), "file");
    assert_eq!(remote_filename("."), "file");
    assert_eq!(remote_filename("/a/.."), "file");
    assert_eq!(remote_filename("..\\evil"), "file");
    assert_eq!(remote_filename("/x/a\\b"), "file");
}

#[test]
fn remote_filename_keeps_dots_inside_names() {
    assert_eq!(remote_filename("/x/..."), "...");
    assert_eq!(remote_filename("/x/a..b"), "a..b");
}

#[test]
fn upload_path_root_and_nested() {
    assert_eq!(upload_remote_path("/", "a.txt"), "/a.txt");
    assert_eq!(upload_remote_path("/home/u", "a.txt"), "/home/u/a.txt");
    assert_eq!(upload_remote_path("/home/u/", "a.txt"), "/home/u/a.txt");
    assert_eq!(upload_remote_path("/home/u///", "a.txt"), "/home/u/a.txt");
    assert_eq!(upload_remote_path("", "a.txt"), "/a.txt");
    assert_eq!(upload_remote_path("//", "a.txt"), "/a.txt");
    assert_eq!(upload_remote_path("rel", "a.txt"), "rel/a.txt");
}

#[test]
fn upload_target_requires_file_name() {
    let err = upload_target("/tmp", None).unwrap_err();
    assert_eq!(err.code(), "sftp_invalid_filename");
    assert_eq!(err.kind, ErrorKind::Other);
    let (name, path) = upload_target("/tmp/", Some("x.bin".to_string())).unwrap();
    assert_eq!(name, "x.bin");
    assert_eq!(path, "/tmp/x.bin");
}

#[test]
fn parse_u64_matches_std() {
    for s in [
        "0", "30", "+7", "007", "18446744073709551615", "18446744073709551616", "", "+", "-1",
        " 5", "5 ", "1_000", "٣", "99999999999999999999999",
    ] {
        assert_eq!(parse_u64(s), s.parse::<u64>().ok(), "input {:?}", s);
    }
}

#[test]
fn connect_timeout_reads_setting_or_default() {
    assert_eq!(connect_timeout_secs(Some("30".to_string()), 10), 30);
    assert_eq!(connect_timeout_secs(Some("abc".to_string()), 10), 10);
    assert_eq!(connect_timeout_secs(Some("".to_string()), 10), 10);
    assert_eq!(connect_timeout_secs(None, 10), 10);
}

#[test]
fn registry_map_semantics() {
    let mut r: Registry<u32> = Registry::new();
    assert!(r.insert("a".to_string(), 1).is_none());
    assert!(r.insert("b".to_string(), 2).is_none());
    assert_eq!(r.insert("a".to_string(), 3), Some(1));
    assert_eq!(r.get("a"), Some(&3));
    assert_eq!(r.get("b"), Some(&2));
    assert!(r.contains_key("b"));
    assert_eq!(r.remove("b"), Some(2));
    assert_eq!(r.remove("b"), None);
    assert!(!r.contains_key("b"));
    let mut keys = r.keys();
    keys.sort();
    assert_eq!(keys, vec!["a".to_string()]);
}

#[test]
fn registry_new_ids_are_uuids() {
    let mut r: Registry<u32> = Registry::new();
    let a = r.insert_with_new_id(1, [7u8; 16]);
    let b = r.insert_with_new_id(2, [9u8; 16]);
    assert!(is_uuid_text(&a));
    assert!(is_uuid_text(&b));
    assert_ne!(a, b);
    assert_eq!(r.get(&a), Some(&1));
    assert_eq!(r.get(&b), Some(&2));
}

#[test]
fn get_sftp_not_found() {
    let mut r: Registry<u32> = Registry::new();
    let err = get_sftp(&r, "nope").unwrap_err();
    assert_eq!(err.code(), "sftp_session_not_found");
    assert_eq!(err.kind, ErrorKind::NotFound);
    r.insert("s".to_string(), 9);
    assert_eq!(*get_sftp(&r, "s").unwrap(), 9);
    let err = get_ssh_session(&r, "t").unwrap_err();
    assert_eq!(err.code(), "ssh_session_not_found_msg");
}

#[test]
fn cancel_guard_registers_and_releases() {
    let mut reg = Registry::new();
    let (guard, flag) = CancelGuard::register(&mut reg, "t1".to_string());
    assert_eq!(guard.id(), "t1");
    assert!(reg.contains_key("t1"));
    assert!(!flag.load(Ordering::SeqCst));
    assert!(cancel_transfer(&reg, "t1"));
    assert!(flag.load(Ordering::SeqCst));
    guard.release(&mut reg);
    assert!(!reg.contains_key("t1"));
    assert!(!cancel_transfer(&reg, "t1"));
}

#[test]
fn cancel_unknown_transfer_does_nothing() {
    let mut reg = Registry::new();
    let (_g, flag) = CancelGuard::register(&mut reg, "a".to_string());
    assert!(!cancel_transfer(&reg, "b"));
    assert!(!flag.load(Ordering::SeqCst));
}

#[test]
fn reregistering_replaces_flag() {
    let mut reg = Registry::new();
    let (_g1, f1) = CancelGuard::register(&mut reg, "a".to_string());
    let (_g2, f2) = CancelGuard::register(&mut reg, "a".to_string());
    assert!(cancel_transfer(&reg, "a"));
    assert!(f2.load(Ordering::SeqCst));
    assert!(!f1.load(Ordering::SeqCst));
}

#[test]
fn edit_session_new_is_not_cancelled() {
    let s = EditSession::new(PathBuf::from("/tmp/x/f"), "ssh1".to_string());
    assert_eq!(s.local_path, PathBuf::from("/tmp/x/f"));
    assert_eq!(s.session_id, "ssh1");
    assert!(!s.cancel.load(Ordering::SeqCst));
}

#[test]
fn plan_edit_ids_and_names() {
    let p = plan_edit("/etc/hosts", [1u8; 16]);
    assert!(is_uuid_text(&p.edit_id));
    assert_eq!(p.file_name, "hosts");
    let q = plan_edit("/etc/..", [2u8; 16]);
    assert_eq!(q.file_name, "file");
    assert_ne!(p.edit_id, q.edit_id);
}

#[test]
fn edit_lifecycle() {
    let mut reg = Registry::new();
    let res = register_edit(&mut reg, "e1".to_string(), PathBuf::from("/tmp/e1/f.txt"), "/tmp/e1/f.txt".to_string(), "s1".to_string());
    assert_eq!(res.edit_id, "e1");
    assert_eq!(res.local_path, "/tmp/e1/f.txt");
    let (path, flag) = edit_watch_target(&reg, "e1").unwrap();
    assert_eq!(path, PathBuf::from("/tmp/e1/f.txt"));
    let err = edit_watch_target(&reg, "e2").unwrap_err();
    assert_eq!(err.code(), "sftp_edit_not_found");
    assert_eq!(err.kind, ErrorKind::NotFound);
    let s = cancel_edit(&mut reg, "e1").unwrap();
    assert!(s.cancel.load(Ordering::SeqCst));
    assert!(flag.load(Ordering::SeqCst));
    assert!(cancel_edit(&mut reg, "e1").is_none());
}

#[test]
fn abandon_edit_removes_and_reports() {
    let mut reg = Registry::new();
    register_edit(&mut reg, "e1".to_string(), PathBuf::from("/tmp/e1/f"), "/tmp/e1/f".to_string(), "s1".to_string());
    let err = abandon_edit(&mut reg, "e1", "no opener".to_string());
    assert_eq!(err.code(), "sftp_edit_open_failed");
    match err.detail {
        ErrorDetail::Message(m) => assert_eq!(m, "no opener"),
        other => panic!("unexpected detail {:?}", other),
    }
    assert!(!reg.contains_key("e1"));
}

#[test]
fn cancel_edits_for_session_only_that_session() {
    let mut reg = Registry::new();
    register_edit(&mut reg, "a".to_string(), PathBuf::from("/t/a/f"), "/t/a/f".to_string(), "s1".to_string());
    register_edit(&mut reg, "b".to_string(), PathBuf::from("/t/b/f"), "/t/b/f".to_string(), "s2".to_string());
    register_edit(&mut reg, "c".to_string(), PathBuf::from("/t/c/f"), "/t/c/f".to_string(), "s1".to_string());
    let (_, flag_b) = edit_watch_target(&reg, "b").unwrap();
    let removed = cancel_edits_for_session(&mut reg, "s1");
    let mut ids: Vec<String> = removed.iter().map(|(k, _)| k.clone()).collect();
    ids.sort();
    assert_eq!(ids, vec!["a".to_string(), "c".to_string()]);
    assert!(removed.iter().all(|(_, s)| s.cancel.load(Ordering::SeqCst) && s.session_id == "s1"));
    assert!(reg.contains_key("b"));
    assert!(!reg.contains_key("a"));
    assert!(!reg.contains_key("c"));
    assert!(!flag_b.load(Ordering::SeqCst));
    assert!(cancel_edits_for_session(&mut reg, "s9").is_empty());
}

#[test]
fn join_with_slash_joins() {
    assert_eq!(join_with_slash(&vec![]), "");
    assert_eq!(join_with_slash(&vec!["a".to_string()]), "a");
    assert_eq!(join_with_slash(&vec!["a".to_string(), "b".to_string(), "c".to_string()]), "a/b/c");
}

fn comps(p: &str) -> Vec<String> {
    std::path::Path::new(p)
        .components()
        .map(|c| c.as_os_str().to_string_lossy().into_owned())
        .collect()
}

#[test]
fn rel_unix_relative_to_root() {
    assert_eq!(rel_unix(&comps("/r/d/b.txt"), &comps("/r")), "d/b.txt");
    assert_eq!(rel_unix(&comps("/r/d//b.txt"), &comps("/r/")), "d/b.txt");
    assert_eq!(rel_unix(&comps("/r"), &comps("/r")), "");
    assert_eq!(rel_unix(&comps("/r/a"), &comps("/r/")), "a");
    assert_eq!(rel_unix(&comps("x/y"), &comps("/r")), "x/y");
    assert_eq!(rel_unix(&comps("/rx/y"), &comps("/r")), "//rx/y");
}

#[test]
fn rel_unix_undoes_join() {
    let root = std::path::Path::new("/srv/data");
    let full = root.join("a").join("b.txt");
    assert_eq!(rel_unix(&comps(full.to_str().unwrap()), &comps("/srv/data")), "a/b.txt");
    assert_eq!(root.join(rel_unix(&comps(full.to_str().unwrap()), &comps("/srv/data"))), full);
}

#[test]
fn new_id_renders_v4_uuid() {
    assert_eq!(new_id([0u8; 16]), "00000000-0000-4000-8000-000000000000");
    assert_eq!(new_id([0xffu8; 16]), "ffffffff-ffff-4fff-bfff-ffffffffffff");
    let bytes = [
        0x67, 0xe5, 0x50, 0x44, 0x10, 0xb1, 0x42, 0x6f, 0x92, 0x47, 0xbb, 0x68, 0x0e, 0x5f, 0xe0, 0xc8,
    ];
    assert_eq!(new_id(bytes), "67e55044-10b1-426f-9247-bb680e5fe0c8");
    assert!(is_uuid_text(&new_id([0x5au8; 16])));
}
