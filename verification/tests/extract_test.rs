use std::path::PathBuf;

use appimage_runtime::mount::{mount_succeeded, next_wait_action, squashfuse_args, WaitAction, WaitEvent};
use appimage_runtime::extract::{
    plan_extraction, plan_image_extraction, plan_selected, select_entries, ExtractError, StepAction,
};
use appimage_runtime::dir_table::{inode_listing_safe, layout_is_safe, listing_headers_safe};
use appimage_runtime::squashfs::{list_files, read_image_entries, EntryKind, ImageError, SquashfsEntry};

fn header() -> backhand::NodeHeader {
    backhand::NodeHeader::new(0o755, 0, 0, 0)
}

/// A squashfs image with `/AppRun` and `/other/path/file.txt`, after
/// `offset` bytes of padding.
fn image(offset: u64) -> Vec<u8> {
    let mut fs = backhand::FilesystemWriter::default();
    fs.push_file(std::io::Cursor::new(b"#!/bin/sh\n".to_vec()), "AppRun", header()).unwrap();
    fs.push_dir_all("other/path", header()).unwrap();
    fs.push_file(std::io::Cursor::new(b"Hello World!".to_vec()), "other/path/file.txt", header())
        .unwrap();
    let mut out = std::io::Cursor::new(vec![0u8; offset as usize]);
    fs.write_with_offset(&mut out, offset).unwrap();
    out.into_inner()
}

#[test]
fn list_files_test() {
    let sqfs = image(0);

    let files: Vec<PathBuf> = list_files(&sqfs, 0)
        .ok()
        .unwrap()
        .into_iter()
        .map(|p| PathBuf::from(String::from_utf8(p).unwrap()))
        .collect();

    assert_eq!(
        files,
        vec![
            PathBuf::from("/"),
            PathBuf::from("/AppRun"),
            PathBuf::from("/other"),
            PathBuf::from("/other/path"),
            PathBuf::from("/other/path/file.txt"),
        ]
    );
}

#[test]
fn list_files_at_offset() {
    let sqfs = image(1234);
    let files = list_files(&sqfs, 1234).ok().unwrap();
    assert_eq!(files.len(), 5);
    assert_eq!(files[4], b"/other/path/file.txt".to_vec());
}

#[test]
fn list_files_refuses_garbage() {
    match list_files(&[0u8; 16], 0) {
        Err(ImageError::Squashfs(m)) => assert!(!m.is_empty()),
        _ => panic!("garbage listed"),
    }
}

fn entry(path: &str, kind: EntryKind) -> SquashfsEntry {
    SquashfsEntry { path: path.as_bytes().to_vec(), kind, mtime: 0, permissions: 0o644 }
}

fn entries() -> Vec<SquashfsEntry> {
    vec![
        entry("/", EntryKind::Dir),
        entry("/AppRun", EntryKind::File),
        entry("/lib", EntryKind::Dir),
        entry("/lib/libx.so", EntryKind::Symlink(b"libx.so.1".to_vec())),
        entry("/lib/pipe", EntryKind::Other),
        entry("/notes.txt", EntryKind::File),
    ]
}

#[test]
fn extraction_of_all_nodes() {
    let plan = plan_extraction(&entries(), None, b"/out");
    assert!(plan.error.is_none());
    let paths: Vec<&[u8]> = plan.steps.iter().map(|s| s.path.as_slice()).collect();
    let expected: Vec<&[u8]> = vec![b"/out/", b"/out/AppRun", b"/out/lib", b"/out/lib/libx.so", b"/out/lib/pipe", b"/out/notes.txt"];
    assert_eq!(paths, expected);
    let nodes: Vec<usize> = plan.steps.iter().map(|s| s.node).collect();
    assert_eq!(nodes, vec![0, 1, 2, 3, 4, 5]);
    assert!(matches!(plan.steps[0].action, StepAction::CreateDir));
    assert!(matches!(plan.steps[1].action, StepAction::WriteFile));
    match &plan.steps[3].action {
        StepAction::Symlink(t) => assert_eq!(t, b"libx.so.1"),
        _ => panic!("expected a symlink"),
    }
    assert!(matches!(plan.steps[4].action, StepAction::Unsupported));
}

#[test]
fn extraction_with_pattern() {
    let plan = plan_extraction(&entries(), Some("*.txt"), b"out");
    assert!(plan.error.is_none());
    assert_eq!(plan.steps.len(), 1);
    assert_eq!(plan.steps[0].node, 5);
    assert_eq!(plan.steps[0].path, b"out/notes.txt");

    let plan = plan_extraction(&entries(), Some("/lib/*"), b"out");
    let nodes: Vec<usize> = plan.steps.iter().map(|s| s.node).collect();
    assert_eq!(nodes, vec![3, 4]);
}

#[test]
fn selection_follows_glob() {
    let sel = select_entries(&entries(), Some("/A*"));
    assert_eq!(sel, vec![Some(false), Some(true), Some(false), Some(false), Some(false), Some(false)]);
    let sel = select_entries(&entries(), None);
    assert_eq!(sel, vec![Some(true); 6]);
    let sel = select_entries(&entries(), Some("a["));
    assert_eq!(sel, vec![Some(false); 6]);
}

#[test]
fn extraction_stops_on_unrooted_path() {
    let mut e = entries();
    e.insert(2, entry("relative", EntryKind::File));
    let plan = plan_extraction(&e, None, b"/out");
    assert_eq!(plan.steps.len(), 2);
    match plan.error {
        Some(ExtractError::NotRooted(p)) => assert_eq!(p, b"relative"),
        _ => panic!("expected an error"),
    }
    let sel = vec![Some(true), Some(false), Some(false), Some(true), Some(false), Some(false), Some(false)];
    let plan = plan_selected(&e, &sel, b"/out");
    assert!(plan.error.is_none());
    assert_eq!(plan.steps.len(), 2);
}

#[test]
fn squashfuse_command_line() {
    let v = squashfuse_args(1234, "/tmp/x/notify.pipe", "/a.AppImage", "/tmp/.mount_abc");
    assert_eq!(
        v,
        vec![
            "-ooffset=1234",
            "-onotify_pipe=/tmp/x/notify.pipe",
            "-oauto_unmount",
            "-otimeout=1",
            "/a.AppImage",
            "/tmp/.mount_abc",
        ]
    );
}

#[test]
fn mount_wait_decisions() {
    assert!(matches!(next_wait_action(&WaitEvent::PipeReadable), WaitAction::ReadStatus));
    assert!(matches!(next_wait_action(&WaitEvent::DriverExited), WaitAction::ReportExit));
    assert!(matches!(next_wait_action(&WaitEvent::DriverRunning), WaitAction::WaitAgain));
    assert!(mount_succeeded("s"));
    assert!(!mount_succeeded("f"));
    assert!(!mount_succeeded(""));
    assert!(!mount_succeeded("ss"));
}

#[test]
fn image_entries_carry_kinds() {
    let sqfs = image(0);
    let entries = read_image_entries(&sqfs, 0).ok().unwrap();
    assert_eq!(entries.len(), 5);
    assert!(matches!(entries[0].kind, EntryKind::Dir));
    assert!(matches!(entries[1].kind, EntryKind::File));
    assert!(matches!(entries[4].kind, EntryKind::File));
    assert_eq!(entries[1].permissions, 0o755);
}

#[test]
fn image_extraction_plan() {
    let sqfs = image(512);
    let plan = plan_image_extraction(&sqfs, 512, Some("*.txt"), b"/out").ok().unwrap();
    assert!(plan.error.is_none());
    assert_eq!(plan.steps.len(), 1);
    assert_eq!(plan.steps[0].node, 4);
    assert_eq!(plan.steps[0].path, b"/out/other/path/file.txt");
    assert!(matches!(plan.steps[0].action, StepAction::WriteFile));
    let all = plan_image_extraction(&sqfs, 512, None, b"out").ok().unwrap();
    assert_eq!(all.steps.len(), 5);
    assert!(plan_image_extraction(&sqfs, 0, None, b"out").is_err());
}

/// A directory listing: one header with inode number `base` and one entry
/// of type `t` with inode offset `offset` and the name `name`.
fn listing(base: u32, offset: i16, t: u16, name: &[u8]) -> Vec<u8> {
    let mut v = Vec::new();
    v.extend_from_slice(&0u32.to_le_bytes());
    v.extend_from_slice(&0u32.to_le_bytes());
    v.extend_from_slice(&base.to_le_bytes());
    v.extend_from_slice(&0u16.to_le_bytes());
    v.extend_from_slice(&offset.to_le_bytes());
    v.extend_from_slice(&t.to_le_bytes());
    v.extend_from_slice(&((name.len() - 1) as u16).to_le_bytes());
    v.extend_from_slice(name);
    v
}

#[test]
fn listing_headers_check() {
    assert!(!listing_headers_safe(&listing(0x7FFF_FFFF, 1, 2, b"a")));
    assert!(listing_headers_safe(&listing(0x7FFF_FFFF, 0, 2, b"a")));
    assert!(listing_headers_safe(&listing(0x7FFF_FFFF, -1, 2, b"a")));
    assert!(!listing_headers_safe(&listing(0x8000_0000, -1, 2, b"a")));
    assert!(listing_headers_safe(&listing(0x8000_0000, 1, 2, b"a")));
    // an entry of no known type stops the reading before it is used
    assert!(listing_headers_safe(&listing(0x7FFF_FFFF, 1, 0, b"a")));
    // bytes in a name are not an inode number
    assert!(listing_headers_safe(&listing(5, 1, 2, &[0x61, 0x01, 0x80, 0xFF, 0x7F])));
    let mut two = listing(5, 1, 2, b"ok");
    two.extend(listing(0x7FFF_FFF0, 100, 1, b"d"));
    assert!(!listing_headers_safe(&two));
    assert!(listing_headers_safe(&[]));
}

#[test]
fn layout_check() {
    let table = listing(5, 1, 2, &[0x61, 0x01, 0x80, 0xFF, 0x7F]);
    let blocks = vec![(7u64, 0u64)];
    let dir = (1u8, 0u16, (table.len() + 3) as u32, 7u32);
    assert!(inode_listing_safe(&blocks, &table, dir));
    assert!(layout_is_safe(&vec![(0, 0, 0, 0), dir], (1, 0, 3, 7), &blocks, &table));
    // a size whose end overflows 32 bits
    assert!(!inode_listing_safe(&blocks, &table, (2, 10, u32::MAX, 7)));
    assert!(!layout_is_safe(&vec![(2, 10, u32::MAX, 7)], dir, &blocks, &table));
    assert!(!layout_is_safe(&vec![dir], (2, 10, u32::MAX, 7), &blocks, &table));
    // no such block: the reader stops with an error before any overflow
    assert!(inode_listing_safe(&blocks, &table, (2, 10, u32::MAX, 8)));
    // not a directory
    assert!(inode_listing_safe(&blocks, &table, (0, 10, u32::MAX, 7)));
    let bad = listing(0x7FFF_FFFF, 1, 2, b"a");
    assert!(!inode_listing_safe(&blocks, &bad, (1, 0, (bad.len() + 3) as u32, 7)));
}

#[test]
fn extraction_stops_on_non_text_path_with_pattern() {
    let mut e = entries();
    e.insert(2, SquashfsEntry { path: vec![b'/', 0xFF, b'x'], kind: EntryKind::File, mtime: 0, permissions: 0 });
    let plan = plan_extraction(&e, Some("*"), b"/out");
    assert_eq!(plan.steps.len(), 2);
    match plan.error {
        Some(ExtractError::NotText(p)) => assert_eq!(p, vec![b'/', 0xFF, b'x']),
        _ => panic!("expected an error"),
    }
    let plan = plan_extraction(&e, None, b"/out");
    assert!(plan.error.is_none());
    assert_eq!(plan.steps[2].path, vec![b'/', b'o', b'u', b't', b'/', 0xFF, b'x']);
}

#[test]
fn steps_carry_times_and_permissions() {
    let mut e = entries();
    e[1].mtime = 1700000000;
    e[1].permissions = 0o700;
    let plan = plan_extraction(&e, Some("/AppRun"), b"/out");
    assert_eq!(plan.steps.len(), 1);
    assert_eq!(plan.steps[0].mtime, 1700000000);
    assert_eq!(plan.steps[0].permissions, 0o700);
}
