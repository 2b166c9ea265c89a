use appimage_runtime::args::{
    action_from_arg, consume_appimage_arg, entrypoint, extract_dir, extract_pattern,
    get_appimage_path, help_text, runs_entrypoint, staging_prefix, Action,
};
use appimage_runtime::elf_size::{get_elf_size, layout_extent, ElfLayout, ElfSizeError};
use appimage_runtime::hash::{get_hash, hashed_dir_path, make_hashed_tempdirname, ImageHasher, HASH_CHUNK_LEN};
use appimage_runtime::text::{decimal_text, join_path, same_text, starts_with, strip_root};

#[test]
fn get_elf_size_devnull() {
    let err = get_elf_size(&[]).err().unwrap();
    assert_eq!(err.message(), "Parsing elf: Bad offset: 0x10");
}

#[test]
fn consume_appimage_arg_empty() {
    let args_in: Vec<String> = Vec::new();

    let (arg1, args_out) = consume_appimage_arg(&args_in);

    assert!(arg1.is_none());
    assert_eq!(&args_out, &args_in);
}

#[test]
fn consume_appimage_arg_consume() {
    let args_in = vec![
        String::from("--appimage-test-consume-args"),
        String::from("Hello"),
        String::from("World"),
    ];

    let (arg1, args_out) = consume_appimage_arg(&args_in);

    assert_eq!(arg1.unwrap(), args_in[0]);
    assert_eq!(args_out, &args_in[1..]);
}

#[test]
fn consume_appimage_arg_passthrough() {
    let args_in = vec![String::from("Hello"), String::from("World")];

    let (arg1, args_out) = consume_appimage_arg(&args_in);

    assert!(arg1.is_none());
    assert_eq!(&args_out, &args_in.as_slice());
}

#[test]
fn consume_appimage_arg_passthrough_when_not_first() {
    let args_in = vec![
        String::from("Hello"),
        String::from("--appimage-test-consume-args"),
        String::from("World"),
    ];

    let (arg1, args_out) = consume_appimage_arg(&args_in);

    assert!(arg1.is_none());
    assert_eq!(&args_out, &args_in.as_slice());
}

#[test]
fn get_hash_devnull() {
    let hash = get_hash(&[]);
    assert_eq!(hash, "HGbCilcGWPh");
}

#[test]
fn get_hash_file() {
    let hash = get_hash(b"Hello, World!");
    assert_eq!(hash, "40tfDDpk1nx");
}

#[test]
fn make_hashed_tempdirname_devnull() {
    let tempdir = make_hashed_tempdirname(&[], "test_", "/tmp");
    assert_eq!(tempdir, "/tmp/test_HGbCilcGWPh");
    assert!(!std::path::Path::new(&tempdir).exists());
}

#[test]
fn consumed_option_and_rest_give_back_the_arguments() {
    let args_in = vec![String::from("--appimage-list"), String::from("x")];
    let (arg1, rest) = consume_appimage_arg(&args_in);
    let mut back: Vec<String> = arg1.into_iter().collect();
    back.extend(rest.iter().cloned());
    assert_eq!(back, args_in);
}

#[test]
fn consume_appimage_arg_needs_whole_prefix() {
    let args_in = vec![String::from("--appimage"), String::from("x")];
    let (arg1, rest) = consume_appimage_arg(&args_in);
    assert!(arg1.is_none());
    assert_eq!(rest.len(), 2);
}

#[test]
fn hash_of_large_input_is_chunking_independent() {
    let data: Vec<u8> = (0..(2 * HASH_CHUNK_LEN + 12345)).map(|i| (i % 251) as u8).collect();
    let whole = get_hash(&data);

    let mut h = ImageHasher::new();
    assert!(!h.absorb(&data[..1000]));
    h.absorb(&data[1000..HASH_CHUNK_LEN + 7]);
    h.absorb(&data[HASH_CHUNK_LEN + 7..]);
    assert_eq!(h.digest(), whole);

    let mut h2 = ImageHasher::new();
    let mut pos = 0;
    loop {
        let end = std::cmp::min(pos + HASH_CHUNK_LEN, data.len());
        let more = h2.absorb(&data[pos..end]);
        pos = end;
        if !more {
            break;
        }
    }
    assert_eq!(h2.digest(), whole);
    assert_ne!(whole, get_hash(&data[..data.len() - 1]));
}

#[test]
fn hash_of_exact_chunk_multiple() {
    let data = vec![7u8; HASH_CHUNK_LEN];
    let mut h = ImageHasher::new();
    assert!(h.absorb(&data));
    assert!(!h.absorb(&[]));
    assert_eq!(h.digest(), get_hash(&data));
}

#[test]
fn hashed_dir_joins_prefix_and_hash() {
    assert_eq!(hashed_dir_path("/tmp", ".mount_", "abc"), "/tmp/.mount_abc");
    assert_eq!(hashed_dir_path("/tmp/", ".mount_", "abc"), "/tmp/.mount_abc");
    assert_eq!(hashed_dir_path("", "p", "h"), "ph");
}

fn elf64(phdr_filesz: u64) -> Vec<u8> {
    let mut d = vec![0u8; 384];
    d[0..4].copy_from_slice(&[0x7f, b'E', b'L', b'F']);
    d[4] = 2; // 64-bit
    d[5] = 1; // little endian
    d[6] = 1; // version
    d[16..18].copy_from_slice(&2u16.to_le_bytes());
    d[18..20].copy_from_slice(&0x3eu16.to_le_bytes());
    d[20..24].copy_from_slice(&1u32.to_le_bytes());
    d[32..40].copy_from_slice(&64u64.to_le_bytes()); // e_phoff
    d[40..48].copy_from_slice(&0x100u64.to_le_bytes()); // e_shoff
    d[52..54].copy_from_slice(&64u16.to_le_bytes()); // e_ehsize
    d[54..56].copy_from_slice(&56u16.to_le_bytes()); // e_phentsize
    d[56..58].copy_from_slice(&1u16.to_le_bytes()); // e_phnum
    d[58..60].copy_from_slice(&64u16.to_le_bytes()); // e_shentsize
    d[60..62].copy_from_slice(&2u16.to_le_bytes()); // e_shnum
    d[64..68].copy_from_slice(&1u32.to_le_bytes()); // PT_LOAD
    d[72..80].copy_from_slice(&0u64.to_le_bytes()); // p_offset
    d[96..104].copy_from_slice(&phdr_filesz.to_le_bytes()); // p_filesz
    d
}

#[test]
fn elf_size_is_segment_end_when_larger() {
    assert_eq!(get_elf_size(&elf64(0x200)).ok(), Some(0x200));
}

#[test]
fn elf_size_is_section_table_end_when_larger() {
    assert_eq!(get_elf_size(&elf64(0x80)).ok(), Some(0x180));
}

#[test]
fn elf_size_refuses_bad_magic() {
    let mut d = elf64(0x80);
    d[1] = b'X';
    match get_elf_size(&d) {
        Err(ElfSizeError::Parse(m)) => assert!(!m.is_empty()),
        _ => panic!("expected a parse error"),
    }
}

#[test]
fn layout_extent_takes_larger_end() {
    let l = ElfLayout { sh_offset: 1000, sh_entry_size: 64, sh_count: 3, segments: vec![(0, 64), (10, 20)] };
    assert_eq!(layout_extent(&l), 1192);
    let l = ElfLayout { sh_offset: 0, sh_entry_size: 0, sh_count: 0, segments: vec![(9000, 5), (4096, 100)] };
    assert_eq!(layout_extent(&l), 4196);
    let l = ElfLayout { sh_offset: 5, sh_entry_size: 0, sh_count: 0, segments: vec![] };
    assert_eq!(layout_extent(&l), 5);
}

#[test]
fn elf_size_overflow_message() {
    assert_eq!(ElfSizeError::Overflow.message(), "Parsing elf: size overflows 64 bits");
}

#[test]
fn actions_from_options() {
    assert_eq!(action_from_arg(None), Ok(Action::MountAndRun));
    assert_eq!(action_from_arg(Some("--appimage-extract")), Ok(Action::Extract));
    assert_eq!(action_from_arg(Some("--appimage-extract-and-run")), Ok(Action::ExtractAndRun));
    assert_eq!(action_from_arg(Some("--appimage-help")), Ok(Action::Help));
    assert_eq!(action_from_arg(Some("--appimage-mount")), Ok(Action::Mount));
    assert_eq!(action_from_arg(Some("--appimage-list")), Ok(Action::List));
    assert_eq!(action_from_arg(Some("--appimage-offset")), Ok(Action::Offset));
    assert_eq!(action_from_arg(Some("--appimage-bogus")), Err(String::from("--appimage-bogus")));
}

#[test]
fn extract_pattern_only_for_extract() {
    let rest = vec![String::from("*.txt"), String::from("more")];
    assert_eq!(extract_pattern(Action::Extract, &rest), Ok(Some(String::from("*.txt"))));
    assert_eq!(extract_pattern(Action::Extract, &[]), Ok(None));
    assert_eq!(extract_pattern(Action::List, &rest), Ok(None));
    let bad = vec![String::from("a[")];
    assert_eq!(extract_pattern(Action::Extract, &bad), Err(String::from("a[")));
}

#[test]
fn help_mentions_program() {
    let h = help_text("./app.AppImage");
    assert!(h.starts_with("appimage-runtime-rs: A type-2 AppImage runtime"));
    assert!(h.contains("Usage: ./app.AppImage [OPTION] [ARG]..."));
    assert!(h.contains("--appimage-offset               Print byte offset"));
}

#[test]
fn appimage_path_resolution() {
    assert_eq!(get_appimage_path(None, None), "/proc/self/exe");
    assert_eq!(get_appimage_path(Some("/x/app"), Some("/w")), "/x/app");
    assert_eq!(get_appimage_path(Some("app"), Some("/w")), "/w/app");
    assert_eq!(get_appimage_path(Some("app"), None), "./app");
}

#[test]
fn runtime_directories() {
    assert_eq!(staging_prefix(Action::Mount), None);
    assert_eq!(staging_prefix(Action::MountAndRun), None);
    assert_eq!(staging_prefix(Action::ExtractAndRun), Some("appimage_extracted_"));
    assert_eq!(staging_prefix(Action::Extract), None);
    assert_eq!(extract_dir("/home/u"), "/home/u/squashfs-root");
    assert_eq!(entrypoint("/tmp/.mount_abc"), "/tmp/.mount_abc/AppRun");
    assert!(runs_entrypoint(Action::MountAndRun));
    assert!(runs_entrypoint(Action::ExtractAndRun));
    assert!(!runs_entrypoint(Action::Mount));
    assert!(!runs_entrypoint(Action::Extract));
}

#[test]
fn text_helpers() {
    assert_eq!(decimal_text(0), "0");
    assert_eq!(decimal_text(1234), "1234");
    assert_eq!(decimal_text(u64::MAX), u64::MAX.to_string());
    assert_eq!(join_path("/a", "b"), "/a/b");
    assert_eq!(join_path("/a/", "b"), "/a/b");
    assert_eq!(join_path("/a", "/b"), "/b");
    assert_eq!(join_path("", "b"), "b");
    assert_eq!(strip_root("//x/y"), Some(String::from("x/y")));
    assert_eq!(strip_root("/"), Some(String::new()));
    assert_eq!(strip_root("x"), None);
    assert!(starts_with("--appimage-list", "--appimage-"));
    assert!(!starts_with("--app", "--appimage-"));
    assert!(same_text("é", "é"));
    assert!(!same_text("ab", "a"));
}
