//! End-to-end pack/unpack flows over the in-memory source model, with the
//! real tar and zstd crates linked behind the library's trusted boundary.

use raze::entries::{DirItem, Entry, EntryKind, Source};
use raze::pipeline::{pack, unpack};

fn text_file_item(rel_path: &str, text: &str) -> DirItem {
    DirItem {
        rel_path: rel_path.to_string(),
        kind: EntryKind::Regular,
        data: text.as_bytes().to_vec(),
        mode: 0o644,
        mtime: 1_700_000_000,
    }
}

fn find_entry<'e>(entries: &'e [Entry], name: &str) -> Option<&'e Entry> {
    entries.iter().find(|e| e.name == name)
}

#[test]
fn test_pack_unpack_flow() {
    let source = Source::Dir {
        mode: 0o755,
        mtime: 1_700_000_000,
        items: vec![text_file_item("test_file.txt", "Hello, Raze!\n")],
    };
    let bytes = pack("work/sandbox", &source).expect("Failed to pack directory");

    let entries = unpack("archive.rz", &Some(bytes)).expect("Failed to unpack archive");

    // The unpacked layout preserves the original top-level directory name.
    let unpacked = find_entry(&entries, "sandbox/test_file.txt");
    assert!(
        unpacked.is_some(),
        "Unpacked file does not exist at {:?}",
        "sandbox/test_file.txt"
    );
    let content = String::from_utf8(unpacked.unwrap().data.clone()).expect(
        "Failed to read unpacked file",
    );
    assert_eq!(content.trim(), "Hello, Raze!");
}

#[test]
fn test_pack_unpack_single_file_flow() {
    let source = Source::File {
        data: "Hello, Raze!\n".as_bytes().to_vec(),
        mode: 0o644,
        mtime: 1_700_000_000,
    };
    let bytes = pack("work/test_file.txt", &source).expect("Failed to pack single file");

    let entries = unpack("archive.rz", &Some(bytes)).expect("Failed to unpack archive");

    // A single file is recorded under its own base name, with no nesting.
    let unpacked = find_entry(&entries, "test_file.txt");
    assert!(
        unpacked.is_some(),
        "Unpacked single file does not exist at {:?}",
        "test_file.txt"
    );
    let content = String::from_utf8(unpacked.unwrap().data.clone()).expect(
        "Failed to read unpacked file",
    );
    assert_eq!(content.trim(), "Hello, Raze!");
}

#[test]
fn test_round_trip_preserves_structure_and_metadata() {
    let source = Source::Dir {
        mode: 0o750,
        mtime: 42,
        items: vec![
            DirItem {
                rel_path: "sub".to_string(),
                kind: EntryKind::Directory,
                data: Vec::new(),
                mode: 0o700,
                mtime: 43,
            },
            DirItem {
                rel_path: "sub/inner.bin".to_string(),
                kind: EntryKind::Regular,
                data: vec![0, 159, 146, 150, 255],
                mode: 0o600,
                mtime: 44,
            },
        ],
    };
    let bytes = pack("data/project", &source).expect("pack failed");
    let entries = unpack("project.rz", &Some(bytes)).expect("unpack failed");

    assert_eq!(entries.len(), 3);
    assert_eq!(entries[0].name, "project");
    assert!(matches!(entries[0].kind, EntryKind::Directory));
    assert_eq!(entries[0].mode, 0o750);
    assert_eq!(entries[0].mtime, 42);

    assert_eq!(entries[1].name, "project/sub");
    assert!(matches!(entries[1].kind, EntryKind::Directory));
    assert_eq!(entries[1].mode, 0o700);

    assert_eq!(entries[2].name, "project/sub/inner.bin");
    assert!(matches!(entries[2].kind, EntryKind::Regular));
    assert_eq!(entries[2].data, vec![0, 159, 146, 150, 255]);
    assert_eq!(entries[2].mode, 0o600);
    assert_eq!(entries[2].mtime, 44);
}

#[test]
fn test_round_trip_empty_directory() {
    let source = Source::Dir {
        mode: 0o755,
        mtime: 7,
        items: Vec::new(),
    };
    let bytes = pack("empty", &source).expect("pack failed");
    let entries = unpack("empty.rz", &Some(bytes)).expect("unpack failed");
    assert_eq!(entries.len(), 1);
    assert_eq!(entries[0].name, "empty");
    assert!(matches!(entries[0].kind, EntryKind::Directory));
}

#[test]
fn test_repack_same_source_is_identical() {
    let source = Source::Dir {
        mode: 0o755,
        mtime: 9,
        items: vec![text_file_item("a.txt", "same content\n")],
    };
    let first = pack("twice", &source).expect("first pack failed");
    let second = pack("twice", &source).expect("second pack failed");
    assert_eq!(first, second);

    let from_first = unpack("a.rz", &Some(first)).expect("unpack of first failed");
    let from_second = unpack("a.rz", &Some(second)).expect("unpack of second failed");
    assert_eq!(from_first.len(), from_second.len());
    for (x, y) in from_first.iter().zip(from_second.iter()) {
        assert_eq!(x.name, y.name);
        assert_eq!(x.data, y.data);
    }
}

#[test]
fn test_unpack_accepts_foreign_archive() {
    // An artifact made by the tar and zstd crates directly, not by `pack`,
    // must decode all the same.
    let mut builder = tar::Builder::new(Vec::new());
    let mut header = tar::Header::new_gnu();
    header.set_entry_type(tar::EntryType::Regular);
    header.set_mode(0o644);
    header.set_mtime(5);
    header.set_size(5);
    builder
        .append_data(&mut header, "other.txt", &b"12345"[..])
        .expect("appending to the foreign archive failed");
    let tar_bytes = builder.into_inner().expect("finishing the foreign archive failed");
    let artifact = zstd::stream::encode_all(&tar_bytes[..], 19).expect("compression failed");

    let entries = unpack("foreign.rz", &Some(artifact)).expect("unpack failed");
    assert_eq!(entries.len(), 1);
    assert_eq!(entries[0].name, "other.txt");
    assert_eq!(entries[0].data, b"12345".to_vec());
}

#[test]
fn test_round_trip_long_entry_name() {
    // A name far over the classic 100-byte header field exercises the GNU
    // long-name extension on both sides of the container.
    let long_segment = "a".repeat(180);
    let source = Source::Dir {
        mode: 0o755,
        mtime: 1,
        items: vec![text_file_item(&long_segment, "long\n")],
    };
    let bytes = pack("deep/rootdir", &source).expect("pack failed");
    let entries = unpack("deep.rz", &Some(bytes)).expect("unpack failed");
    assert_eq!(entries.len(), 2);
    assert_eq!(entries[1].name, format!("rootdir/{}", long_segment));
    assert_eq!(entries[1].data, b"long\n".to_vec());
}

#[test]
fn test_round_trip_metadata_extremes() {
    // The permission bits at their maximum and a modification time far past
    // the octal header range (stored via the numeric extension).
    let source = Source::File {
        data: b"x".to_vec(),
        mode: 0o7777,
        mtime: u64::MAX,
    };
    let bytes = pack("f", &source).expect("pack failed");
    let entries = unpack("f.rz", &Some(bytes)).expect("unpack failed");
    assert_eq!(entries.len(), 1);
    assert_eq!(entries[0].mode, 0o7777);
    assert_eq!(entries[0].mtime, u64::MAX);
}

#[test]
fn test_round_trip_unicode_name_and_empty_file() {
    let source = Source::Dir {
        mode: 0o755,
        mtime: 2,
        items: vec![DirItem {
            rel_path: "caf\u{e9} \u{4f60}\u{597d}.txt".to_string(),
            kind: EntryKind::Regular,
            data: Vec::new(),
            mode: 0o644,
            mtime: 3,
        }],
    };
    let bytes = pack("dir", &source).expect("pack failed");
    let entries = unpack("dir.rz", &Some(bytes)).expect("unpack failed");
    assert_eq!(entries.len(), 2);
    assert_eq!(entries[1].name, "dir/caf\u{e9} \u{4f60}\u{597d}.txt");
    assert!(entries[1].data.is_empty());
}

#[test]
fn test_round_trip_keeps_stream_order() {
    let names = ["f3", "f1", "f9", "f2", "f0"];
    let source = Source::Dir {
        mode: 0o755,
        mtime: 4,
        items: names
            .iter()
            .map(|n| text_file_item(n, &format!("content of {}\n", n)))
            .collect(),
    };
    let bytes = pack("ordered", &source).expect("pack failed");
    let entries = unpack("ordered.rz", &Some(bytes)).expect("unpack failed");
    assert_eq!(entries.len(), names.len() + 1);
    for (i, n) in names.iter().enumerate() {
        assert_eq!(entries[i + 1].name, format!("ordered/{}", n));
        assert_eq!(entries[i + 1].data, format!("content of {}\n", n).into_bytes());
    }
}
