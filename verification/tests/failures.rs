//! The failure taxonomy: which error each bad input yields, and the command
//! dispatcher's extension policy.

use raze::cli::{run, Commands, Plan, RazeArgs};
use raze::entries::Source;
use raze::errors::RazeError;
use raze::pipeline::{pack, unpack};

#[test]
fn test_pack_missing_source_is_not_found() {
    let result = pack("/does/not/exist", &Source::Missing);
    match result {
        Err(RazeError::NotFound(path)) => assert_eq!(path, "/does/not/exist"),
        other => panic!("expected NotFound, got {:?}", other.is_ok()),
    }
}

#[test]
fn test_unpack_missing_archive_is_not_found() {
    let result = unpack("/does/not/exist.rz", &None);
    match result {
        Err(RazeError::NotFound(path)) => assert_eq!(path, "/does/not/exist.rz"),
        other => panic!("expected NotFound, got {:?}", other.is_ok()),
    }
}

#[test]
fn test_unpack_garbage_is_decompression_error() {
    let result = unpack("bad.rz", &Some(vec![1, 2, 3, 4, 5]));
    assert!(matches!(result, Err(RazeError::DecompressionError(_))));
}

#[test]
fn test_unpack_truncated_frame_is_decompression_error() {
    let source = Source::File {
        data: b"some content that compresses".to_vec(),
        mode: 0o644,
        mtime: 0,
    };
    let mut bytes = pack("f.txt", &source).expect("pack failed");
    bytes.truncate(bytes.len() / 2);
    let result = unpack("cut.rz", &Some(bytes));
    assert!(matches!(result, Err(RazeError::DecompressionError(_))));
}

#[test]
fn test_unpack_valid_frame_bad_container_is_io_error() {
    let artifact = zstd::stream::encode_all(&b"not a tar image at all"[..], 3)
        .expect("compression failed");
    let result = unpack("odd.rz", &Some(artifact));
    assert!(matches!(result, Err(RazeError::Io(_))));
}

/// A 512-byte pre-POSIX tar header for an empty regular file under `name`,
/// with a correct checksum — the shape a hostile producer could write, since
/// the tar crate itself refuses to record such names.
fn raw_tar_header(name: &str) -> [u8; 512] {
    let mut block = [0u8; 512];
    block[..name.len()].copy_from_slice(name.as_bytes());
    block[100..107].copy_from_slice(b"0000644");
    block[108..115].copy_from_slice(b"0000000");
    block[116..123].copy_from_slice(b"0000000");
    block[124..135].copy_from_slice(b"00000000000");
    block[136..147].copy_from_slice(b"00000000000");
    block[148..156].copy_from_slice(b"        ");
    block[156] = b'0';
    let sum: u32 = block.iter().map(|b| *b as u32).sum();
    let digits = format!("{:06o}", sum);
    block[148..154].copy_from_slice(digits.as_bytes());
    block[154] = 0;
    block[155] = b' ';
    block
}

#[test]
fn test_unpack_rejects_escaping_entry_name() {
    let mut tar_bytes = Vec::new();
    tar_bytes.extend_from_slice(&raw_tar_header("../evil.txt"));
    tar_bytes.extend_from_slice(&[0u8; 1024]);
    let artifact = zstd::stream::encode_all(&tar_bytes[..], 3).expect("compression failed");
    let result = unpack("evil.rz", &Some(artifact));
    assert!(matches!(result, Err(RazeError::Io(_))));
}

#[test]
fn test_unpack_rejects_absolute_entry_name() {
    let mut tar_bytes = Vec::new();
    tar_bytes.extend_from_slice(&raw_tar_header("/abs.txt"));
    tar_bytes.extend_from_slice(&[0u8; 1024]);
    let artifact = zstd::stream::encode_all(&tar_bytes[..], 3).expect("compression failed");
    let result = unpack("abs.rz", &Some(artifact));
    assert!(matches!(result, Err(RazeError::Io(_))));
}

#[test]
fn test_error_messages() {
    assert_eq!(
        RazeError::Io("broken pipe".to_string()).message(),
        "I/O error occurred: broken pipe"
    );
    assert_eq!(
        RazeError::NotFound("/x".to_string()).message(),
        "The specified path was not found: /x"
    );
    assert_eq!(
        RazeError::CompressionError("bad level".to_string()).message(),
        "Compression error: bad level"
    );
    assert_eq!(
        RazeError::DecompressionError("bad magic".to_string()).message(),
        "Decompression error: bad magic"
    );
}

#[test]
fn test_run_pack_normalizes_output() {
    let plan = run(RazeArgs {
        command: Commands::Pack {
            source: "src_dir".to_string(),
            output: "bundle".to_string(),
        },
    });
    match plan {
        Plan::PackTo { source, output } => {
            assert_eq!(source, "src_dir");
            assert_eq!(output, "bundle.rz");
        },
        Plan::UnpackTo { .. } => panic!("expected a pack plan"),
    }
}

#[test]
fn test_run_pack_keeps_existing_extension() {
    let plan = run(RazeArgs {
        command: Commands::Pack {
            source: "src_dir".to_string(),
            output: "bundle.rz".to_string(),
        },
    });
    match plan {
        Plan::PackTo { output, .. } => assert_eq!(output, "bundle.rz"),
        Plan::UnpackTo { .. } => panic!("expected a pack plan"),
    }
}

#[test]
fn test_run_unpack_passes_paths_through() {
    let plan = run(RazeArgs {
        command: Commands::Unpack {
            archive: "bundle.rz".to_string(),
            destination: ".".to_string(),
        },
    });
    match plan {
        Plan::UnpackTo { archive, destination } => {
            assert_eq!(archive, "bundle.rz");
            assert_eq!(destination, ".");
        },
        Plan::PackTo { .. } => panic!("expected an unpack plan"),
    }
}

#[test]
fn test_unpack_rejects_unrepresentable_entry_kind() {
    // A conformant foreign archive may hold a symbolic link; the model has
    // no such kind, so the library refuses it rather than altering it.
    let mut builder = tar::Builder::new(Vec::new());
    let mut header = tar::Header::new_gnu();
    header.set_entry_type(tar::EntryType::Symlink);
    header.set_size(0);
    builder
        .append_link(&mut header, "link", "target")
        .expect("appending the link failed");
    let tar_bytes = builder.into_inner().expect("finishing failed");
    let artifact = zstd::stream::encode_all(&tar_bytes[..], 3).expect("compression failed");
    let result = unpack("links.rz", &Some(artifact));
    assert!(matches!(result, Err(RazeError::Io(_))));
}
