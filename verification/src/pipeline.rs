//! The pack and unpack pipelines, and the round-trip laws that relate them.
//!
//! Each call is an independent, stateless transaction on plain values.  Pack
//! turns an existing source into one artifact; unpack turns an artifact back
//! into entries in stream order, refusing any entry whose recorded name could
//! escape the destination.  The thin binary around the library probes the
//! disk before a call and materialises the entries after it.

use crate::codec::artifact_of;
use crate::codec::encode_entries;
use crate::codec::tar_decode;
use crate::codec::zstd_decompress;
use crate::entries::build_entries;
use crate::entries::dir_item_model;
use crate::entries::dir_item_wf;
use crate::entries::dir_plan;
use crate::entries::file_plan;
use crate::entries::models_of;
use crate::entries::plan_entries;
use crate::entries::safe_entry_models;
use crate::entries::source_wf;
use crate::entries::wf_entry_models;
use crate::entries::DirItem;
use crate::entries::Entry;
use crate::entries::Source;
use crate::errors::is_not_found_for;
use crate::errors::RazeError;
use crate::paths::base_name_spec;
use crate::paths::is_safe_entry_name;
use crate::paths::lemma_base_name_normal;
use crate::paths::lemma_join_normal;
use crate::paths::lemma_normal_is_safe;
use crate::paths::root_name_spec;
use crate::paths::safe_entry_name;
use vstd::prelude::*;
use vstd::string::StringExecFns;

verus! {

/// Packs an existing source, reached at `source_path`, into one artifact.
///
/// A missing source is reported as not found, exactly then.  On success the
/// artifact is precisely the compressed tar image of the planned entries —
/// the path-naming policy applied to the source — so packing is a function
/// of the source alone.  On a well-formed source success is owed outright.
/// Every other failure comes from the encoder and is reported as a
/// compression error.
pub fn pack(source_path: &str, source: &Source) -> (r: Result<Vec<u8>, RazeError>)
    ensures
        (source is Missing) <==> (r matches Err(e) && is_not_found_for(e, source_path@)),
        !(source is Missing) ==> match r {
            Ok(bytes) => bytes@ == artifact_of(plan_entries(source_path@, *source)),
            Err(e) => e is CompressionError,
        },
        source_wf(source_path@, *source) ==> r is Ok,
{
    match source {
        Source::Missing => Err(RazeError::NotFound(source_path.to_owned())),
        _ => {
            let entries = build_entries(source_path, source);
            proof {
                if source_wf(source_path@, *source) {
                    lemma_plan_unpackable(source_path@, *source);
                }
            }
            match encode_entries(&entries) {
                Ok(bytes) => Ok(bytes),
                Err(m) => Err(RazeError::CompressionError(m)),
            }
        },
    }
}

/// What `unpack` owes for archive bytes that are present: the decoders'
/// yield is a function of the bytes alone, and success comes exactly on a
/// decodable image all of whose names are safe, with precisely the decoded
/// entries in stream order — whoever produced the artifact.  A malformed
/// frame is a decompression error; a malformed or unrepresentable container
/// image, or an entry name that could escape the destination, is an I/O
/// error.
pub open spec fn unpack_outcome(bytes: Seq<u8>, r: Result<Vec<Entry>, RazeError>) -> bool {
    match crate::codec::zstd_decoded(bytes) {
        Option::None => r matches Err(e) && e is DecompressionError,
        Option::Some(image) => match crate::codec::tar_parsed(image) {
            Option::None => r matches Err(e) && e is Io,
            Option::Some(es) => if safe_entry_models(es) {
                r matches Ok(v) && models_of(v@) == es
            } else {
                r matches Err(e) && e is Io
            },
        },
    }
}

/// Unpacks an artifact, reached at `archive_path`, back into entries.
///
/// A missing archive is reported as not found, exactly then.  Present bytes
/// meet [`unpack_outcome`]: any conformant artifact — this library's or a
/// foreign producer's — decodes to exactly what the decoders yield, in
/// stream order, and each failure carries the kind the taxonomy assigns it.
/// In particular, whenever the bytes are an artifact of well-formed entries
/// with safe names, those very entries come back.  Every returned entry
/// bears a safe name.
#[verifier::loop_isolation(false)]
pub fn unpack(archive_path: &str, data: &Option<Vec<u8>>) -> (r: Result<Vec<Entry>, RazeError>)
    ensures
        (data is None) <==> (r matches Err(e) && is_not_found_for(e, archive_path@)),
        r matches Ok(v) ==> forall|i: int|
            0 <= i < v@.len() ==> safe_entry_name((#[trigger] v@[i]).name@),
        data matches Some(bytes) ==> unpack_outcome(bytes@, r),
        data matches Some(bytes) ==> forall|es: Seq<crate::entries::EntryModel>|
            wf_entry_models(es) && safe_entry_models(es) && bytes@ == artifact_of(es) ==> (
            r matches Ok(v) && models_of(v@) == es),
        r matches Err(e) ==> (e is NotFound || e is DecompressionError || e is Io),
{
    let bytes = match data {
        None => {
            return Err(RazeError::NotFound(archive_path.to_owned()));
        },
        Some(bytes) => bytes,
    };
    let tar_bytes = match zstd_decompress(bytes) {
        Ok(v) => v,
        Err(m) => {
            return Err(RazeError::DecompressionError(m));
        },
    };
    let entries = match tar_decode(tar_bytes.as_slice()) {
        Ok(v) => v,
        Err(m) => {
            return Err(RazeError::Io(m));
        },
    };
    let mut i: usize = 0;
    while i < entries.len()
        invariant
            i <= entries@.len(),
            forall|j: int| 0 <= j < i ==> safe_entry_name((#[trigger] entries@[j]).name@),
        decreases entries@.len() - i,
    {
        if !is_safe_entry_name(entries[i].name.as_str()) {
            proof {
                assert(models_of(entries@)[i as int].0 == entries@[i as int].name@);
                assert(!safe_entry_models(models_of(entries@)));
            }
            return Err(
                RazeError::Io(String::from_str("archive entry name escapes the destination")),
            );
        }
        i = i + 1;
    }
    proof {
        assert forall|j: int| 0 <= j < models_of(entries@).len() implies safe_entry_name(
            (#[trigger] models_of(entries@)[j]).0,
        ) by {
            assert(models_of(entries@)[j].0 == entries@[j].name@);
        }
    }
    Ok(entries)
}

/// Idempotent re-pack: packing the same unchanged source twice yields
/// artifacts with identical content — in this model even byte-identical
/// ones, since the artifact is a function of the planned entries alone.
pub proof fn lemma_repack_identical(
    path: Seq<char>,
    source: Source,
    first: Seq<u8>,
    second: Seq<u8>,
)
    requires
        first == artifact_of(plan_entries(path, source)),
        second == artifact_of(plan_entries(path, source)),
    ensures
        first == second,
{
}

/// Round trip for a single file: the plan for a file source holds exactly
/// one entry, the file's bytes under its own base name — a name free of
/// `/`, so no extra nesting — and that plan is well-formed and safe, so by
/// the contracts of [`pack`] and [`unpack`] any packed artifact unpacks to
/// precisely it.
pub proof fn lemma_round_trip_file(path: Seq<char>, data: Seq<u8>, mode: u32, mtime: u64)
    requires
        forall|i: int| 0 <= i < path.len() ==> path[i] != '\0' && path[i] != '\\',
        base_name_spec(path) is Some,
        mode <= 0o7777,
    ensures
        file_plan(path, data, mode, mtime) == seq![
            (root_name_spec(path), false, data, mode, mtime),
        ],
        forall|i: int|
            0 <= i < root_name_spec(path).len() ==> #[trigger] root_name_spec(path)[i] != '/',
        wf_entry_models(file_plan(path, data, mode, mtime)),
        safe_entry_models(file_plan(path, data, mode, mtime)),
{
    let b = base_name_spec(path)->Some_0;
    lemma_base_name_normal(path, b);
    lemma_normal_is_safe(b);
    let plan = file_plan(path, data, mode, mtime);
    assert(plan[0].0 == b);
    assert forall|i: int| 0 <= i < plan.len() implies crate::entries::wf_entry_model(
        #[trigger] plan[i],
    ) by {
        assert(i == 0);
    }
    assert forall|i: int| 0 <= i < plan.len() implies safe_entry_name(
        (#[trigger] plan[i]).0,
    ) by {
        assert(i == 0);
    }
}

/// Round trip for a directory: the plan for a well-formed directory source
/// is the root entry under the directory's base name followed by each item
/// at `<base name>/<relative path>` with its original bytes, and the plan is
/// well-formed and safe, so by the contracts of [`pack`] and [`unpack`] any
/// packed artifact unpacks to precisely it.
pub proof fn lemma_round_trip_dir(
    path: Seq<char>,
    mode: u32,
    mtime: u64,
    items: Seq<DirItem>,
)
    requires
        forall|i: int| 0 <= i < path.len() ==> path[i] != '\0' && path[i] != '\\',
        base_name_spec(path) is Some,
        mode <= 0o7777,
        forall|i: int| 0 <= i < items.len() ==> dir_item_wf(#[trigger] items[i]),
    ensures
        dir_plan(path, mode, mtime, items).len() == items.len() + 1,
        dir_plan(path, mode, mtime, items)[0] == (
            root_name_spec(path),
            true,
            Seq::<u8>::empty(),
            mode,
            mtime,
        ),
        forall|i: int|
            0 <= i < items.len() ==> dir_plan(path, mode, mtime, items)[i + 1] == (
            root_name_spec(path) + seq!['/'] + items[i].rel_path@,
            items[i].kind is Directory,
            items[i].data@,
            items[i].mode,
            items[i].mtime,
            ),
        wf_entry_models(dir_plan(path, mode, mtime, items)),
        safe_entry_models(dir_plan(path, mode, mtime, items)),
{
    let b = base_name_spec(path)->Some_0;
    lemma_base_name_normal(path, b);
    let plan = dir_plan(path, mode, mtime, items);
    let f = |x: DirItem| dir_item_model(root_name_spec(path), x);
    assert forall|i: int| 0 <= i < items.len() implies plan[i + 1] == (
        root_name_spec(path) + seq!['/'] + items[i].rel_path@,
        items[i].kind is Directory,
        items[i].data@,
        items[i].mode,
        items[i].mtime,
    ) by {
        assert(items.map_values(f)[i] == f(items[i]));
    }
    assert forall|i: int| 0 <= i < plan.len() implies crate::entries::wf_entry_model(
        #[trigger] plan[i],
    ) by {
        if i == 0 {
            assert(plan[0].0 == b);
        } else {
            assert(items.map_values(f)[i - 1] == f(items[i - 1]));
            lemma_join_normal(b, items[i - 1].rel_path@);
        }
    }
    assert forall|i: int| 0 <= i < plan.len() implies safe_entry_name(
        (#[trigger] plan[i]).0,
    ) by {
        lemma_normal_is_safe(plan[i].0);
    }
}

/// The plan of any well-formed source is well-formed with safe names, so an
/// artifact packed from it is owed a successful unpack.
pub proof fn lemma_plan_unpackable(path: Seq<char>, source: Source)
    requires
        source_wf(path, source),
    ensures
        wf_entry_models(plan_entries(path, source)),
        safe_entry_models(plan_entries(path, source)),
{
    match source {
        Source::Missing => {
            assert(false);
        },
        Source::File { data, mode, mtime } => {
            lemma_round_trip_file(path, data@, mode, mtime);
        },
        Source::Dir { mode, mtime, items } => {
            lemma_round_trip_dir(path, mode, mtime, items@);
        },
    }
}

} // verus!
