//! The trusted boundary to the tar container and the Zstandard compressor.
//!
//! The library never rebuilds either format.  Serialising entries is done by
//! the tar crate's streaming builder over an in-memory buffer; compression
//! and decompression by the zstd crate's streaming conveniences.  What those
//! calls return is a function of their arguments alone, so the contracts name
//! the results ([`tar_bytes_of`], [`zstd_frame_of`]) and state the round-trip
//! facts that the crates' sources show: what a builder was fed is exactly
//! what parsing its output yields, and a zstd frame decodes back to the bytes
//! it was made from.

use crate::entries::models_of;
use crate::entries::wf_entry_models;
use crate::entries::Entry;
use crate::entries::EntryKind;
use crate::entries::EntryModel;
use std::io::Read;
use tar::Archive;
use vstd::prelude::*;

verus! {

/// The fixed, balanced compression level of every artifact this library
/// writes.
pub const ZSTD_LEVEL: i32 = 3;

#[verifier::external_type_specification]
#[verifier::external_body]
pub struct ExIoError(std::io::Error);

/// Relies on std::io::Error's Display impl: the failure's message, carried
/// onward as a plain string.
#[verifier::external_body]
fn io_msg(e: std::io::Error) -> String {
    e.to_string()
}

/// The tar container's streaming builder over an in-memory buffer.  The
/// builder's own generic declaration is refused (its writer bound is a std
/// trait Verus does not know), so the library holds it opaquely.
#[verifier::external_body]
pub struct TarBuilder {
    inner: tar::Builder<Vec<u8>>,
}

/// The models of the entries fed so far to a tar builder over an in-memory
/// buffer, in order.
pub uninterp spec fn tar_entries(b: TarBuilder) -> Seq<EntryModel>;

/// The byte image that the tar container gives a sequence of entries: each
/// entry's header and payload in order, then the terminating blocks.
pub uninterp spec fn tar_bytes_of(entries: Seq<EntryModel>) -> Seq<u8>;

/// The frame that Zstandard compression gives a byte sequence at a level.
pub uninterp spec fn zstd_frame_of(bytes: Seq<u8>, level: int) -> Seq<u8>;

/// The whole artifact for a sequence of entries: its tar image wrapped in a
/// zstd frame at the library's fixed level.
pub open spec fn artifact_of(entries: Seq<EntryModel>) -> Seq<u8> {
    zstd_frame_of(tar_bytes_of(entries), ZSTD_LEVEL as int)
}

/// Relies on tar::Builder::new: a fresh builder over an empty buffer has been
/// fed nothing.
#[verifier::external_body]
fn tar_builder_new() -> (b: TarBuilder)
    ensures
        tar_entries(b) == Seq::<EntryModel>::empty(),
{
    TarBuilder { inner: tar::Builder::new(Vec::new()) }
}

/// Relies on tar::Builder::append_data, which writes one header (long names
/// via the GNU extension) and the payload: on success the builder has been
/// fed exactly one more entry.  For a well-formed entry it cannot fail: the
/// name passes every path validation, and writes into the in-memory buffer
/// are infallible.
#[verifier::external_body]
fn tar_append_entry(b: &mut TarBuilder, e: &Entry) -> (r: Result<(), String>)
    ensures
        r is Ok ==> tar_entries(*final(b)) == tar_entries(*old(b)).push(e.model()),
        crate::entries::wf_entry_model(e.model()) ==> r is Ok,
{
    let mut h = tar::Header::new_gnu();
    h.set_entry_type(
        match e.kind {
            EntryKind::Directory => tar::EntryType::Directory,
            EntryKind::Regular => tar::EntryType::Regular,
        },
    );
    h.set_mode(e.mode);
    h.set_mtime(e.mtime);
    h.set_size(e.data.len() as u64);
    b.inner.append_data(&mut h, e.name.as_str(), &e.data[..]).map_err(io_msg)
}

/// Relies on tar::Builder::into_inner, which writes the terminating blocks
/// and hands the buffer back: the bytes are the container's image of what the
/// builder was fed, a function of those entries alone.  Writing the
/// terminator into the in-memory buffer is infallible, so it always
/// succeeds.
#[verifier::external_body]
fn tar_finish(b: TarBuilder) -> (r: Result<Vec<u8>, String>)
    ensures
        r is Ok,
        r matches Ok(bytes) ==> bytes@ == tar_bytes_of(tar_entries(b)),
{
    b.inner.into_inner().map_err(io_msg)
}

/// The entry models that the tar reader yields for a byte image, in stream
/// order — a function of the image alone.  None where the image is malformed
/// or holds an entry kind outside the model (a link, a device, a fifo):
/// such an entry cannot be represented as a file or directory, so the
/// library refuses it rather than silently altering it.
pub uninterp spec fn tar_parsed(bytes: Seq<u8>) -> Option<Seq<EntryModel>>;

/// Holds when `r` parses `bytes` faithfully: whenever `bytes` is the tar
/// image of well-formed entries, `r` is exactly those entries.
pub open spec fn parses_tar_image(bytes: Seq<u8>, r: Result<Vec<Entry>, String>) -> bool {
    forall|es: Seq<EntryModel>|
        wf_entry_models(es) && bytes == tar_bytes_of(es) ==> (r matches Ok(v) && models_of(v@)
            == es)
}

/// Relies on tar::Archive::entries and tar::Entry (path, header, payload):
/// the reader's yield is a function of the image alone ([`tar_parsed`]), and
/// entries written in the normal, well-formed shape are read back verbatim
/// and in order, so parsing the image of such entries yields exactly them.
#[verifier::external_body]
pub(crate) fn tar_decode(bytes: &[u8]) -> (r: Result<Vec<Entry>, String>)
    ensures
        parses_tar_image(bytes@, r),
        r matches Ok(v) ==> tar_parsed(bytes@) == Some(models_of(v@)),
        r is Err ==> tar_parsed(bytes@) is None,
{
    let mut ar = Archive::new(bytes);
    let mut out = vec![];
    for next in ar.entries().map_err(io_msg)? {
        let mut ent = next.map_err(io_msg)?;
        let name = String::from_utf8_lossy(&ent.path_bytes()).into_owned();
        let h = ent.header();
        let kind = if h.entry_type().is_dir() { EntryKind::Directory } else if h.entry_type()
            .is_file() { EntryKind::Regular } else { return Err("unsupported entry kind".into()) };
        let (mode, mtime) = (h.mode().unwrap_or(0), h.mtime().unwrap_or(0));
        let mut data = vec![];
        ent.read_to_end(&mut data).map_err(io_msg)?;
        out.push(Entry { name, kind, data, mode, mtime });
    }
    Ok(out)
}

/// Relies on zstd::stream::encode_all: one frame, a function of the input
/// bytes and the level alone.  At the library's fixed, valid level, encoding
/// into memory cannot fail.
#[verifier::external_body]
fn zstd_compress(bytes: &Vec<u8>, level: i32) -> (r: Result<Vec<u8>, String>)
    ensures
        r matches Ok(out) ==> out@ == zstd_frame_of(bytes@, level as int),
        level == ZSTD_LEVEL ==> r is Ok,
{
    zstd::stream::encode_all(&bytes[..], level).map_err(io_msg)
}

/// What Zstandard decoding yields for a byte sequence — a function of the
/// bytes alone: the decoded payload where they form valid frames, none where
/// they are malformed or truncated.
pub uninterp spec fn zstd_decoded(bytes: Seq<u8>) -> Option<Seq<u8>>;

/// Holds when `r` decompresses `bytes` faithfully: whenever `bytes` is a
/// zstd frame, `r` is exactly the bytes the frame was made from.
pub open spec fn decompresses_frame(bytes: Seq<u8>, r: Result<Vec<u8>, String>) -> bool {
    forall|orig: Seq<u8>, level: int|
        bytes == zstd_frame_of(orig, level) ==> (r matches Ok(out) && out@ == orig)
}

/// Relies on zstd::stream::decode_all: the outcome is a function of the
/// bytes alone ([`zstd_decoded`]), and Zstandard is lossless, so a frame
/// decodes back to exactly the bytes it was made from.
#[verifier::external_body]
pub(crate) fn zstd_decompress(bytes: &Vec<u8>) -> (r: Result<Vec<u8>, String>)
    ensures
        decompresses_frame(bytes@, r),
        r matches Ok(out) ==> zstd_decoded(bytes@) == Some(out@),
        r is Err ==> zstd_decoded(bytes@) is None,
{
    zstd::stream::decode_all(&bytes[..]).map_err(io_msg)
}

/// Serialises the entries through the tar container and compresses the image
/// into one artifact.  On well-formed entries every stage succeeds, so
/// success is owed.
pub(crate) fn encode_entries(entries: &Vec<Entry>) -> (r: Result<Vec<u8>, String>)
    ensures
        r matches Ok(bytes) ==> bytes@ == artifact_of(models_of(entries@)),
        wf_entry_models(models_of(entries@)) ==> r is Ok,
{
    let mut b = tar_builder_new();
    let mut i: usize = 0;
    while i < entries.len()
        invariant
            i <= entries@.len(),
            tar_entries(b) == models_of(entries@).take(i as int),
        decreases entries@.len() - i,
    {
        match tar_append_entry(&mut b, &entries[i]) {
            Ok(u) => u,
            Err(m) => {
                proof {
                    if wf_entry_models(models_of(entries@)) {
                        assert(models_of(entries@)[i as int] == entries@[i as int].model());
                        assert(false);
                    }
                }
                return Err(m);
            },
        }
        proof {
            assert(models_of(entries@).take(i as int).push(entries@[i as int].model())
                =~= models_of(entries@).take(i + 1));
        }
        i = i + 1;
    }
    proof {
        assert(models_of(entries@).take(entries@.len() as int) =~= models_of(entries@));
    }
    let tar_bytes = match tar_finish(b) {
        Ok(v) => v,
        Err(m) => {
            return Err(m);
        },
    };
    match zstd_compress(&tar_bytes, ZSTD_LEVEL) {
        Ok(v) => Ok(v),
        Err(m) => Err(m),
    }
}

} // verus!
