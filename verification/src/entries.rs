//! The in-memory model of sources and archive entries.
//!
//! A source is what probing the source path found: nothing, one regular file,
//! or a directory with its items in walk order.  Packing turns a source into
//! a sequence of archive entries — the plan — by the path-naming policy:
//! a directory contributes a root entry under its base name followed by every
//! item under `<root>/<relative path>`; a single file contributes exactly one
//! entry under its own base name.

use crate::paths::normal_entry_name;
use crate::paths::root_name_spec;
use crate::paths::safe_entry_name;
use vstd::prelude::*;

verus! {

/// The kind of one archive entry.
#[derive(Clone, Copy, PartialEq, Eq, Structural, Debug)]
pub enum EntryKind {
    /// A directory.
    Directory,
    /// A regular file.
    Regular,
}

/// One record of the archive container: a relative, slash-separated name, a
/// kind, the byte payload (empty for directories), and the permission and
/// modification-time metadata recorded at pack time.
pub struct Entry {
    pub name: String,
    pub kind: EntryKind,
    pub data: Vec<u8>,
    pub mode: u32,
    pub mtime: u64,
}

/// The plain-value model of one entry: its name, whether it is a directory,
/// its payload, its mode, and its modification time.
pub type EntryModel = (Seq<char>, bool, Seq<u8>, u32, u64);

impl Entry {
    /// The plain-value model of this entry.
    pub open spec fn model(self) -> EntryModel {
        (self.name@, self.kind is Directory, self.data@, self.mode, self.mtime)
    }
}

/// The models of a sequence of entries, in order.
pub open spec fn models_of(entries: Seq<Entry>) -> Seq<EntryModel> {
    entries.map_values(|e: Entry| e.model())
}

/// An entry model in the shape the tar container records verbatim: a normal
/// name, a payload only for regular files, and a mode within the permission
/// bits.
pub open spec fn wf_entry_model(e: EntryModel) -> bool {
    &&& normal_entry_name(e.0)
    &&& (e.1 ==> e.2.len() == 0)
    &&& e.3 <= 0o7777
}

/// All models of the sequence are well-formed.
pub open spec fn wf_entry_models(es: Seq<EntryModel>) -> bool {
    forall|i: int| 0 <= i < es.len() ==> wf_entry_model(#[trigger] es[i])
}

/// All names of the sequence are safe to materialise below a destination.
pub open spec fn safe_entry_models(es: Seq<EntryModel>) -> bool {
    forall|i: int| 0 <= i < es.len() ==> safe_entry_name((#[trigger] es[i]).0)
}

/// One item found inside a source directory, at a path relative to it.
pub struct DirItem {
    pub rel_path: String,
    pub kind: EntryKind,
    pub data: Vec<u8>,
    pub mode: u32,
    pub mtime: u64,
}

/// What probing the source path found on disk, handed to the library as
/// plain values.
pub enum Source {
    /// The path does not exist.
    Missing,
    /// The path is a regular file with these bytes and metadata.
    File { data: Vec<u8>, mode: u32, mtime: u64 },
    /// The path is a directory with these items, in walk order, and this
    /// metadata of its own.
    Dir { mode: u32, mtime: u64, items: Vec<DirItem> },
}

/// A directory item as the walker hands it over: a normal relative path, a
/// payload only for files, and a mode within the permission bits.
pub open spec fn dir_item_wf(it: DirItem) -> bool {
    &&& normal_entry_name(it.rel_path@)
    &&& (it.kind is Directory ==> it.data@.len() == 0)
    &&& it.mode <= 0o7777
}

/// A well-formed source: the path names no NUL or backslash and has an
/// extractable base name, the source exists, its metadata is within the
/// permission bits, and every directory item is well-formed.
pub open spec fn source_wf(path: Seq<char>, source: Source) -> bool {
    &&& forall|i: int| 0 <= i < path.len() ==> path[i] != '\0' && path[i] != '\\'
    &&& crate::paths::base_name_spec(path) is Some
    &&& match source {
        Source::Missing => false,
        Source::File { data, mode, mtime } => mode <= 0o7777,
        Source::Dir { mode, mtime, items } => mode <= 0o7777 && forall|i: int|
            0 <= i < items@.len() ==> dir_item_wf(#[trigger] items@[i]),
    }
}

/// The single entry that packing a regular file plans: the file under its
/// own base name, with no extra nesting.
pub open spec fn file_plan(path: Seq<char>, data: Seq<u8>, mode: u32, mtime: u64) -> Seq<
    EntryModel,
> {
    seq![(root_name_spec(path), false, data, mode, mtime)]
}

/// The model of one directory item inside the plan: placed under
/// `<root>/<relative path>`.
pub open spec fn dir_item_model(root: Seq<char>, it: DirItem) -> EntryModel {
    (root + seq!['/'] + it.rel_path@, it.kind is Directory, it.data@, it.mode, it.mtime)
}

/// The entries that packing a directory plans: the root entry under the
/// directory's base name, then each item under `<root>/<relative path>`, in
/// walk order.
pub open spec fn dir_plan(path: Seq<char>, mode: u32, mtime: u64, items: Seq<DirItem>) -> Seq<
    EntryModel,
> {
    seq![(root_name_spec(path), true, Seq::<u8>::empty(), mode, mtime)] + items.map_values(
        |it: DirItem| dir_item_model(root_name_spec(path), it),
    )
}

/// The entries that packing `source`, reached at `path`, writes into the
/// archive, in order.
pub open spec fn plan_entries(path: Seq<char>, source: Source) -> Seq<EntryModel>
    recommends
        !(source is Missing),
{
    match source {
        Source::Missing => Seq::<EntryModel>::empty(),
        Source::File { data, mode, mtime } => file_plan(path, data@, mode, mtime),
        Source::Dir { mode, mtime, items } => dir_plan(path, mode, mtime, items@),
    }
}

/// A byte-for-byte copy of `v`.
pub fn clone_bytes(v: &Vec<u8>) -> (r: Vec<u8>)
    ensures
        r@ == v@,
{
    let mut out: Vec<u8> = Vec::new();
    let mut i: usize = 0;
    while i < v.len()
        invariant
            i <= v.len(),
            out@ == v@.subrange(0, i as int),
        decreases v.len() - i,
    {
        out.push(v[i]);
        proof {
            assert(out@ =~= v@.subrange(0, i + 1));
        }
        i = i + 1;
    }
    proof {
        assert(v@.subrange(0, v@.len() as int) =~= v@);
    }
    out
}

/// Builds the planned entries for an existing source, in archive order.
pub fn build_entries(source_path: &str, source: &Source) -> (r: Vec<Entry>)
    requires
        !(source is Missing),
    ensures
        models_of(r@) == plan_entries(source_path@, *source),
{
    match source {
        Source::Missing => {
            // The contract rules a missing source out.
            Vec::new()
        },
        Source::File { data, mode, mtime } => {
            let name = crate::paths::root_name(source_path);
            let mut out: Vec<Entry> = Vec::new();
            out.push(
                Entry {
                    name,
                    kind: EntryKind::Regular,
                    data: clone_bytes(data),
                    mode: *mode,
                    mtime: *mtime,
                },
            );
            proof {
                assert(models_of(out@) =~= plan_entries(source_path@, *source));
            }
            out
        },
        Source::Dir { mode, mtime, items } => {
            let root = crate::paths::root_name(source_path);
            let ghost plan = plan_entries(source_path@, *source);
            let mut out: Vec<Entry> = Vec::new();
            out.push(
                Entry {
                    name: root.clone(),
                    kind: EntryKind::Directory,
                    data: Vec::new(),
                    mode: *mode,
                    mtime: *mtime,
                },
            );
            proof {
                assert(models_of(out@) =~= plan.take(1));
            }
            let mut i: usize = 0;
            while i < items.len()
                invariant
                    i <= items@.len(),
                    plan == plan_entries(source_path@, *source),
                    source matches Source::Dir { mode: m2, mtime: t2, items: it2 } && it2@
                        == items@,
                    root@ == root_name_spec(source_path@),
                    plan.len() == 1 + items@.len(),
                    out@.len() == i + 1,
                    models_of(out@) == plan.take(i + 1),
                decreases items@.len() - i,
            {
                let it = &items[i];
                let name = crate::paths::join_path(root.as_str(), it.rel_path.as_str());
                let e = Entry {
                    name,
                    kind: it.kind,
                    data: clone_bytes(&it.data),
                    mode: it.mode,
                    mtime: it.mtime,
                };
                let ghost em = e.model();
                out.push(e);
                proof {
                    let f = |x: DirItem| dir_item_model(root_name_spec(source_path@), x);
                    assert(items@.map_values(f)[i as int] == f(items@[i as int]));
                    assert(plan[i + 1] == dir_item_model(
                        root_name_spec(source_path@),
                        items@[i as int],
                    ));
                    assert(em == plan[i + 1]);
                    assert(out@[i + 1].model() == em);
                    assert(models_of(out@) =~= plan.take(i + 2));
                }
                i = i + 1;
            }
            proof {
                assert(plan.take(plan.len() as int) =~= plan);
            }
            out
        },
    }
}

} // verus!
