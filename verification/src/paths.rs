//! Path-naming policy and archive-name hygiene.
//!
//! Packing needs one decision from the source path alone: the root entry name
//! (the base name of the source, with the current-directory sentinel `.` as
//! fallback).  Unpacking interprets recorded entry names relative to the
//! destination, so it insists that they are safe: nonempty, relative, and
//! free of parent-directory segments.  The command layer normalizes the
//! output name to the canonical archive extension.  All of it is pure string
//! logic, specified over `Seq<char>`.

use vstd::prelude::*;
use vstd::string::StrSliceExecFns;
use vstd::string::StringExecFns;

verus! {

/// `s` without its trailing `/` characters.
pub open spec fn trim_trailing_slashes(s: Seq<char>) -> Seq<char>
    decreases s.len(),
{
    if s.len() > 0 && s[s.len() - 1] == '/' {
        trim_trailing_slashes(s.drop_last())
    } else {
        s
    }
}

/// The longest suffix of `s` that contains no `/`.
pub open spec fn slash_free_suffix(s: Seq<char>) -> Seq<char>
    decreases s.len(),
{
    if s.len() == 0 || s[s.len() - 1] == '/' {
        Seq::<char>::empty()
    } else {
        slash_free_suffix(s.drop_last()).push(s[s.len() - 1])
    }
}

/// The base name of a path: the last slash-separated segment once trailing
/// slashes are dropped; none when nothing remains or the remainder is the
/// current- or parent-directory sentinel.
pub open spec fn base_name_spec(path: Seq<char>) -> Option<Seq<char>> {
    let b = slash_free_suffix(trim_trailing_slashes(path));
    if b.len() == 0 || b == seq!['.'] || b == seq!['.', '.'] {
        None
    } else {
        Some(b)
    }
}

/// The root entry name recorded for a packed source: its base name, falling
/// back to the current-directory sentinel when none can be extracted.
pub open spec fn root_name_spec(path: Seq<char>) -> Seq<char> {
    match base_name_spec(path) {
        Some(b) => b,
        None => seq!['.'],
    }
}

/// `trim_trailing_slashes(s)` is a prefix of `s`.
proof fn lemma_trim_is_prefix(s: Seq<char>)
    ensures
        trim_trailing_slashes(s).len() <= s.len(),
        trim_trailing_slashes(s) == s.subrange(0, trim_trailing_slashes(s).len() as int),
    decreases s.len(),
{
    if s.len() > 0 && s[s.len() - 1] == '/' {
        lemma_trim_is_prefix(s.drop_last());
        assert(trim_trailing_slashes(s) == s.drop_last().subrange(
            0,
            trim_trailing_slashes(s).len() as int,
        ));
        assert(s.drop_last().subrange(0, trim_trailing_slashes(s).len() as int) =~= s.subrange(
            0,
            trim_trailing_slashes(s).len() as int,
        ));
    }
}

/// `slash_free_suffix(s)` is a suffix of `s` and contains no `/`.
proof fn lemma_suffix_shape(s: Seq<char>)
    ensures
        slash_free_suffix(s).len() <= s.len(),
        slash_free_suffix(s) == s.subrange(
            s.len() - slash_free_suffix(s).len(),
            s.len() as int,
        ),
        forall|i: int|
            0 <= i < slash_free_suffix(s).len() ==> slash_free_suffix(s)[i] != '/',
    decreases s.len(),
{
    if s.len() == 0 || s[s.len() - 1] == '/' {
        assert(slash_free_suffix(s) =~= s.subrange(s.len() as int, s.len() as int));
    } else {
        lemma_suffix_shape(s.drop_last());
        let b = slash_free_suffix(s.drop_last());
        assert(slash_free_suffix(s) =~= s.subrange(
            s.len() - slash_free_suffix(s).len(),
            s.len() as int,
        ));
    }
}

/// Every character of the base name occurs in the path, and the base name is
/// free of `/`.
pub proof fn lemma_base_name_chars(path: Seq<char>, b: Seq<char>)
    requires
        base_name_spec(path) == Some(b),
    ensures
        forall|i: int| 0 <= i < b.len() ==> path.contains(#[trigger] b[i]),
        forall|i: int| 0 <= i < b.len() ==> b[i] != '/',
{
    let t = trim_trailing_slashes(path);
    lemma_trim_is_prefix(path);
    lemma_suffix_shape(t);
    assert forall|i: int| 0 <= i < b.len() implies path.contains(#[trigger] b[i]) by {
        assert(b[i] == t[t.len() - b.len() + i]);
        assert(t[t.len() - b.len() + i] == path[t.len() - b.len() + i]);
    }
}

/// The base name of `path`, as the executable counterpart of
/// [`base_name_spec`].
pub fn base_name(path: &str) -> (r: Option<String>)
    ensures
        r matches Some(b) ==> base_name_spec(path@) == Some(b@),
        r is None ==> base_name_spec(path@) is None,
{
    let n: usize = path.unicode_len();
    proof {
        assert(path@.subrange(0, n as int) =~= path@);
    }
    let mut end: usize = n;
    while end > 0 && path.get_char(end - 1) == '/'
        invariant
            end <= n,
            n == path@.len(),
            trim_trailing_slashes(path@) == trim_trailing_slashes(
                path@.subrange(0, end as int),
            ),
        decreases end,
    {
        proof {
            assert(path@.subrange(0, end as int).drop_last() =~= path@.subrange(
                0,
                end - 1,
            ));
        }
        end = end - 1;
    }
    let ghost t = trim_trailing_slashes(path@);
    proof {
        assert(t =~= path@.subrange(0, end as int));
    }
    let mut start: usize = end;
    while start > 0 && path.get_char(start - 1) != '/'
        invariant
            start <= end <= n,
            n == path@.len(),
            t == path@.subrange(0, end as int),
            slash_free_suffix(t) == slash_free_suffix(path@.subrange(0, start as int))
                + path@.subrange(start as int, end as int),
        decreases start,
    {
        proof {
            let p = path@.subrange(0, start as int);
            assert(p.drop_last() =~= path@.subrange(0, start - 1));
            assert(slash_free_suffix(p.drop_last()).push(p[p.len() - 1]) + path@.subrange(
                start as int,
                end as int,
            ) =~= slash_free_suffix(p.drop_last()) + path@.subrange(start - 1, end as int));
        }
        start = start - 1;
    }
    proof {
        if start == 0 {
            assert(path@.subrange(0, 0) =~= Seq::<char>::empty());
            assert(slash_free_suffix(Seq::<char>::empty()) + path@.subrange(
                0,
                end as int,
            ) =~= path@.subrange(0, end as int));
        } else {
            let p = path@.subrange(0, start as int);
            assert(p[p.len() - 1] == '/');
            assert(slash_free_suffix(p) + path@.subrange(start as int, end as int)
                =~= path@.subrange(start as int, end as int));
        }
        assert(slash_free_suffix(t) == path@.subrange(start as int, end as int));
    }
    let len: usize = end - start;
    if len == 0 {
        return None;
    }
    if len == 1 && path.get_char(start) == '.' {
        proof {
            assert(slash_free_suffix(t) =~= seq!['.']);
        }
        return None;
    }
    if len == 2 && path.get_char(start) == '.' && path.get_char(start + 1) == '.' {
        proof {
            assert(slash_free_suffix(t) =~= seq!['.', '.']);
        }
        return None;
    }
    let b = path.substring_char(start, end);
    proof {
        let bs = slash_free_suffix(t);
        if bs == seq!['.'] {
            assert(bs.len() == 1 && bs[0] == '.');
            assert(false);
        }
        if bs == seq!['.', '.'] {
            assert(bs.len() == 2 && bs[0] == '.' && bs[1] == '.');
            assert(false);
        }
    }
    Some(b.to_owned())
}

/// The root entry name for a packed source, as the executable counterpart of
/// [`root_name_spec`].
pub fn root_name(path: &str) -> (r: String)
    ensures
        r@ == root_name_spec(path@),
{
    match base_name(path) {
        Some(b) => b,
        None => {
            let r = String::from_str(".");
            proof {
                reveal_strlit(".");
                assert(r@ =~= seq!['.']);
            }
            r
        },
    }
}

/// The canonical archive extension, as characters.
pub open spec fn rz_suffix() -> Seq<char> {
    seq!['.', 'r', 'z']
}

/// Holds when `name` already bears the canonical archive extension.
pub open spec fn has_rz_extension(s: Seq<char>) -> bool {
    s.len() >= 3 && s.subrange(s.len() - 3, s.len() as int) == rz_suffix()
}

/// An output name normalized to the canonical archive extension: left alone
/// when it already bears it, with the extension appended otherwise.
pub open spec fn normalized_output_spec(s: Seq<char>) -> Seq<char> {
    if has_rz_extension(s) {
        s
    } else {
        s + rz_suffix()
    }
}

/// Normalizes an output name, as the executable counterpart of
/// [`normalized_output_spec`].
pub fn normalize_output(name: &str) -> (r: String)
    ensures
        r@ == normalized_output_spec(name@),
{
    let n: usize = name.unicode_len();
    if n >= 3 && name.get_char(n - 3) == '.' && name.get_char(n - 2) == 'r' && name.get_char(
        n - 1,
    ) == 'z' {
        proof {
            assert(name@.subrange(n - 3, n as int) =~= rz_suffix());
        }
        name.to_owned()
    } else {
        proof {
            if has_rz_extension(name@) {
                assert(name@.subrange(n - 3, n as int) == rz_suffix());
                assert(name@[n - 3] == '.' && name@[n - 2] == 'r' && name@[n - 1] == 'z');
                assert(false);
            }
        }
        let mut out = name.to_owned();
        out.append(".rz");
        proof {
            reveal_strlit(".rz");
            assert(".rz"@ =~= rz_suffix());
        }
        out
    }
}

/// The canonical extension is appended exactly once: a normalized name bears
/// it, and normalizing a name that already bears it changes nothing.
pub proof fn lemma_normalize_output_idempotent(s: Seq<char>)
    ensures
        has_rz_extension(normalized_output_spec(s)),
        normalized_output_spec(normalized_output_spec(s)) == normalized_output_spec(s),
{
    if !has_rz_extension(s) {
        assert((s + rz_suffix()).subrange(
            (s + rz_suffix()).len() - 3,
            (s + rz_suffix()).len() as int,
        ) =~= rz_suffix());
    }
}

/// Holds when the characters at `i .. i + 2` of `name` form a `..` path
/// segment.
pub open spec fn dotdot_segment_at(name: Seq<char>, i: int) -> bool {
    &&& 0 <= i
    &&& i + 2 <= name.len()
    &&& name[i] == '.'
    &&& name[i + 1] == '.'
    &&& (i == 0 || name[i - 1] == '/')
    &&& (i + 2 == name.len() || name[i + 2] == '/')
}

/// Holds when the character at `i` of `name` forms a `.` path segment.
pub open spec fn dot_segment_at(name: Seq<char>, i: int) -> bool {
    &&& 0 <= i < name.len()
    &&& name[i] == '.'
    &&& (i == 0 || name[i - 1] == '/')
    &&& (i + 1 == name.len() || name[i + 1] == '/')
}

/// A name recorded in an archive may be materialised below a destination
/// root: it is nonempty, relative, and free of parent-directory segments.
pub open spec fn safe_entry_name(name: Seq<char>) -> bool {
    &&& name.len() > 0
    &&& name[0] != '/'
    &&& !(exists|i: int| dotdot_segment_at(name, i))
}

/// A name in the normal form that the tar container stores verbatim: a
/// nonempty relative path of plain segments, with no empty, `.` or `..`
/// segment and no NUL or backslash character.
pub open spec fn normal_entry_name(name: Seq<char>) -> bool {
    &&& name.len() > 0
    &&& name[0] != '/'
    &&& name[name.len() - 1] != '/'
    &&& forall|i: int| 0 <= i < name.len() ==> name[i] != '\0' && name[i] != '\\'
    &&& forall|i: int|
        0 <= i < name.len() - 1 ==> !(#[trigger] name[i] == '/' && name[i + 1] == '/')
    &&& forall|i: int| !dot_segment_at(name, i)
    &&& forall|i: int| !dotdot_segment_at(name, i)
}

/// A normal name is safe.
pub proof fn lemma_normal_is_safe(name: Seq<char>)
    requires
        normal_entry_name(name),
    ensures
        safe_entry_name(name),
{
}

/// Decides [`safe_entry_name`].
pub fn is_safe_entry_name(name: &str) -> (r: bool)
    ensures
        r == safe_entry_name(name@),
{
    let n: usize = name.unicode_len();
    if n == 0 {
        return false;
    }
    if name.get_char(0) == '/' {
        return false;
    }
    let mut i: usize = 0;
    while i < n
        invariant
            i <= n,
            n == name@.len(),
            forall|j: int| 0 <= j < i ==> !dotdot_segment_at(name@, j),
        decreases n - i,
    {
        if n - i >= 2 && name.get_char(i) == '.' && name.get_char(i + 1) == '.' && (i == 0
            || name.get_char(i - 1) == '/') && (n - i == 2 || name.get_char(i + 2) == '/') {
            proof {
                assert(dotdot_segment_at(name@, i as int));
            }
            return false;
        }
        proof {
            if dotdot_segment_at(name@, i as int) {
                assert(false);
            }
        }
        i = i + 1;
    }
    proof {
        if exists|j: int| dotdot_segment_at(name@, j) {
            let j = choose|j: int| dotdot_segment_at(name@, j);
            assert(0 <= j < n);
        }
    }
    true
}

/// `prefix`, a `/`, then `name`.
pub fn join_path(prefix: &str, name: &str) -> (r: String)
    ensures
        r@ == prefix@ + seq!['/'] + name@,
{
    let mut out = prefix.to_owned();
    out.append("/");
    out.append(name);
    proof {
        reveal_strlit("/");
        assert("/"@ =~= seq!['/']);
    }
    out
}

/// Joining a slash-free normal root to a normal relative name yields a
/// normal name again.
pub proof fn lemma_join_normal(root: Seq<char>, rel: Seq<char>)
    requires
        normal_entry_name(root),
        forall|i: int| 0 <= i < root.len() ==> root[i] != '/',
        normal_entry_name(rel),
    ensures
        normal_entry_name(root + seq!['/'] + rel),
{
    let j = root + seq!['/'] + rel;
    assert(j.len() == root.len() + 1 + rel.len());
    assert forall|i: int| 0 <= i < j.len() implies j[i] != '\0' && j[i] != '\\' by {
        if i < root.len() {
            assert(j[i] == root[i]);
        } else if i == root.len() {
            assert(j[i] == '/');
        } else {
            assert(j[i] == rel[i - root.len() - 1]);
        }
    }
    assert forall|i: int|
        0 <= i < j.len() - 1 implies !(#[trigger] j[i] == '/' && j[i + 1] == '/') by {
        if i < root.len() {
            assert(j[i] == root[i] && root[i] != '/');
        } else if i == root.len() {
            assert(j[i + 1] == rel[0] && rel[0] != '/');
        } else {
            assert(j[i] == rel[i - root.len() - 1] && j[i + 1] == rel[i - root.len()]);
        }
    }
    assert forall|i: int| !dot_segment_at(j, i) by {
        if 0 <= i < j.len() {
            if i < root.len() {
                if dot_segment_at(j, i) {
                    assert(root[i] == '.');
                    assert(i == 0 || root[i - 1] == '/');
                    assert(i == 0);
                    assert(i + 1 == root.len() || j[i + 1] == '/');
                    assert(i + 1 == root.len());
                    assert(dot_segment_at(root, 0));
                    assert(false);
                }
            } else if i == root.len() {
                assert(j[i] == '/');
            } else {
                let k = i - root.len() - 1;
                if dot_segment_at(j, i) {
                    assert(rel[k] == '.');
                    assert(k == 0 || rel[k - 1] == '/');
                    assert(k + 1 == rel.len() || rel[k + 1] == '/');
                    assert(dot_segment_at(rel, k));
                    assert(false);
                }
            }
        }
    }
    assert forall|i: int| !dotdot_segment_at(j, i) by {
        if 0 <= i && i + 2 <= j.len() {
            if dotdot_segment_at(j, i) {
                if i + 1 < root.len() {
                    assert(root[i] == '.' && root[i + 1] == '.');
                    assert(i == 0);
                    assert(i + 2 == j.len() || j[i + 2] == '/');
                    assert(i + 2 >= root.len());
                    assert(i + 2 == root.len());
                    assert(dotdot_segment_at(root, 0));
                    assert(false);
                } else if i < root.len() + 1 <= i + 2 {
                    assert(j[root.len() as int] == '/');
                    assert(false);
                } else {
                    let k = i - root.len() - 1;
                    assert(rel[k] == '.' && rel[k + 1] == '.');
                    assert(k == 0 || rel[k - 1] == '/');
                    assert(k + 2 == rel.len() || rel[k + 2] == '/');
                    assert(dotdot_segment_at(rel, k));
                    assert(false);
                }
            }
        }
    }
}

/// A base name extracted from a path free of NUL and backslash characters is
/// a normal, slash-free entry name.
pub proof fn lemma_base_name_normal(path: Seq<char>, b: Seq<char>)
    requires
        base_name_spec(path) == Some(b),
        forall|i: int| 0 <= i < path.len() ==> path[i] != '\0' && path[i] != '\\',
    ensures
        normal_entry_name(b),
        forall|i: int| 0 <= i < b.len() ==> b[i] != '/',
{
    lemma_base_name_chars(path, b);
    assert(b.len() > 0);
    assert forall|i: int| 0 <= i < b.len() implies b[i] != '\0' && b[i] != '\\' by {
        assert(path.contains(b[i]));
        let k = choose|k: int| 0 <= k < path.len() && path[k] == b[i];
        assert(path[k] != '\0' && path[k] != '\\');
    }
    assert forall|i: int| !dot_segment_at(b, i) by {
        if dot_segment_at(b, i) {
            assert(i == 0 && i + 1 == b.len());
            assert(b =~= seq!['.']);
            assert(false);
        }
    }
    assert forall|i: int| !dotdot_segment_at(b, i) by {
        if dotdot_segment_at(b, i) {
            assert(i == 0 && i + 2 == b.len());
            assert(b =~= seq!['.', '.']);
            assert(false);
        }
    }
}

} // verus!
