//! The directory and the stem of a trace path.

use vstd::prelude::*;

verus! {

/// A character that separates nothing on any platform.
pub open spec fn plain_char(c: char) -> bool {
    'a' <= c <= 'z' || 'A' <= c <= 'Z' || '0' <= c <= '9' || c == '_' || c == '-' || c == '.'
}

/// An ordinary file name: plain characters, and not dots alone.
pub open spec fn plain_name(s: Seq<char>) -> bool {
    &&& forall|i: int| 0 <= i < s.len() ==> plain_char(#[trigger] s[i])
    &&& exists|i: int| 0 <= i < s.len() && #[trigger] s[i] != '.'
}

/// An ordinary directory: ordinary names with single slashes between them, from
/// the root on or not.
pub open spec fn plain_dir(d: Seq<char>) -> bool {
    &&& d.len() > 0
    &&& d.last() != '/'
    &&& forall|i: int, j: int|
        0 <= i < j <= d.len() && (i == 0 || d[i - 1] == '/') && (j == d.len() || d[j] == '/') && (
        i > 0 || d[0] != '/') && !#[trigger] d.subrange(i, j).contains('/') ==> plain_name(
            d.subrange(i, j),
        )
    &&& forall|i: int| 0 < i < d.len() && #[trigger] d[i] == '/' ==> d[i - 1] != '/'
}

/// Whether `path` is the ordinary file name `name` in the ordinary directory
/// `dir`.
pub open spec fn is_file_in(path: Seq<char>, dir: Seq<char>, name: Seq<char>) -> bool {
    plain_dir(dir) && plain_name(name) && path == dir.push('/') + name
}

/// Whether `path` is an ordinary file name, alone or in an ordinary directory.
pub open spec fn is_plain_path(path: Seq<char>) -> bool {
    plain_name(path) || exists|dir: Seq<char>, name: Seq<char>| is_file_in(path, dir, name)
}

/// Whether `parent` is the directory of `path`, so far as `path` is ordinary: an
/// empty one for a name alone.
pub open spec fn is_parent(path: Seq<char>, parent: Seq<char>) -> bool {
    &&& forall|dir: Seq<char>, name: Seq<char>| #[trigger]
        is_file_in(path, dir, name) ==> parent == dir
    &&& plain_name(path) ==> parent.len() == 0
}

/// Whether `stem` is what stands before the last dot of the file name `name`:
/// all of it if that dot is its first character, or there is none.
pub open spec fn is_stem_of_name(name: Seq<char>, stem: Seq<char>) -> bool {
    &&& 0 < stem.len() <= name.len()
    &&& stem == name.take(stem.len() as int)
    &&& stem.len() < name.len() ==> name[stem.len() as int] == '.'
    &&& forall|i: int| stem.len() < i < name.len() ==> #[trigger] name[i] != '.'
    &&& stem.len() == name.len() ==> forall|i: int|
        0 < i < name.len() ==> #[trigger] name[i] != '.'
}

/// Whether `stem` is the stem of the file name of `path`, so far as `path` is
/// ordinary.
pub open spec fn is_stem(path: Seq<char>, stem: Seq<char>) -> bool {
    &&& forall|dir: Seq<char>, name: Seq<char>| #[trigger]
        is_file_in(path, dir, name) ==> is_stem_of_name(name, stem)
    &&& plain_name(path) ==> is_stem_of_name(path, stem)
}

/// `Path::file_stem` gives the file name before its last dot, all of it if that
/// dot is its first character or there is none; `None` also stands for a stem
/// that is no Unicode text. This is claimed of ordinary paths only: what else
/// separates the parts of a path rests on the platform.
#[verifier::external_body]
fn path_file_stem(path: &str) -> (stem: Option<String>)
    ensures
        is_plain_path(path@) ==> stem is Some,
        stem matches Some(s) ==> is_stem(path@, s@),
{
    let stem = std::path::Path::new(path).file_stem();
    stem.and_then(|s| s.to_str()).map(|s| s.to_string())
}

/// Whether `stem` is what the platform may give as the stem of `path`.
pub closed spec fn stem_reads(path: Seq<char>, stem: Option<String>) -> bool {
    exists|p: &str| p@ == path && #[trigger] call_ensures(path_file_stem, (p,), stem)
}

/// The stem of `path`, by the rules of the platform.
pub(crate) fn file_stem_of(path: &str) -> (stem: Option<String>)
    ensures
        is_plain_path(path@) ==> stem is Some,
        stem matches Some(s) ==> is_stem(path@, s@),
        stem_reads(path@, stem),
{
    path_file_stem(path)
}

/// `Path::parent` gives the path without its last part, and nothing of an empty
/// path; `None` also stands for one that is no Unicode text. Beside the empty
/// path this is claimed of ordinary paths only: what else separates the parts of
/// a path rests on the platform.
#[verifier::external_body]
fn path_parent(path: &str) -> (parent: Option<String>)
    ensures
        path@.len() == 0 ==> parent is None,
        is_plain_path(path@) ==> parent is Some,
        parent matches Some(p) ==> is_parent(path@, p@),
{
    let parent = std::path::Path::new(path).parent();
    parent.and_then(|p| p.to_str()).map(|p| p.to_string())
}

/// Whether `parent` is what the platform may give as the parent of `path`.
pub closed spec fn parent_reads(path: Seq<char>, parent: Option<String>) -> bool {
    exists|p: &str| p@ == path && #[trigger] call_ensures(path_parent, (p,), parent)
}

/// The parent of `path`, by the rules of the platform.
pub(crate) fn parent_of(path: &str) -> (parent: Option<String>)
    ensures
        path@.len() == 0 ==> parent is None,
        is_plain_path(path@) ==> parent is Some,
        parent matches Some(p) ==> is_parent(path@, p@),
        parent_reads(path@, parent),
{
    path_parent(path)
}

/// The directory and the stem of the segments of a writer with the base path
/// `base`: `.` where it has no parent, an empty stem where it has none.
pub fn dir_and_stem(base: &str) -> (r: (String, String))
    ensures
        is_plain_path(base@) ==> is_parent(base@, r.0@) && is_stem(base@, r.1@),
        base@.len() == 0 ==> r.0@ == "."@,
        exists|parent: Option<String>| #[trigger]
            parent_reads(base@, parent) && r.0@ == (match parent {
                Some(p) => p@,
                None => "."@,
            }),
        exists|stem: Option<String>| #[trigger]
            stem_reads(base@, stem) && r.1@ == (match stem {
                Some(s) => s@,
                None => Seq::empty(),
            }),
{
    let dir = dir_or_here(parent_of(base));
    let stem = match file_stem_of(base) {
        Some(s) => s,
        None => String::new(),
    };
    (dir, stem)
}

/// The directory to scan: the parent of the trace path, or `.` where there is
/// none.
pub fn dir_or_here(parent: Option<String>) -> (dir: String)
    ensures
        dir@ == (match parent {
            Some(p) => p@,
            None => "."@,
        }),
{
    match parent {
        Some(p) => p,
        None => ".".to_string(),
    }
}

/// The stem of the segments: that of the trace path, or `trace` where there is
/// none.
pub fn stem_or_trace(stem: Option<String>) -> (s: String)
    ensures
        s@ == (match stem {
            Some(s) => s@,
            None => "trace"@,
        }),
{
    match stem {
        Some(s) => s,
        None => "trace".to_string(),
    }
}

/// The stem of the segments: that of the trace path, or `trace` where there is
/// none or an empty one.
pub fn nonempty_stem_or_trace(stem: Option<String>) -> (s: String)
    ensures
        s@ == (match stem {
            Some(s) => if s@.len() > 0 {
                s@
            } else {
                "trace"@
            },
            None => "trace"@,
        }),
        s@.len() > 0,
{
    proof {
        reveal_strlit("trace");
    }
    match stem {
        Some(s) => {
            let chars = crate::text::to_chars(s.as_str());
            if chars.len() > 0 {
                s
            } else {
                "trace".to_string()
            }
        },
        None => "trace".to_string(),
    }
}

/// The stem of a name with an extension is what stands before the last dot; a
/// name without a dot, or with one in front alone, is its own stem.
pub proof fn lemma_stem_stands_before_the_last_dot(
    base: Seq<char>,
    extension: Seq<char>,
    stem: Seq<char>,
)
    requires
        base.len() > 0,
        forall|i: int| 0 <= i < extension.len() ==> #[trigger] extension[i] != '.',
    ensures
        is_stem_of_name(base + seq!['.'] + extension, stem) <==> stem == base,
        (forall|i: int| 0 < i < base.len() ==> #[trigger] base[i] != '.') ==> (is_stem_of_name(
            base,
            stem,
        ) <==> stem == base),
{
    let name = base + seq!['.'] + extension;
    assert(name[base.len() as int] == '.');
    assert(name.take(base.len() as int) =~= base);
    assert forall|i: int| base.len() < i < name.len() implies #[trigger] name[i] != '.' by {
        assert(name[i] == extension[i - base.len() - 1]);
    }
    if is_stem_of_name(name, stem) {
        if stem.len() < base.len() {
            assert(name[base.len() as int] != '.');
        }
        if stem.len() > base.len() && stem.len() < name.len() {
            assert(name[stem.len() as int] != '.');
        }
    }
    assert(base.take(base.len() as int) =~= base);
    if is_stem_of_name(base, stem) && stem.len() < base.len() {
        assert(base[stem.len() as int] == '.');
    }
    if is_stem_of_name(base, stem) && stem.len() == base.len() {
        assert(stem =~= base);
    }
}

/// A file in a directory has that directory as its parent, and its stem is that
/// of its name; a name alone has an empty parent.
pub proof fn lemma_parent_and_stem_of_a_file(
    dir: Seq<char>,
    name: Seq<char>,
    parent: Seq<char>,
    stem: Seq<char>,
)
    requires
        plain_name(name),
    ensures
        plain_dir(dir) && is_parent(dir.push('/') + name, parent) ==> parent == dir,
        plain_dir(dir) && is_stem(dir.push('/') + name, stem) ==> is_stem_of_name(name, stem),
        is_parent(name, parent) ==> parent.len() == 0,
        is_stem(name, stem) ==> is_stem_of_name(name, stem),
{
    if plain_dir(dir) {
        assert(is_file_in(dir.push('/') + name, dir, name));
    }
}

} // verus!
