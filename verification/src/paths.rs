//! Thin wrappers over `std::path` for the few path queries the kernel makes.

use vstd::prelude::*;

verus! {

/// A bare file name: not empty, not `.` or `..`, and free of `/`, `\` and
/// `:`, so that every platform reads it as a single file-name component.
pub open spec fn bare_file_name(s: Seq<char>) -> bool {
    &&& s.len() > 0
    &&& s != seq!['.']
    &&& s != seq!['.', '.']
    &&& forall|i: int| 0 <= i < s.len() ==> #[trigger] s[i] != '/' && s[i] != '\\' && s[i] != ':'
}

/// `i` is the position of the last `.` of `s`.
pub open spec fn last_dot(s: Seq<char>, i: int) -> bool {
    0 <= i < s.len() && s[i] == '.' && forall|j: int| i < j < s.len() ==> #[trigger] s[j] != '.'
}

/// The extension `Path::extension` documents for a file name: none without
/// a `.`, none for a name that begins with its only `.`, otherwise the text
/// after the last `.`.
pub open spec fn file_name_extension(s: Seq<char>) -> Option<Seq<char>> {
    if exists|i: int| last_dot(s, i) {
        let i = choose|i: int| last_dot(s, i);
        if i == 0 {
            None
        } else {
            Some(s.subrange(i + 1, s.len() as int))
        }
    } else {
        None
    }
}

/// `i` is the position of the last `/` of `s`.
pub open spec fn last_slash(s: Seq<char>, i: int) -> bool {
    0 <= i < s.len() && s[i] == '/' && forall|j: int| i < j < s.len() ==> #[trigger] s[j] != '/'
}

/// The text after the last `/` of a path (all of it when there is none).
pub open spec fn last_segment(s: Seq<char>) -> Seq<char> {
    if exists|i: int| last_slash(s, i) {
        let i = choose|i: int| last_slash(s, i);
        s.subrange(i + 1, s.len() as int)
    } else {
        s
    }
}

/// Text that no platform reads specially: no `\`, no `:` (which may start a
/// drive prefix), and no leading `//` (which may start a network prefix).
pub open spec fn portable_text(s: Seq<char>) -> bool {
    &&& forall|i: int| 0 <= i < s.len() ==> #[trigger] s[i] != '\\' && s[i] != ':'
    &&& !(s.len() >= 2 && s[0] == '/' && s[1] == '/')
}

/// A path that every platform splits at its `/`s alone and whose file name
/// is its last segment: portable text whose last segment is a bare file
/// name.
pub open spec fn portable_file_path(s: Seq<char>) -> bool {
    &&& portable_text(s)
    &&& bare_file_name(last_segment(s))
}

/// Position `i` of `s` begins a component: it is the first position or
/// follows a `/`.
pub open spec fn begins_component(s: Seq<char>, i: int) -> bool {
    i == 0 || s[i - 1] == '/'
}

/// Position `j` of `s` ends a component: it is the end or holds a `/`.
pub open spec fn ends_component(s: Seq<char>, j: int) -> bool {
    j == s.len() || s[j] == '/'
}

/// A path whose components are the same on every platform: portable text,
/// not empty, an optional leading `/` and then components joined by single
/// `/`s, none of them empty, `.` or `..`.
pub open spec fn portable_path(s: Seq<char>) -> bool {
    &&& portable_text(s)
    &&& s.len() > 0
    &&& s[s.len() - 1] != '/'
    &&& forall|i: int| 0 <= i < s.len() - 1 ==> !(#[trigger] s[i] == '/' && s[i + 1] == '/')
    &&& forall|i: int|
        0 <= i < s.len() && #[trigger] s[i] == '.' && begins_component(s, i) ==> !ends_component(
            s,
            i + 1,
        ) && !(s[i + 1] == '.' && ends_component(s, i + 2))
}

/// The parent of a portable path, as `Path::parent` gives it: the text
/// before its last `/`; `/` when that `/` leads the path; the empty path
/// when there is no `/`.
pub open spec fn portable_parent(s: Seq<char>) -> Seq<char> {
    if exists|i: int| last_slash(s, i) {
        let i = choose|i: int| last_slash(s, i);
        if i == 0 {
            seq!['/']
        } else {
            s.subrange(0, i)
        }
    } else {
        Seq::empty()
    }
}

/// `part` joined onto `base` with the separator `sep`: `part` alone on an
/// empty base, no separator after a base that ends in `/`.
pub open spec fn joined_path(base: Seq<char>, part: Seq<char>, sep: char) -> Seq<char> {
    if base.len() == 0 {
        part
    } else if base[base.len() - 1] == '/' {
        base + part
    } else {
        base + seq![sep] + part
    }
}

/// The components of `base` lead those of `path` (both portable): the two
/// are equal, or `path` is `base`, a `/` and more.
pub open spec fn leads_path(base: Seq<char>, path: Seq<char>) -> bool {
    path == base || (path.len() > base.len() && path.subrange(0, base.len() as int) == base
        && path[base.len() as int] == '/')
}

/// What is left of `path` after the leading components `base`.
pub open spec fn rest_after(base: Seq<char>, path: Seq<char>) -> Seq<char> {
    if path == base {
        Seq::empty()
    } else {
        path.subrange(base.len() + 1int, path.len() as int)
    }
}

pub open spec fn string_opt_view(o: Option<String>) -> Option<Seq<char>> {
    match o {
        Some(s) => Some(s@),
        None => None,
    }
}

/// Wrapper of `Path::extension`: the text after the last `.` of the path's
/// file name, when there is one and the file name is not a bare dot-file.
/// Which characters separate components depends on the platform, so the
/// result is stated exactly for a bare file name and for a path that every
/// platform splits at its `/`s; for any path, the extension holds no `.`.
#[verifier::external_body]
pub(crate) fn path_extension(path: &str) -> (r: Option<String>)
    ensures
        r matches Some(e) ==> !e@.contains('.'),
        bare_file_name(path@) ==> string_opt_view(r) == file_name_extension(path@),
        portable_file_path(path@) ==> string_opt_view(r) == file_name_extension(last_segment(path@)),
{
    std::path::Path::new(path).extension().and_then(|e| e.to_str()).map(|e| e.to_string())
}

/// `t` ends `s`.
pub open spec fn has_suffix(s: Seq<char>, t: Seq<char>) -> bool {
    t.len() <= s.len() && s.subrange(s.len() - t.len(), s.len() as int) == t
}

/// A single path component: non-empty ASCII letters, digits and `_`.
pub open spec fn is_plain_component(part: Seq<char>) -> bool {
    part.len() > 0 && forall|i: int|
        0 <= i < part.len() ==> ({
            let c = #[trigger] part[i];
            ('a' <= c && c <= 'z') || ('A' <= c && c <= 'Z') || ('0' <= c && c <= '9') || c == '_'
        })
}

/// Wrapper of `Path::parent`: the path without its last component, which is
/// a leading part of the path's text; none for a root or an empty path.
/// For a portable path the parent is `portable_parent`; how other paths
/// are split into components depends on the platform and is not restated.
#[verifier::external_body]
pub(crate) fn path_parent(path: &str) -> (r: Option<String>)
    ensures
        r matches Some(p) ==> p@.len() <= path@.len() && path@.subrange(0, p@.len() as int) == p@,
        r matches Some(p) ==> (portable_path(path@) ==> p@ == portable_parent(path@)),
        r is None ==> !portable_path(path@),
{
    std::path::Path::new(path).parent().map(|p| p.to_string_lossy().to_string())
}

/// Wrapper of `Path::join` with a plain relative component: the result ends
/// with that component, with at most one separator (the platform's) put
/// between it and the base.  Unless the base holds a `\` (which on some
/// platforms may start a verbatim prefix that joining rewrites), the base
/// is kept as it is.  On portable text the join is `joined_path` with the
/// platform's separator, `/` or `\`.
#[verifier::external_body]
pub(crate) fn path_join(base: &str, part: &str) -> (r: String)
    requires
        is_plain_component(part@),
    ensures
        has_suffix(r@, part@),
        !base@.contains('\\') ==> r@.len() <= base@.len() + 1 + part@.len() && base@.len()
            <= r@.len() && r@.subrange(0, base@.len() as int) == base@,
        portable_text(base@) ==> (r@ == joined_path(base@, part@, '/') || r@ == joined_path(
            base@,
            part@,
            '\\',
        )),
{
    std::path::Path::new(base).join(part).to_string_lossy().to_string()
}

/// `piece` is a contiguous part of `text`.
pub open spec fn is_piece_of(piece: Seq<char>, text: Seq<char>) -> bool {
    exists|i: int, j: int| 0 <= i <= j <= text.len() && piece == text.subrange(i, j)
}

/// Wrapper of `Path::strip_prefix`: the rest of `path` after the leading
/// components of `base`, none when `base` does not lead `path`.  The rest
/// is a piece of the path's own text, and stripping a path from itself
/// leaves nothing.  For portable paths the components are the `/`-separated
/// pieces, so `base` leads `path` exactly when `leads_path` holds and the
/// rest is `rest_after`; how other paths are split into components depends
/// on the platform and is not restated.
#[verifier::external_body]
pub(crate) fn path_strip_prefix(path: &str, base: &str) -> (r: Option<String>)
    ensures
        r matches Some(rest) ==> is_piece_of(rest@, path@),
        r matches Some(rest) ==> (portable_path(path@) && portable_path(base@) ==> leads_path(
            base@,
            path@,
        ) && rest@ == rest_after(base@, path@)),
        r is None ==> !(portable_path(path@) && portable_path(base@) && leads_path(base@, path@)),
        r is None ==> path@ != base@,
        r matches Some(rest) ==> (path@ == base@ ==> rest@.len() == 0),
{
    std::path::Path::new(path).strip_prefix(base).ok().map(|p| p.to_string_lossy().to_string())
}

} // verus!
