//! File-system path components, as `std::path::Path` computes them on the
//! Unix targets this program runs on.
use vstd::prelude::*;
use crate::text::split_char;

verus! {

/// The components of the Unix path `path` (`Path::components`), each as a
/// string: the root `/` when the path starts with one, else `.` when its
/// first part is `.`; then its parts between `/`s, leaving out the empty
/// ones and the `.`s.
pub open spec fn path_components(path: Seq<char>) -> Seq<Seq<char>> {
    let parts = split_char(path, '/');
    let lead = if path.len() > 0 && path[0] == '/' {
        seq![seq!['/']]
    } else if parts.len() > 0 && parts[0] == seq!['.'] {
        seq![seq!['.']]
    } else {
        Seq::<Seq<char>>::empty()
    };
    lead + parts.filter(|x: Seq<char>| x.len() > 0 && x != seq!['.'])
}

/// The final component of `path` (`Path::file_name`): its last component,
/// unless there is none or it is the root, `.` or `..`.
pub open spec fn path_file_name(path: Seq<char>) -> Option<Seq<char>> {
    let cs = path_components(path);
    if cs.len() == 0 {
        None
    } else if cs.last() == "/"@ || cs.last() == "."@ || cs.last() == ".."@ {
        None
    } else {
        Some(cs.last())
    }
}

/// The extension of the file name `n`: what follows its last `.`; none when
/// it has no `.`, or only a leading one.
pub open spec fn name_extension(n: Seq<char>) -> Option<Seq<char>>
    decreases n.len(),
{
    if n.len() <= 1 {
        None
    } else if n.last() == '.' {
        Some(Seq::<char>::empty())
    } else {
        match name_extension(n.drop_last()) {
            Some(e) => Some(e.push(n.last())),
            None => None,
        }
    }
}

/// The extension of the final component of `path` (`Path::extension`).
pub open spec fn path_extension(path: Seq<char>) -> Option<Seq<char>> {
    match path_file_name(path) {
        Some(n) => name_extension(n),
        None => None,
    }
}

/// The view of an optional string.
pub open spec fn opt_str_view(o: Option<String>) -> Option<Seq<char>> {
    match o {
        Some(s) => Some(s@),
        None => None,
    }
}

/// `Path::new(path).file_name()` as a string: the last of the path's
/// components when that is a name (`path_file_name`).
#[verifier::external_body]
pub(crate) fn file_name_of(path: &str) -> (r: Option<String>)
    ensures
        opt_str_view(r) == path_file_name(path@),
{
    match std::path::Path::new(path).file_name() {
        Some(n) => n.to_str().map(String::from),
        None => None,
    }
}

/// `Path::new(path).extension()` as a string: what follows the last `.` of
/// the file name, unless that `.` leads it (`path_extension`).
#[verifier::external_body]
pub(crate) fn extension_of(path: &str) -> (r: Option<String>)
    ensures
        opt_str_view(r) == path_extension(path@),
{
    match std::path::Path::new(path).extension() {
        Some(e) => e.to_str().map(String::from),
        None => None,
    }
}

/// `Path::new(path).components()`, each component as a string
/// (`path_components`).
#[verifier::external_body]
pub(crate) fn components_of(path: &str) -> (r: Vec<String>)
    ensures
        crate::text::string_views(r@) == path_components(path@),
{
    let mut out = Vec::new();
    for c in std::path::Path::new(path).components() {
        out.push(c.as_os_str().to_string_lossy().into_owned());
    }
    out
}

} // verus!
