//! Paths as the shell names them, and the expansion of wildcard patterns
//! against the file system.

use vstd::prelude::*;
use crate::error::{Error, ErrorKind, error_of};

verus! {

/// A path, kept as the text that names it.
#[derive(Debug, PartialEq)]
pub struct Path(String);

impl View for Path {
    type V = Seq<char>;

    closed spec fn view(&self) -> Seq<char> {
        self.0@
    }
}

impl Path {
    pub fn new(p: &str) -> (r: Path)
        ensures
            r@ == p@,
    {
        Path(String::from_str(p))
    }

    /// The path that `path` names.
    pub fn from_string(path: String) -> (r: Path)
        ensures
            r@ == path@,
    {
        Path(path)
    }

    pub fn as_str(&self) -> (r: &str)
        ensures
            r@ == self@,
    {
        self.0.as_str()
    }
}

/// The paths that a sequence of `Path`s names.
pub open spec fn path_views(s: Seq<Path>) -> Seq<Seq<char>> {
    s.map_values(|p: Path| p@)
}

/// Whether `pattern` is a well-formed wildcard pattern.
///
/// This names whether `glob::glob` accepts the pattern: it compiles the
/// pattern and each of its components before it looks at any file, so the
/// answer depends on the text alone.
pub uninterp spec fn pattern_is_valid(pattern: Seq<char>) -> bool;

/// `glob::Paths`, the iterator over the matches of a pattern. It is
/// carried from the call that opens a search to the call that runs it, and
/// nothing is known of what is in it.
#[verifier::external_type_specification]
#[verifier::external_body]
pub struct ExPaths(glob::Paths);

/// `glob::GlobError`, the error that the iterator yields for a directory
/// that could not be read. It is declared because the iterator names it.
#[verifier::external_type_specification]
#[verifier::external_body]
pub struct ExGlobError(glob::GlobError);

/// `std::path::PathBuf`, the path that the iterator yields for a match. It
/// is declared because the iterator names it.
#[verifier::external_type_specification]
#[verifier::external_body]
pub struct ExPathBuf(std::path::PathBuf);

/// Starts the search for the paths that match `pattern`.
///
/// Trusted: `glob::glob`, which returns the iterator over the matches, or
/// an error where the pattern is not well formed. No file is read yet.
#[verifier::external_body]
fn open_glob(pattern: &str) -> (r: Option<glob::Paths>)
    ensures
        r is Some <==> pattern_is_valid(pattern@),
{
    match glob::glob(pattern) {
        Ok(paths) => Some(paths),
        Err(_) => None,
    }
}

/// Runs the search to its end.
///
/// Trusted: the iterator `glob::Paths`, which yields the matching paths in
/// alphabetical order, and an error for a directory that could not be read.
/// What it finds depends on the file system, so nothing is claimed of the
/// result. An entry is `None` where the iterator reported an error or the
/// path is not valid Unicode.
#[verifier::external_body]
fn collect_matches(paths: glob::Paths) -> (r: Vec<Option<String>>) {
    paths.map(
        |p| match p {
            Ok(path) => path.to_str().map(|s| s.to_string()),
            Err(_) => None,
        },
    ).collect()
}

/// The entries of a search that could be read, in their order.
pub open spec fn readable(found: Seq<Option<String>>) -> Seq<Seq<char>>
    decreases found.len(),
{
    if found.len() == 0 {
        Seq::empty()
    } else {
        let rest = readable(found.drop_last());
        match found.last() {
            Some(s) => rest.push(s@),
            None => rest,
        }
    }
}

/// The paths among the entries of a search, in their order.
pub fn matched_paths(found: Vec<Option<String>>) -> (r: Vec<Path>)
    ensures
        path_views(r@) == readable(found@),
{
    let mut r: Vec<Path> = Vec::new();
    let ghost all = found@;
    let mut rest = crate::text::reversed(found);
    assert(path_views(r@) =~= readable(all.take(0)));
    while rest.len() > 0
        invariant
            rest@.len() <= all.len(),
            rest@ == all.reverse().take(rest@.len() as int),
            path_views(r@) == readable(all.take(all.len() - rest@.len())),
        decreases rest@.len(),
    {
        let ghost k = all.len() - rest@.len();
        let ghost before = r@;
        let e = rest.pop().unwrap();
        assert(e == all[k]);
        assert(all.take(k + 1).drop_last() == all.take(k));
        assert(all.take(k + 1).last() == e);
        match e {
            Some(s) => {
                let ghost t = s@;
                r.push(Path::from_string(s));
                assert(path_views(r@) =~= path_views(before).push(t));
            },
            None => {},
        }
    }
    assert(all.take(all.len() as int) == all);
    r
}

/// Whether `path` is a well-formed wildcard pattern. No file is looked at.
pub fn is_pattern(path: &str) -> (r: bool)
    ensures
        r == pattern_is_valid(path@),
{
    open_glob(path).is_some()
}

/// The paths that match `pattern`, or `InvalidInput` where the pattern is
/// not well formed. A match that cannot be read is left out.
pub fn glob(pattern: &str) -> (r: Result<Vec<Path>, Error>)
    ensures
        pattern_is_valid(pattern@) <==> r is Ok,
        r is Err ==> r->Err_0@ == error_of(ErrorKind::InvalidInput, "invalid input path"@),
{
    match open_glob(pattern) {
        Some(paths) => Ok(matched_paths(collect_matches(paths))),
        None => Err(Error::new(ErrorKind::InvalidInput, "invalid input path")),
    }
}

/// What a word of a command line expands to, given what the search for it
/// found: the matches that could be read, or the word itself where there
/// is none.
pub open spec fn expansion(word: Seq<char>, found: Seq<Option<String>>) -> Seq<Seq<char>> {
    if readable(found).len() > 0 {
        readable(found)
    } else {
        seq![word]
    }
}

/// Expands a word from what the search for it found.
pub fn expand(word: &str, found: Vec<Option<String>>) -> (r: Vec<String>)
    ensures
        crate::text::string_views(r@) == expansion(word@, found@),
{
    let paths = matched_paths(found);
    let mut r: Vec<String> = Vec::new();
    if paths.len() == 0 {
        r.push(String::from_str(word));
        assert(crate::text::string_views(r@) =~= seq![word@]);
        return r;
    }
    for i in 0..paths.len()
        invariant
            r@.len() == i,
            forall|j: int| 0 <= j < i ==> r@[j]@ == paths@[j]@,
    {
        r.push(String::from_str(paths[i].as_str()));
    }
    assert(crate::text::string_views(r@) =~= path_views(paths@));
    r
}

/// Whether `part` is what the word `word` may expand to: never nothing,
/// and the word itself where it is empty or no well-formed pattern.
pub open spec fn expands_to(word: Seq<char>, part: Seq<Seq<char>>) -> bool {
    &&& part.len() > 0
    &&& (word.len() == 0 || !pattern_is_valid(word)) ==> part == seq![word]
    &&& exists|found: Seq<Option<String>>| part == expansion(word, found)
}

/// Expands a word of a command line against the file system: the paths
/// that match it as a wildcard pattern, in alphabetical order, or the word
/// itself where nothing matches.
pub fn globbing(path: &str) -> (r: Vec<String>)
    ensures
        expands_to(path@, crate::text::string_views(r@)),
{
    let found: Vec<Option<String>> = if path.is_empty() {
        Vec::new()
    } else {
        match open_glob(path) {
            Some(paths) => collect_matches(paths),
            None => Vec::new(),
        }
    };
    let ghost f = found@;
    let r = expand(path, found);
    proof {
        if f.len() == 0 {
            assert(readable(f).len() == 0);
        }
        assert(crate::text::string_views(r@) == expansion(path@, f));
    }
    r
}

} // verus!
