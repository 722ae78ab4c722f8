//! The list of ignored files: glob patterns compiled by git2 into a path
//! filter, kept together with the patterns they came from.
use crate::commit::FeedError;
use vstd::prelude::*;

verus! {

#[verifier::external_type_specification]
#[verifier::external_body]
pub struct ExPathspec(git2::Pathspec);

#[verifier::external_type_specification]
#[verifier::external_body]
pub struct ExGitError(git2::Error);

/// Whether git2's path filter compiled from `patterns` matches `path`.
pub uninterp spec fn ignore_match(patterns: Seq<Seq<char>>, path: Seq<char>) -> bool;

/// The texts of a list of strings.
pub open spec fn texts(v: Seq<String>) -> Seq<Seq<char>> {
    v.map_values(|x: String| x@)
}

/// No pattern holds a NUL character.
pub open spec fn free_of_nul(patterns: Seq<String>) -> bool {
    forall|i: int, j: int|
        0 <= i < patterns.len() && 0 <= j < patterns[i]@.len() ==> patterns[i]@[j] != '\0'
}

/// A path that git2 accepts as relative to the repository: not empty, no
/// NUL character, and not starting at the root, at `.` or at `..`.
pub open spec fn repo_relative(p: Seq<char>) -> bool {
    &&& p.len() > 0
    &&& p[0] != '/'
    &&& forall|i: int| 0 <= i < p.len() ==> p[i] != '\0'
    &&& !(p[0] == '.' && (p.len() == 1 || p[1] == '/'))
    &&& !(p.len() >= 2 && p[0] == '.' && p[1] == '.' && (p.len() == 2 || p[2] == '/'))
}

/// A compiled list of ignored files. Its filter can only be made from its
/// own patterns, by `compile_ignore_list`.
pub struct IgnoreList {
    filter: git2::Pathspec,
    patterns: Vec<String>,
}

impl IgnoreList {
    /// The patterns that the filter was compiled from.
    pub closed spec fn patterns(&self) -> Seq<Seq<char>> {
        texts(self.patterns@)
    }
}

/// Relies on `git2::Pathspec::new`: each pattern is turned into a C string,
/// which fails only on a NUL character, and libgit2 then copies the list.
#[verifier::external_body]
fn new_pathspec(patterns: &Vec<String>) -> (r: Result<git2::Pathspec, git2::Error>)
    ensures
        free_of_nul(patterns@) ==> r is Ok,
{
    git2::Pathspec::new(patterns.iter().map(|p| p.as_str()))
}

/// Relies on `git2::Pathspec::matches_path` with the default flags, whose
/// answer depends on the patterns and the path alone; it panics on a path
/// that is not relative to the repository, which `requires` leaves out.
#[verifier::external_body]
fn pathspec_matches(list: &IgnoreList, path: &str) -> (r: bool)
    requires
        repo_relative(path@),
    ensures
        r == ignore_match(list.patterns(), path@),
{
    list.filter.matches_path(std::path::Path::new(path), git2::PathspecFlags::DEFAULT)
}

/// The filter for the glob patterns `patterns`; it fails only where a
/// pattern holds a NUL character.
pub fn compile_ignore_list(patterns: Vec<String>) -> (r: Result<IgnoreList, FeedError>)
    ensures
        free_of_nul(patterns@) ==> r is Ok,
        r matches Err(e) ==> e == FeedError::InvalidIgnorePattern,
        r matches Ok(l) ==> l.patterns() == texts(patterns@),
{
    match new_pathspec(&patterns) {
        Ok(filter) => Ok(IgnoreList { filter, patterns }),
        Err(_) => Err(FeedError::InvalidIgnorePattern),
    }
}

/// Whether `list` ignores the file at `path`.
pub fn is_ignored(list: &IgnoreList, path: &str) -> (r: Result<bool, FeedError>)
    ensures
        !repo_relative(path@) ==> r == Err::<bool, FeedError>(FeedError::InvalidPath),
        repo_relative(path@) ==> r == Ok::<bool, FeedError>(ignore_match(list.patterns(), path@)),
{
    if !is_repo_relative(path) {
        return Err(FeedError::InvalidPath);
    }
    Ok(pathspec_matches(list, path))
}

/// Whether `p` is a path that git2 accepts as relative to the repository.
pub fn is_repo_relative(p: &str) -> (r: bool)
    ensures
        r == repo_relative(p@),
{
    let n = p.unicode_len();
    if n == 0 || p.get_char(0) == '/' {
        return false;
    }
    if p.get_char(0) == '.' && (n == 1 || p.get_char(1) == '/') {
        return false;
    }
    if n >= 2 && p.get_char(0) == '.' && p.get_char(1) == '.' && (n == 2 || p.get_char(2) == '/') {
        return false;
    }
    let mut i: usize = 0;
    while i < n
        invariant
            n == p@.len(),
            i <= n,
            forall|j: int| 0 <= j < i ==> p@[j] != '\0',
        decreases n - i,
    {
        if p.get_char(i) == '\0' {
            return false;
        }
        i = i + 1;
    }
    true
}

} // verus!
