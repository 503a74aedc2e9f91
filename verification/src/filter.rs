//! Which changed paths are acted on, and which directories are left out of a
//! watch.
//!
//! Glob matching is done by the `glob` crate and path handling by
//! `std::path`. Their results enter the contracts through the uninterpreted
//! functions declared below; everything decided from those results is
//! verified.

use crate::text::{contains_text, has_substring, list_contains, list_names};
use glob::{Pattern, PatternError};
use std::path::{Path, PathBuf};
use vstd::prelude::*;

verus! {

#[verifier::external_type_specification]
#[verifier::external_body]
pub struct ExPath(Path);

#[verifier::external_type_specification]
#[verifier::external_body]
pub struct ExPathBuf(PathBuf);

#[verifier::external_type_specification]
#[verifier::external_body]
pub struct ExPattern(Pattern);

#[verifier::external_type_specification]
#[verifier::external_body]
pub struct ExPatternError(PatternError);

/// The bytes that a path holds.
pub uninterp spec fn path_bytes(path: &Path) -> Seq<u8>;

/// The bytes that an owned path holds.
pub uninterp spec fn path_buf_bytes(path: &PathBuf) -> Seq<u8>;

/// Whether the paths with these bytes are equal as `Path` compares them,
/// component by component.
pub uninterp spec fn same_path(left: Seq<u8>, right: Seq<u8>) -> bool;

/// The path with these bytes as text, where it is valid Unicode.
pub uninterp spec fn text_of(bytes: Seq<u8>) -> Option<Seq<char>>;

/// The path with these bytes as text, with each invalid sequence replaced by
/// U+FFFD.
pub uninterp spec fn lossy_text_of(bytes: Seq<u8>) -> Seq<char>;

/// The path with these bytes, then its parent, then the parent of that, and
/// so on, each as bytes.
pub uninterp spec fn ancestors_of(bytes: Seq<u8>) -> Seq<Seq<u8>>;

/// The extension of the file name of the path with these bytes, without the
/// dot, where there is one and it is valid Unicode.
pub uninterp spec fn extension_of(bytes: Seq<u8>) -> Option<Seq<char>>;

/// The final component of the path with these bytes, where there is one and
/// it is valid Unicode.
pub uninterp spec fn file_name_of(bytes: Seq<u8>) -> Option<Seq<char>>;

/// The text that a compiled pattern was compiled from.
pub uninterp spec fn pattern_text(pattern: &Pattern) -> Seq<char>;

/// Whether `text` is a well-formed glob pattern.
pub uninterp spec fn glob_valid(text: Seq<char>) -> bool;

/// Whether the glob pattern written as `pattern` matches the whole of `text`
/// under the default match options.
pub uninterp spec fn glob_matches(pattern: Seq<char>, text: Seq<char>) -> bool;

/// `Pattern::new`. Trusted: whether compilation succeeds is a function of
/// the text, and the compiled pattern remembers the text it came from.
#[verifier::external_body]
pub(crate) fn compile_pattern(text: &str) -> (r: Result<Pattern, PatternError>)
    ensures
        r is Ok == glob_valid(text@),
        r matches Ok(p) ==> pattern_text(&p) == text@,
{
    Pattern::new(text)
}

/// `Pattern::matches_path`. Trusted: a path that is not valid Unicode matches
/// nothing; for any other path the answer is a function of the pattern's
/// text and the path's text.
#[verifier::external_body]
pub(crate) fn pattern_matches_path(pattern: &Pattern, path: &Path) -> (b: bool)
    ensures
        b == match text_of(path_bytes(path)) {
            Some(t) => glob_matches(pattern_text(pattern), t),
            None => false,
        },
{
    pattern.matches_path(path)
}

/// `Path::ancestors`, collected. Trusted: the answer is a function of the
/// path's bytes, and its first item is the path itself.
#[verifier::external_body]
fn path_ancestors<'a>(path: &'a Path) -> (r: Vec<&'a Path>)
    ensures
        r@.len() == ancestors_of(path_bytes(path)).len(),
        forall|k: int|
            0 <= k < r@.len() ==> path_bytes(#[trigger] r@[k]) == ancestors_of(path_bytes(path))[k],
        r@.len() >= 1,
        path_bytes(r@[0]) == path_bytes(path),
{
    path.ancestors().collect()
}

/// `Path::extension`, read as text. Trusted: the answer is a function of the
/// path's bytes; there is none where the path has no extension or the
/// extension is not valid Unicode.
#[verifier::external_body]
fn path_extension<'a>(path: &'a Path) -> (r: Option<&'a str>)
    ensures
        r is Some == extension_of(path_bytes(path)) is Some,
        r matches Some(e) ==> extension_of(path_bytes(path)) == Some(e@),
{
    path.extension().and_then(|e| e.to_str())
}

/// `Path::file_name`, read as text. Trusted: the answer is a function of the
/// path's bytes; there is none where the path ends in `..` or has no
/// component, or the name is not valid Unicode.
#[verifier::external_body]
fn path_file_name<'a>(path: &'a Path) -> (r: Option<&'a str>)
    ensures
        r is Some == file_name_of(path_bytes(path)) is Some,
        r matches Some(n) ==> file_name_of(path_bytes(path)) == Some(n@),
{
    path.file_name().and_then(|n| n.to_str())
}

/// `Path::to_str`. Trusted: the answer is a function of the path's bytes;
/// there is none where the path is not valid Unicode.
#[verifier::external_body]
fn path_to_str<'a>(path: &'a Path) -> (r: Option<&'a str>)
    ensures
        r is Some == text_of(path_bytes(path)) is Some,
        r matches Some(t) ==> text_of(path_bytes(path)) == Some(t@),
{
    path.to_str()
}

/// `Path::to_string_lossy`, as an owned string. Trusted: the answer is a
/// function of the path's bytes.
#[verifier::external_body]
pub(crate) fn path_to_string_lossy(path: &Path) -> (r: String)
    ensures
        r@ == lossy_text_of(path_bytes(path)),
{
    path.to_string_lossy().into_owned()
}

/// `Path::to_path_buf`. Trusted: the copy holds the bytes of the path.
#[verifier::external_body]
pub(crate) fn path_to_path_buf(path: &Path) -> (r: PathBuf)
    ensures
        path_buf_bytes(&r) == path_bytes(path),
{
    path.to_path_buf()
}

/// `PathBuf::as_path`. Trusted: the path holds the bytes of the owned path.
#[verifier::external_body]
pub(crate) fn path_buf_as_path<'a>(path: &'a PathBuf) -> (r: &'a Path)
    ensures
        path_bytes(r) == path_buf_bytes(path),
{
    path.as_path()
}

/// `==` on `Path`. Trusted: the answer is a function of the two paths'
/// bytes.
#[verifier::external_body]
pub(crate) fn paths_equal(left: &Path, right: &Path) -> (b: bool)
    ensures
        b == same_path(path_bytes(left), path_bytes(right)),
{
    left == right
}

/// The path as text, where it is valid Unicode.
pub open spec fn path_text(path: &Path) -> Option<Seq<char>> {
    text_of(path_bytes(path))
}

/// The path as text, with each invalid sequence replaced by U+FFFD.
pub open spec fn path_lossy_text(path: &Path) -> Seq<char> {
    lossy_text_of(path_bytes(path))
}

/// The extension of the path's file name, as text.
pub open spec fn path_extension_text(path: &Path) -> Option<Seq<char>> {
    extension_of(path_bytes(path))
}

/// The final component of the path, as text.
pub open spec fn path_file_name_text(path: &Path) -> Option<Seq<char>> {
    file_name_of(path_bytes(path))
}

/// Whether `pattern` matches a path with this text. A path without text,
/// one that is not valid Unicode, is matched by nothing.
pub open spec fn matches_text(pattern: &Pattern, text: Option<Seq<char>>) -> bool {
    match text {
        Some(t) => glob_matches(pattern_text(pattern), t),
        None => false,
    }
}

/// Whether some pattern of `patterns` matches a path with this text.
pub open spec fn any_matches_text(patterns: Seq<Pattern>, text: Option<Seq<char>>) -> bool {
    exists|i: int| 0 <= i < patterns.len() && matches_text(&#[trigger] patterns[i], text)
}

/// Whether `pattern` matches `path`.
pub open spec fn pattern_accepts(pattern: &Pattern, path: &Path) -> bool {
    matches_text(pattern, path_text(path))
}

/// Whether some pattern of `patterns` matches `path`.
pub open spec fn any_accepts(patterns: Seq<Pattern>, path: &Path) -> bool {
    any_matches_text(patterns, path_text(path))
}

/// Whether an ignore pattern matches `path` itself or one of its ancestors.
pub open spec fn ignored(path: &Path, ignore: Seq<Pattern>) -> bool {
    any_accepts(ignore, path) || exists|k: int|
        0 <= k < ancestors_of(path_bytes(path)).len() && any_matches_text(
            ignore,
            text_of(#[trigger] ancestors_of(path_bytes(path))[k]),
        )
}

/// Whether `path` passes the inclusion patterns: there are none, or one of them
/// matches it.
pub open spec fn included(path: &Path, includes: Seq<Pattern>) -> bool {
    includes.len() == 0 || any_accepts(includes, path)
}

/// Whether `path` passes the extension filter: there is none, or the path has
/// an extension that the filter lists.
pub open spec fn extension_allowed(path: &Path, filter: Option<Seq<char>>) -> bool {
    match filter {
        None => true,
        Some(list) => match path_extension_text(path) {
            Some(e) => list_names(list, e),
            None => false,
        },
    }
}

/// The filter's text, if there is a filter.
pub open spec fn filter_text(filter: Option<String>) -> Option<Seq<char>> {
    match filter {
        Some(list) => Some(list@),
        None => None,
    }
}

/// The rule for acting on a changed path. Ignore patterns are decisive; then
/// the inclusion patterns; then the extension filter.
pub open spec fn path_accepted(
    path: &Path,
    filter: Option<Seq<char>>,
    includes: Seq<Pattern>,
    ignore: Seq<Pattern>,
) -> bool {
    &&& !ignored(path, ignore)
    &&& included(path, includes)
    &&& extension_allowed(path, filter)
}

/// A path that an ignore pattern matches, itself or through an ancestor, is
/// rejected whatever the inclusion patterns and the extension filter are.
pub proof fn lemma_ignored_path_rejected(
    path: &Path,
    filter: Option<Seq<char>>,
    includes: Seq<Pattern>,
    ignore: Seq<Pattern>,
)
    requires
        ignored(path, ignore),
    ensures
        !path_accepted(path, filter, includes, ignore),
{
}

/// A path that one of the ignore patterns matches is rejected, whatever the
/// extension filter and whatever the inclusion patterns.
pub proof fn lemma_matched_path_rejected(
    path: &Path,
    filter: Option<Seq<char>>,
    includes: Seq<Pattern>,
    ignore: Seq<Pattern>,
    i: int,
)
    requires
        0 <= i < ignore.len(),
        pattern_accepts(&ignore[i], path),
    ensures
        !path_accepted(path, filter, includes, ignore),
{
}

/// A path whose extension is an entry of the filter list, the entries read
/// without surrounding white space and compared exactly, is accepted when
/// no ignore pattern and no inclusion pattern stands against it.
pub proof fn lemma_listed_extension_accepted(
    path: &Path,
    list: Seq<char>,
    includes: Seq<Pattern>,
    ignore: Seq<Pattern>,
)
    requires
        path_extension_text(path) matches Some(e) && list_names(list, e),
        !ignored(path, ignore),
        included(path, includes),
    ensures
        path_accepted(path, Some(list), includes, ignore),
{
}

/// With an extension filter, a path without an extension is rejected.
pub proof fn lemma_no_extension_rejected(
    path: &Path,
    list: Seq<char>,
    includes: Seq<Pattern>,
    ignore: Seq<Pattern>,
)
    requires
        path_extension_text(path) is None,
    ensures
        !path_accepted(path, Some(list), includes, ignore),
{
}

/// The directory names that are never watched.
pub open spec fn builtin_markers() -> Seq<Seq<char>> {
    seq![".git"@, "node_modules"@, "target"@, ".svn"@, ".hg"@]
}

/// Whether the path's text contains one of the built-in markers.
pub open spec fn has_builtin_marker(path: &Path) -> bool {
    exists|m: int|
        0 <= m < builtin_markers().len() && has_substring(
            path_lossy_text(path),
            #[trigger] builtin_markers()[m],
        )
}

/// Whether the user's pattern text is a well-formed glob that matches `path`.
pub open spec fn user_pattern_matches(pattern: Seq<char>, path: &Path) -> bool {
    glob_valid(pattern) && match path_text(path) {
        Some(t) => glob_matches(pattern, t),
        None => false,
    }
}

/// The rule for leaving a directory out of a watch. A pattern that is not a
/// well-formed glob excludes nothing.
pub open spec fn dir_skipped(path: &Path, ignore: Seq<String>) -> bool {
    has_builtin_marker(path) || exists|i: int|
        0 <= i < ignore.len() && user_pattern_matches(#[trigger] ignore[i]@, path)
}

/// The text shown for a path: its final component where it has one, else the
/// whole path, else a fixed phrase.
pub open spec fn display_text(path: &Path) -> Seq<char> {
    match path_file_name_text(path) {
        Some(name) => name,
        None => match path_text(path) {
            Some(t) => t,
            None => "unknown path"@,
        },
    }
}

/// A pattern that is not a well-formed glob, and where it stood in the list.
#[derive(Debug, Clone, PartialEq, Eq)]
pub struct InvalidPattern {
    pub index: usize,
    pub pattern: String,
}

impl InvalidPattern {
    /// The text of the message, which names the pattern.
    pub open spec fn message_text(self) -> Seq<char> {
        "Invalid pattern: "@ + self.pattern@
    }

    /// The message for this error.
    pub fn to_string(&self) -> (s: String)
        ensures
            s@ == self.message_text(),
    {
        let mut s = String::new();
        vstd::string::StringExecFns::append(&mut s, "Invalid pattern: ");
        vstd::string::StringExecFns::append(&mut s, self.pattern.as_str());
        s
    }
}

/// Whether some pattern of `patterns` matches `path`.
pub fn matches_any(patterns: &[Pattern], path: &Path) -> (b: bool)
    ensures
        b == any_accepts(patterns@, path),
{
    let mut i: usize = 0;
    while i < patterns.len()
        invariant
            0 <= i <= patterns@.len(),
            forall|j: int| 0 <= j < i ==> !matches_text(&#[trigger] patterns@[j], path_text(path)),
        decreases patterns@.len() - i,
    {
        if pattern_matches_path(&patterns[i], path) {
            return true;
        }
        i += 1;
    }
    false
}

/// Whether an ignore pattern matches `path` or one of its ancestors.
pub fn is_ignored(path: &Path, ignore_patterns: &[Pattern]) -> (b: bool)
    ensures
        b == ignored(path, ignore_patterns@),
        any_accepts(ignore_patterns@, path) ==> b,
{
    let ancestors = path_ancestors(path);
    let ghost lineage = ancestors_of(path_bytes(path));
    let mut k: usize = 0;
    while k < ancestors.len()
        invariant
            lineage == ancestors_of(path_bytes(path)),
            ancestors@.len() == lineage.len(),
            forall|j: int|
                0 <= j < ancestors@.len() ==> path_bytes(#[trigger] ancestors@[j]) == lineage[j],
            0 <= k <= ancestors@.len(),
            forall|j: int|
                0 <= j < k ==> !any_matches_text(ignore_patterns@, text_of(#[trigger] lineage[j])),
        decreases ancestors@.len() - k,
    {
        if matches_any(ignore_patterns, ancestors[k]) {
            assert(any_matches_text(ignore_patterns@, text_of(lineage[k as int])));
            return true;
        }
        k += 1;
    }
    assert(lineage[0] == path_bytes(path));
    false
}

/// Whether a change to `path` is acted on.
///
/// A path is rejected when an ignore pattern matches it or one of its
/// ancestors, whatever the other settings say. Otherwise it must match an
/// inclusion pattern, if there are any, and carry a listed extension, if there
/// is an extension filter.
pub fn should_process_path(
    path: &Path,
    ext_filter: &Option<String>,
    include_patterns: &[Pattern],
    ignore_patterns: &[Pattern],
) -> (b: bool)
    ensures
        b == path_accepted(path, filter_text(*ext_filter), include_patterns@, ignore_patterns@),
        ignored(path, ignore_patterns@) ==> !b,
        any_accepts(ignore_patterns@, path) ==> !b,
        !ignored(path, ignore_patterns@) && included(path, include_patterns@) ==> (b
            == extension_allowed(path, filter_text(*ext_filter))),
{
    if is_ignored(path, ignore_patterns) {
        return false;
    }
    if include_patterns.len() > 0 && !matches_any(include_patterns, path) {
        return false;
    }
    match ext_filter {
        None => true,
        Some(list) => match path_extension(path) {
            Some(e) => list_contains(list.as_str(), e),
            None => false,
        },
    }
}

/// Whether the path's text contains one of the built-in markers.
pub fn contains_builtin_marker(path: &Path) -> (b: bool)
    ensures
        b == has_builtin_marker(path),
{
    let text = path_to_string_lossy(path);
    let b = contains_text(text.as_str(), ".git") || contains_text(text.as_str(), "node_modules")
        || contains_text(text.as_str(), "target") || contains_text(text.as_str(), ".svn")
        || contains_text(text.as_str(), ".hg");
    proof {
        let markers = builtin_markers();
        assert(markers[0] == ".git"@);
        assert(markers[1] == "node_modules"@);
        assert(markers[2] == "target"@);
        assert(markers[3] == ".svn"@);
        assert(markers[4] == ".hg"@);
    }
    b
}

/// Whether a directory is left out of a watch: its path contains a built-in
/// marker, or one of the user's patterns matches it.
pub fn should_skip_dir(path: &Path, ignore_patterns: &[String]) -> (b: bool)
    ensures
        b == dir_skipped(path, ignore_patterns@),
{
    if contains_builtin_marker(path) {
        return true;
    }
    let mut i: usize = 0;
    while i < ignore_patterns.len()
        invariant
            !has_builtin_marker(path),
            0 <= i <= ignore_patterns@.len(),
            forall|j: int|
                0 <= j < i ==> !user_pattern_matches(#[trigger] ignore_patterns@[j]@, path),
        decreases ignore_patterns@.len() - i,
    {
        match compile_pattern(ignore_patterns[i].as_str()) {
            Ok(pattern) => {
                if pattern_matches_path(&pattern, path) {
                    return true;
                }
            },
            Err(_) => {},
        }
        i += 1;
    }
    false
}

/// Compiles every pattern of the list, or reports the first that is not a
/// well-formed glob.
pub fn compile_patterns(patterns: &[String]) -> (r: Result<Vec<Pattern>, InvalidPattern>)
    ensures
        r is Ok <==> forall|i: int| 0 <= i < patterns@.len() ==> glob_valid(#[trigger] patterns@[i]@),
        r matches Ok(compiled) ==> {
            &&& compiled@.len() == patterns@.len()
            &&& forall|i: int|
                0 <= i < patterns@.len() ==> pattern_text(&#[trigger] compiled@[i]) == patterns@[i]@
        },
        r matches Err(e) ==> {
            &&& e.index < patterns@.len()
            &&& !glob_valid(patterns@[e.index as int]@)
            &&& forall|i: int| 0 <= i < e.index ==> glob_valid(#[trigger] patterns@[i]@)
            &&& e.pattern@ == patterns@[e.index as int]@
        },
{
    let mut compiled: Vec<Pattern> = Vec::new();
    let mut i: usize = 0;
    while i < patterns.len()
        invariant
            0 <= i <= patterns@.len(),
            compiled@.len() == i,
            forall|j: int| 0 <= j < i ==> glob_valid(#[trigger] patterns@[j]@),
            forall|j: int| 0 <= j < i ==> pattern_text(&#[trigger] compiled@[j]) == patterns@[j]@,
        decreases patterns@.len() - i,
    {
        match compile_pattern(patterns[i].as_str()) {
            Ok(pattern) => {
                compiled.push(pattern);
            },
            Err(_) => {
                return Err(InvalidPattern { index: i, pattern: patterns[i].clone() });
            },
        }
        i += 1;
    }
    Ok(compiled)
}

/// The text shown for a path: just the file name where possible.
pub fn format_display_path(path: &Path) -> (s: String)
    ensures
        s@ == display_text(path),
{
    match path_file_name(path) {
        Some(name) => name.to_string(),
        None => match path_to_str(path) {
            Some(text) => text.to_string(),
            None => "unknown path".to_string(),
        },
    }
}

} // verus!
