//! Discovery of model files and test files: classification by extension,
//! filtering by the search pattern, and the index by directory.

use crate::ordered::OrderedMap;
use crate::text::{same_text, texts};
use vstd::prelude::*;
use vstd::string::StrSliceExecFns;
use vstd::string::StringExecFns;

verus! {

/// What a file is to the runner.
#[derive(Clone, Copy, Debug, PartialEq, Eq, Structural)]
pub enum FileKind {
    /// A decision model: extension `dmn`.
    Model,
    /// A test file: extension `xml`.
    Test,
    /// Any other file.
    Other,
}

/// The file name ends in a dot and the extension, and something stands
/// before that dot.
pub open spec fn has_extension_text(file_name: Seq<char>, extension: Seq<char>) -> bool {
    &&& file_name.len() > extension.len() + 1
    &&& file_name.subrange(file_name.len() - extension.len() - 1, file_name.len() as int)
        == seq!['.'] + extension
}

/// The kind of a file, by its extension alone.
pub open spec fn file_kind(file_name: Seq<char>) -> FileKind {
    if has_extension_text(file_name, "dmn"@) {
        FileKind::Model
    } else if has_extension_text(file_name, "xml"@) {
        FileKind::Test
    } else {
        FileKind::Other
    }
}

/// Whether the file name has the extension.
pub fn has_extension(file_name: &str, extension: &str) -> (r: bool)
    ensures
        r == has_extension_text(file_name@, extension@),
{
    let n = file_name.unicode_len();
    let m = extension.unicode_len();
    if n <= m || n - m <= 1 {
        return false;
    }
    let ending = file_name.substring_char(n - m - 1, n);
    let mut wanted = String::from_str(".");
    wanted.append(extension);
    proof {
        reveal_strlit(".");
        assert("."@ =~= seq!['.']);
    }
    same_text(ending, wanted.as_str())
}

/// Classifies a file by its extension.
pub fn classify_file(file_name: &str) -> (r: FileKind)
    ensures
        r == file_kind(file_name@),
{
    if has_extension(file_name, "dmn") {
        FileKind::Model
    } else if has_extension(file_name, "xml") {
        FileKind::Test
    } else {
        FileKind::Other
    }
}

/// Whether a text matches a pattern, as `regex` decides it; `None` where
/// the pattern is no regular expression.
pub uninterp spec fn regex_is_match(pattern: Seq<char>, text: Seq<char>) -> Option<bool>;

/// Calls `regex::Regex::new` on the pattern and `is_match` on the text.
#[verifier::external_body]
fn pattern_matches(pattern: &str, text: &str) -> (r: Option<bool>)
    ensures
        r == regex_is_match(pattern@, text@),
{
    match regex::Regex::new(pattern) {
        Ok(compiled) => Some(compiled.is_match(text)),
        Err(_) => None,
    }
}

/// A file that the walk of the root directory found: the canonical path of
/// its directory, and its name.
#[derive(Debug, Clone)]
pub struct FoundFile {
    pub dir_name: String,
    pub file_name: String,
}

/// The files of one directory: models and tests, each in the order in
/// which they were found.
#[derive(Debug)]
pub struct DirectoryFiles {
    pub models: Vec<String>,
    pub tests: Vec<String>,
}

/// View of the files of one directory: the names of the models and of the
/// tests.
pub type DirectoryView = (Seq<Seq<char>>, Seq<Seq<char>>);

/// View of the index: the files of each directory.
pub type IndexView = Map<Seq<char>, DirectoryView>;

/// The view of an index.
pub open spec fn index_view(files: Map<Seq<char>, DirectoryFiles>) -> IndexView {
    files.map_values(|d: DirectoryFiles| (texts(d.models@), texts(d.tests@)))
}

/// The path that the pattern is held against: directory, slash, file name.
pub open spec fn full_name_text(dir_name: Seq<char>, file_name: Seq<char>) -> Seq<char> {
    dir_name + "/"@ + file_name
}

/// The files of a directory in the index; none for a directory that the
/// index does not hold.
pub open spec fn directory_of(index: IndexView, dir_name: Seq<char>) -> DirectoryView {
    if index.dom().contains(dir_name) {
        index[dir_name]
    } else {
        (Seq::empty(), Seq::empty())
    }
}

/// The index with one more file of the given kind listed under its
/// directory: a model behind the models, a test behind the tests, any other
/// file nowhere.
pub open spec fn with_listed(
    index: IndexView,
    kind: FileKind,
    dir_name: Seq<char>,
    file_name: Seq<char>,
) -> IndexView {
    let old = directory_of(index, dir_name);
    match kind {
        FileKind::Model => index.insert(dir_name, (old.0.push(file_name), old.1)),
        FileKind::Test => index.insert(dir_name, (old.0, old.1.push(file_name))),
        FileKind::Other => index,
    }
}

/// The index after one more file: a model or a test whose path matches the
/// pattern is listed under its directory, any other file leaves the index
/// as it is. `None` where the pattern is no regular expression and the file
/// is a model or a test.
pub open spec fn with_file(
    index: IndexView,
    pattern: Seq<char>,
    dir_name: Seq<char>,
    file_name: Seq<char>,
) -> Option<IndexView> {
    if file_kind(file_name) == FileKind::Other {
        Some(index)
    } else {
        match regex_is_match(pattern, full_name_text(dir_name, file_name)) {
            None => None,
            Some(false) => Some(index),
            Some(true) => Some(with_listed(index, file_kind(file_name), dir_name, file_name)),
        }
    }
}

/// The index after the first `upto` of the found files, `None` where the
/// pattern failed on one of them.
pub open spec fn with_files(
    index: IndexView,
    pattern: Seq<char>,
    found: Seq<FoundFile>,
    upto: int,
) -> Option<IndexView>
    decreases upto,
{
    if upto <= 0 {
        Some(index)
    } else {
        match with_files(index, pattern, found, upto - 1) {
            None => None,
            Some(before) => with_file(
                before,
                pattern,
                found[upto - 1].dir_name@,
                found[upto - 1].file_name@,
            ),
        }
    }
}

/// Lists a file of the given kind under its directory.
pub fn list_file(
    files: &mut OrderedMap<String, DirectoryFiles>,
    kind: FileKind,
    dir_name: &str,
    file_name: &str,
)
    requires
        old(files).wf(),
    ensures
        final(files).wf(),
        index_view(final(files)@) == with_listed(
            index_view(old(files)@),
            kind,
            dir_name@,
            file_name@,
        ),
        kind == FileKind::Other ==> *final(files) == *old(files),
{
    match kind {
        FileKind::Other => {
            return ;
        },
        _ => {},
    }
    let ghost before = files@;
    let key = dir_name.to_owned();
    let mut entry = match files.remove(&key) {
        Some(entry) => entry,
        None => DirectoryFiles { models: Vec::new(), tests: Vec::new() },
    };
    let ghost old_entry = (texts(entry.models@), texts(entry.tests@));
    assert(old_entry == directory_of(index_view(before), dir_name@)) by {
        if !before.dom().contains(dir_name@) {
            assert(old_entry.0 =~= Seq::<Seq<char>>::empty());
            assert(old_entry.1 =~= Seq::<Seq<char>>::empty());
        }
    }
    match kind {
        FileKind::Model => {
            entry.models.push(file_name.to_owned());
            assert(texts(entry.models@) =~= old_entry.0.push(file_name@));
        },
        _ => {
            entry.tests.push(file_name.to_owned());
            assert(texts(entry.tests@) =~= old_entry.1.push(file_name@));
        },
    }
    files.insert(key, entry);
    assert(files@ =~= before.insert(dir_name@, entry));
    assert(index_view(files@) =~= index_view(before).insert(
        dir_name@,
        (texts(entry.models@), texts(entry.tests@)),
    ));
}

/// Takes one found file into the index: a model or a test is listed where
/// its path matches the pattern. Says `false`, and leaves the index as it
/// is, where the pattern is no regular expression.
pub fn add_file(
    files: &mut OrderedMap<String, DirectoryFiles>,
    pattern: &str,
    dir_name: &str,
    file_name: &str,
) -> (r: bool)
    requires
        old(files).wf(),
    ensures
        final(files).wf(),
        r == with_file(index_view(old(files)@), pattern@, dir_name@, file_name@) is Some,
        r ==> Some(index_view(final(files)@)) == with_file(
            index_view(old(files)@),
            pattern@,
            dir_name@,
            file_name@,
        ),
        !r ==> *final(files) == *old(files),
{
    let kind = classify_file(file_name);
    match kind {
        FileKind::Other => {
            return true;
        },
        _ => {},
    }
    let mut full_name = dir_name.to_owned();
    full_name.append("/");
    full_name.append(file_name);
    match pattern_matches(pattern, full_name.as_str()) {
        None => false,
        Some(false) => true,
        Some(true) => {
            list_file(files, kind, dir_name, file_name);
            true
        },
    }
}

/// Takes the found files into the index, in their order. Stops at the
/// first file on which the pattern fails and hands its index back; `None`
/// where all files were taken in.
pub fn search_files(
    found: &Vec<FoundFile>,
    pattern: &str,
    files: &mut OrderedMap<String, DirectoryFiles>,
) -> (r: Option<usize>)
    requires
        old(files).wf(),
    ensures
        final(files).wf(),
        match r {
            None => Some(index_view(final(files)@)) == with_files(
                index_view(old(files)@),
                pattern@,
                found@,
                found@.len() as int,
            ),
            Some(at) => {
                &&& at < found@.len()
                &&& Some(index_view(final(files)@)) == with_files(
                    index_view(old(files)@),
                    pattern@,
                    found@,
                    at as int,
                )
                &&& with_files(index_view(old(files)@), pattern@, found@, at + 1) is None
            },
        },
{
    let mut i: usize = 0;
    while i < found.len()
        invariant
            i <= found.len(),
            files.wf(),
            Some(index_view(files@)) == with_files(
                index_view(old(files)@),
                pattern@,
                found@,
                i as int,
            ),
        decreases found.len() - i,
    {
        if !add_file(files, pattern, found[i].dir_name.as_str(), found[i].file_name.as_str()) {
            return Some(i);
        }
        i = i + 1;
    }
    None
}

} // verus!
