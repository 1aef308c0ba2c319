//! Path utilities: parents and stems of paths, the reverse-domain-name
//! notation of a namespace, and the workspace name of a model file.

use crate::dto::optional_text;
use crate::text::{chars_of, join, joined, split, split_on, texts};
use vstd::prelude::*;
use vstd::string::StrSliceExecFns;
use vstd::string::StringExecFns;

verus! {

/// What `std::path::Path::parent` gives for a path, as text: the path
/// without its final component, `None` where there is none.
pub uninterp spec fn path_parent(path: Seq<char>) -> Option<Seq<char>>;

/// What `std::path::Path::file_stem` gives for a path, as text: the file
/// name without its extension, `None` where there is no file name.
pub uninterp spec fn path_file_stem(path: Seq<char>) -> Option<Seq<char>>;

/// Calls `std::path::Path::parent` on the path that the text names and
/// hands the parent out as text.
#[verifier::external_body]
pub(crate) fn parent_of(name: &str) -> (r: Option<String>)
    ensures
        optional_text(r) == path_parent(name@),
{
    match std::path::Path::new(name).parent() {
        Some(parent) => parent.to_str().map(String::from),
        None => None,
    }
}

/// Calls `std::path::Path::file_stem` on the path that the text names and
/// hands the stem out as text.
#[verifier::external_body]
pub(crate) fn stem_of(name: &str) -> (r: Option<String>)
    ensures
        optional_text(r) == path_file_stem(name@),
{
    match std::path::Path::new(name).file_stem() {
        Some(stem) => stem.to_str().map(String::from),
        None => None,
    }
}

/// What `std::path::Path::strip_prefix` gives for a path and a base, as
/// text: the path relative to the base, `None` where the base is no prefix
/// of the path.
pub uninterp spec fn path_strip_prefix(path: Seq<char>, base: Seq<char>) -> Option<Seq<char>>;

/// Calls `std::path::Path::strip_prefix` on the paths that the texts name
/// and hands the relative path out as text.
#[verifier::external_body]
pub(crate) fn relative_to(path: &str, base: &str) -> (r: Option<String>)
    ensures
        optional_text(r) == path_strip_prefix(path@, base@),
{
    match std::path::Path::new(path).strip_prefix(std::path::Path::new(base)) {
        Ok(relative) => Some(relative.to_string_lossy().to_string()),
        Err(_) => None,
    }
}

/// What `str::trim` gives: the text without leading and trailing white
/// space.
pub uninterp spec fn str_trim(text: Seq<char>) -> Seq<char>;

/// Calls `str::trim`.
#[verifier::external_body]
pub(crate) fn trimmed(text: &str) -> (r: String)
    ensures
        r@ == str_trim(text@),
{
    text.trim().to_string()
}

/// Whether `url` parses a text as an absolute URL.
pub uninterp spec fn url_parses(input: Seq<char>) -> bool;

/// The domain of the URL that a text parses to, `None` where its host is no
/// domain name.
pub uninterp spec fn url_domain(input: Seq<char>) -> Option<Seq<char>>;

/// The path segments of the URL that a text parses to, `None` where the URL
/// cannot be a base.
pub uninterp spec fn url_path_segments(input: Seq<char>) -> Option<Seq<Seq<char>>>;

/// What the runner reads of a parsed URL.
#[derive(Debug)]
pub struct UrlParts {
    pub domain: Option<String>,
    pub path_segments: Option<Vec<String>>,
}

/// The texts of optional path segments.
pub open spec fn optional_texts(segments: Option<Vec<String>>) -> Option<Seq<Seq<char>>> {
    match segments {
        Some(list) => Some(texts(list@)),
        None => None,
    }
}

/// Calls `url::Url::parse`, and on the URL `domain` and `path_segments`.
/// `None` where the text does not parse.
#[verifier::external_body]
pub(crate) fn parse_url(input: &str) -> (r: Option<UrlParts>)
    ensures
        r is Some == url_parses(input@),
        r matches Some(parts) ==> optional_text(parts.domain) == url_domain(input@)
            && optional_texts(parts.path_segments) == url_path_segments(input@),
{
    match url::Url::parse(input) {
        Ok(parsed) => Some(
            UrlParts {
                domain: parsed.domain().map(String::from),
                path_segments: parsed.path_segments().map(|s| s.map(String::from).collect()),
            },
        ),
        Err(_) => None,
    }
}

/// The path segments that count: each trimmed, the empty ones dropped.
pub open spec fn kept_segments(segments: Seq<Seq<char>>) -> Seq<Seq<char>>
    decreases segments.len(),
{
    if segments.len() == 0 {
        Seq::empty()
    } else {
        let rest = kept_segments(segments.drop_last());
        if str_trim(segments.last()).len() == 0 {
            rest
        } else {
            rest.push(str_trim(segments.last()))
        }
    }
}

/// The reverse-domain-name notation of labels and segments: the labels in
/// reverse order, then the segments, joined by `/`.
pub open spec fn rdnn_of(labels: Seq<Seq<char>>, segments: Seq<Seq<char>>) -> Seq<char> {
    joined(labels.reverse() + segments, "/"@)
}

/// Joins the labels of a domain, in reverse order, and the path segments
/// with `/`.
pub fn reverse_domain_name(labels: &Vec<String>, segments: &Vec<String>) -> (r: String)
    ensures
        r@ == rdnn_of(texts(labels@), texts(segments@)),
{
    let mut parts: Vec<String> = Vec::new();
    let mut i: usize = labels.len();
    while i > 0
        invariant
            i <= labels.len(),
            parts@.len() == labels.len() - i,
            forall|k: int|
                0 <= k < parts@.len() ==> parts@[k]@ == labels@[labels.len() - 1 - k]@,
        decreases i,
    {
        i = i - 1;
        parts.push(labels[i].clone());
    }
    let mut j: usize = 0;
    while j < segments.len()
        invariant
            j <= segments.len(),
            parts@.len() == labels.len() + j,
            forall|k: int|
                0 <= k < labels.len() ==> parts@[k]@ == labels@[labels.len() - 1 - k]@,
            forall|k: int| 0 <= k < j ==> parts@[labels.len() + k]@ == segments@[k]@,
        decreases segments.len() - j,
    {
        parts.push(segments[j].clone());
        j = j + 1;
    }
    assert(texts(parts@) =~= texts(labels@).reverse() + texts(segments@));
    join(&parts, "/")
}

/// Trims the path segments and drops the empty ones.
pub fn keep_segments(segments: &Vec<String>) -> (r: Vec<String>)
    ensures
        texts(r@) == kept_segments(texts(segments@)),
{
    let mut kept: Vec<String> = Vec::new();
    let mut i: usize = 0;
    while i < segments.len()
        invariant
            i <= segments.len(),
            texts(kept@) == kept_segments(texts(segments@).take(i as int)),
        decreases segments.len() - i,
    {
        let ghost before = texts(kept@);
        proof {
            assert(texts(segments@).take(i + 1).drop_last() =~= texts(segments@).take(i as int));
            assert(texts(segments@).take(i + 1).last() == segments@[i as int]@);
        }
        let segment = trimmed(segments[i].as_str());
        if !segment.as_str().is_empty() {
            kept.push(segment);
            assert(texts(kept@) =~= before.push(segment@));
        }
        i = i + 1;
    }
    assert(texts(segments@).take(segments.len() as int) =~= texts(segments@));
    kept
}

/// The reverse-domain-name notation of a namespace URL, `None` where the
/// text is no URL with a domain and a path.
pub open spec fn rdnn_text(input: Seq<char>) -> Option<Seq<char>> {
    if url_parses(input) && url_path_segments(input) is Some && url_domain(input) is Some {
        Some(
            rdnn_of(
                split_on(url_domain(input)->0, '.'),
                kept_segments(url_path_segments(input)->0),
            ),
        )
    } else {
        None
    }
}

/// Returns RDNN built from input URL: the labels of the domain in reverse
/// order, then the path segments that are not empty.
pub fn to_rdnn(input: &str) -> (r: Option<String>)
    ensures
        optional_text(r) == rdnn_text(input@),
{
    match parse_url(input) {
        None => None,
        Some(parts) => match (parts.path_segments, parts.domain) {
            (Some(segments), Some(domain)) => {
                let labels = split(domain.as_str(), '.');
                let kept = keep_segments(&segments);
                Some(reverse_domain_name(&labels, &kept))
            },
            _ => None,
        },
    }
}

/// The text with each backslash replaced by a slash.
pub open spec fn slashed(s: Seq<char>) -> Seq<char> {
    Seq::new(
        s.len(),
        |i: int|
            if s[i] == '\\' {
                '/'
            } else {
                s[i]
            },
    )
}

/// The text without its leading slashes.
pub open spec fn without_leading_slashes(s: Seq<char>) -> Seq<char>
    decreases s.len(),
{
    if s.len() > 0 && s[0] == '/' {
        without_leading_slashes(s.drop_first())
    } else {
        s
    }
}

/// The text without its trailing slashes.
pub open spec fn without_trailing_slashes(s: Seq<char>) -> Seq<char>
    decreases s.len(),
{
    if s.len() > 0 && s.last() == '/' {
        without_trailing_slashes(s.drop_last())
    } else {
        s
    }
}

/// The workspace name that a relative path stands for: backslashes turned
/// into slashes, then the slashes at both ends taken off.
pub open spec fn workspace_text(relative: Seq<char>) -> Seq<char> {
    without_trailing_slashes(without_leading_slashes(slashed(relative)))
}

/// Replaces each backslash by a slash.
pub fn replace_backslashes(s: &str) -> (r: String)
    ensures
        r@ == slashed(s@),
{
    let chars = chars_of(s);
    let mut out = String::new();
    let mut start: usize = 0;
    let mut i: usize = 0;
    proof {
        reveal_strlit("/");
    }
    while i < chars.len()
        invariant
            chars@ == s@,
            start <= i <= chars.len(),
            "/"@ == seq!['/'],
            out@ + s@.subrange(start as int, i as int) == slashed(s@).take(i as int),
        decreases chars.len() - i,
    {
        if chars[i] == '\\' {
            out.append(s.substring_char(start, i));
            out.append("/");
            start = i + 1;
            assert(out@ + s@.subrange(start as int, i + 1) =~= slashed(s@).take(i + 1)) by {
                assert(slashed(s@).take(i + 1) =~= slashed(s@).take(i as int).push('/'));
            }
        } else {
            assert(out@ + s@.subrange(start as int, i + 1) =~= slashed(s@).take(i + 1)) by {
                assert(slashed(s@).take(i + 1) =~= slashed(s@).take(i as int).push(s@[i as int]));
                assert(s@.subrange(start as int, i + 1) =~= s@.subrange(start as int, i as int).push(
                    s@[i as int],
                ));
            }
        }
        i = i + 1;
    }
    out.append(s.substring_char(start, i));
    assert(slashed(s@).take(i as int) =~= slashed(s@));
    out
}

proof fn lemma_leading_slashes(s: Seq<char>, k: int)
    requires
        0 <= k <= s.len(),
        forall|j: int| 0 <= j < k ==> s[j] == '/',
        k < s.len() ==> s[k] != '/',
    ensures
        without_leading_slashes(s) == s.skip(k),
    decreases k,
{
    if k == 0 {
        assert(s.skip(0) =~= s);
    } else {
        lemma_leading_slashes(s.drop_first(), k - 1);
        assert(s.drop_first().skip(k - 1) =~= s.skip(k));
    }
}

proof fn lemma_trailing_slashes(s: Seq<char>, k: int)
    requires
        0 <= k <= s.len(),
        forall|j: int| k <= j < s.len() ==> s[j] == '/',
        k > 0 ==> s[k - 1] != '/',
    ensures
        without_trailing_slashes(s) == s.take(k),
    decreases s.len() - k,
{
    if k == s.len() {
        assert(s.take(k) =~= s);
    } else {
        lemma_trailing_slashes(s.drop_last(), k);
        assert(s.drop_last().take(k) =~= s.take(k));
    }
}

/// Takes the slashes at both ends off.
pub fn trim_slashes(s: &str) -> (r: String)
    ensures
        r@ == without_trailing_slashes(without_leading_slashes(s@)),
{
    let chars = chars_of(s);
    let mut lo: usize = 0;
    while lo < chars.len() && chars[lo] == '/'
        invariant
            lo <= chars.len(),
            forall|j: int| 0 <= j < lo ==> chars@[j] == '/',
        decreases chars.len() - lo,
    {
        lo = lo + 1;
    }
    let mut hi: usize = chars.len();
    while hi > lo && chars[hi - 1] == '/'
        invariant
            lo <= hi <= chars.len(),
            forall|j: int| hi <= j < chars.len() ==> chars@[j] == '/',
        decreases hi,
    {
        hi = hi - 1;
    }
    proof {
        lemma_leading_slashes(s@, lo as int);
        let rest = s@.skip(lo as int);
        lemma_trailing_slashes(rest, hi - lo);
        assert(rest.take(hi - lo) =~= s@.subrange(lo as int, hi as int));
    }
    s.substring_char(lo, hi).to_owned()
}

/// The workspace name of a model file under a root directory, both given
/// by their canonical paths: the file's parent relative to the root, with
/// forward slashes and none at either end. `None` where the file has no
/// parent or does not lie under the root.
pub open spec fn workspace_of(canonical_root: Seq<char>, canonical_file: Seq<char>) -> Option<
    Seq<char>,
> {
    match path_parent(canonical_file) {
        None => None,
        Some(directory) => match path_strip_prefix(directory, canonical_root) {
            None => None,
            Some(relative) => Some(workspace_text(relative)),
        },
    }
}

/// Returns workspace name created from the canonical paths of the root
/// directory and of the model file. An empty name means that the file sits
/// directly under the root.
pub fn workspace_name(canonical_root: &str, canonical_file: &str) -> (r: Option<String>)
    ensures
        optional_text(r) == workspace_of(canonical_root@, canonical_file@),
{
    match parent_of(canonical_file) {
        None => None,
        Some(directory) => match relative_to(directory.as_str(), canonical_root) {
            None => None,
            Some(relative) => {
                let replaced = replace_backslashes(relative.as_str());
                Some(trim_slashes(replaced.as_str()))
            },
        },
    }
}

} // verus!
