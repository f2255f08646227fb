//! The parts of a multipart body: file names, media types, and the header
//! that a multipart body takes the place of.

use crate::text::{chars_of, same_chars, string_of, subvec};
use vstd::prelude::*;

verus! {

/// The index of the last `c` in `s`, or -1 where it holds none.
pub open spec fn last_index_of(s: Seq<char>, c: char) -> int
    decreases s.len(),
{
    if s.len() == 0 {
        -1
    } else if s.last() == c {
        s.len() - 1
    } else {
        last_index_of(s.drop_last(), c)
    }
}

/// An index that holds `c` with no `c` after it is the last index of `c`;
/// so is -1 where nothing holds `c`.
pub proof fn lemma_last_index_of(s: Seq<char>, c: char, k: int)
    requires
        -1 <= k < s.len(),
        forall|j: int| k < j < s.len() ==> s[j] != c,
        k == -1 || s[k] == c,
    ensures
        last_index_of(s, c) == k,
    decreases s.len(),
{
    if s.len() > 0 && k < s.len() - 1 {
        let t = s.drop_last();
        lemma_last_index_of(t, c, k);
    }
}

/// The extension of a file name: what follows its last dot. A name without
/// a dot has none, nor has one whose only dot is its first character, nor
/// has the name `..`.
pub open spec fn extension(file_name: Seq<char>) -> Option<Seq<char>> {
    let dot = last_index_of(file_name, '.');
    if dot <= 0 || file_name == seq!['.', '.'] {
        None
    } else {
        Some(file_name.skip(dot + 1))
    }
}

/// The extension of `file_name`, if it has one.
pub fn extension_of(file_name: &Vec<char>) -> (r: Option<Vec<char>>)
    ensures
        match r {
            Some(e) => extension(file_name@) == Some(e@),
            None => extension(file_name@) is None,
        },
{
    let mut i: usize = file_name.len();
    while i > 0 && file_name[i - 1] != '.'
        invariant
            i <= file_name.len(),
            forall|j: int| i <= j < file_name.len() ==> file_name@[j] != '.',
        decreases i,
    {
        i = i - 1;
    }
    proof {
        lemma_last_index_of(file_name@, '.', i as int - 1);
    }
    if i <= 1 {
        return None;
    }
    if file_name.len() == 2 && file_name[0] == '.' && file_name[1] == '.' {
        assert(file_name@ == seq!['.', '.']);
        return None;
    }
    assert(file_name@ != seq!['.', '.']) by {
        if file_name@ == seq!['.', '.'] {
            assert(file_name@.len() == 2);
            assert(file_name@[0] == '.' && file_name@[1] == '.');
        }
    }
    Some(subvec(file_name, i, file_name.len()))
}

/// The media type that the media-type table gives for a file extension;
/// `application/octet-stream` where the table does not know the extension,
/// and for the empty extension.
pub uninterp spec fn mime_for_extension(ext: Seq<char>) -> Seq<char>;

/// The media type for the extension `ext`.
///
/// Trusted: stands for `mime_guess::from_ext` followed by
/// `MimeGuess::first_or_octet_stream`, the media type taken as text. The
/// contract only gives the result its name: it is read off a fixed table,
/// without regard to case.
#[verifier::external_body]
fn guess_mime(ext: &str) -> (r: String)
    ensures
        r@ == mime_for_extension(ext@),
{
    mime_guess::from_ext(ext).first_or_octet_stream().as_ref().to_string()
}

/// The media type of a file of the name `file_name`: that of its extension,
/// or of the empty extension where it has none.
pub open spec fn mime_of(file_name: Seq<char>) -> Seq<char> {
    match extension(file_name) {
        Some(e) => mime_for_extension(e),
        None => mime_for_extension(Seq::empty()),
    }
}

/// The media type of a file of the name `file_name`.
pub fn mime_of_file_name(file_name: &str) -> (r: String)
    ensures
        r@ == mime_of(file_name@),
{
    match extension_of(&chars_of(file_name)) {
        Some(e) => guess_mime(string_of(&e).as_str()),
        None => guess_mime(String::new().as_str()),
    }
}

/// The last segment of the path of a URL; `None` where the text is no URL,
/// or a URL whose path has no segments.
pub uninterp spec fn url_last_segment(url: Seq<char>) -> Option<Seq<char>>;

/// The last segment of the path of `url`.
///
/// Trusted: stands for `reqwest::Url::parse` followed by
/// `Url::path_segments`, of which the last item is taken. The contract only
/// gives the result its name: it depends on the text alone.
#[verifier::external_body]
pub(crate) fn last_segment(url: &str) -> (r: Option<String>)
    ensures
        match r {
            Some(s) => url_last_segment(url@) == Some(s@),
            None => url_last_segment(url@) is None,
        },
{
    reqwest::Url::parse(url).ok()?.path_segments()?.last().map(|s| s.to_string())
}

/// The name of the file that a local path leads to, as the operating system
/// reads the path; `None` where the path names no file.
///
/// Trusted: stands for `std::path::Path::file_name`. Nothing is claimed of
/// the result: how a path is read differs between systems.
#[verifier::external_body]
pub(crate) fn local_file_name(path: &str) -> Option<String> {
    std::path::Path::new(path).file_name().and_then(|n| n.to_str()).map(|s| s.to_string())
}

/// `c` in lower case if it is an ASCII capital, else `c`.
pub open spec fn ascii_lower(c: char) -> char {
    if 'A' <= c <= 'Z' {
        ((c as u8) + 32) as char
    } else {
        c
    }
}

/// Whether `name` reads `content-type`, whatever the case of its letters.
pub open spec fn is_content_type(name: Seq<char>) -> bool {
    name.map_values(|c: char| ascii_lower(c)) == "content-type"@
}

/// Whether `name` names the header that tells the type of the body.
pub fn names_content_type(name: &str) -> (r: bool)
    ensures
        r == is_content_type(name@),
{
    let chars = chars_of(name);
    let mut lower: Vec<char> = Vec::new();
    let mut i: usize = 0;
    while i < chars.len()
        invariant
            i <= chars.len(),
            lower@ == chars@.take(i as int).map_values(|c: char| ascii_lower(c)),
        decreases chars.len() - i,
    {
        let c = chars[i];
        let l = if 'A' <= c && c <= 'Z' {
            ((c as u8) + 32) as char
        } else {
            c
        };
        lower.push(l);
        assert(chars@.take(i + 1) == chars@.take(i as int).push(c));
        assert(chars@.take(i + 1).map_values(|c: char| ascii_lower(c)) == chars@.take(
            i as int,
        ).map_values(|c: char| ascii_lower(c)).push(ascii_lower(c)));
        i = i + 1;
    }
    assert(chars@.take(i as int) == chars@);
    same_chars(&lower, &chars_of("content-type"))
}

} // verus!
