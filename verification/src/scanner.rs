//! The placeholder scanner: finds the `$name` and `$name.path` tokens of a
//! template, and the text between them.

use crate::text::{chars_of, has_char, split, split_chars, string_of, subvec, views};
use vstd::prelude::*;

verus! {

/// Whether the regular-expression library accepts `pattern`.
pub uninterp spec fn regex_compiles(pattern: Seq<char>) -> bool;

/// The matches of `pattern` in `text`: the successive leftmost matches that
/// do not overlap, in the order in which they stand in the text.
pub uninterp spec fn regex_matches(pattern: Seq<char>, text: Seq<char>) -> Seq<Seq<char>>;

/// The text made of the first `count + 1` pieces with the first `count`
/// insertions between them: piece, insertion, piece, and so on.
pub open spec fn splice(pieces: Seq<Seq<char>>, inserts: Seq<Seq<char>>, count: int) -> Seq<char>
    decreases count,
{
    if count <= 0 {
        pieces[0]
    } else {
        splice(pieces, inserts, count - 1) + inserts[count - 1] + pieces[count]
    }
}

/// The text of every match of `pattern` in `text`, in order; `None` where
/// the pattern is refused.
///
/// Trusted: stands for `regex::Regex::new`, and for `Regex::find_iter` on
/// the compiled pattern, each match taken by `Match::as_str`. The contract
/// only gives the outcome its names: whether a pattern is accepted depends
/// on the pattern alone, and the matches on the pattern and the text.
#[verifier::external_body]
fn find_all(pattern: &str, text: &str) -> (r: Option<Vec<String>>)
    ensures
        r is Some <==> regex_compiles(pattern@),
        r matches Some(found) ==> found.deep_view() == regex_matches(pattern@, text@),
{
    regex::Regex::new(pattern).ok().map(
        |re| re.find_iter(text).map(|m| m.as_str().to_string()).collect(),
    )
}

/// The first index at or after `from` at which `word` stands in `text`,
/// or -1 where it stands nowhere from there on.
pub open spec fn find_from(text: Seq<char>, word: Seq<char>, from: int) -> int
    decreases text.len() - from + 1,
{
    if from < 0 || from + word.len() > text.len() {
        -1
    } else if text.subrange(from, from + word.len()) == word {
        from
    } else {
        find_from(text, word, from + 1)
    }
}

/// The pieces that the words `words` cut `text` into from `from` on: each
/// word is looked for after the one before it, and a piece is what stands
/// before each word and after the last. `None` where a word does not stand
/// in the text after the one before it.
pub open spec fn cut(text: Seq<char>, words: Seq<Seq<char>>, from: int) -> Option<Seq<Seq<char>>>
    decreases words.len(),
{
    if words.len() == 0 {
        Some(seq![text.skip(from)])
    } else {
        let at = find_from(text, words[0], from);
        if at < 0 {
            None
        } else {
            match cut(text, words.skip(1), at + words[0].len()) {
                Some(rest) => Some(seq![text.subrange(from, at)] + rest),
                None => None,
            }
        }
    }
}

/// What `find_from` returns is -1 or an index from `from` on at which the
/// word stands.
pub proof fn lemma_find_from(text: Seq<char>, word: Seq<char>, from: int)
    requires
        0 <= from,
    ensures
        find_from(text, word, from) == -1 || (from <= find_from(text, word, from)
            && find_from(text, word, from) + word.len() <= text.len() && text.subrange(
            find_from(text, word, from),
            find_from(text, word, from) + word.len(),
        ) == word),
    decreases text.len() - from + 1,
{
    if from + word.len() <= text.len() && text.subrange(from, from + word.len()) != word {
        lemma_find_from(text, word, from + 1);
    }
}

/// The pieces and the words in turn make up the text: cutting loses
/// nothing. There is one piece more than there are words.
pub proof fn lemma_cut_splice(text: Seq<char>, words: Seq<Seq<char>>, from: int)
    requires
        0 <= from <= text.len(),
        cut(text, words, from) is Some,
    ensures
        cut(text, words, from).unwrap().len() == words.len() + 1,
        splice(cut(text, words, from).unwrap(), words, words.len() as int) == text.skip(from),
    decreases words.len(),
{
    let pieces = cut(text, words, from).unwrap();
    if words.len() == 0 {
    } else {
        let at = find_from(text, words[0], from);
        lemma_find_from(text, words[0], from);
        let after = at + words[0].len();
        let rest = cut(text, words.skip(1), after).unwrap();
        lemma_cut_splice(text, words.skip(1), after);
        assert(pieces == seq![text.subrange(from, at)] + rest);
        lemma_splice_shift(text.subrange(from, at), words[0], rest, words.skip(1), words.len() - 1);
        assert(seq![words[0]] + words.skip(1) == words);
        assert(text.subrange(from, at) + words[0] + text.skip(after) == text.skip(from));
    }
}

/// Splicing with one more piece and one more word in front puts both
/// before the rest.
pub proof fn lemma_splice_shift(
    piece: Seq<char>,
    word: Seq<char>,
    pieces: Seq<Seq<char>>,
    words: Seq<Seq<char>>,
    count: int,
)
    requires
        0 <= count <= words.len(),
        count < pieces.len(),
    ensures
        splice(seq![piece] + pieces, seq![word] + words, count + 1) == piece + word + splice(
            pieces,
            words,
            count,
        ),
    decreases count,
{
    let p = seq![piece] + pieces;
    let w = seq![word] + words;
    if count == 0 {
        assert(splice(p, w, 0) == piece);
        assert(p[1] == pieces[0]);
        assert(w[0] == word);
    } else {
        lemma_splice_shift(piece, word, pieces, words, count - 1);
        assert(p[count + 1] == pieces[count]);
        assert(w[count] == words[count - 1]);
        assert(splice(p, w, count + 1) == splice(p, w, count) + w[count] + p[count + 1]);
        assert(piece + word + splice(pieces, words, count - 1) + words[count - 1] + pieces[count]
            == piece + word + (splice(pieces, words, count - 1) + words[count - 1]
            + pieces[count]));
    }
}

/// The pattern of a token: a dollar sign, a second one if the token is
/// escaped, then one or more word characters or dots.
pub open spec fn token_pattern() -> Seq<char> {
    "\\$\\$?[\\w.]+"@
}

/// Whether `word` stands in `text` at the index `at`.
fn stands_at(text: &Vec<char>, word: &Vec<char>, at: usize) -> (r: bool)
    requires
        at + word.len() <= text.len(),
    ensures
        r == (text@.subrange(at as int, at + word.len()) == word@),
{
    let mut i: usize = 0;
    while i < word.len()
        invariant
            i <= word.len(),
            at + word.len() <= text.len(),
            forall|j: int| 0 <= j < i ==> text@[at + j] == word@[j],
        decreases word.len() - i,
    {
        if text[at + i] != word[i] {
            assert(text@.subrange(at as int, at + word.len())[i as int] != word@[i as int]);
            return false;
        }
        i = i + 1;
    }
    assert(text@.subrange(at as int, at + word.len()) =~= word@);
    true
}

/// The first index at or after `from` at which `word` stands in `text`.
pub fn find_word(text: &Vec<char>, word: &Vec<char>, from: usize) -> (r: Option<usize>)
    requires
        from <= text.len(),
    ensures
        match r {
            Some(at) => find_from(text@, word@, from as int) == at && from <= at && at
                + word.len() <= text.len(),
            None => find_from(text@, word@, from as int) == -1,
        },
{
    let mut i: usize = from;
    loop
        invariant
            from <= i <= text.len(),
            find_from(text@, word@, from as int) == find_from(text@, word@, i as int),
        decreases text.len() - i,
    {
        if word.len() > text.len() - i {
            return None;
        }
        if stands_at(text, word, i) {
            return Some(i);
        }
        assert(i < text.len()) by {
            if i == text.len() {
                assert(word@.len() == 0);
                assert(text@.subrange(i as int, i as int) =~= word@);
            }
        }
        i = i + 1;
    }
}

/// The pieces that `words` cut `text` into.
pub fn cut_text(text: &Vec<char>, words: &Vec<Vec<char>>) -> (r: Option<Vec<Vec<char>>>)
    ensures
        match r {
            Some(pieces) => cut(text@, views(words@), 0) == Some(views(pieces@)),
            None => cut(text@, views(words@), 0) is None,
        },
{
    let mut pieces: Vec<Vec<char>> = Vec::new();
    let mut pos: usize = 0;
    let mut k: usize = 0;
    assert(views(words@).skip(0) == views(words@));
    assert(views(pieces@) == Seq::<Seq<char>>::empty());
    assert forall|rest: Seq<Seq<char>>| Seq::<Seq<char>>::empty() + rest == rest by {
        assert(Seq::<Seq<char>>::empty() + rest =~= rest);
    }
    while k < words.len()
        invariant
            k <= words.len(),
            pos <= text.len(),
            cut(text@, views(words@), 0) == match cut(
                text@,
                views(words@).skip(k as int),
                pos as int,
            ) {
                Some(rest) => Some(views(pieces@) + rest),
                None => None,
            },
        decreases words.len() - k,
    {
        let ghost left = views(words@).skip(k as int);
        let ghost before = views(pieces@);
        assert(left[0] == words@[k as int]@);
        assert(left.skip(1) == views(words@).skip(k + 1));
        match find_word(text, &words[k], pos) {
            None => {
                return None;
            },
            Some(at) => {
                let piece = subvec(text, pos, at);
                pieces.push(piece);
                assert(views(pieces@) == before + seq![text@.subrange(pos as int, at as int)]);
                assert forall|rest: Seq<Seq<char>>|
                    before + (seq![text@.subrange(pos as int, at as int)] + rest) == views(pieces@)
                        + rest by {
                    assert(before + (seq![text@.subrange(pos as int, at as int)] + rest) =~= views(
                        pieces@,
                    ) + rest);
                }
                pos = at + words[k].len();
                k = k + 1;
            },
        }
    }
    let ghost before = views(pieces@);
    assert(views(words@).skip(k as int).len() == 0);
    pieces.push(subvec(text, pos, text.len()));
    assert(views(pieces@) == before + seq![text@.skip(pos as int)]);
    Some(pieces)
}

/// The character vectors of a vector of strings.
pub fn to_char_vecs(v: &Vec<String>) -> (r: Vec<Vec<char>>)
    ensures
        views(r@) == v.deep_view(),
{
    let mut r: Vec<Vec<char>> = Vec::new();
    let mut i: usize = 0;
    while i < v.len()
        invariant
            i <= v.len(),
            r.len() == i,
            forall|j: int| 0 <= j < i ==> r@[j]@ == v@[j]@,
        decreases v.len() - i,
    {
        r.push(chars_of(v[i].as_str()));
        i = i + 1;
    }
    assert(views(r@) =~= v.deep_view());
    r
}

/// The strings of a vector of character vectors.
pub fn to_strings(v: &Vec<Vec<char>>) -> (r: Vec<String>)
    ensures
        r.deep_view() == views(v@),
{
    let mut r: Vec<String> = Vec::new();
    let mut i: usize = 0;
    while i < v.len()
        invariant
            i <= v.len(),
            r.len() == i,
            forall|j: int| 0 <= j < i ==> r@[j]@ == v@[j]@,
        decreases v.len() - i,
    {
        r.push(string_of(&v[i]));
        i = i + 1;
    }
    assert(r.deep_view() =~= views(v@));
    r
}

/// A scanned template: its tokens in order, and the text around them.
pub struct Scan {
    pub pieces: Vec<String>,
    pub tokens: Vec<String>,
}

/// The tokens of the template `text`. A text without a dollar sign has
/// none; in any other text they are the matches of the token pattern.
pub open spec fn template_tokens(text: Seq<char>) -> Seq<Seq<char>> {
    if text.contains('$') {
        regex_matches(token_pattern(), text)
    } else {
        Seq::empty()
    }
}

/// The pieces and the tokens of the template `text`: its tokens, and what
/// they cut the text into. `None` where the text holds a dollar sign and
/// the regular-expression library refuses the token pattern, or gives a
/// match that does not stand in the text after the match before it.
pub open spec fn scanned(text: Seq<char>) -> Option<(Seq<Seq<char>>, Seq<Seq<char>>)> {
    if text.contains('$') && !regex_compiles(token_pattern()) {
        None
    } else {
        match cut(text, template_tokens(text), 0) {
            Some(pieces) => Some((pieces, template_tokens(text))),
            None => None,
        }
    }
}

impl Scan {
    /// Whether this is the scan of `text`.
    pub open spec fn is_scan_of(&self, text: Seq<char>) -> bool {
        scanned(text) == Some((self.pieces.deep_view(), self.tokens.deep_view()))
    }
}

/// Scans a template for its tokens. A text without a dollar sign is one
/// piece without tokens, and the regular-expression library is not asked.
pub fn scan(text: &str) -> (r: Option<Scan>)
    ensures
        match r {
            Some(s) => s.is_scan_of(text@),
            None => scanned(text@) is None,
        },
{
    let chars = chars_of(text);
    if !has_char(&chars, '$') {
        let mut pieces: Vec<String> = Vec::new();
        pieces.push(text.to_owned());
        let tokens: Vec<String> = Vec::new();
        assert(text@.skip(0) == text@);
        assert(tokens.deep_view() =~= Seq::<Seq<char>>::empty());
        assert(pieces.deep_view() =~= seq![text@]);
        return Some(Scan { pieces, tokens });
    }
    match find_all("\\$\\$?[\\w.]+", text) {
        Some(tokens) => {
            let words = to_char_vecs(&tokens);
            match cut_text(&chars, &words) {
                Some(pieces) => Some(Scan { pieces: to_strings(&pieces), tokens }),
                None => None,
            }
        },
        None => None,
    }
}

/// A text without a dollar sign scans as itself: one piece, no token.
pub proof fn lemma_scanned_without_dollar(text: Seq<char>)
    requires
        !text.contains('$'),
    ensures
        scanned(text) == Some((seq![text], Seq::<Seq<char>>::empty())),
{
    assert(text.skip(0) == text);
}

/// The pieces and the tokens of a scan make up the scanned text, and there
/// is one piece more than there are tokens. A template without tokens is a
/// single piece: itself.
pub proof fn lemma_scan_makes_up_text(s: Scan, text: Seq<char>)
    requires
        s.is_scan_of(text),
    ensures
        s.pieces.len() == s.tokens.len() + 1,
        splice(s.pieces.deep_view(), s.tokens.deep_view(), s.tokens.len() as int) == text,
        s.tokens.len() == 0 ==> s.pieces[0]@ == text,
{
    lemma_cut_splice(text, s.tokens.deep_view(), 0);
    assert(text.skip(0) == text);
    assert(s.pieces.deep_view().len() == s.pieces.len());
    assert(s.tokens.deep_view().len() == s.tokens.len());
    assert(s.pieces.deep_view()[0] == s.pieces[0]@);
}

/// The index in the scanned text at which token number `k` begins: the
/// length of all that stands before it.
pub open spec fn token_start(pieces: Seq<Seq<char>>, tokens: Seq<Seq<char>>, k: int) -> int {
    splice(pieces, tokens, k).len() as int
}

/// The first `k` tokens with the pieces around them are the beginning of
/// the text that all of them make up.
pub proof fn lemma_splice_prefix(pieces: Seq<Seq<char>>, tokens: Seq<Seq<char>>, k: int, n: int)
    requires
        0 <= k <= n,
    ensures
        splice(pieces, tokens, k).len() <= splice(pieces, tokens, n).len(),
        splice(pieces, tokens, n).take(splice(pieces, tokens, k).len() as int) == splice(
            pieces,
            tokens,
            k,
        ),
    decreases n - k,
{
    if k < n {
        lemma_splice_prefix(pieces, tokens, k, n - 1);
        let shorter = splice(pieces, tokens, n - 1);
        let longer = splice(pieces, tokens, n);
        assert(longer == shorter + tokens[n - 1] + pieces[n]);
        assert(longer.take(shorter.len() as int) == shorter);
        assert(longer.take(splice(pieces, tokens, k).len() as int) == shorter.take(
            splice(pieces, tokens, k).len() as int,
        ));
    } else {
        assert(splice(pieces, tokens, n).take(splice(pieces, tokens, n).len() as int) == splice(
            pieces,
            tokens,
            n,
        ));
    }
}

/// Every token of a scan stands in the scanned text at its start: the span
/// from `token_start` on, as long as the token, reads the token.
pub proof fn lemma_token_span(s: Scan, text: Seq<char>, k: int)
    requires
        s.is_scan_of(text),
        0 <= k < s.tokens.len(),
    ensures
        token_start(s.pieces.deep_view(), s.tokens.deep_view(), k) + s.tokens[k]@.len()
            <= text.len(),
        text.subrange(
            token_start(s.pieces.deep_view(), s.tokens.deep_view(), k),
            token_start(s.pieces.deep_view(), s.tokens.deep_view(), k) + s.tokens[k]@.len(),
        ) == s.tokens[k]@,
{
    let pieces = s.pieces.deep_view();
    let tokens = s.tokens.deep_view();
    lemma_scan_makes_up_text(s, text);
    lemma_splice_prefix(pieces, tokens, k + 1, tokens.len() as int);
    let before = splice(pieces, tokens, k);
    let with_token = splice(pieces, tokens, k + 1);
    assert(with_token == before + tokens[k] + pieces[k + 1]);
    assert(tokens[k] == s.tokens[k]@);
    assert(text.take(with_token.len() as int) == with_token);
    assert(text.subrange(before.len() as int, before.len() as int + tokens[k].len()) =~= tokens[k]) by {
        assert forall|i: int| 0 <= i < tokens[k].len() implies text[before.len() + i]
            == tokens[k][i] by {
            assert(text[before.len() + i] == with_token[before.len() + i]);
        }
    }
}

/// Whether a token is escaped: it begins with two dollar signs.
pub open spec fn is_escaped(token: Seq<char>) -> bool {
    token.len() >= 2 && token[0] == '$' && token[1] == '$'
}

/// What stands for an escaped token: the token without its first dollar
/// sign.
pub open spec fn unescaped(token: Seq<char>) -> Seq<char> {
    token.skip(1)
}

/// The segments of a token: what follows its dollar sign, cut at the dots.
pub open spec fn token_segments(token: Seq<char>) -> Seq<Seq<char>> {
    if token.len() > 0 {
        split(token.skip(1), '.')
    } else {
        split(token, '.')
    }
}

/// The name of a token: its first segment.
pub open spec fn token_name(token: Seq<char>) -> Seq<char> {
    token_segments(token)[0]
}

/// The path of a token: its segments after the name.
pub open spec fn token_path(token: Seq<char>) -> Seq<Seq<char>> {
    token_segments(token).skip(1)
}

/// Whether `token` is escaped.
pub fn token_is_escaped(token: &Vec<char>) -> (r: bool)
    ensures
        r == is_escaped(token@),
{
    token.len() >= 2 && token[0] == '$' && token[1] == '$'
}

/// The name and the path of `token`.
pub fn token_parts(token: &Vec<char>) -> (r: (Vec<char>, Vec<Vec<char>>))
    ensures
        r.0@ == token_name(token@),
        views(r.1@) == token_path(token@),
{
    let body = if token.len() > 0 {
        subvec(token, 1, token.len())
    } else {
        subvec(token, 0, 0)
    };
    assert(token.len() == 0 ==> body@ == token@);
    let mut segments = split_chars(&body, '.');
    let ghost all = segments@;
    let name = segments.remove(0);
    assert(views(all)[0] == all[0]@);
    assert(views(segments@) == views(all).skip(1));
    (name, segments)
}

} // verus!
