//! Hook invocations: which request a hook runs, and for how long its result
//! may be served from the cache.

use crate::decimal::{parse_decimal, parse_u64};
use crate::text::{
    char_is_space, chars_of, is_prefix, is_space, starts_with, string_of, subvec, trim, trim_chars,
};
use vstd::prelude::*;

verus! {

/// What a hook asks for: the request to run, and the seconds for which its
/// result is kept, if it is kept at all.
pub struct HookCall {
    pub request_id: String,
    pub ttl: Option<u64>,
}

/// Why an invocation is refused.
#[derive(Clone, Copy, Debug, PartialEq, Eq, Structural)]
pub enum HookError {
    /// The invocation does not begin with `$req.`.
    NotAMacro,
    /// What follows the macro is no number of seconds.
    BadTtl,
}

/// How many characters that are no white space `s` begins with.
pub open spec fn word_len(s: Seq<char>) -> int
    decreases s.len(),
{
    if s.len() > 0 && !is_space(s[0]) {
        1 + word_len(s.skip(1))
    } else {
        0
    }
}

/// A run of `k` characters at the beginning of `s`, none of them white
/// space, that ends at white space or at the end, is the first word.
pub proof fn lemma_word_len(s: Seq<char>, k: int)
    requires
        0 <= k <= s.len(),
        forall|j: int| 0 <= j < k ==> !is_space(s[j]),
        k == s.len() || is_space(s[k]),
    ensures
        word_len(s) == k,
    decreases s.len(),
{
    if k > 0 {
        let t = s.skip(1);
        assert forall|j: int| 0 <= j < k - 1 implies !is_space(t[j]) by {
            assert(t[j] == s[j + 1]);
        }
        lemma_word_len(t, k - 1);
    }
}

/// The first word of `s`: its characters up to the first white space.
pub open spec fn first_word(s: Seq<char>) -> Seq<char> {
    s.take(word_len(s))
}

/// What follows the first word of `s`, without the white space around it.
pub open spec fn after_first_word(s: Seq<char>) -> Seq<char> {
    trim(s.skip(word_len(s)))
}

/// The macro of an invocation: its first word.
pub open spec fn macro_ref(invocation: Seq<char>) -> Seq<char> {
    first_word(trim(invocation))
}

/// The request and the seconds that an invocation names. The invocation is
/// a macro, `$req.` and the name of a request, then optionally white space
/// and a number of seconds; white space around it does not count.
pub open spec fn hook_call(invocation: Seq<char>) -> Result<(Seq<char>, Option<u64>), HookError> {
    let macro_text = macro_ref(invocation);
    let rest = after_first_word(trim(invocation));
    if !is_prefix("$req."@, macro_text) {
        Err(HookError::NotAMacro)
    } else if rest.len() == 0 {
        Ok((macro_text.skip("$req."@.len() as int), None))
    } else {
        match parse_decimal(first_word(rest)) {
            Some(seconds) => Ok((macro_text.skip("$req."@.len() as int), Some(seconds))),
            None => Err(HookError::BadTtl),
        }
    }
}

/// The first word of `v`, and what follows it without the white space
/// around it.
pub fn split_first_word(v: &Vec<char>) -> (r: (Vec<char>, Vec<char>))
    ensures
        r.0@ == first_word(v@),
        r.1@ == after_first_word(v@),
{
    let mut i: usize = 0;
    while i < v.len() && !char_is_space(v[i])
        invariant
            i <= v.len(),
            forall|j: int| 0 <= j < i ==> !is_space(v@[j]),
        decreases v.len() - i,
    {
        i = i + 1;
    }
    proof {
        lemma_word_len(v@, i as int);
    }
    let word = subvec(v, 0, i);
    let rest = subvec(v, i, v.len());
    (word, trim_chars(&rest))
}

/// Reads a hook invocation.
pub fn parse_hook(invocation: &str) -> (r: Result<HookCall, HookError>)
    ensures
        match r {
            Ok(call) => hook_call(invocation@) == Ok::<_, HookError>((call.request_id@, call.ttl)),
            Err(e) => hook_call(invocation@) == Err::<(Seq<char>, Option<u64>), _>(e),
        },
{
    let text = chars_of(invocation);
    let trimmed = trim_chars(&text);
    let (macro_text, rest) = split_first_word(&trimmed);
    let prefix = chars_of("$req.");
    if !starts_with(&macro_text, &prefix) {
        return Err(HookError::NotAMacro);
    }
    let id = subvec(&macro_text, prefix.len(), macro_text.len());
    if rest.len() == 0 {
        return Ok(HookCall { request_id: string_of(&id), ttl: None });
    }
    let (seconds_text, _) = split_first_word(&rest);
    match parse_u64(&seconds_text) {
        Some(seconds) => Ok(HookCall { request_id: string_of(&id), ttl: Some(seconds) }),
        None => Err(HookError::BadTtl),
    }
}

} // verus!
