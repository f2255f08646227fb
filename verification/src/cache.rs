//! The macro cache: one stored result per (definitions file, macro), kept
//! until its expiration instant.

use crate::decimal::{
    decimal, digit_value, format_u64, lemma_decimal_round_trip, parse_decimal, parse_u64,
};
use crate::hex::{format_hex, hex};
use crate::text::{
    append_chars, chars_of, find_char, first_index_of, lemma_first_index_of, string_of, strip_cr,
    subvec,
};
use crate::timest::{add_seconds, get_timestamp, is_older_than_at};
use vstd::prelude::*;
use vstd::string::StringSliceAdditionalSpecFns;

verus! {

/// The value that the hash starts from.
pub const HASH_OFFSET: u64 = 0xcbf29ce484222325;

/// The number that the hash is multiplied by after each byte.
pub const HASH_PRIME: u64 = 0x100000001b3;

/// The byte that ends each of the two parts of a key. It occurs in no UTF-8
/// text, so two different pairs never give the same bytes.
pub const PART_END: u8 = 0xff;

/// One step of the hash: the byte is mixed in by exclusive or, and the
/// result multiplied by `HASH_PRIME` modulo 2^64.
pub open spec fn hash_step(h: u64, b: u8) -> u64 {
    vstd::wrapping::u64_specs::wrapping_mul(h ^ (b as u64), HASH_PRIME)
}

/// The hash of `bytes`, starting from `h`.
pub open spec fn hash_from(h: u64, bytes: Seq<u8>) -> u64
    decreases bytes.len(),
{
    if bytes.len() == 0 {
        h
    } else {
        hash_step(hash_from(h, bytes.drop_last()), bytes.last())
    }
}

/// The bytes that a key is hashed from: the file's name, `PART_END`, the
/// macro's name, `PART_END`.
pub open spec fn key_bytes(filename: Seq<u8>, req_id: Seq<u8>) -> Seq<u8> {
    filename.push(PART_END) + req_id.push(PART_END)
}

/// The name of the cache entry of a macro of a definitions file: the hash of
/// both names in hexadecimal.
pub open spec fn cache_name(filename: Seq<u8>, req_id: Seq<u8>) -> Seq<char> {
    hex(hash_from(HASH_OFFSET, key_bytes(filename, req_id)) as nat)
}

/// Hashing a concatenation is hashing its second part from the hash of the
/// first.
pub proof fn lemma_hash_concat(h: u64, a: Seq<u8>, b: Seq<u8>)
    ensures
        hash_from(h, a + b) == hash_from(hash_from(h, a), b),
    decreases b.len(),
{
    if b.len() == 0 {
        assert(a + b == a);
    } else {
        lemma_hash_concat(h, a, b.drop_last());
        assert((a + b).drop_last() == a + b.drop_last());
    }
}

/// Mixes `bytes` and then `PART_END` into the hash `h`.
fn hash_part(h: u64, bytes: &[u8]) -> (r: u64)
    ensures
        r == hash_from(h, bytes@.push(PART_END)),
{
    let mut acc = h;
    let mut i: usize = 0;
    while i < bytes.len()
        invariant
            i <= bytes.len(),
            acc == hash_from(h, bytes@.take(i as int)),
        decreases bytes.len() - i,
    {
        assert(bytes@.take(i + 1).drop_last() == bytes@.take(i as int));
        acc = (acc ^ (bytes[i] as u64)).wrapping_mul(HASH_PRIME);
        i = i + 1;
    }
    assert(bytes@.take(i as int) == bytes@);
    assert(bytes@.push(PART_END).drop_last() == bytes@);
    (acc ^ (PART_END as u64)).wrapping_mul(HASH_PRIME)
}

/// The name of the cache entry for the macro `req_id` of the definitions
/// file `filename`. The same two names give the same entry name in every
/// run.
pub fn calculate_cache_name(filename: &str, req_id: &str) -> (name: String)
    ensures
        name@ == cache_name(filename.spec_bytes(), req_id.spec_bytes()),
{
    let h = hash_part(HASH_OFFSET, filename.as_bytes());
    let h = hash_part(h, req_id.as_bytes());
    proof {
        lemma_hash_concat(
            HASH_OFFSET,
            filename.spec_bytes().push(PART_END),
            req_id.spec_bytes().push(PART_END),
        );
    }
    string_of(&format_hex(h))
}

/// What is wrong with the stored text of an entry.
#[derive(Clone, Copy, Debug, PartialEq, Eq, Structural)]
pub enum CacheCorruption {
    /// The text has no first line that ends, or nothing after it.
    MissingLine,
    /// The first line is no number of seconds.
    BadExpiry,
}

/// The value that stands after the first line of a stored text: all of it,
/// line feeds and all, but for the one line feed that ends the text.
pub open spec fn stored_value(rest: Seq<char>) -> Seq<char> {
    if rest.len() > 0 && rest.last() == '\n' {
        rest.drop_last()
    } else {
        rest
    }
}

/// The expiration instant and the value that the stored text `content`
/// holds. Its first line is the instant in seconds; a carriage return before
/// the line feed does not count. All that follows the first line is the
/// value, of however many lines, without the line feed that ends the text.
pub open spec fn stored_entry(content: Seq<char>) -> Result<(u64, Seq<char>), CacheCorruption> {
    let end = first_index_of(content, '\n');
    if end + 1 >= content.len() {
        Err(CacheCorruption::MissingLine)
    } else {
        match parse_decimal(strip_cr(content.take(end))) {
            None => Err(CacheCorruption::BadExpiry),
            Some(expire) => Ok((expire, stored_value(content.skip(end + 1)))),
        }
    }
}

/// The text that stores a value with its expiration instant.
pub open spec fn entry_text(expire: u64, value: Seq<char>) -> Seq<char> {
    decimal(expire as nat) + seq!['\n'] + value + seq!['\n']
}

/// The result of a macro as the cache holds it.
pub struct Cache {
    pub data: Option<String>,
    pub expire: u64,
}

/// What a `Cache` holds, as characters.
pub struct CacheView {
    pub data: Option<Seq<char>>,
    pub expire: u64,
}

impl View for Cache {
    type V = CacheView;

    open spec fn view(&self) -> CacheView {
        CacheView {
            data: match self.data {
                Some(d) => Some(d@),
                None => None,
            },
            expire: self.expire,
        }
    }
}

/// What a cache that holds `c` answers at the instant `now`: its value
/// until the expiration instant has passed, nothing after.
pub open spec fn cached_at(c: CacheView, now: u64) -> Option<Seq<char>> {
    if c.data is Some && now <= c.expire {
        c.data
    } else {
        None
    }
}

/// What a cache read from the stored text `stored` holds: the entry of the
/// text where there is a text and it is sound, nothing otherwise.
pub open spec fn cache_of(stored: Option<Seq<char>>) -> CacheView {
    match stored {
        Some(content) => match stored_entry(content) {
            Ok((expire, value)) => CacheView { data: Some(value), expire },
            Err(_) => CacheView { data: None, expire: 0 },
        },
        None => CacheView { data: None, expire: 0 },
    }
}

impl Cache {
    /// A cache that holds nothing.
    pub fn empty() -> (c: Cache)
        ensures
            c@ == (CacheView { data: None, expire: 0 }),
    {
        Cache { data: None, expire: 0 }
    }

    /// Reads the stored text of an entry, or says what is wrong with it.
    pub fn parse(content: &str) -> (r: Result<Cache, CacheCorruption>)
        ensures
            match r {
                Ok(c) => stored_entry(content@) == Ok::<_, CacheCorruption>(
                    (c.expire, c@.data.unwrap()),
                ) && c.data is Some,
                Err(e) => stored_entry(content@) == Err::<(u64, Seq<char>), _>(e),
            },
    {
        let text = chars_of(content);
        let end = find_char(&text, '\n', 0);
        assert(text@.skip(0) == text@);
        if end >= text.len() || end + 1 >= text.len() {
            return Err(CacheCorruption::MissingLine);
        }
        let mut first = subvec(&text, 0, end);
        if first.len() > 0 && first[first.len() - 1] == '\r' {
            first = subvec(&text, 0, end - 1);
            assert(first@ == strip_cr(text@.take(end as int)));
        }
        let last = if text[text.len() - 1] == '\n' {
            text.len() - 1
        } else {
            text.len()
        };
        let value = subvec(&text, end + 1, last);
        assert(value@ == stored_value(text@.skip(end + 1)));
        match parse_u64(&first) {
            Some(expire) => Ok(Cache { data: Some(string_of(&value)), expire }),
            None => Err(CacheCorruption::BadExpiry),
        }
    }

    /// The cache for an entry whose stored text is `stored`, `None` where
    /// nothing is stored. A text that is not sound counts as nothing stored.
    pub fn new(stored: Option<&str>) -> (c: Cache)
        ensures
            c@ == cache_of(
                match stored {
                    Some(s) => Some(s@),
                    None => None,
                },
            ),
    {
        match stored {
            None => Cache::empty(),
            Some(content) => match Cache::parse(content) {
                Ok(c) => c,
                Err(_) => Cache::empty(),
            },
        }
    }

    /// The value at the instant `now`: none once the expiration instant has
    /// passed, and none where the cache holds nothing.
    pub fn get_at(&self, now: u64) -> (r: Option<String>)
        ensures
            match r {
                Some(v) => cached_at(self@, now) == Some(v@),
                None => cached_at(self@, now) is None,
            },
    {
        match &self.data {
            Some(d) => {
                if is_older_than_at(now, self.expire) {
                    None
                } else {
                    Some(d.clone())
                }
            },
            None => None,
        }
    }

    /// The value at the current time. Which time that is the clock decides;
    /// whatever it says, a value that is returned is the one held, and the
    /// cache is left as it was.
    pub fn get(&mut self) -> (r: Option<String>)
        ensures
            final(self)@ == old(self)@,
            r matches Some(v) ==> old(self)@.data == Some(v@),
            old(self)@.data is None ==> r is None,
            old(self)@.data is Some && old(self).expire == u64::MAX ==> r is Some,
    {
        self.get_at(get_timestamp())
    }

    /// Stores `value` at the instant `now`, to expire `expire_in_seconds`
    /// later.
    pub fn set_at(&mut self, value: String, expire_in_seconds: u64, now: u64)
        requires
            now + expire_in_seconds <= u64::MAX,
        ensures
            final(self)@ == (CacheView {
                data: Some(value@),
                expire: (now + expire_in_seconds) as u64,
            }),
    {
        self.data = Some(value);
        self.expire = add_seconds(now, expire_in_seconds);
    }

    /// Stores `value` at the instant `now`, to expire `expire_in_seconds`
    /// later, and says whether it did. It does unless the expiration instant
    /// would lie beyond the last timestamp there is; the cache is then left
    /// as it was.
    pub fn set_checked_at(&mut self, value: String, expire_in_seconds: u64, now: u64) -> (stored:
        bool)
        ensures
            stored == (now + expire_in_seconds <= u64::MAX),
            stored ==> final(self)@ == (CacheView {
                data: Some(value@),
                expire: (now + expire_in_seconds) as u64,
            }),
            !stored ==> final(self)@ == old(self)@,
    {
        if now > u64::MAX - expire_in_seconds {
            false
        } else {
            self.set_at(value, expire_in_seconds, now);
            true
        }
    }

    /// Stores `value` at the current time, to expire `expire_in_seconds`
    /// later, and says whether it did; `set_checked_at` says what happens at
    /// each reading of the clock. Whatever the clock says: a value that is
    /// stored expires no earlier than `expire_in_seconds`, a value that is
    /// not leaves the cache as it was, and 0 seconds are always stored.
    pub fn set(&mut self, value: String, expire_in_seconds: u64) -> (stored: bool)
        ensures
            stored ==> final(self)@.data == Some(value@) && final(self).expire
                >= expire_in_seconds,
            !stored ==> final(self)@ == old(self)@ && expire_in_seconds > 0,
    {
        self.set_checked_at(value, expire_in_seconds, get_timestamp())
    }

    /// The text to store for this cache, `None` where it holds nothing.
    pub fn stored_text(&self) -> (r: Option<String>)
        ensures
            match r {
                Some(t) => self@.data is Some && t@ == entry_text(
                    self.expire,
                    self@.data.unwrap(),
                ),
                None => self@.data is None,
            },
    {
        match &self.data {
            None => None,
            Some(d) => {
                let mut text = format_u64(self.expire);
                text.push('\n');
                let value = chars_of(d.as_str());
                append_chars(&mut text, &value);
                text.push('\n');
                Some(string_of(&text))
            },
        }
    }
}

/// What is stored is what is read back: the text written for a value and
/// its expiration instant holds that instant and that value, whatever the
/// value is.
pub proof fn lemma_stored_entry_round_trip(expire: u64, value: Seq<char>)
    ensures
        stored_entry(entry_text(expire, value)) == Ok::<_, CacheCorruption>((expire, value)),
{
    let number = decimal(expire as nat);
    let text = entry_text(expire, value);
    lemma_decimal_round_trip(expire as nat);
    assert forall|j: int| 0 <= j < number.len() implies text[j] != '\n' by {
        assert(text[j] == number[j]);
        assert(digit_value(number[j]) is Some);
    }
    assert(text[number.len() as int] == '\n');
    lemma_first_index_of(text, '\n', number.len() as int);
    assert(text.take(number.len() as int) == number);
    assert(digit_value(number.last()) is Some);
    assert(strip_cr(number) == number);
    let rest = text.skip(number.len() as int + 1);
    assert(rest == value + seq!['\n']);
    assert(rest.last() == '\n');
    assert(rest.drop_last() == value);
}

/// A value stored at `now` for `ttl` seconds is returned at every instant up
/// to its expiration instant, and at none after it.
pub proof fn lemma_cache_set_then_get(value: Seq<char>, ttl: u64, now: u64, at: u64)
    requires
        now + ttl <= u64::MAX,
    ensures
        at <= now + ttl ==> cached_at(
            CacheView { data: Some(value), expire: (now + ttl) as u64 },
            at,
        ) == Some(value),
        at > now + ttl ==> cached_at(
            CacheView { data: Some(value), expire: (now + ttl) as u64 },
            at,
        ) is None,
{
}


/// A value stored at `now` for `ttl` seconds, written as text and read by a
/// fresh cache, is returned whole at every instant up to its expiration
/// instant, and at none after it.
pub proof fn lemma_stored_text_then_get(value: Seq<char>, ttl: u64, now: u64, at: u64)
    requires
        now + ttl <= u64::MAX,
    ensures
        at <= now + ttl ==> cached_at(
            cache_of(Some(entry_text((now + ttl) as u64, value))),
            at,
        ) == Some(value),
        at > now + ttl ==> cached_at(
            cache_of(Some(entry_text((now + ttl) as u64, value))),
            at,
        ) is None,
{
    lemma_stored_entry_round_trip((now + ttl) as u64, value);
}

} // verus!
