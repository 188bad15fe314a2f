use vstd::prelude::*;
use vstd::string::StrSliceExecFns;
use vstd::string::StringExecFns;

use crate::errors::EncodingError;
use crate::hexenc::hex_digit;
use crate::hexenc::hex_of;

verus! {

/// The fixed, well-known metadata key that carries the credential on
/// every outbound call.  The remote service's authentication contract
/// names this key; this layer never changes it.
pub fn macaroon_key() -> (r: &'static str)
    ensures
        r@ == "macaroon"@,
{
    "macaroon"
}

/// Whether a character may appear in a request-metadata value: the
/// horizontal tab and everything from the space upward, the delete
/// character excluded (the transport's header-value rule, applied byte by
/// byte; every byte of a character above the ASCII range is above the
/// delete character, so such characters are allowed).
pub open spec fn is_valid_metadata_char(c: char) -> bool {
    c == '\t' || (c as u32 >= 32 && c as u32 != 127)
}

/// Whether every character of `s` may appear in a request-metadata value.
pub open spec fn is_valid_metadata_value(s: Seq<char>) -> bool {
    forall|i: int| 0 <= i < s.len() ==> is_valid_metadata_char(s[i])
}

/// The exec counterpart of `is_valid_metadata_value`.
fn check_metadata_value(s: &str) -> (r: bool)
    ensures
        r == is_valid_metadata_value(s@),
{
    let n = s.unicode_len();
    let mut i: usize = 0;
    while i < n
        invariant
            i <= n,
            n == s@.len(),
            forall|j: int| 0 <= j < i ==> is_valid_metadata_char(s@[j]),
        decreases n - i,
    {
        let c = s.get_char(i);
        let u = c as u32;
        if !(c == '\t' || (u >= 32 && u != 127)) {
            return false;
        }
        i += 1;
    }
    true
}

/// The first value stored under `key` in a metadata entry list, if any.
pub open spec fn value_of(entries: Seq<(Seq<char>, Seq<char>)>, key: Seq<char>) -> Option<
    Seq<char>,
>
    decreases entries.len(),
{
    if entries.len() == 0 {
        None
    } else if entries[0].0 == key {
        Some(entries[0].1)
    } else {
        value_of(entries.drop_first(), key)
    }
}

/// A metadata entry list with `value` stored under `key`: the first entry
/// bearing `key` is replaced, and a new entry is appended when none bears
/// it.
pub open spec fn with_value(
    entries: Seq<(Seq<char>, Seq<char>)>,
    key: Seq<char>,
    value: Seq<char>,
) -> Seq<(Seq<char>, Seq<char>)>
    decreases entries.len(),
{
    if entries.len() == 0 {
        seq![(key, value)]
    } else if entries[0].0 == key {
        seq![(key, value)] + entries.drop_first()
    } else {
        seq![entries[0]] + with_value(entries.drop_first(), key, value)
    }
}

/// When the first entry bearing `key` stands at `m`, storing under `key`
/// is exactly an update of that entry.
proof fn lemma_with_value_first_match(
    entries: Seq<(Seq<char>, Seq<char>)>,
    key: Seq<char>,
    value: Seq<char>,
    m: int,
)
    requires
        0 <= m < entries.len(),
        entries[m].0 == key,
        forall|j: int| 0 <= j < m ==> entries[j].0 != key,
    ensures
        with_value(entries, key, value) == entries.update(m, (key, value)),
    decreases m,
{
    if m == 0 {
        assert(with_value(entries, key, value) =~= entries.update(0, (key, value)));
    } else {
        let rest = entries.drop_first();
        assert(forall|j: int| 0 <= j < m - 1 ==> rest[j].0 != key);
        lemma_with_value_first_match(rest, key, value, m - 1);
        assert(seq![entries[0]] + rest.update(m - 1, (key, value)) =~= entries.update(
            m,
            (key, value),
        ));
    }
}

/// When no entry bears `key`, storing under `key` is exactly an append.
proof fn lemma_with_value_no_match(
    entries: Seq<(Seq<char>, Seq<char>)>,
    key: Seq<char>,
    value: Seq<char>,
)
    requires
        forall|j: int| 0 <= j < entries.len() ==> entries[j].0 != key,
    ensures
        with_value(entries, key, value) == entries.push((key, value)),
    decreases entries.len(),
{
    if entries.len() == 0 {
        assert(with_value(entries, key, value) =~= entries.push((key, value)));
    } else {
        let rest = entries.drop_first();
        assert(forall|j: int| 0 <= j < rest.len() ==> rest[j].0 != key);
        lemma_with_value_no_match(rest, key, value);
        assert(seq![entries[0]] + rest.push((key, value)) =~= entries.push((key, value)));
    }
}

/// After storing `value` under `key`, looking `key` up finds `value`:
/// stamping a request always leaves the credential under the fixed key,
/// whatever was there before.
pub proof fn lemma_with_value_sets_key(
    entries: Seq<(Seq<char>, Seq<char>)>,
    key: Seq<char>,
    value: Seq<char>,
)
    ensures
        value_of(with_value(entries, key, value), key) == Some(value),
    decreases entries.len(),
{
    let stamped = with_value(entries, key, value);
    if entries.len() == 0 {
        assert(stamped[0].0 == key);
    } else if entries[0].0 == key {
        assert(stamped[0].0 == key);
    } else {
        assert(stamped[0] == entries[0]);
        lemma_with_value_sets_key(entries.drop_first(), key, value);
        assert(stamped.drop_first() =~= with_value(entries.drop_first(), key, value));
    }
}

/// Storing under `key` leaves every other key's value exactly as it was:
/// stamping a request touches nothing but the fixed key.
pub proof fn lemma_with_value_keeps_other_keys(
    entries: Seq<(Seq<char>, Seq<char>)>,
    key: Seq<char>,
    value: Seq<char>,
    other: Seq<char>,
)
    requires
        other != key,
    ensures
        value_of(with_value(entries, key, value), other) == value_of(entries, other),
    decreases entries.len(),
{
    let stamped = with_value(entries, key, value);
    if entries.len() == 0 {
        assert(stamped =~= seq![(key, value)]);
        assert(stamped[0].0 != other);
        assert(value_of(stamped, other) == value_of(stamped.drop_first(), other));
        assert(stamped.drop_first() =~= Seq::<(Seq<char>, Seq<char>)>::empty());
        assert(value_of(Seq::<(Seq<char>, Seq<char>)>::empty(), other) is None);
    } else if entries[0].0 == key {
        assert(stamped[0].0 != other);
        assert(value_of(stamped, other) == value_of(stamped.drop_first(), other));
        assert(stamped.drop_first() =~= entries.drop_first());
        assert(value_of(entries, other) == value_of(entries.drop_first(), other));
    } else {
        assert(stamped[0] == entries[0]);
        lemma_with_value_keeps_other_keys(entries.drop_first(), key, value, other);
        assert(stamped.drop_first() =~= with_value(entries.drop_first(), key, value));
    }
}

/// The views of a metadata entry list, key and value both.
spec fn views_of(entries: Seq<(String, String)>) -> Seq<(Seq<char>, Seq<char>)> {
    Seq::new(entries.len(), |i: int| (entries[i].0@, entries[i].1@))
}

/// The outbound-request state that this layer reads and writes: the
/// request's metadata, a list of key-value entries.  Everything else
/// about a request (its message, the transport details) passes through
/// beside it untouched.
#[derive(Debug, PartialEq, Eq)]
pub struct RequestMetadata {
    entries: Vec<(String, String)>,
}

impl RequestMetadata {
    /// The metadata entries, each a key and its value.
    pub closed spec fn entries_spec(&self) -> Seq<(Seq<char>, Seq<char>)> {
        views_of(self.entries@)
    }

    /// The value under the fixed credential key, if any.
    pub open spec fn macaroon_spec(&self) -> Option<Seq<char>> {
        value_of(self.entries_spec(), "macaroon"@)
    }

    /// A fresh request with no metadata.
    pub fn new() -> (r: Self)
        ensures
            r.entries_spec() == Seq::<(Seq<char>, Seq<char>)>::empty(),
            r.macaroon_spec() is None,
    {
        let r = RequestMetadata { entries: Vec::new() };
        proof {
            assert(r.entries_spec() =~= Seq::<(Seq<char>, Seq<char>)>::empty());
        }
        r
    }

    /// Stores `value` under `key`, overwriting the first entry that
    /// bears `key`, or appending one when none does.
    pub fn insert(&mut self, key: String, value: String)
        ensures
            final(self).entries_spec() == with_value(old(self).entries_spec(), key@, value@),
    {
        let ghost s = old(self).entries_spec();
        let mut i: usize = 0;
        while i < self.entries.len()
            invariant
                i <= self.entries.len(),
                self.entries@ == old(self).entries@,
                s == old(self).entries_spec(),
                forall|j: int| 0 <= j < i ==> s[j].0 != key@,
            decreases self.entries.len() - i,
        {
            if self.entries[i].0 == key {
                proof {
                    assert(s[i as int].0 == key@);
                }
                self.entries[i] = (key, value);
                proof {
                    lemma_with_value_first_match(s, key@, value@, i as int);
                    assert(self.entries_spec() =~= s.update(i as int, (key@, value@)));
                }
                return ;
            }
            i += 1;
        }
        self.entries.push((key, value));
        proof {
            lemma_with_value_no_match(s, key@, value@);
            assert(self.entries_spec() =~= s.push((key@, value@)));
        }
    }

    /// The first value stored under `key`, if any.
    pub fn get(&self, key: &String) -> (r: Option<&String>)
        ensures
            match r {
                Some(v) => value_of(self.entries_spec(), key@) == Some(v@),
                None => value_of(self.entries_spec(), key@) is None,
            },
    {
        let ghost s = self.entries_spec();
        proof {
            assert(s.subrange(0, s.len() as int) =~= s);
        }
        let mut i: usize = 0;
        while i < self.entries.len()
            invariant
                i <= self.entries.len(),
                s == self.entries_spec(),
                value_of(s, key@) == value_of(s.subrange(i as int, s.len() as int), key@),
            decreases self.entries.len() - i,
        {
            let ghost tail = s.subrange(i as int, s.len() as int);
            if self.entries[i].0 == *key {
                proof {
                    assert(tail[0] == s[i as int]);
                    assert(value_of(tail, key@) == Some(s[i as int].1));
                }
                return Some(&self.entries[i].1);
            }
            proof {
                assert(tail[0] == s[i as int]);
                assert(tail.drop_first() =~= s.subrange((i + 1) as int, s.len() as int));
            }
            i += 1;
        }
        proof {
            assert(s.subrange(s.len() as int, s.len() as int) =~= Seq::<
                (Seq<char>, Seq<char>),
            >::empty());
        }
        None
    }

    /// The value under the fixed credential key, if any.
    pub fn macaroon_value(&self) -> (r: Option<&String>)
        ensures
            match r {
                Some(m) => self.macaroon_spec() == Some(m@),
                None => self.macaroon_spec() is None,
            },
    {
        let key = String::from_str(macaroon_key());
        self.get(&key)
    }
}

/// Supplies requests with the macaroon credential: every outbound call
/// passes through `call`, which stamps the stored credential onto the
/// request.  The credential is set at construction and never mutated, so
/// one interceptor may serve any number of in-flight calls at once.
#[derive(Debug, Clone)]
pub struct MacaroonInterceptor {
    macaroon: String,
}

impl MacaroonInterceptor {
    /// The stored credential.
    pub closed spec fn macaroon_spec(&self) -> Seq<char> {
        self.macaroon@
    }

    /// Stores the credential to attach to every call.
    pub fn new(macaroon: String) -> (r: Self)
        ensures
            r.macaroon_spec() == macaroon@,
    {
        MacaroonInterceptor { macaroon }
    }

    /// The stored credential's text.
    pub fn macaroon(&self) -> (r: &String)
        ensures
            r@ == self.macaroon_spec(),
    {
        &self.macaroon
    }

    /// Stamps the credential onto an outbound request: the fixed key is
    /// set to the stored credential, overwriting any value already there,
    /// and every other metadata entry keeps its value.  The one failure
    /// is a credential holding a character that no metadata value may
    /// carry; it is reported, never panicked on, though a hex-encoded
    /// credential can never hit it.
    pub fn call(&self, request: RequestMetadata) -> (r: Result<RequestMetadata, EncodingError>)
        ensures
            is_valid_metadata_value(self.macaroon_spec()) ==> (r matches Ok(q) && q.entries_spec()
                == with_value(request.entries_spec(), "macaroon"@, self.macaroon_spec())
                && q.macaroon_spec() == Some(self.macaroon_spec())),
            !is_valid_metadata_value(self.macaroon_spec()) ==> r == Err::<
                RequestMetadata,
                EncodingError,
            >(EncodingError),
    {
        if !check_metadata_value(self.macaroon.as_str()) {
            return Err(EncodingError);
        }
        let mut request = request;
        let ghost before = request.entries_spec();
        let key = String::from_str(macaroon_key());
        request.insert(key, self.macaroon.clone());
        proof {
            lemma_with_value_sets_key(before, "macaroon"@, self.macaroon@);
        }
        Ok(request)
    }
}

/// A hex-encoded credential is always a legal metadata value: every
/// digit the encoding produces sits in the visible ASCII range, so
/// stamping a loaded credential onto a request cannot fail.
pub proof fn lemma_hex_metadata_safe(bytes: Seq<u8>)
    ensures
        is_valid_metadata_value(hex_of(bytes)),
{
    assert forall|i: int| 0 <= i < hex_of(bytes).len() implies is_valid_metadata_char(
        hex_of(bytes)[i],
    ) by {
        let n = if i % 2 == 0 {
            bytes[i / 2] / 16
        } else {
            bytes[i / 2] % 16
        };
        assert(n < 16);
        assert(hex_of(bytes)[i] == hex_digit(n));
    }
}

} // verus!
