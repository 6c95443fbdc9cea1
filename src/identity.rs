//! The response to a get-identity command: an IEEE 1284 identity string of
//! `KEY:VALUE;` records.
//!
//! Wire form: a big-endian `u16` total length, which counts its own two bytes,
//! then that many bytes less two of UTF-8 text. A record without `:` is
//! dropped; where a key repeats, its last value stands.
use crate::serdes::{
    lemma_u16_be_round_trip, read_u16_be, u16_at, u16_be_bytes, write_bytes, write_u16_be,
    FormatError, ParseError,
};
use core::ops::Range;
use vstd::prelude::*;
use vstd::string::StringSliceAdditionalSpecFns;
use vstd::utf8::*;

verus! {

broadcast use vstd::utf8::decode_utf8_encode_utf8, vstd::utf8::encode_utf8_decode_utf8;

/// Where `std::str::from_utf8` stops on invalid input: the length of the
/// longest valid prefix and the length of the invalid sequence after it
/// (`None` where the input ends inside a sequence).
pub uninterp spec fn utf8_error_of(bytes: Seq<u8>) -> (usize, Option<usize>);

/// Relies on `std::str::from_utf8`: it succeeds exactly on valid UTF-8 and
/// then views the same bytes; otherwise its error gives the longest valid
/// prefix (`valid_up_to`, documented as the largest index up to which the
/// input is valid) and the length of the invalid sequence (`error_len`, 1 to
/// 3 bytes, or `None` at an unexpected end).
#[verifier::external_body]
fn utf8_str(bytes: &[u8]) -> (r: Result<&str, (usize, Option<usize>)>)
    ensures
        match r {
            Ok(s) => valid_utf8(bytes@) && s.spec_bytes() == bytes@,
            Err(e) => {
                &&& !valid_utf8(bytes@)
                &&& e == utf8_error_of(bytes@)
                &&& e.0 < bytes@.len()
                &&& valid_utf8(bytes@.subrange(0, e.0 as int))
                &&& (e.1 matches Some(n) ==> 1 <= n <= 3 && e.0 + n <= bytes@.len())
            },
        },
{
    match core::str::from_utf8(bytes) {
        Ok(s) => Ok(s),
        Err(e) => Err((e.valid_up_to(), e.error_len())),
    }
}

/// Valid UTF-8 cut in front of an ASCII byte leaves two valid halves.
pub proof fn lemma_valid_utf8_split(b: Seq<u8>, p: int)
    requires
        valid_utf8(b),
        0 <= p <= b.len(),
        p == b.len() || b[p] < 0x80,
    ensures
        valid_utf8(b.subrange(0, p)),
        valid_utf8(b.subrange(p, b.len() as int)),
    decreases b.len(),
{
    if p == 0 {
        assert(b.subrange(0, 0).len() == 0);
        assert(b.subrange(0, b.len() as int) =~= b);
    } else {
        let k = length_of_first_scalar(b);
        let rest = pop_first_scalar(b);
        assert(1 <= k <= 4);
        assert(k <= p) by {
            if k > p && p < b.len() {
                assert(is_continuation_byte(b[p]));
            }
        }
        assert(rest =~= b.subrange(k, b.len() as int));
        lemma_valid_utf8_split(rest, p - k);
        assert(rest.subrange(p - k, rest.len() as int) =~= b.subrange(p, b.len() as int));
        let front = b.subrange(0, p);
        assert(front[0] == b[0]);
        assert(k >= 2 ==> front[1] == b[1]);
        assert(k >= 3 ==> front[2] == b[2]);
        assert(k >= 4 ==> front[3] == b[3]);
        assert(valid_first_scalar(front));
        assert(length_of_first_scalar(front) == k);
        assert(pop_first_scalar(front) =~= rest.subrange(0, p - k));
    }
}


/// Valid UTF-8 bounded by ASCII bytes (or the ends) on both sides of a
/// range stays valid on that range.
proof fn lemma_valid_utf8_range(t: Seq<u8>, from: int, end: int)
    requires
        valid_utf8(t),
        0 <= from <= end <= t.len(),
        from == 0 || t[from - 1] < 0x80,
        end == t.len() || t[end] < 0x80,
    ensures
        valid_utf8(t.subrange(from, end)),
{
    lemma_valid_utf8_split(t, end);
    let head = t.subrange(0, end);
    if from == 0 {
    } else {
        lemma_valid_utf8_split(head, from - 1);
        let x = head.subrange(from - 1, end);
        assert(x[0] == t[from - 1]);
        assert(length_of_first_scalar(x) == 1);
        assert(pop_first_scalar(x) =~= t.subrange(from, end));
    }
}

pub const SEMICOLON: u8 = 0x3b;

pub const COLON: u8 = 0x3a;

/// The index of the first `x` in `t` at or after `from`, or `t.len()`.
pub open spec fn find_byte(t: Seq<u8>, x: u8, from: int) -> int
    decreases t.len() - from,
{
    if from >= t.len() {
        t.len() as int
    } else if t[from] == x {
        from
    } else {
        find_byte(t, x, from + 1)
    }
}

proof fn lemma_find_byte(t: Seq<u8>, x: u8, from: int)
    requires
        0 <= from <= t.len(),
    ensures
        from <= find_byte(t, x, from) <= t.len(),
        find_byte(t, x, from) < t.len() ==> t[find_byte(t, x, from)] == x,
        forall|j: int| from <= j < find_byte(t, x, from) ==> t[j] != x,
    decreases t.len() - from,
{
    if from < t.len() && t[from] != x {
        lemma_find_byte(t, x, from + 1);
    }
}

fn find_byte_exec(t: &[u8], x: u8, from: usize) -> (r: usize)
    requires
        from <= t@.len(),
    ensures
        r == find_byte(t@, x, from as int),
{
    let mut i = from;
    while i < t.len()
        invariant
            from <= i <= t@.len(),
            find_byte(t@, x, from as int) == find_byte(t@, x, i as int),
        decreases t@.len() - i,
    {
        if t[i] == x {
            return i;
        }
        i = i + 1;
    }
    i
}

/// The record of one `;`-separated segment: key and value split at the
/// first `:`, or nothing where there is no `:`.
pub open spec fn record_of(seg: Seq<u8>) -> Seq<(Seq<u8>, Seq<u8>)> {
    let c = find_byte(seg, COLON, 0);
    if c < seg.len() {
        seq![(seg.subrange(0, c), seg.subrange(c + 1, seg.len() as int))]
    } else {
        Seq::empty()
    }
}

/// The records of the text from `from` on, in order.
pub open spec fn records_from(t: Seq<u8>, from: int) -> Seq<(Seq<u8>, Seq<u8>)>
    decreases t.len() - from,
{
    if from < 0 || from > t.len() {
        Seq::empty()
    } else {
        let end = find_byte(t, SEMICOLON, from);
        let rec = record_of(t.subrange(from, end));
        if end >= t.len() || end < from {
            rec
        } else {
            rec + records_from(t, end + 1)
        }
    }
}

/// The index of the entry with key `k`, or `entries.len()`.
pub open spec fn find_key(entries: Seq<(Seq<u8>, Seq<u8>)>, k: Seq<u8>) -> int
    decreases entries.len(),
{
    if entries.len() == 0 {
        0
    } else if find_key(entries.drop_last(), k) < entries.len() - 1 {
        find_key(entries.drop_last(), k)
    } else if entries.last().0 == k {
        entries.len() - 1
    } else {
        entries.len() as int
    }
}

/// Adds a record: a known key takes the new value in place, a new key goes
/// at the end.
pub open spec fn insert_entry(entries: Seq<(Seq<u8>, Seq<u8>)>, rec: (Seq<u8>, Seq<u8>)) -> Seq<
    (Seq<u8>, Seq<u8>),
> {
    let i = find_key(entries, rec.0);
    if i < entries.len() {
        entries.update(i, rec)
    } else {
        entries.push(rec)
    }
}

/// The entries that a sequence of records makes, keys in order of first
/// appearance, each with its last value.
pub open spec fn collect(recs: Seq<(Seq<u8>, Seq<u8>)>) -> Seq<(Seq<u8>, Seq<u8>)>
    decreases recs.len(),
{
    if recs.len() == 0 {
        Seq::empty()
    } else {
        insert_entry(collect(recs.drop_last()), recs.last())
    }
}

/// What the identity text `t` means.
pub open spec fn identity_entries(t: Seq<u8>) -> Seq<(Seq<u8>, Seq<u8>)> {
    collect(records_from(t, 0))
}

proof fn lemma_find_key(entries: Seq<(Seq<u8>, Seq<u8>)>, k: Seq<u8>)
    ensures
        0 <= find_key(entries, k) <= entries.len(),
        find_key(entries, k) < entries.len() ==> entries[find_key(entries, k)].0 == k,
        forall|j: int| 0 <= j < find_key(entries, k) ==> entries[j].0 != k,
    decreases entries.len(),
{
    if entries.len() > 0 {
        let front = entries.drop_last();
        lemma_find_key(front, k);
        assert forall|j: int| 0 <= j < find_key(entries, k) implies entries[j].0 != k by {
            if j < front.len() {
                assert(entries[j] == front[j]);
            }
        }
    }
}

#[derive(Debug, Clone)]
pub struct Entry {
    key: Vec<u8>,
    value: Vec<u8>,
}

impl Entry {
    pub closed spec fn pair(&self) -> (Seq<u8>, Seq<u8>) {
        (self.key@, self.value@)
    }
}

pub open spec fn entries_view(v: Seq<Entry>) -> Seq<(Seq<u8>, Seq<u8>)> {
    Seq::new(v.len(), |i: int| v[i].pair())
}

#[derive(Debug)]
pub struct Response {
    entries: Vec<Entry>,
}

pub open spec fn entries_utf8(e: Seq<(Seq<u8>, Seq<u8>)>) -> bool {
    forall|i: int| 0 <= i < e.len() ==> valid_utf8((#[trigger] e[i]).0) && valid_utf8(e[i].1)
}

fn bytes_eq(a: &[u8], b: &[u8]) -> (r: bool)
    ensures
        r == (a@ == b@),
{
    if a.len() != b.len() {
        return false;
    }
    let mut i: usize = 0;
    while i < a.len()
        invariant
            i <= a@.len() == b@.len(),
            forall|j: int| 0 <= j < i ==> a@[j] == b@[j],
        decreases a@.len() - i,
    {
        if a[i] != b[i] {
            return false;
        }
        i = i + 1;
    }
    assert(a@ =~= b@);
    true
}

impl Response {
    pub closed spec fn spec_entries(&self) -> Seq<(Seq<u8>, Seq<u8>)> {
        entries_view(self.entries@)
    }

    /// Every key and value is UTF-8.
    #[verifier::type_invariant]
    pub closed spec fn wf(&self) -> bool {
        entries_utf8(self.spec_entries())
    }

    fn position(&self, key: &[u8]) -> (r: usize)
        ensures
            r == find_key(self.spec_entries(), key@),
    {
        position_in(&self.entries, key)
    }

    /// The value of `key`, if the identity has it.
    pub fn get(&self, key: &str) -> (r: Option<&str>)
        ensures
            find_key(self.spec_entries(), key.spec_bytes()) < self.spec_entries().len() ==> (r matches Some(
                v,
            ) && v.spec_bytes() == self.spec_entries()[find_key(
                self.spec_entries(),
                key.spec_bytes(),
            )].1),
            find_key(self.spec_entries(), key.spec_bytes()) >= self.spec_entries().len()
                ==> r is None,
    {
        proof {
            use_type_invariant(self);
        }
        let i = self.position(key.as_bytes());
        if i < self.entries.len() {
            assert(self.spec_entries()[i as int] == self.entries@[i as int].pair());
            match utf8_str(self.entries[i].value.as_slice()) {
                Ok(v) => Some(v),
                Err(_) => None,
            }
        } else {
            None
        }
    }

    pub fn contains_key(&self, key: &str) -> (r: bool)
        ensures
            r == (find_key(self.spec_entries(), key.spec_bytes()) < self.spec_entries().len()),
    {
        self.position(key.as_bytes()) < self.entries.len()
    }

    /// The entries, keys in order of first appearance.
    pub fn iter(&self) -> (r: Vec<(&str, &str)>)
        ensures
            r@.len() == self.spec_entries().len(),
            forall|i: int|
                0 <= i < r@.len() ==> (#[trigger] r@[i]).0.spec_bytes()
                    == self.spec_entries()[i].0 && r@[i].1.spec_bytes()
                    == self.spec_entries()[i].1,
    {
        proof {
            use_type_invariant(self);
        }
        let mut out: Vec<(&str, &str)> = Vec::new();
        let mut i: usize = 0;
        while i < self.entries.len()
            invariant
                i <= self.entries@.len(),
                entries_utf8(self.spec_entries()),
                out@.len() == i,
                forall|j: int|
                    0 <= j < i ==> (#[trigger] out@[j]).0.spec_bytes()
                        == self.spec_entries()[j].0 && out@[j].1.spec_bytes()
                        == self.spec_entries()[j].1,
            decreases self.entries@.len() - i,
        {
            assert(self.spec_entries()[i as int] == self.entries@[i as int].pair());
            let k = match utf8_str(self.entries[i].key.as_slice()) {
                Ok(k) => k,
                Err(_) => {
                    assert(false);
                    return out;
                },
            };
            let v = match utf8_str(self.entries[i].value.as_slice()) {
                Ok(v) => v,
                Err(_) => {
                    assert(false);
                    return out;
                },
            };
            out.push((k, v));
            i = i + 1;
        }
        out
    }
}

fn position_in(entries: &Vec<Entry>, key: &[u8]) -> (r: usize)
ensures
    r == find_key(entries_view(entries@), key@),
{
    let ghost e = entries_view(entries@);
    proof {
        lemma_find_key(e, key@);
    }
    let mut i: usize = 0;
    while i < entries.len()
        invariant
            i <= entries@.len(),
            e == entries_view(entries@),
            0 <= find_key(e, key@) <= e.len(),
            find_key(e, key@) < e.len() ==> e[find_key(e, key@)].0 == key@,
            forall|j: int| 0 <= j < find_key(e, key@) ==> e[j].0 != key@,
            forall|j: int| 0 <= j < i ==> e[j].0 != key@,
        decreases entries@.len() - i,
    {
        assert(e[i as int] == entries@[i as int].pair());
        if bytes_eq(entries[i].key.as_slice(), key) {
            return i;
        }
        i = i + 1;
    }
    i
}


fn insert_into(entries: &mut Vec<Entry>, key: Vec<u8>, value: Vec<u8>)
    ensures
        entries_view(final(entries)@) == insert_entry(entries_view(old(entries)@), (key@, value@)),
{
    let ghost k = key@;
    let ghost v = value@;
    let i = position_in(entries, key.as_slice());
    if i < entries.len() {
        entries.set(i, Entry { key, value });
        assert(entries_view(entries@) =~= entries_view(old(entries)@).update(i as int, (k, v)));
    } else {
        entries.push(Entry { key, value });
        assert(entries_view(entries@) =~= entries_view(old(entries)@).push((k, v)));
    }
}

/// The error for identity text that is not UTF-8, given where
/// `std::str::from_utf8` stopped: an invalid sequence of several bytes is a
/// slice, a single invalid byte is that byte, and text that ends inside a
/// sequence is a record one byte short. Offsets count the length field.
pub open spec fn spec_utf8_failure(text: Seq<u8>, valid_up_to: usize, error_len: Option<usize>) -> ParseError {
    match error_len {
        Some(n) => if n > 1 {
            ParseError::InvalidFormat(
                FormatError::InvalidSlice {
                    span: Range { start: (valid_up_to + 2) as usize, end: (valid_up_to + 2 + n) as usize },
                    message: "invalid UTF-8 bytes",
                },
            )
        } else {
            ParseError::InvalidFormat(
                FormatError::InvalidByte {
                    byte: text[valid_up_to as int],
                    offset: (valid_up_to + 2) as usize,
                    message: "invalid UTF-8 byte",
                },
            )
        },
        None => ParseError::UnexpectedEnd {
            expected: (text.len() + 3) as usize,
            actual: (text.len() + 2) as usize,
        },
    }
}

pub fn utf8_failure(text: &[u8], valid_up_to: usize, error_len: Option<usize>) -> (r: ParseError)
    requires
        valid_up_to < text@.len(),
        text@.len() + 3 <= usize::MAX,
        error_len matches Some(n) ==> valid_up_to + n <= text@.len(),
    ensures
        r == spec_utf8_failure(text@, valid_up_to, error_len),
{
    match error_len {
        Some(n) => if n > 1 {
            ParseError::InvalidFormat(
                FormatError::InvalidSlice {
                    span: Range { start: valid_up_to + 2, end: valid_up_to + 2 + n },
                    message: "invalid UTF-8 bytes",
                },
            )
        } else {
            ParseError::InvalidFormat(
                FormatError::InvalidByte {
                    byte: text[valid_up_to],
                    offset: valid_up_to + 2,
                    message: "invalid UTF-8 byte",
                },
            )
        },
        None => ParseError::UnexpectedEnd { expected: text.len() + 3, actual: text.len() + 2 },
    }
}

/// What a buffer decodes to as an identity: the length field must be at
/// least 2 and the text it declares must be present and be UTF-8.
pub open spec fn spec_parse_identity(buf: Seq<u8>) -> Result<(Seq<(Seq<u8>, Seq<u8>)>, usize), ParseError> {
    if buf.len() < 2 {
        Err(ParseError::UnexpectedEnd { expected: 2, actual: buf.len() as usize })
    } else {
        let declared = u16_at(buf, 0);
        if declared < 2 {
            Err(
                ParseError::InvalidFormat(
                    FormatError::InvalidSlice {
                        span: Range { start: 0, end: 2 },
                        message: "invalid length of identity, should always be >=2",
                    },
                ),
            )
        } else if buf.len() < declared {
            Err(
                ParseError::UnexpectedEnd {
                    expected: declared as usize,
                    actual: (buf.len() - 2) as usize,
                },
            )
        } else {
            let text = buf.subrange(2, declared as int);
            if !valid_utf8(text) {
                Err(spec_utf8_failure(text, utf8_error_of(text).0, utf8_error_of(text).1))
            } else {
                Ok((identity_entries(text), declared as usize))
            }
        }
    }
}

impl Response {
    /// Parses an identity; on success every key and value is UTF-8 and the
    /// whole declared length is consumed.
    pub fn deserialize(buffer: &[u8]) -> (r: Result<(Response, usize), ParseError>)
        ensures
            match spec_parse_identity(buffer@) {
                Ok((e, n)) => r matches Ok((resp, m)) && resp.spec_entries() == e && m == n,
                Err(err) => r matches Err(err2) && err2 == err,
            },
    {
        if buffer.len() < 2 {
            return Err(ParseError::UnexpectedEnd { expected: 2, actual: buffer.len() });
        }
        let declared = read_u16_be(buffer, 0);
        if declared < 2 {
            return Err(
                ParseError::InvalidFormat(
                    FormatError::InvalidSlice {
                        span: Range { start: 0, end: 2 },
                        message: "invalid length of identity, should always be >=2",
                    },
                ),
            );
        }
        let declared = declared as usize;
        if buffer.len() < declared {
            return Err(ParseError::UnexpectedEnd { expected: declared, actual: buffer.len() - 2 });
        }
        let text = &buffer[2..declared];
        assert(text@ =~= buffer@.subrange(2, declared as int));
        match utf8_str(text) {
            Err((valid_up_to, error_len)) => {
                return Err(utf8_failure(text, valid_up_to, error_len));
            },
            Ok(_) => {},
        }
        let ghost t = text@;
        let mut entries: Vec<Entry> = Vec::new();
        let ghost mut done: Seq<(Seq<u8>, Seq<u8>)> = Seq::empty();
        let mut from: usize = 0;
        assert(done + records_from(t, 0) =~= records_from(t, 0));
        loop
            invariant_except_break
                from <= t.len(),
                from == 0 || t[from - 1] == SEMICOLON,
                done + records_from(t, from as int) == records_from(t, 0),
            invariant
                t == text@,
                valid_utf8(t),
                entries_view(entries@) == collect(done),
                entries_utf8(entries_view(entries@)),
            ensures
                done == records_from(t, 0),
            decreases t.len() - from,
        {
            let end = find_byte_exec(text, SEMICOLON, from);
            proof {
                lemma_find_byte(t, SEMICOLON, from as int);
                lemma_valid_utf8_range(t, from as int, end as int);
            }
            let seg = &text[from..end];
            let ghost sg = t.subrange(from as int, end as int);
            assert(seg@ =~= sg);
            let c = find_byte_exec(seg, COLON, 0);
            proof {
                lemma_find_byte(sg, COLON, 0);
            }
            let ghost recs = record_of(sg);
            let ghost done_before = done;
            if c < seg.len() {
                proof {
                    lemma_valid_utf8_split(sg, c as int);
                    lemma_valid_utf8_range(sg, c + 1, sg.len() as int);
                    assert(sg.subrange(0, c as int).len() == c);
                }
                let key = crate::serdes::copy_range(seg, 0, c);
                let value = crate::serdes::copy_range(seg, c + 1, seg.len());
                let ghost before = entries_view(entries@);
                insert_into(&mut entries, key, value);
                proof {
                    let rec = (sg.subrange(0, c as int), sg.subrange(c + 1, sg.len() as int));
                    assert(recs =~= seq![rec]);
                    assert((done + recs).drop_last() =~= done);
                    assert((done + recs).last() == rec);
                    lemma_find_key(before, rec.0);
                    let after = entries_view(entries@);
                    assert forall|i: int| 0 <= i < after.len() implies valid_utf8(
                        (#[trigger] after[i]).0,
                    ) && valid_utf8(after[i].1) by {
                        if i < before.len() && i != find_key(before, rec.0) {
                            assert(after[i] == before[i]);
                        }
                    }
                    done = done + recs;
                }
            } else {
                proof {
                    assert(recs =~= Seq::<(Seq<u8>, Seq<u8>)>::empty());
                    assert(done + recs =~= done);
                    done = done + recs;
                }
            }
            if end >= text.len() {
                proof {
                    assert(records_from(t, from as int) == recs);
                    assert(done =~= records_from(t, 0));
                }
                break;
            }
            proof {
                assert(records_from(t, from as int) == recs + records_from(t, end + 1));
                assert(done + records_from(t, end + 1) =~= done_before + records_from(
                    t,
                    from as int,
                ));
            }
            from = end + 1;
        }
        let response = Response { entries };
        Ok((response, declared))
    }
}


/// The text of one entry: `KEY:VALUE;`.
pub open spec fn record_text(r: (Seq<u8>, Seq<u8>)) -> Seq<u8> {
    r.0 + seq![COLON] + r.1 + seq![SEMICOLON]
}

/// The text of the entries, in order.
pub open spec fn entries_text(e: Seq<(Seq<u8>, Seq<u8>)>) -> Seq<u8>
    decreases e.len(),
{
    if e.len() == 0 {
        Seq::empty()
    } else {
        entries_text(e.drop_last()) + record_text(e.last())
    }
}

/// The wire form of an identity: the total length, its own two bytes
/// included, then the text.
pub open spec fn identity_bytes(e: Seq<(Seq<u8>, Seq<u8>)>) -> Seq<u8> {
    u16_be_bytes((2 + entries_text(e).len()) as u16) + entries_text(e)
}

/// The identity text does not fit the 16-bit length field.
#[derive(Debug)]
pub struct IdentityTooLong;

proof fn lemma_entries_text_take(e: Seq<(Seq<u8>, Seq<u8>)>, i: int)
    requires
        0 <= i < e.len(),
    ensures
        entries_text(e.take(i + 1)) == entries_text(e.take(i)) + record_text(e[i]),
{
    assert(e.take(i + 1).drop_last() =~= e.take(i));
}

impl Response {
    /// Appends the wire form; where the text would not fit the length field
    /// nothing is written.
    pub fn serialize(&self, writer: &mut Vec<u8>) -> (r: Result<(), IdentityTooLong>)
        ensures
            r is Ok <==> 2 + entries_text(self.spec_entries()).len() <= 0xffff,
            r is Ok ==> final(writer)@ == old(writer)@ + identity_bytes(self.spec_entries()),
            r is Err ==> final(writer)@ == old(writer)@,
    {
        let ghost e = self.spec_entries();
        let mut total: usize = 2;
        let mut i: usize = 0;
        while i < self.entries.len()
            invariant
                i <= self.entries@.len(),
                e == self.spec_entries(),
                total == 2 + entries_text(e.take(i as int)).len(),
                total <= 0xffff,
            decreases self.entries@.len() - i,
        {
            proof {
                lemma_entries_text_take(e, i as int);
                lemma_entries_text_grows(e, i + 1, e.len() as int);
            }
            assert(e[i as int] == self.entries@[i as int].pair());
            let key_len = self.entries[i].key.len();
            let value_len = self.entries[i].value.len();
            let room = 0xffff - total;
            if key_len > room || value_len > room - key_len || room - key_len - value_len < 2 {
                proof {
                    assert(e.take(e.len() as int) =~= e);
                }
                return Err(IdentityTooLong);
            }
            total = total + key_len + value_len + 2;
            i = i + 1;
        }
        assert(e.take(e.len() as int) =~= e);
        write_u16_be(writer, total as u16);
        let ghost start = writer@;
        let mut j: usize = 0;
        while j < self.entries.len()
            invariant
                j <= self.entries@.len(),
                e == self.spec_entries(),
                writer@ == start + entries_text(e.take(j as int)),
            decreases self.entries@.len() - j,
        {
            proof {
                lemma_entries_text_take(e, j as int);
            }
            assert(e[j as int] == self.entries@[j as int].pair());
            write_bytes(writer, self.entries[j].key.as_slice());
            writer.push(COLON);
            write_bytes(writer, self.entries[j].value.as_slice());
            writer.push(SEMICOLON);
            assert(writer@ =~= start + entries_text(e.take(j + 1)));
            j = j + 1;
        }
        assert(writer@ =~= old(writer)@ + identity_bytes(e));
        Ok(())
    }
}

proof fn lemma_entries_text_grows(e: Seq<(Seq<u8>, Seq<u8>)>, i: int, j: int)
    requires
        0 <= i <= j <= e.len(),
    ensures
        entries_text(e.take(i)).len() <= entries_text(e.take(j)).len(),
    decreases j - i,
{
    if i < j {
        lemma_entries_text_grows(e, i, j - 1);
        lemma_entries_text_take(e, j - 1);
    }
}

/// The entries that identity text can carry back unchanged: keys free of
/// `:` and `;`, values free of `;`, both UTF-8, and no key twice.
pub open spec fn entries_encodable(e: Seq<(Seq<u8>, Seq<u8>)>) -> bool {
    &&& entries_utf8(e)
    &&& forall|i: int|
        0 <= i < e.len() ==> !(#[trigger] e[i]).0.contains(COLON) && !e[i].0.contains(SEMICOLON)
            && !e[i].1.contains(SEMICOLON)
    &&& forall|i: int, j: int| 0 <= i < j < e.len() ==> (#[trigger] e[i]).0 != (#[trigger] e[j]).0
}

proof fn lemma_entries_text_front(e: Seq<(Seq<u8>, Seq<u8>)>)
    requires
        e.len() > 0,
    ensures
        entries_text(e) == record_text(e[0]) + entries_text(e.subrange(1, e.len() as int)),
    decreases e.len(),
{
    if e.len() == 1 {
        assert(e.drop_last() =~= Seq::<(Seq<u8>, Seq<u8>)>::empty());
        assert(e.subrange(1, 1) =~= Seq::<(Seq<u8>, Seq<u8>)>::empty());
        assert(entries_text(e.drop_last()) =~= Seq::<u8>::empty());
        assert(entries_text(e.subrange(1, 1)) =~= Seq::<u8>::empty());
        assert(e.last() == e[0]);
        assert(entries_text(e) =~= record_text(e[0]));
    } else {
        lemma_entries_text_front(e.drop_last());
        assert(e.drop_last().subrange(1, e.len() - 1) =~= e.subrange(1, e.len() as int).drop_last());
        assert(e.subrange(1, e.len() as int).last() == e.last());
        assert(entries_text(e) =~= record_text(e[0]) + entries_text(e.subrange(1, e.len() as int)));
    }
}

proof fn lemma_find_byte_at(t: Seq<u8>, x: u8, from: int, at: int)
    requires
        0 <= from <= at < t.len(),
        t[at] == x,
        forall|j: int| from <= j < at ==> t[j] != x,
    ensures
        find_byte(t, x, from) == at,
    decreases at - from,
{
    if from < at {
        lemma_find_byte_at(t, x, from + 1, at);
    }
}

proof fn lemma_records_of_text(t: Seq<u8>, from: int, e: Seq<(Seq<u8>, Seq<u8>)>)
    requires
        0 <= from <= t.len(),
        t.subrange(from, t.len() as int) == entries_text(e),
        entries_encodable(e),
    ensures
        records_from(t, from) == e,
    decreases e.len(),
{
    if e.len() == 0 {
        assert(t.subrange(from, t.len() as int).len() == 0);
        assert(t.subrange(from, from).len() == 0);
        assert(find_byte(Seq::<u8>::empty(), COLON, 0) == 0);
        assert(t.subrange(from, from) =~= Seq::<u8>::empty());
    } else {
        let k = e[0].0;
        let v = e[0].1;
        let rest = e.subrange(1, e.len() as int);
        lemma_entries_text_front(e);
        let end: int = from + k.len() + 1 + v.len();
        let tail = t.subrange(from, t.len() as int);
        assert(tail == record_text(e[0]) + entries_text(rest));
        assert forall|j: int| from <= j < end implies t[j] != SEMICOLON by {
            assert(t[j] == tail[j - from]);
            if j - from < k.len() {
                assert(tail[j - from] == k[j - from]);
                assert(k.contains(k[j - from]));
            } else if j - from == k.len() {
            } else {
                assert(tail[j - from] == v[j - from - k.len() - 1]);
                assert(v.contains(v[j - from - k.len() - 1]));
            }
        }
        assert(t[end] == tail[end - from]);
        lemma_find_byte_at(t, SEMICOLON, from, end);
        let seg = t.subrange(from, end);
        assert(seg =~= k + seq![COLON] + v);
        assert forall|j: int| 0 <= j < k.len() implies seg[j] != COLON by {
            assert(seg[j] == k[j]);
            assert(k.contains(k[j]));
        }
        lemma_find_byte_at(seg, COLON, 0, k.len() as int);
        assert(seg.subrange(0, k.len() as int) =~= k);
        assert(seg.subrange(k.len() as int + 1, seg.len() as int) =~= v);
        assert(record_of(seg) =~= seq![(k, v)]);
        let rec_len = record_text(e[0]).len() as int;
        assert(rec_len == end + 1 - from);
        assert(tail.subrange(rec_len, tail.len() as int) =~= entries_text(rest));
        assert(t.subrange(end + 1, t.len() as int) =~= tail.subrange(rec_len, tail.len() as int));
        assert(entries_encodable(rest)) by {
            assert forall|i: int| 0 <= i < rest.len() implies valid_utf8((#[trigger] rest[i]).0)
                && valid_utf8(rest[i].1) by {
                assert(rest[i] == e[i + 1]);
            }
            assert forall|i: int| 0 <= i < rest.len() implies !(#[trigger] rest[i]).0.contains(
                COLON,
            ) && !rest[i].0.contains(SEMICOLON) && !rest[i].1.contains(SEMICOLON) by {
                assert(rest[i] == e[i + 1]);
            }
            assert forall|i: int, j: int| 0 <= i < j < rest.len() implies (#[trigger] rest[i]).0
                != (#[trigger] rest[j]).0 by {
                assert(rest[i] == e[i + 1]);
                assert(rest[j] == e[j + 1]);
            }
        }
        lemma_records_of_text(t, end + 1, rest);
        assert(records_from(t, from) == seq![(k, v)] + rest);
        assert(seq![(k, v)] + rest =~= e);
    }
}

proof fn lemma_collect_unique(e: Seq<(Seq<u8>, Seq<u8>)>)
    requires
        forall|i: int, j: int| 0 <= i < j < e.len() ==> (#[trigger] e[i]).0 != (#[trigger] e[j]).0,
    ensures
        collect(e) == e,
    decreases e.len(),
{
    if e.len() > 0 {
        let front = e.drop_last();
        assert forall|i: int, j: int| 0 <= i < j < front.len() implies (#[trigger] front[i]).0
            != (#[trigger] front[j]).0 by {
            assert(front[i] == e[i] && front[j] == e[j]);
        }
        lemma_collect_unique(front);
        lemma_find_key(front, e.last().0);
        if find_key(front, e.last().0) < front.len() {
            let i = find_key(front, e.last().0);
            assert(front[i] == e[i]);
        }
        assert(front.push(e.last()) =~= e);
    }
}

proof fn lemma_ascii_valid(x: u8)
    requires
        x < 0x80,
    ensures
        valid_utf8(seq![x]),
{
    let s = seq![x];
    assert((x & 0x7Fu8) as u32 <= 0x7f) by (bit_vector)
        requires
            x < 0x80u8,
    ;
    assert(pop_first_scalar(s) =~= Seq::<u8>::empty());
    assert(valid_utf8(Seq::<u8>::empty()));
}

proof fn lemma_entries_text_utf8(e: Seq<(Seq<u8>, Seq<u8>)>)
    requires
        entries_utf8(e),
    ensures
        valid_utf8(entries_text(e)),
    decreases e.len(),
{
    broadcast use valid_utf8_concat;

    if e.len() > 0 {
        let front = e.drop_last();
        assert forall|i: int| 0 <= i < front.len() implies valid_utf8((#[trigger] front[i]).0)
            && valid_utf8(front[i].1) by {
            assert(front[i] == e[i]);
        }
        lemma_entries_text_utf8(front);
        assert(valid_utf8(e.last().0) && valid_utf8(e.last().1));
        let colon = seq![COLON];
        let semi = seq![SEMICOLON];
        lemma_ascii_valid(COLON);
        lemma_ascii_valid(SEMICOLON);
        assert(valid_utf8(e.last().0 + colon));
        assert(valid_utf8(e.last().0 + colon + e.last().1));
        assert(valid_utf8(record_text(e.last())));
    }
}

/// Entries that identity text can carry decode from their own wire form,
/// which is taken whole.
pub proof fn law_identity_round_trip(e: Seq<(Seq<u8>, Seq<u8>)>)
    requires
        entries_encodable(e),
        2 + entries_text(e).len() <= 0xffff,
    ensures
        spec_parse_identity(identity_bytes(e)) == Ok::<
            (Seq<(Seq<u8>, Seq<u8>)>, usize),
            ParseError,
        >((e, (2 + entries_text(e).len()) as usize)),
{
    let total = (2 + entries_text(e).len()) as u16;
    let b = identity_bytes(e);
    lemma_u16_be_round_trip(total);
    assert(u16_at(b, 0) == u16_at(u16_be_bytes(total), 0));
    let text = b.subrange(2, total as int);
    assert(text =~= entries_text(e));
    lemma_entries_text_utf8(e);
    assert(text.subrange(0, text.len() as int) =~= text);
    lemma_records_of_text(text, 0, e);
    lemma_collect_unique(e);
}
} // verus!
