//! UTF-16 encoding of characters, as used for host names on the wire.
use vstd::prelude::*;

verus! {

broadcast use vstd::utf8::char_is_scalar;

/// The code units of one character: one below U+10000, else a surrogate pair.
pub open spec fn utf16_of(c: char) -> Seq<u16> {
    let v = c as u32 as int;
    if v < 0x10000 {
        seq![v as u16]
    } else {
        seq![(0xD800 + (v - 0x10000) / 1024) as u16, (0xDC00 + (v - 0x10000) % 1024) as u16]
    }
}

pub open spec fn encode_utf16(s: Seq<char>) -> Seq<u16>
    decreases s.len(),
{
    if s.len() == 0 {
        Seq::empty()
    } else {
        encode_utf16(s.drop_last()) + utf16_of(s.last())
    }
}

pub proof fn lemma_encode_take(s: Seq<char>, k: int)
    requires
        0 <= k < s.len(),
    ensures
        encode_utf16(s.take(k + 1)) == encode_utf16(s.take(k)) + utf16_of(s[k]),
{
    assert(s.take(k + 1).drop_last() =~= s.take(k));
}

pub proof fn lemma_encode_monotone(s: Seq<char>, i: int, j: int)
    requires
        0 <= i <= j <= s.len(),
    ensures
        encode_utf16(s.take(i)).len() <= encode_utf16(s.take(j)).len(),
    decreases j - i,
{
    if i < j {
        lemma_encode_monotone(s, i, j - 1);
        lemma_encode_take(s, j - 1);
    }
}

/// The units of `c`: their number and the units themselves (the second is 0
/// for a single unit).
pub fn char_to_utf16(c: char) -> (r: (usize, u16, u16))
    ensures
        r.0 == utf16_of(c).len(),
        r.0 == 1 || r.0 == 2,
        r.1 == utf16_of(c)[0],
        r.0 == 2 ==> r.2 == utf16_of(c)[1],
{
    let v = c as u32;
    if v < 0x10000 {
        (1, v as u16, 0)
    } else {
        let w = v - 0x10000;
        (2, (0xD800 + w / 1024) as u16, (0xDC00 + w % 1024) as u16)
    }
}


pub open spec fn is_high_surrogate(u: u16) -> bool {
    0xD800 <= u <= 0xDBFF
}

pub open spec fn is_low_surrogate(u: u16) -> bool {
    0xDC00 <= u <= 0xDFFF
}

/// The scalar value of a surrogate pair.
pub open spec fn pair_scalar(hi: u16, lo: u16) -> u32 {
    (0x10000 + (hi - 0xD800) * 1024 + (lo - 0xDC00)) as u32
}

/// Decodes UTF-16, replacing each unpaired surrogate with U+FFFD.
pub open spec fn decode_utf16_lossy(u: Seq<u16>) -> Seq<char>
    decreases u.len(),
{
    if u.len() == 0 {
        Seq::empty()
    } else if u.len() >= 2 && is_high_surrogate(u[0]) && is_low_surrogate(u[1]) {
        seq![pair_scalar(u[0], u[1]) as char] + decode_utf16_lossy(u.subrange(2, u.len() as int))
    } else if 0xD800 <= u[0] <= 0xDFFF {
        seq!['\u{FFFD}'] + decode_utf16_lossy(u.subrange(1, u.len() as int))
    } else {
        seq![(u[0] as u32) as char] + decode_utf16_lossy(u.subrange(1, u.len() as int))
    }
}

/// The index of the first 0 unit at or after `from`, or `u.len()`.
pub open spec fn first_nul(u: Seq<u16>, from: int) -> int
    decreases u.len() - from,
{
    if from >= u.len() {
        u.len() as int
    } else if u[from] == 0 {
        from
    } else {
        first_nul(u, from + 1)
    }
}

/// Relies on `char::from_u32`: the character with that scalar value, or
/// `None` for a surrogate or a value above U+10FFFF.
#[verifier::external_body]
fn char_from_u32(v: u32) -> (r: Option<char>)
    ensures
        vstd::utf8::is_scalar(v) ==> r == Some(v as char),
        !vstd::utf8::is_scalar(v) ==> r is None,
{
    char::from_u32(v)
}

/// Relies on `String::push`: the character is appended.
#[verifier::external_body]
fn push_char(s: &mut String, c: char)
    ensures
        final(s)@ == old(s)@.push(c),
{
    s.push(c)
}

/// The text of the units in front of the first 0 unit, decoded lossily.
pub fn decode_until_nul(units: &[u16]) -> (r: String)
    ensures
        r@ == decode_utf16_lossy(units@.subrange(0, first_nul(units@, 0))),
{
    let ghost u = units@;
    let mut end: usize = 0;
    while end < units.len() && units[end] != 0
        invariant
            end <= u.len(),
            u == units@,
            first_nul(u, 0) == first_nul(u, end as int),
        decreases u.len() - end,
    {
        end = end + 1;
    }
    let ghost whole = u.subrange(0, end as int);
    let mut out = String::new();
    let mut i: usize = 0;
    while i < end
        invariant
            i <= end <= u.len(),
            u == units@,
            whole == u.subrange(0, end as int),
            out@ + decode_utf16_lossy(u.subrange(i as int, end as int)) == decode_utf16_lossy(
                whole,
            ),
        decreases end - i,
    {
        let ghost rest = u.subrange(i as int, end as int);
        let unit = units[i];
        if i + 1 < end && 0xD800u16 <= unit && unit <= 0xDBFFu16 && 0xDC00u16 <= units[i + 1]
            && units[i + 1] <= 0xDFFFu16 {
            let lo = units[i + 1];
            let v: u32 = 0x10000 + (unit as u32 - 0xD800) * 1024 + (lo as u32 - 0xDC00);
            assert(v == pair_scalar(rest[0], rest[1]));
            match char_from_u32(v) {
                Some(c) => push_char(&mut out, c),
                None => {},
            }
            assert(rest.subrange(2, rest.len() as int) =~= u.subrange(i + 2, end as int));
            i = i + 2;
        } else if 0xD800u16 <= unit && unit <= 0xDFFFu16 {
            push_char(&mut out, '\u{FFFD}');
            assert(rest.subrange(1, rest.len() as int) =~= u.subrange(i + 1, end as int));
            i = i + 1;
        } else {
            match char_from_u32(unit as u32) {
                Some(c) => push_char(&mut out, c),
                None => {},
            }
            assert(rest.subrange(1, rest.len() as int) =~= u.subrange(i + 1, end as int));
            i = i + 1;
        }
    }
    assert(u.subrange(end as int, end as int) =~= Seq::<u16>::empty());
    out
}
} // verus!
