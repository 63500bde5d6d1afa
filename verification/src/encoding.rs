//! Conversions between bytes, UTF-16 units and text.
use vstd::prelude::*;
use vstd::string::*;
use vstd::utf8::*;
use crate::text;

verus! {

/// The bytes are not valid UTF-8, but up to three more bytes can make them so:
/// they end in the middle of a character.
pub open spec fn ends_mid_char(bytes: Seq<u8>) -> bool {
    !valid_utf8(bytes) && exists|rest: Seq<u8>|
        1 <= rest.len() <= 3 && #[trigger] valid_utf8(bytes + rest)
}

/// How many bytes a character takes whose first byte is `b`, if it takes more than one.
pub open spec fn width_of(b: u8) -> nat {
    if b < 0xe0 {
        2
    } else if b < 0xf0 {
        3
    } else {
        4
    }
}

/// How many bytes are missing from the character in the middle of which the bytes end; none
/// if they do not end in the middle of one.
pub open spec fn missing_bytes(bytes: Seq<u8>) -> nat {
    let n = bytes.len() as int;
    if n >= 1 && bytes[n - 1] >= 0xc0 {
        (width_of(bytes[n - 1]) - 1) as nat
    } else if n >= 2 && bytes[n - 2] >= 0xe0 {
        (width_of(bytes[n - 2]) - 2) as nat
    } else if n >= 3 && bytes[n - 3] >= 0xf0 {
        (width_of(bytes[n - 3]) - 3) as nat
    } else {
        0
    }
}

/// How many bytes a character takes whose first byte is `b`, if it takes more than one.
fn width(b: u8) -> (r: usize)
    ensures
        r == width_of(b),
{
    if b < 0xe0 {
        2
    } else if b < 0xf0 {
        3
    } else {
        4
    }
}

/// How many bytes are missing from the character in the middle of which the bytes end.
pub fn missing_len(bytes: &[u8]) -> (r: usize)
    ensures
        r == missing_bytes(bytes@),
{
    let n = bytes.len();
    if n >= 1 && bytes[n - 1] >= 0xc0 {
        width(bytes[n - 1]) - 1
    } else if n >= 2 && bytes[n - 2] >= 0xe0 {
        width(bytes[n - 2]) - 2
    } else if n >= 3 && bytes[n - 3] >= 0xf0 {
        width(bytes[n - 3]) - 3
    } else {
        0
    }
}

/// Bytes that end in the middle of a character lack one to three bytes of it. Whatever makes
/// them valid starts with these, and with these alone they are valid already.
pub proof fn law_missing_bytes(bytes: Seq<u8>, rest: Seq<u8>)
    requires
        !valid_utf8(bytes),
        valid_utf8(bytes + rest),
    ensures
        1 <= missing_bytes(bytes) <= 3,
        missing_bytes(bytes) <= rest.len(),
        valid_utf8(bytes + rest.take(missing_bytes(bytes) as int)),
    decreases bytes.len(),
{
    let all = bytes + rest;
    let w = length_of_first_scalar(all);
    let n = bytes.len() as int;
    assert(n > 0);
    assert(valid_first_scalar(all));
    assert(all[0] == bytes[0]);
    if w <= n {
        let tail = bytes.subrange(w, n);
        assert(pop_first_scalar(all) =~= tail + rest);
        assert(pop_first_scalar(bytes) =~= tail);
        assert(forall|i: int| 0 <= i < w ==> #[trigger] all[i] == bytes[i]);
        assert(valid_first_scalar(bytes));
        law_missing_bytes(tail, rest);
        assert(forall|i: int| 0 <= i < n - w ==> #[trigger] tail[i] == bytes[i + w]);
        let m = missing_bytes(tail) as int;
        assert(missing_bytes(bytes) == m);
        let more = bytes + rest.take(m);
        assert(forall|i: int| 0 <= i < w ==> #[trigger] more[i] == bytes[i]);
        assert(valid_first_scalar(more));
        assert(pop_first_scalar(more) =~= tail + rest.take(m));
        assert(valid_utf8(more));
    } else {
        assert(all.len() >= w);
        assert(forall|i: int| 0 <= i < n ==> #[trigger] all[i] == bytes[i]);
        assert(missing_bytes(bytes) == w - n);
        let whole = bytes + rest.take(w - n);
        assert(whole =~= all.take(w));
        assert(forall|i: int| 0 <= i < w ==> #[trigger] whole[i] == all[i]);
        assert(valid_first_scalar(whole));
        assert(valid_utf8(pop_first_scalar(whole)));
        assert(valid_utf8(whole));
    }
}

/// How many bytes, of the first `n`, are valid UTF-8 from the start on.
pub open spec fn valid_among(bytes: Seq<u8>, n: nat) -> nat
    decreases n,
{
    if n == 0 || valid_utf8(bytes.take(n as int)) {
        n
    } else {
        valid_among(bytes, (n - 1) as nat)
    }
}

/// The largest number of bytes that are valid UTF-8 from the start on.
pub open spec fn valid_prefix_len(bytes: Seq<u8>) -> nat {
    valid_among(bytes, bytes.len())
}

/// How many of the bytes that follow the valid ones are wrong together.
pub uninterp spec fn invalid_len(bytes: Seq<u8>) -> nat;

/// What is said of bytes that are not valid UTF-8: where the valid ones end, and how many
/// are wrong there, unless the bytes merely end in the middle of a character.
pub open spec fn utf8_error_text(bytes: Seq<u8>) -> Seq<char> {
    let index = text::decimal(valid_prefix_len(bytes));
    if ends_mid_char(bytes) {
        "incomplete utf-8 byte sequence from index "@ + index
    } else {
        "invalid utf-8 sequence of "@ + text::decimal(invalid_len(bytes)) + " bytes from index "@
            + index
    }
}

/// Why some bytes are not valid UTF-8.
#[derive(Clone, Copy, Debug, PartialEq, Eq, Structural)]
pub struct Utf8Fault {
    /// How many bytes are valid from the start on.
    pub valid_up_to: usize,
    /// How many bytes are wrong after these; none if the bytes end in the middle of a
    /// character and are right up to there.
    pub error_len: Option<usize>,
}

/// `core::str::from_utf8`: succeeds exactly on valid UTF-8. On a failure
/// `Utf8Error::valid_up_to` is the largest number of bytes that are valid from the start
/// on, and `Utf8Error::error_len` is `None` exactly where the end of the input came in the
/// middle of a character that more bytes could complete. How long a wrong sequence is
/// depends on the bytes alone.
#[verifier::external_body]
pub(crate) fn utf8_fault(bytes: &[u8]) -> (r: Option<Utf8Fault>)
    ensures
        r is None <==> valid_utf8(bytes@),
        r matches Some(f) ==> f.valid_up_to == valid_prefix_len(bytes@) && match f.error_len {
            None => ends_mid_char(bytes@),
            Some(n) => !ends_mid_char(bytes@) && n == invalid_len(bytes@),
        },
{
    match core::str::from_utf8(bytes) {
        Ok(_) => None,
        Err(e) => Some(Utf8Fault { valid_up_to: e.valid_up_to(), error_len: e.error_len() }),
    }
}

/// `String::from_utf8`: the text that valid UTF-8 encodes.
#[verifier::external_body]
fn text_from_utf8(bytes: Vec<u8>) -> (r: String)
    requires
        valid_utf8(bytes@),
    ensures
        r@ == decode_utf8(bytes@),
{
    String::from_utf8(bytes).unwrap_or_default()
}

/// What is said of bytes with this fault.
pub fn fault_text(fault: Utf8Fault) -> (r: String)
    ensures
        r@ == match fault.error_len {
            None => "incomplete utf-8 byte sequence from index "@ + text::decimal(
                fault.valid_up_to as nat,
            ),
            Some(n) => "invalid utf-8 sequence of "@ + text::decimal(n as nat)
                + " bytes from index "@ + text::decimal(fault.valid_up_to as nat),
        },
{
    let index = text::decimal_text(fault.valid_up_to as u128);
    match fault.error_len {
        None => text::join2("incomplete utf-8 byte sequence from index ", index.as_str()),
        Some(n) => {
            let mut s = String::from_str("invalid utf-8 sequence of ");
            s.append(text::decimal_text(n as u128).as_str());
            s.append(" bytes from index ");
            s.append(index.as_str());
            s
        },
    }
}

/// The text that the bytes encode, or what is said of them if they are not valid UTF-8.
pub fn decode_text(bytes: Vec<u8>) -> (r: Result<String, String>)
    ensures
        if valid_utf8(bytes@) {
            r matches Ok(s) && s@ == decode_utf8(bytes@)
        } else {
            r matches Err(t) && t@ == utf8_error_text(bytes@)
        },
{
    match utf8_fault(bytes.as_slice()) {
        None => Ok(text_from_utf8(bytes)),
        Some(fault) => Err(fault_text(fault)),
    }
}

/// The valid bytes at the start are valid, and no more of them are.
pub proof fn law_valid_prefix(bytes: Seq<u8>, n: int)
    requires
        0 <= n <= bytes.len(),
        valid_utf8(bytes.take(n)),
    ensures
        n <= valid_prefix_len(bytes) <= bytes.len(),
        valid_utf8(bytes.take(valid_prefix_len(bytes) as int)),
{
    lemma_valid_among(bytes, bytes.len(), n);
}

proof fn lemma_valid_among(bytes: Seq<u8>, limit: nat, n: int)
    requires
        0 <= n <= limit <= bytes.len(),
        valid_utf8(bytes.take(n)),
    ensures
        n <= valid_among(bytes, limit) <= limit,
        valid_utf8(bytes.take(valid_among(bytes, limit) as int)),
    decreases limit,
{
    if limit > 0 && !valid_utf8(bytes.take(limit as int)) {
        lemma_valid_among(bytes, (limit - 1) as nat, n);
    }
}

/// `char::from_u32`: the character with this number; none for the numbers of
/// surrogates and those above the last character.
pub assume_specification[ char::from_u32 ](i: u32) -> (r: Option<char>)
    ensures
        match r {
            Some(c) => c as u32 == i,
            None => 0xd800 <= i <= 0xdfff || i > 0x10ffff,
        },
;

/// The character that stands for what cannot be decoded.
pub open spec fn replacement() -> char {
    '\u{fffd}'
}

/// One character in UTF-16: one unit, or a pair of surrogates.
pub open spec fn utf16_units(c: char) -> Seq<u16> {
    let n = c as u32 as int;
    if n < 0x10000 {
        seq![n as u16]
    } else {
        seq![(0xd800 + (n - 0x10000) / 0x400) as u16, (0xdc00 + (n - 0x10000) % 0x400) as u16]
    }
}

/// A text in UTF-16.
pub open spec fn utf16_of(s: Seq<char>) -> Seq<u16>
    decreases s.len(),
{
    if s.len() == 0 {
        Seq::empty()
    } else {
        utf16_of(s.drop_last()) + utf16_units(s.last())
    }
}

/// A unit that starts a pair.
pub open spec fn is_high_surrogate(u: u16) -> bool {
    0xd800 <= u < 0xdc00
}

/// A unit that ends a pair.
pub open spec fn is_low_surrogate(u: u16) -> bool {
    0xdc00 <= u < 0xe000
}

/// How many units the first character of `units` takes, and the character. A surrogate
/// without its partner counts for one replacement character.
pub open spec fn first_utf16(units: Seq<u16>) -> (int, char) {
    if is_high_surrogate(units[0]) && units.len() >= 2 && is_low_surrogate(units[1]) {
        (2, (0x10000 + (units[0] - 0xd800) * 0x400 + (units[1] - 0xdc00)) as char)
    } else if is_high_surrogate(units[0]) || is_low_surrogate(units[0]) {
        (1, replacement())
    } else {
        (1, units[0] as char)
    }
}

/// The text that UTF-16 units stand for.
pub open spec fn text_of_utf16(units: Seq<u16>) -> Seq<char>
    decreases units.len(),
{
    if units.len() == 0 {
        Seq::empty()
    } else {
        seq![first_utf16(units).1] + text_of_utf16(units.skip(first_utf16(units).0))
    }
}

/// The character with this number, or the replacement character.
fn char_or_replacement(n: u32) -> (r: char)
    ensures
        r as u32 == if n <= 0x10ffff && !(0xd800 <= n <= 0xdfff) {
            n
        } else {
            0xfffd
        },
{
    match char::from_u32(n) {
        Some(c) => {
            proof {
                char_is_scalar(c);
            }
            c
        },
        None => '\u{fffd}',
    }
}

/// The text that UTF-16 units stand for.
pub fn decode_utf16_lossy(units: &[u16]) -> (r: String)
    ensures
        r@ == text_of_utf16(units@),
{
    let mut out = String::new();
    let mut i: usize = 0;
    assert(units@.skip(0) =~= units@);
    while i < units.len()
        invariant
            i <= units.len(),
            text_of_utf16(units@) == out@ + text_of_utf16(units@.skip(i as int)),
        decreases units.len() - i,
    {
        let ghost rest = units@.skip(i as int);
        let ghost before = out@;
        let u = units[i];
        assert(rest[0] == u);
        let mut n: usize = 1;
        if 0xd800 <= u && u < 0xdc00 && i + 1 < units.len() && 0xdc00 <= units[i + 1] && units[i
            + 1] < 0xe000 {
            assert(rest[1] == units@[i + 1]);
            let high: u32 = (u - 0xd800) as u32;
            let low: u32 = (units[i + 1] - 0xdc00) as u32;
            out.push(char_or_replacement(0x10000 + high * 0x400 + low));
            n = 2;
        } else if 0xd800 <= u && u < 0xe000 {
            assert(i + 1 < units.len() ==> rest[1] == units@[i + 1]);
            out.push('\u{fffd}');
        } else {
            out.push(char_or_replacement(u as u32));
        }
        proof {
            assert(n == first_utf16(rest).0);
            assert(out@ =~= before + seq![first_utf16(rest).1]);
            assert(rest.skip(n as int) =~= units@.skip(i + n));
            assert(out@ + text_of_utf16(units@.skip(i + n)) =~= before + text_of_utf16(rest));
        }
        i = i + n;
    }
    assert(units@.skip(i as int) =~= Seq::<u16>::empty());
    assert(out@ + Seq::<char>::empty() =~= out@);
    out
}

/// `s` in UTF-16.
pub fn encode_utf16(s: &str) -> (r: Vec<u16>)
    ensures
        r@ == utf16_of(s@),
{
    let cs = crate::text::chars_of(s);
    let mut out: Vec<u16> = Vec::new();
    let mut i: usize = 0;
    while i < cs.len()
        invariant
            i <= cs.len(),
            cs@ == s@,
            out@ == utf16_of(s@.take(i as int)),
        decreases cs.len() - i,
    {
        let n: u32 = cs[i] as u32;
        let ghost before = out@;
        assert(s@.take(i + 1).drop_last() =~= s@.take(i as int));
        assert(s@.take(i + 1).last() == s@[i as int]);
        if n < 0x10000 {
            out.push(n as u16);
        } else {
            out.push((0xd800 + (n - 0x10000) / 0x400) as u16);
            out.push((0xdc00 + (n - 0x10000) % 0x400) as u16);
        }
        assert(out@ =~= before + utf16_units(s@[i as int]));
        i += 1;
    }
    assert(s@.take(i as int) =~= s@);
    out
}

/// The UTF-16 form of a text, taken apart at its first character.
proof fn lemma_utf16_front(s: Seq<char>)
    requires
        s.len() > 0,
    ensures
        utf16_of(s) == utf16_units(s[0]) + utf16_of(s.drop_first()),
    decreases s.len(),
{
    if s.len() == 1 {
        assert(s.drop_last() =~= Seq::<char>::empty());
        assert(s.drop_first() =~= Seq::<char>::empty());
        assert(utf16_of(s) =~= utf16_units(s[0]) + utf16_of(s.drop_first()));
    } else {
        lemma_utf16_front(s.drop_last());
        assert(s.drop_last().drop_first() =~= s.drop_first().drop_last());
        assert(utf16_of(s) =~= utf16_units(s[0]) + utf16_of(s.drop_first()));
    }
}

/// Decoding gives back every text that was encoded.
pub proof fn law_utf16_round_trip(s: Seq<char>)
    ensures
        text_of_utf16(utf16_of(s)) == s,
    decreases s.len(),
{
    if s.len() > 0 {
        let u = utf16_of(s);
        let rest = s.drop_first();
        lemma_utf16_front(s);
        law_utf16_round_trip(rest);
        assert(u[0] == utf16_units(s[0])[0]);
        let n = s[0] as u32 as int;
        char_is_scalar(s[0]);
        char_u32_cast(s[0], s[0] as u32);
        if n >= 0x10000 {
            assert(u[1] == utf16_units(s[0])[1]);
        }
        assert(first_utf16(u) == (utf16_units(s[0]).len() as int, s[0]));
        assert(u.skip(utf16_units(s[0]).len() as int) =~= utf16_of(rest));
        assert(text_of_utf16(u) =~= s);
    } else {
        assert(text_of_utf16(utf16_of(s)) =~= s);
    }
}

/// A text in UTF-16 followed by any units is read as the text followed by what the units are
/// read as.
pub proof fn law_utf16_read_on(s: Seq<char>, units: Seq<u16>)
    ensures
        text_of_utf16(utf16_of(s) + units) == s + text_of_utf16(units),
    decreases s.len(),
{
    if s.len() == 0 {
        assert(utf16_of(s) + units =~= units);
        assert(s + text_of_utf16(units) =~= text_of_utf16(units));
    } else {
        let u = utf16_of(s) + units;
        let rest = s.drop_first();
        lemma_utf16_front(s);
        law_utf16_read_on(rest, units);
        let first = utf16_units(s[0]);
        assert(u =~= first + (utf16_of(rest) + units));
        assert(u[0] == first[0]);
        let n = s[0] as u32 as int;
        char_is_scalar(s[0]);
        char_u32_cast(s[0], s[0] as u32);
        if n >= 0x10000 {
            assert(u[1] == first[1]);
        }
        assert(first_utf16(u) == (first.len() as int, s[0]));
        assert(u.skip(first.len() as int) =~= utf16_of(rest) + units);
        assert(text_of_utf16(u) =~= s + text_of_utf16(units));
    }
}

/// A surrogate that is not part of a pair is read as one replacement character, and what
/// follows it is read as if it stood alone.
pub proof fn law_utf16_lone_surrogate(unit: u16, units: Seq<u16>)
    requires
        0xdc00 <= unit <= 0xdfff || (0xd800 <= unit <= 0xdbff && !(units.len() > 0 && 0xdc00
            <= units[0] <= 0xdfff)),
    ensures
        text_of_utf16(seq![unit] + units) == seq!['\u{fffd}'] + text_of_utf16(units),
{
    let u = seq![unit] + units;
    assert(u.skip(1) =~= units);
    if units.len() > 0 {
        assert(u[1] == units[0]);
    }
}

/// A character of the basic plane is one unit; any other is a high surrogate followed by a
/// low one, which hold ten bits each of what exceeds the basic plane.
pub proof fn law_utf16_units(c: char)
    ensures
        (c as int) < 0x10000 ==> utf16_units(c).len() == 1 && utf16_units(c)[0] == c as int,
        c as int >= 0x10000 ==> {
            &&& utf16_units(c).len() == 2
            &&& 0xd800 <= utf16_units(c)[0] <= 0xdbff
            &&& 0xdc00 <= utf16_units(c)[1] <= 0xdfff
            &&& 0x10000 + 0x400 * (utf16_units(c)[0] - 0xd800) + (utf16_units(c)[1] - 0xdc00)
                == c as int
        },
{
    char_is_scalar(c);
}

/// What is said of wrong bytes names the place behind the longest valid beginning, and says
/// that they merely end too early exactly if one to three more bytes could make them valid.
pub proof fn law_utf8_error_text(bytes: Seq<u8>, rest: Seq<u8>)
    requires
        !valid_utf8(bytes),
        1 <= rest.len() <= 3,
        valid_utf8(bytes + rest),
    ensures
        utf8_error_text(bytes) == "incomplete utf-8 byte sequence from index "@ + text::decimal(
            valid_prefix_len(bytes),
        ),
{
    assert(ends_mid_char(bytes));
}

/// What is said of bytes that no further bytes could make valid.
pub proof fn law_utf8_wrong_text(bytes: Seq<u8>)
    requires
        !valid_utf8(bytes),
        forall|rest: Seq<u8>| 1 <= rest.len() <= 3 ==> !(#[trigger] valid_utf8(bytes + rest)),
    ensures
        utf8_error_text(bytes) == "invalid utf-8 sequence of "@ + text::decimal(invalid_len(bytes))
            + " bytes from index "@ + text::decimal(valid_prefix_len(bytes)),
{
    assert(!ends_mid_char(bytes));
}

} // verus!
