//! Text helpers shared by the whole library: conversions between strings and
//! characters, concatenation, trimming, searching and number formatting, all
//! described over `Seq<char>`.
use vstd::prelude::*;
use vstd::string::*;
use vstd::utf8::*;

verus! {

/// `String::push` appends one character to the end of the string.
pub assume_specification[ String::push ](s: &mut String, c: char)
    ensures
        final(s)@ == old(s)@.push(c),
;

/// The characters of a text.
pub fn chars_of(s: &str) -> (r: Vec<char>)
    ensures
        r@ == s@,
{
    let mut out: Vec<char> = Vec::new();
    for c in it: s.chars()
        invariant
            it.seq() == s@,
            out@ == s@.take(it.index()),
    {
        out.push(c);
    }
    assert(s@.take(s@.len() as int) == s@);
    out
}

/// The text made of the given characters.
pub fn text_of(chars: &[char]) -> (r: String)
    ensures
        r@ == chars@,
{
    let mut out = String::new();
    let mut i: usize = 0;
    while i < chars.len()
        invariant
            i <= chars.len(),
            out@ == chars@.take(i as int),
        decreases chars.len() - i,
    {
        out.push(chars[i]);
        i += 1;
    }
    assert(chars@.take(chars@.len() as int) == chars@);
    out
}

/// Whether two texts hold the same characters.
pub fn same_text(a: &str, b: &str) -> (r: bool)
    ensures
        r == (a@ == b@),
{
    let x = a.as_bytes();
    let y = b.as_bytes();
    proof {
        encode_utf8_decode_utf8(a@);
        encode_utf8_decode_utf8(b@);
    }
    if x.len() != y.len() {
        return false;
    }
    let mut i: usize = 0;
    while i < x.len()
        invariant
            i <= x.len(),
            x.len() == y.len(),
            x@ == encode_utf8(a@),
            y@ == encode_utf8(b@),
            forall|k: int| 0 <= k < i ==> x@[k] == y@[k],
        decreases x.len() - i,
    {
        if x[i] != y[i] {
            return false;
        }
        i += 1;
    }
    assert(x@ =~= y@);
    true
}

/// Both texts one after the other.
pub fn join2(a: &str, b: &str) -> (r: String)
    ensures
        r@ == a@ + b@,
{
    let mut s = String::from_str(a);
    s.append(b);
    s
}

/// The lower-case form of a text by the Unicode rules.
pub uninterp spec fn lowercase(s: Seq<char>) -> Seq<char>;

/// The lower-case form of one ASCII character; other characters are kept.
pub open spec fn ascii_lower(c: char) -> char {
    if 'A' <= c <= 'Z' {
        (c as u32 + 32) as char
    } else {
        c
    }
}

/// `str::to_lowercase`: the lower-case equivalent of the text, which depends on
/// the text alone. Of a text made of ASCII characters only, it is the text with
/// each of `A` to `Z` replaced by its small letter. Nothing more is claimed of
/// texts that hold other characters.
#[verifier::external_body]
pub(crate) fn to_lowercase(s: &str) -> (r: String)
    ensures
        r@ == lowercase(s@),
        is_ascii_chars(s@) ==> r@ == s@.map_values(|c: char| ascii_lower(c)),
{
    s.to_lowercase()
}

/// Whether `pat` stands at position `i` of `s`.
pub open spec fn occurs_at(s: Seq<char>, pat: Seq<char>, i: int) -> bool {
    0 <= i && i + pat.len() <= s.len() && s.subrange(i, i + pat.len()) == pat
}

/// Whether `pat` stands anywhere in `s`.
pub open spec fn contains_text(s: Seq<char>, pat: Seq<char>) -> bool {
    exists|i: int| occurs_at(s, pat, i)
}

/// Whether the characters `pat` stand at position `i` of `s`.
fn matches_at(s: &[char], pat: &[char], i: usize) -> (r: bool)
    requires
        i + pat.len() <= s.len(),
    ensures
        r == occurs_at(s@, pat@, i as int),
{
    let mut k: usize = 0;
    while k < pat.len()
        invariant
            k <= pat.len(),
            i + pat.len() <= s.len(),
            forall|j: int| 0 <= j < k ==> s@[i + j] == pat@[j],
        decreases pat.len() - k,
    {
        if s[i + k] != pat[k] {
            assert(s@.subrange(i as int, i + pat@.len())[k as int] != pat@[k as int]);
            return false;
        }
        k += 1;
    }
    assert(s@.subrange(i as int, i + pat@.len()) =~= pat@);
    true
}

/// Whether `pat` stands anywhere in `s`.
pub fn text_contains(s: &str, pat: &str) -> (r: bool)
    ensures
        r == contains_text(s@, pat@),
{
    let cs = chars_of(s);
    let ps = chars_of(pat);
    if ps.len() > cs.len() {
        return false;
    }
    let last: usize = cs.len() - ps.len();
    let mut i: usize = 0;
    while i <= last
        invariant
            cs@ == s@,
            ps@ == pat@,
            last == cs.len() - ps.len(),
            i <= last + 1,
            last <= cs.len(),
            forall|j: int| 0 <= j < i ==> !occurs_at(s@, pat@, j),
        decreases last + 1 - i,
    {
        if matches_at(cs.as_slice(), ps.as_slice(), i) {
            return true;
        }
        if i == last {
            return false;
        }
        i += 1;
    }
    false
}

/// The first `n` characters of `s`, or all of it if it is shorter.
pub open spec fn prefix_of(s: Seq<char>, n: int) -> Seq<char> {
    if n < s.len() {
        s.take(n)
    } else {
        s
    }
}

/// The first `n` characters of `s`, or all of it if it is shorter.
pub fn first_chars(s: &str, n: usize) -> (r: String)
    ensures
        r@ == prefix_of(s@, n as int),
{
    let cs = chars_of(s);
    let mut out = String::new();
    let mut i: usize = 0;
    while i < cs.len() && i < n
        invariant
            cs@ == s@,
            i <= cs.len(),
            i <= n,
            out@ == s@.take(i as int),
        decreases cs.len() - i,
    {
        out.push(cs[i]);
        i += 1;
    }
    assert(s@.take(s@.len() as int) == s@);
    out
}

/// `s` with every `from` replaced by `to`.
pub open spec fn replaced(s: Seq<char>, from: char, to: char) -> Seq<char> {
    s.map_values(|c: char| if c == from { to } else { c })
}

/// `s` with every `from` replaced by `to`.
pub fn replace_char(s: &str, from: char, to: char) -> (r: String)
    ensures
        r@ == replaced(s@, from, to),
{
    let cs = chars_of(s);
    let mut out = String::new();
    let mut i: usize = 0;
    while i < cs.len()
        invariant
            cs@ == s@,
            i <= cs.len(),
            out@ == replaced(s@, from, to).take(i as int),
        decreases cs.len() - i,
    {
        let c = cs[i];
        if c == from {
            out.push(to);
        } else {
            out.push(c);
        }
        i += 1;
    }
    assert(replaced(s@, from, to).take(s@.len() as int) == replaced(s@, from, to));
    out
}

/// The characters with the Unicode property White_Space.
pub open spec fn is_white_space(c: char) -> bool {
    ||| 0x09 <= c as u32 <= 0x0d
    ||| c as u32 == 0x20
    ||| c as u32 == 0x85
    ||| c as u32 == 0xa0
    ||| c as u32 == 0x1680
    ||| 0x2000 <= c as u32 <= 0x200a
    ||| c as u32 == 0x2028
    ||| c as u32 == 0x2029
    ||| c as u32 == 0x202f
    ||| c as u32 == 0x205f
    ||| c as u32 == 0x3000
}

/// Whether `c` is white space.
fn white_space(c: char) -> (r: bool)
    ensures
        r == is_white_space(c),
{
    let u: u32 = c as u32;
    (0x09 <= u && u <= 0x0d) || u == 0x20 || u == 0x85 || u == 0xa0 || u == 0x1680 || (0x2000 <= u
        && u <= 0x200a) || u == 0x2028 || u == 0x2029 || u == 0x202f || u == 0x205f || u == 0x3000
}

/// `t` is `s` without the white space at both of its ends.
pub open spec fn is_trimmed(s: Seq<char>, t: Seq<char>) -> bool {
    exists|i: int, j: int|
        #![trigger s.subrange(i, j)]
        {
            &&& 0 <= i <= j <= s.len()
            &&& t == s.subrange(i, j)
            &&& forall|k: int| 0 <= k < i ==> is_white_space(s[k])
            &&& forall|k: int| j <= k < s.len() ==> is_white_space(s[k])
            &&& t.len() > 0 ==> !is_white_space(t[0]) && !is_white_space(t.last())
        }
}

/// A text has one trimmed form only.
pub proof fn law_trimmed_unique(s: Seq<char>, t: Seq<char>, u: Seq<char>)
    requires
        is_trimmed(s, t),
        is_trimmed(s, u),
    ensures
        t == u,
{
    let (i, j) = choose|i: int, j: int|
        #![trigger s.subrange(i, j)]
        {
            &&& 0 <= i <= j <= s.len()
            &&& t == s.subrange(i, j)
            &&& forall|k: int| 0 <= k < i ==> is_white_space(s[k])
            &&& forall|k: int| j <= k < s.len() ==> is_white_space(s[k])
            &&& t.len() > 0 ==> !is_white_space(t[0]) && !is_white_space(t.last())
        };
    let (p, q) = choose|i: int, j: int|
        #![trigger s.subrange(i, j)]
        {
            &&& 0 <= i <= j <= s.len()
            &&& u == s.subrange(i, j)
            &&& forall|k: int| 0 <= k < i ==> is_white_space(s[k])
            &&& forall|k: int| j <= k < s.len() ==> is_white_space(s[k])
            &&& u.len() > 0 ==> !is_white_space(u[0]) && !is_white_space(u.last())
        };
    if t.len() > 0 {
        assert(t[0] == s[i]);
        assert(t.last() == s[j - 1]);
    }
    if u.len() > 0 {
        assert(u[0] == s[p]);
        assert(u.last() == s[q - 1]);
    }
    if t.len() == 0 && u.len() > 0 {
        assert(is_white_space(s[p]));
    }
    if u.len() == 0 && t.len() > 0 {
        assert(is_white_space(s[i]));
    }
    assert(t =~= u);
}

/// `s` without the white space at both of its ends.
pub fn trim_text(s: &str) -> (r: String)
    ensures
        is_trimmed(s@, r@),
{
    let cs = chars_of(s);
    let mut i: usize = 0;
    while i < cs.len() && white_space(cs[i])
        invariant
            cs@ == s@,
            i <= cs.len(),
            forall|k: int| 0 <= k < i ==> is_white_space(s@[k]),
        decreases cs.len() - i,
    {
        i += 1;
    }
    let mut j: usize = cs.len();
    while i < j && white_space(cs[j - 1])
        invariant
            cs@ == s@,
            i <= j <= cs.len(),
            forall|k: int| j <= k < s@.len() ==> is_white_space(s@[k]),
        decreases j,
    {
        j -= 1;
    }
    let mut out = String::new();
    let mut k: usize = i;
    while k < j
        invariant
            cs@ == s@,
            i <= k <= j <= cs.len(),
            out@ == s@.subrange(i as int, k as int),
        decreases j - k,
    {
        out.push(cs[k]);
        k += 1;
    }
    assert(out@ == s@.subrange(i as int, j as int));
    out
}

/// The decimal digit for a value below ten.
pub open spec fn digit(d: nat) -> char {
    (48 + d) as char
}

/// A number written in decimal, without leading zeros.
pub open spec fn decimal(n: nat) -> Seq<char>
    decreases n,
{
    if n < 10 {
        seq![digit(n)]
    } else {
        decimal(n / 10).push(digit(n % 10))
    }
}

/// A number written in decimal, with a minus sign if it is negative.
pub open spec fn signed_decimal(n: int) -> Seq<char> {
    if n < 0 {
        seq!['-'] + decimal((-n) as nat)
    } else {
        decimal(n as nat)
    }
}

/// The digit for a value below ten.
fn digit_char(d: u8) -> (r: char)
    requires
        d < 10,
    ensures
        r == digit(d as nat),
{
    (48u8 + d) as char
}

/// `n` written in decimal.
pub fn decimal_text(n: u128) -> (r: String)
    ensures
        r@ == decimal(n as nat),
    decreases n,
{
    if n < 10 {
        let mut s = String::new();
        s.push(digit_char(n as u8));
        assert(s@ =~= seq![digit(n as nat)]);
        s
    } else {
        let mut s = decimal_text(n / 10);
        s.push(digit_char((n % 10) as u8));
        s
    }
}

/// `n` written in decimal, with a minus sign if it is negative.
pub fn signed_decimal_text(n: i64) -> (r: String)
    ensures
        r@ == signed_decimal(n as int),
{
    if n < 0 {
        let mut s = String::new();
        s.push('-');
        let m: u128 = (-(n as i128)) as u128;
        s.append(decimal_text(m).as_str());
        assert(s@ =~= seq!['-'] + decimal((-n) as nat));
        s
    } else {
        decimal_text(n as u128)
    }
}

/// Two numbers with the same decimal text are the same number.
pub proof fn law_decimal_injective(a: nat, b: nat)
    requires
        decimal(a) == decimal(b),
    ensures
        a == b,
    decreases a,
{
    lemma_decimal_len(a);
    lemma_decimal_len(b);
    if a < 10 {
        if b >= 10 {
            lemma_decimal_len(b / 10);
            assert(decimal(b).len() >= 2);
        } else {
            assert(decimal(a)[0] == digit(a));
            assert(decimal(b)[0] == digit(b));
        }
    } else {
        if b < 10 {
            lemma_decimal_len(a / 10);
            assert(decimal(a).len() >= 2);
        } else {
            assert(decimal(a).last() == digit(a % 10));
            assert(decimal(b).last() == digit(b % 10));
            assert(decimal(a).drop_last() =~= decimal(a / 10));
            assert(decimal(b).drop_last() =~= decimal(b / 10));
            law_decimal_injective(a / 10, b / 10);
        }
    }
}

/// A decimal text has at least one character.
proof fn lemma_decimal_len(n: nat)
    ensures
        decimal(n).len() >= 1,
    decreases n,
{
    if n >= 10 {
        lemma_decimal_len(n / 10);
    }
}

/// Every character of a decimal text is a digit.
pub proof fn law_decimal_digits(n: nat)
    ensures
        forall|i: int| 0 <= i < decimal(n).len() ==> '0' <= #[trigger] decimal(n)[i] <= '9',
    decreases n,
{
    if n >= 10 {
        law_decimal_digits(n / 10);
        assert forall|i: int| 0 <= i < decimal(n).len() implies '0' <= #[trigger] decimal(n)[i]
            <= '9' by {
            if i < decimal(n / 10).len() {
                assert(decimal(n)[i] == decimal(n / 10)[i]);
            }
        }
    }
}

/// The hexadecimal digit for a value below sixteen, with small letters unless
/// `upper` holds.
pub open spec fn hex_digit(d: nat, upper: bool) -> char {
    if d < 10 {
        (48 + d) as char
    } else if upper {
        (55 + d) as char
    } else {
        (87 + d) as char
    }
}

/// The `width` lowest hexadecimal digits of a number, highest first.
pub open spec fn hex_fixed(n: nat, width: nat, upper: bool) -> Seq<char>
    decreases width,
{
    if width == 0 {
        Seq::empty()
    } else {
        hex_fixed(n / 16, (width - 1) as nat, upper).push(hex_digit(n % 16, upper))
    }
}

/// The digit for a value below sixteen.
fn hex_digit_char(d: u8, upper: bool) -> (r: char)
    requires
        d < 16,
    ensures
        r == hex_digit(d as nat, upper),
{
    if d < 10 {
        (48u8 + d) as char
    } else if upper {
        (55u8 + d) as char
    } else {
        (87u8 + d) as char
    }
}

/// The `width` lowest hexadecimal digits of `n`.
pub fn hex_text(n: u64, width: u32, upper: bool) -> (r: String)
    ensures
        r@ == hex_fixed(n as nat, width as nat, upper),
    decreases width,
{
    if width == 0 {
        String::new()
    } else {
        let mut s = hex_text(n / 16, width - 1, upper);
        s.push(hex_digit_char((n % 16) as u8, upper));
        s
    }
}

/// A fixed-width hexadecimal text has that width.
pub proof fn law_hex_len(n: nat, width: nat, upper: bool)
    ensures
        hex_fixed(n, width, upper).len() == width,
    decreases width,
{
    if width > 0 {
        law_hex_len(n / 16, (width - 1) as nat, upper);
    }
}

/// Sixteen to the power `width`: how many numbers fit in `width` hexadecimal digits.
pub open spec fn hex_capacity(width: nat) -> nat
    decreases width,
{
    if width == 0 {
        1
    } else {
        16 * hex_capacity((width - 1) as nat)
    }
}

/// Numbers that fit in `width` digits and have the same text are the same number.
pub proof fn law_hex_injective(a: nat, b: nat, width: nat, upper: bool)
    requires
        a < hex_capacity(width),
        b < hex_capacity(width),
        hex_fixed(a, width, upper) == hex_fixed(b, width, upper),
    ensures
        a == b,
    decreases width,
{
    if width > 0 {
        let w = (width - 1) as nat;
        assert(hex_fixed(a, width, upper).last() == hex_digit(a % 16, upper));
        assert(hex_fixed(b, width, upper).last() == hex_digit(b % 16, upper));
        assert(hex_fixed(a, width, upper).drop_last() =~= hex_fixed(a / 16, w, upper));
        assert(hex_fixed(b, width, upper).drop_last() =~= hex_fixed(b / 16, w, upper));
        law_hex_injective(a / 16, b / 16, w, upper);
    }
}

/// The number that a run of decimal digits stands for.
pub open spec fn number_of(s: Seq<char>) -> int
    decreases s.len(),
{
    if s.len() == 0 {
        0
    } else {
        10 * number_of(s.drop_last()) + (s.last() as int - '0' as int)
    }
}

/// The digits of a number stand for it, and there is no leading zero but for zero itself.
pub proof fn law_decimal_value(n: nat)
    ensures
        number_of(decimal(n)) == n,
        decimal(n).len() > 0,
        decimal(n)[0] == '0' <==> n == 0,
    decreases n,
{
    if n < 10 {
        assert(decimal(n).drop_last() =~= Seq::<char>::empty());
        assert(decimal(n).last() == digit(n));
        assert(number_of(Seq::<char>::empty()) == 0);
    } else {
        law_decimal_value(n / 10);
        assert(decimal(n).drop_last() =~= decimal(n / 10));
        assert(decimal(n)[0] == decimal(n / 10)[0]);
    }
}

/// A negative number is written with a minus sign before its digits, any other without.
pub proof fn law_signed_decimal_value(n: int)
    ensures
        n >= 0 ==> number_of(signed_decimal(n)) == n && signed_decimal(n)[0] != '-',
        n < 0 ==> signed_decimal(n)[0] == '-' && number_of(signed_decimal(n).drop_first()) == -n,
{
    if n >= 0 {
        law_decimal_value(n as nat);
        law_decimal_digits(n as nat);
    } else {
        law_decimal_value((-n) as nat);
        assert(signed_decimal(n).drop_first() =~= decimal((-n) as nat));
    }
}

/// The number that a hexadecimal digit stands for.
pub open spec fn hex_value(c: char) -> int {
    if '0' <= c <= '9' {
        c as int - '0' as int
    } else if 'a' <= c <= 'f' {
        c as int - 'a' as int + 10
    } else {
        c as int - 'A' as int + 10
    }
}

/// The number that a run of hexadecimal digits stands for.
pub open spec fn hex_number_of(s: Seq<char>) -> int
    decreases s.len(),
{
    if s.len() == 0 {
        0
    } else {
        16 * hex_number_of(s.drop_last()) + hex_value(s.last())
    }
}

/// The hexadecimal digits of a number stand for it, if there are enough of them. Their
/// letters are all of the case asked for.
pub proof fn law_hex_value(n: nat, width: nat, upper: bool)
    requires
        n < hex_capacity(width),
    ensures
        hex_number_of(hex_fixed(n, width, upper)) == n,
        forall|i: int|
            0 <= i < hex_fixed(n, width, upper).len() ==> {
                let c = #[trigger] hex_fixed(n, width, upper)[i];
                '0' <= c <= '9' || (upper && 'A' <= c <= 'F') || (!upper && 'a' <= c <= 'f')
            },
    decreases width,
{
    if width > 0 {
        let w = (width - 1) as nat;
        let front = hex_fixed(n / 16, w, upper);
        law_hex_value(n / 16, w, upper);
        assert(hex_fixed(n, width, upper).drop_last() =~= front);
        assert forall|i: int| 0 <= i < hex_fixed(n, width, upper).len() implies {
            let c = #[trigger] hex_fixed(n, width, upper)[i];
            '0' <= c <= '9' || (upper && 'A' <= c <= 'F') || (!upper && 'a' <= c <= 'f')
        } by {
            if i < front.len() {
                assert(hex_fixed(n, width, upper)[i] == front[i]);
            }
        }
    }
}

/// Two hexadecimal digits are enough for a byte, eight for 32 bits and sixteen for 64.
pub proof fn law_hex_capacity()
    ensures
        hex_capacity(2) == 0x100,
        hex_capacity(8) == 0x1_0000_0000,
        hex_capacity(16) == 0x1_0000_0000_0000_0000,
{
    reveal_with_fuel(hex_capacity, 17);
}

/// The first characters of a text are as many as asked for, or all if there are fewer, and
/// the rest follows them.
pub proof fn law_first_chars(s: Seq<char>, n: int)
    requires
        n >= 0,
    ensures
        prefix_of(s, n).len() <= n,
        prefix_of(s, n).len() < n ==> prefix_of(s, n) == s,
        exists|rest: Seq<char>| s == prefix_of(s, n) + rest,
{
    let k = prefix_of(s, n).len() as int;
    assert(s =~= prefix_of(s, n) + s.skip(k));
}

/// Replacing a character keeps every other one, and the length, and leaves none of it.
pub proof fn law_replaced(s: Seq<char>, from: char, to: char)
    ensures
        replaced(s, from, to).len() == s.len(),
        forall|i: int|
            0 <= i < s.len() ==> #[trigger] replaced(s, from, to)[i] == if s[i] == from {
                to
            } else {
                s[i]
            },
        from != to ==> !replaced(s, from, to).contains(from),
{
}

/// A text is found in another exactly if that is the text with something before and after.
pub proof fn law_contains_text(s: Seq<char>, pat: Seq<char>)
    ensures
        contains_text(s, pat) <==> exists|a: Seq<char>, b: Seq<char>| s == #[trigger] ((a + pat) + b),
{
    if contains_text(s, pat) {
        let i = choose|i: int| occurs_at(s, pat, i);
        let a = s.take(i);
        let b = s.skip(i + pat.len());
        assert(s =~= (a + pat) + b);
    }
    if exists|a: Seq<char>, b: Seq<char>| s == #[trigger] ((a + pat) + b) {
        let (a, b) = choose|a: Seq<char>, b: Seq<char>| s == #[trigger] ((a + pat) + b);
        let i = a.len() as int;
        assert(s.subrange(i, i + pat.len()) =~= pat);
        assert(occurs_at(s, pat, i));
    }
}

/// Of the ASCII characters exactly the letters from A to Z change, each to the letter that
/// stands 32 places further; whatever else there is stays.
pub proof fn law_ascii_lower(c: char)
    ensures
        65 <= c as int <= 90 ==> ascii_lower(c) as int == c as int + 32,
        !(65 <= c as int <= 90) ==> ascii_lower(c) == c,
{
}

/// White space is what Unicode says: of the ASCII characters the space and those from the
/// tabulator to the carriage return; of the others the next line, the no-break space, the
/// Ogham space, the spaces of the general punctuation from the en quad to the hair space,
/// its two separators, the narrow no-break space and the mathematical one, and the
/// ideographic space.
pub proof fn law_white_space(c: char)
    ensures
        (c as int) < 128 ==> (is_white_space(c) <==> c == ' ' || '\t' <= c <= '\r'),
        c as int >= 128 ==> (is_white_space(c) <==> seq![
            0x85int,
            0xa0,
            0x1680,
            0x2028,
            0x2029,
            0x202f,
            0x205f,
            0x3000,
        ].contains(c as int) || 0x2000 <= c as int <= 0x200a),
{
    let others = seq![0x85int, 0xa0, 0x1680, 0x2028, 0x2029, 0x202f, 0x205f, 0x3000];
    assert(others[0] == 0x85 && others[1] == 0xa0 && others[2] == 0x1680 && others[3] == 0x2028
        && others[4] == 0x2029 && others[5] == 0x202f && others[6] == 0x205f && others[7] == 0x3000);
}

/// A trimmed text begins and ends with no white space, and only white space was taken from
/// before and behind it.
pub proof fn law_trimmed(s: Seq<char>, t: Seq<char>)
    requires
        is_trimmed(s, t),
    ensures
        exists|a: Seq<char>, b: Seq<char>|
            s == #[trigger] ((a + t) + b) && (forall|i: int|
                0 <= i < a.len() ==> is_white_space(#[trigger] a[i])) && (forall|i: int|
                0 <= i < b.len() ==> is_white_space(#[trigger] b[i])),
        t.len() > 0 ==> !is_white_space(t[0]) && !is_white_space(t[t.len() - 1]),
{
    let (i, j) = choose|i: int, j: int|
        #![trigger s.subrange(i, j)]
        {
            &&& 0 <= i <= j <= s.len()
            &&& t == s.subrange(i, j)
            &&& forall|k: int| 0 <= k < i ==> is_white_space(s[k])
            &&& forall|k: int| j <= k < s.len() ==> is_white_space(s[k])
            &&& t.len() > 0 ==> !is_white_space(t[0]) && !is_white_space(t.last())
        };
    let a = s.take(i);
    let b = s.skip(j);
    assert(s =~= (a + t) + b);
    assert forall|k: int| 0 <= k < a.len() implies is_white_space(#[trigger] a[k]) by {
        assert(is_white_space(s[k]));
    }
    assert forall|k: int| 0 <= k < b.len() implies is_white_space(#[trigger] b[k]) by {
        assert(is_white_space(s[j + k]));
    }
}

/// A number can be told from what follows it, if that does not begin with a digit.
pub proof fn law_decimal_ends(m: nat, n: nat, x: Seq<char>, y: Seq<char>)
    requires
        decimal(m) + x == decimal(n) + y,
        x.len() > 0 ==> !('0' <= x[0] <= '9'),
        y.len() > 0 ==> !('0' <= y[0] <= '9'),
    ensures
        m == n,
        x == y,
{
    let a = decimal(m);
    let b = decimal(n);
    let s = a + x;
    law_decimal_digits(m);
    law_decimal_digits(n);
    if a.len() < b.len() {
        assert(s[a.len() as int] == (b + y)[a.len() as int]);
        assert('0' <= b[a.len() as int] <= '9');
        assert(x.len() > 0);
        assert(s[a.len() as int] == x[0]);
        assert(false);
    }
    if b.len() < a.len() {
        assert(s[b.len() as int] == (b + y)[b.len() as int]);
        assert('0' <= a[b.len() as int] <= '9');
        assert(y.len() > 0);
        assert((b + y)[b.len() as int] == y[0]);
        assert(false);
    }
    assert(a =~= s.take(a.len() as int));
    assert(b =~= (b + y).take(b.len() as int));
    assert(x =~= s.skip(a.len() as int));
    assert(y =~= (b + y).skip(b.len() as int));
    law_decimal_injective(m, n);
}

/// The same of a number that may be negative.
pub proof fn law_signed_decimal_ends(m: int, n: int, x: Seq<char>, y: Seq<char>)
    requires
        signed_decimal(m) + x == signed_decimal(n) + y,
        x.len() > 0 ==> !('0' <= x[0] <= '9'),
        y.len() > 0 ==> !('0' <= y[0] <= '9'),
    ensures
        m == n,
        x == y,
{
    law_signed_decimal_value(m);
    law_signed_decimal_value(n);
    if m >= 0 {
        law_decimal_value(m as nat);
    }
    if n >= 0 {
        law_decimal_value(n as nat);
    }
    let s = signed_decimal(m) + x;
    let t = signed_decimal(n) + y;
    assert(s[0] == signed_decimal(m)[0]);
    assert(t[0] == signed_decimal(n)[0]);
    if m < 0 {
        assert(n < 0);
        assert(s.skip(1) =~= decimal((-m) as nat) + x);
        assert(t.skip(1) =~= decimal((-n) as nat) + y);
        law_decimal_ends((-m) as nat, (-n) as nat, x, y);
    } else {
        assert(n >= 0);
        law_decimal_ends(m as nat, n as nat, x, y);
    }
}

} // verus!
