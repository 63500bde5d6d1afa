//! JSON text of the messages that are sent to other processes.
use vstd::prelude::*;
use vstd::string::*;
use crate::text;

verus! {

/// How one character is written inside a JSON string.
pub open spec fn escaped(c: char) -> Seq<char> {
    if c == '"' {
        seq!['\\', '"']
    } else if c == '\\' {
        seq!['\\', '\\']
    } else if c as u32 == 8 {
        seq!['\\', 'b']
    } else if c as u32 == 9 {
        seq!['\\', 't']
    } else if c as u32 == 10 {
        seq!['\\', 'n']
    } else if c as u32 == 12 {
        seq!['\\', 'f']
    } else if c as u32 == 13 {
        seq!['\\', 'r']
    } else if (c as u32) < 32 {
        seq!['\\', 'u', '0', '0'] + text::hex_fixed(c as u32 as nat, 2, false)
    } else {
        seq![c]
    }
}

/// All characters of a text as they are written inside a JSON string.
pub open spec fn escaped_all(s: Seq<char>) -> Seq<char>
    decreases s.len(),
{
    if s.len() == 0 {
        Seq::empty()
    } else {
        escaped_all(s.drop_last()) + escaped(s.last())
    }
}

/// A text as a JSON string.
pub open spec fn quoted(s: Seq<char>) -> Seq<char> {
    seq!['"'] + escaped_all(s) + seq!['"']
}

/// An error of `serde_json`.
#[verifier::external_type_specification]
#[verifier::external_body]
pub struct ExJsonError(serde_json::Error);

/// `serde_json::to_string` on a text: never fails, and gives the text in double
/// quotes, with the double quote, the backslash and the control characters
/// below U+0020 escaped.
#[verifier::external_body]
fn to_json(s: &str) -> (r: Result<String, serde_json::Error>)
    ensures
        r is Ok,
        r->Ok_0@ == quoted(s@),
{
    serde_json::to_string(s)
}

/// `s` as a JSON string.
pub fn quote(s: &str) -> (r: String)
    ensures
        r@ == quoted(s@),
{
    match to_json(s) {
        Ok(t) => t,
        Err(_) => String::new(),
    }
}

/// The texts of some strings.
pub open spec fn texts_of(items: Seq<String>) -> Seq<Seq<char>> {
    items.map_values(|s: String| s@)
}

/// Texts as the members of a JSON array, with commas between them.
pub open spec fn quoted_members(items: Seq<Seq<char>>) -> Seq<char>
    decreases items.len(),
{
    if items.len() == 0 {
        Seq::empty()
    } else if items.len() == 1 {
        quoted(items[0])
    } else {
        quoted_members(items.drop_last()) + ","@ + quoted(items.last())
    }
}

/// Texts as a JSON array of strings.
pub open spec fn quoted_array(items: Seq<Seq<char>>) -> Seq<char> {
    "["@ + quoted_members(items) + "]"@
}

/// `items` as a JSON array of strings.
pub fn quote_array(items: &Vec<String>) -> (r: String)
    ensures
        r@ == quoted_array(texts_of(items@)),
{
    let mut members = String::new();
    let mut i: usize = 0;
    while i < items.len()
        invariant
            i <= items.len(),
            members@ == quoted_members(texts_of(items@).take(i as int)),
        decreases items.len() - i,
    {
        assert(texts_of(items@).take(i + 1).drop_last() =~= texts_of(items@).take(i as int));
        let q = quote(items[i].as_str());
        if i > 0 {
            members.append(",");
            members.append(q.as_str());
        } else {
            members = q;
        }
        i += 1;
    }
    assert(texts_of(items@).take(items@.len() as int) =~= texts_of(items@));
    let mut r = String::from_str("[");
    r.append(members.as_str());
    r.append("]");
    r
}

/// A JSON string never holds a control character, so it never breaks a line.
pub proof fn law_quoted_single_line(s: Seq<char>)
    ensures
        forall|i: int| 0 <= i < quoted(s).len() ==> (#[trigger] quoted(s)[i]) as u32 >= 32,
{
    lemma_escaped_all(s);
}

proof fn lemma_escaped_all(s: Seq<char>)
    ensures
        forall|i: int| 0 <= i < escaped_all(s).len() ==> (#[trigger] escaped_all(s)[i]) as u32 >= 32,
    decreases s.len(),
{
    if s.len() > 0 {
        lemma_escaped_all(s.drop_last());
        lemma_escaped(s.last());
        let front = escaped_all(s.drop_last());
        assert forall|i: int| 0 <= i < escaped_all(s).len() implies (#[trigger] escaped_all(
            s,
        )[i]) as u32 >= 32 by {
            if i < front.len() {
                assert(escaped_all(s)[i] == front[i]);
            } else {
                assert(escaped_all(s)[i] == escaped(s.last())[i - front.len()]);
            }
        }
    }
}

proof fn lemma_escaped(c: char)
    ensures
        forall|i: int| 0 <= i < escaped(c).len() ==> (#[trigger] escaped(c)[i]) as u32 >= 32,
{
    let n = c as u32 as nat;
    reveal_with_fuel(text::hex_fixed, 3);
    assert(text::hex_fixed(n, 2, false) =~= seq![
        text::hex_digit(n / 16 % 16, false),
        text::hex_digit(n % 16, false),
    ]);
}

/// Different texts have different JSON strings: the other side can read back exactly
/// the text that was sent.
pub proof fn law_quoted_injective(a: Seq<char>, b: Seq<char>)
    requires
        quoted(a) == quoted(b),
    ensures
        a == b,
{
    let x = escaped_all(a);
    let y = escaped_all(b);
    assert(quoted(a).len() == x.len() + 2);
    assert(quoted(b).len() == y.len() + 2);
    assert(x =~= quoted(a).subrange(1, x.len() as int + 1));
    assert(y =~= quoted(b).subrange(1, y.len() as int + 1));
    lemma_escaped_all_injective(a, b);
}

/// The escaped form of a text that starts with `c`.
proof fn lemma_escaped_front(s: Seq<char>)
    requires
        s.len() > 0,
    ensures
        escaped_all(s) == escaped(s[0]) + escaped_all(s.drop_first()),
    decreases s.len(),
{
    if s.len() == 1 {
        assert(s.drop_last() =~= Seq::<char>::empty());
        assert(s.drop_first() =~= Seq::<char>::empty());
        assert(escaped_all(s) =~= escaped(s[0]) + escaped_all(s.drop_first()));
    } else {
        lemma_escaped_front(s.drop_last());
        assert(s.drop_last().drop_first() =~= s.drop_first().drop_last());
        assert(escaped_all(s) =~= escaped(s[0]) + escaped_all(s.drop_first()));
    }
}

/// No escaped character is the beginning of another one's.
proof fn lemma_escaped_prefix_free(c: char, d: char, x: Seq<char>, y: Seq<char>)
    requires
        escaped(c) + x == escaped(d) + y,
    ensures
        c == d,
        x == y,
{
    let m = c as u32 as nat;
    let n = d as u32 as nat;
    reveal_with_fuel(text::hex_fixed, 3);
    assert(text::hex_fixed(m, 2, false) =~= seq![
        text::hex_digit(m / 16 % 16, false),
        text::hex_digit(m % 16, false),
    ]);
    assert(text::hex_fixed(n, 2, false) =~= seq![
        text::hex_digit(n / 16 % 16, false),
        text::hex_digit(n % 16, false),
    ]);
    let l = escaped(c) + x;
    let r = escaped(d) + y;
    assert(l[0] == r[0]);
    assert(l[0] == escaped(c)[0]);
    assert(r[0] == escaped(d)[0]);
    if escaped(c).len() > 1 && escaped(d).len() > 1 {
        assert(l[1] == r[1]);
        assert(l[1] == escaped(c)[1]);
        assert(r[1] == escaped(d)[1]);
        if escaped(c).len() > 2 && escaped(d).len() > 2 {
            assert(l[4] == r[4]);
            assert(l[5] == r[5]);
            assert(l[4] == escaped(c)[4]);
            assert(l[5] == escaped(c)[5]);
            assert(r[4] == escaped(d)[4]);
            assert(r[5] == escaped(d)[5]);
        }
    }
    assert(c == d);
    assert(x =~= l.skip(escaped(c).len() as int));
    assert(y =~= r.skip(escaped(d).len() as int));
}

proof fn lemma_escaped_all_injective(a: Seq<char>, b: Seq<char>)
    requires
        escaped_all(a) == escaped_all(b),
    ensures
        a == b,
    decreases a.len(),
{
    if a.len() > 0 && b.len() > 0 {
        lemma_escaped_front(a);
        lemma_escaped_front(b);
        lemma_escaped_prefix_free(
            a[0],
            b[0],
            escaped_all(a.drop_first()),
            escaped_all(b.drop_first()),
        );
        lemma_escaped_all_injective(a.drop_first(), b.drop_first());
        assert(a =~= seq![a[0]] + a.drop_first());
        assert(b =~= seq![b[0]] + b.drop_first());
    } else if a.len() > 0 {
        lemma_escaped_front(a);
        assert(escaped(a[0]).len() > 0);
        assert(escaped_all(a).len() > 0);
    } else if b.len() > 0 {
        lemma_escaped_front(b);
        assert(escaped(b[0]).len() > 0);
        assert(escaped_all(b).len() > 0);
    } else {
        assert(a =~= b);
    }
}

/// What follows a JSON string can be told from it: the string ends at its closing quotation
/// mark and nowhere else.
pub proof fn law_quoted_ends(a: Seq<char>, b: Seq<char>, x: Seq<char>, y: Seq<char>)
    requires
        quoted(a) + x == quoted(b) + y,
    ensures
        a == b,
        x == y,
{
    let q = seq!['"'];
    assert((quoted(a) + x).skip(1) =~= escaped_all(a) + (q + x));
    assert((quoted(b) + y).skip(1) =~= escaped_all(b) + (q + y));
    lemma_escaped_ends(a, b, x, y);
}

proof fn lemma_escaped_ends(a: Seq<char>, b: Seq<char>, x: Seq<char>, y: Seq<char>)
    requires
        escaped_all(a) + (seq!['"'] + x) == escaped_all(b) + (seq!['"'] + y),
    ensures
        a == b,
        x == y,
    decreases a.len(),
{
    let q = seq!['"'];
    let s = escaped_all(a) + (q + x);
    let t = escaped_all(b) + (q + y);
    if a.len() == 0 {
        assert(s =~= q + x);
        if b.len() > 0 {
            lemma_escaped_front(b);
            assert(t[0] == escaped(b[0])[0]);
            assert(s[0] == '"');
            assert(false);
        }
        assert(t =~= q + y);
        assert(x =~= s.skip(1));
        assert(y =~= t.skip(1));
        assert(a =~= b);
    } else if b.len() == 0 {
        assert(t =~= q + y);
        lemma_escaped_front(a);
        assert(s[0] == escaped(a[0])[0]);
        assert(t[0] == '"');
        assert(false);
    } else {
        lemma_escaped_front(a);
        lemma_escaped_front(b);
        let c = escaped_all(a.drop_first()) + (q + x);
        let d = escaped_all(b.drop_first()) + (q + y);
        assert(s =~= escaped(a[0]) + c);
        assert(t =~= escaped(b[0]) + d);
        lemma_escaped_prefix_free(a[0], b[0], c, d);
        lemma_escaped_ends(a.drop_first(), b.drop_first(), x, y);
        assert(a =~= seq![a[0]] + a.drop_first());
        assert(b =~= seq![b[0]] + b.drop_first());
    }
}

proof fn lemma_members_front(items: Seq<Seq<char>>)
    requires
        items.len() > 1,
    ensures
        quoted_members(items) == quoted(items[0]) + (","@ + quoted_members(items.drop_first())),
    decreases items.len(),
{
    let rest = items.drop_first();
    let init = items.drop_last();
    if items.len() == 2 {
        assert(quoted_members(init) == quoted(items[0]));
        assert(quoted_members(rest) == quoted(items[1]));
    } else {
        lemma_members_front(init);
        assert(init.drop_first() =~= rest.drop_last());
        assert(rest.last() == items.last());
    }
    assert(quoted_members(items) =~= quoted(items[0]) + (","@ + quoted_members(rest)));
}

proof fn lemma_members_end(a: Seq<Seq<char>>, b: Seq<Seq<char>>, x: Seq<char>, y: Seq<char>)
    requires
        quoted_members(a) + ("]"@ + x) == quoted_members(b) + ("]"@ + y),
    ensures
        a == b,
        x == y,
    decreases a.len(),
{
    reveal_strlit(",");
    reveal_strlit("]");
    let s = quoted_members(a) + ("]"@ + x);
    let t = quoted_members(b) + ("]"@ + y);
    if a.len() > 1 {
        lemma_members_front(a);
    }
    if b.len() > 1 {
        lemma_members_front(b);
    }
    if a.len() == 0 || b.len() == 0 {
        assert(a.len() == 0 ==> s[0] == ']');
        assert(b.len() == 0 ==> t[0] == ']');
        assert(a.len() > 0 ==> s[0] == quoted(a[0])[0]);
        assert(b.len() > 0 ==> t[0] == quoted(b[0])[0]);
        assert(a =~= b);
        assert(x =~= s.skip(1));
        assert(y =~= t.skip(1));
    } else {
        let c = if a.len() == 1 {
            "]"@ + x
        } else {
            ","@ + (quoted_members(a.drop_first()) + ("]"@ + x))
        };
        let d = if b.len() == 1 {
            "]"@ + y
        } else {
            ","@ + (quoted_members(b.drop_first()) + ("]"@ + y))
        };
        assert(s =~= quoted(a[0]) + c);
        assert(t =~= quoted(b[0]) + d);
        law_quoted_ends(a[0], b[0], c, d);
        assert(c[0] == d[0]);
        if a.len() == 1 {
            assert(b.len() == 1);
            assert(a =~= b);
            assert(x =~= c.skip(1));
            assert(y =~= d.skip(1));
        } else {
            assert(b.len() > 1);
            assert(c.skip(1) =~= quoted_members(a.drop_first()) + ("]"@ + x));
            assert(d.skip(1) =~= quoted_members(b.drop_first()) + ("]"@ + y));
            lemma_members_end(a.drop_first(), b.drop_first(), x, y);
            assert(a =~= seq![a[0]] + a.drop_first());
            assert(b =~= seq![b[0]] + b.drop_first());
        }
    }
}

/// An array tells its members: two arrays, whatever follows them, are the same only if their
/// members are, each of them and in order. Nothing of a member is lost.
pub proof fn law_array_tells_members(
    a: Seq<Seq<char>>,
    b: Seq<Seq<char>>,
    x: Seq<char>,
    y: Seq<char>,
)
    requires
        quoted_array(a) + x == quoted_array(b) + y,
    ensures
        a == b,
        x == y,
{
    reveal_strlit("[");
    assert((quoted_array(a) + x).skip(1) =~= quoted_members(a) + ("]"@ + x));
    assert((quoted_array(b) + y).skip(1) =~= quoted_members(b) + ("]"@ + y));
    lemma_members_end(a, b, x, y);
}

/// A text without quotation marks, backslashes and control characters stands in its JSON
/// string as it is, between two quotation marks.
pub proof fn law_plain_text_quoted(s: Seq<char>)
    requires
        forall|i: int| 0 <= i < s.len() ==> s[i] != '"' && s[i] != '\\' && s[i] as u32 >= 32,
    ensures
        quoted(s) == seq!['"'] + s + seq!['"'],
{
    lemma_plain_escaped(s);
}

proof fn lemma_plain_escaped(s: Seq<char>)
    requires
        forall|i: int| 0 <= i < s.len() ==> s[i] != '"' && s[i] != '\\' && s[i] as u32 >= 32,
    ensures
        escaped_all(s) == s,
    decreases s.len(),
{
    if s.len() > 0 {
        lemma_plain_escaped(s.drop_last());
        assert(s[s.len() - 1] as u32 >= 32);
        assert(s =~= s.drop_last().push(s.last()));
        assert(escaped_all(s) =~= s);
    }
}

} // verus!
