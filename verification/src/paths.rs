//! Windows paths as texts: their parts, and paths made from other paths.
//!
//! Both `/` and `\` separate the components of a path. A path may start with a drive
//! (`C:`) or with a server and a share (`\\server\share`); neither is a component.
//! Empty components and `.` mean nothing.
//!
//! A path that starts with `\\?\` is verbatim: only `\` separates its components, `.` is
//! one, and what it starts with is longer by these characters (`\\?\C:`,
//! `\\?\UNC\server\share`, `\\?\name`).
use vstd::prelude::*;
use vstd::string::*;
use vstd::utf8::*;
use crate::text;

verus! {

/// Whether a character separates components.
pub open spec fn is_separator(c: char) -> bool {
    c == '/' || c == '\\'
}

/// Whether a path is verbatim.
pub open spec fn is_verbatim(p: Seq<char>) -> bool {
    p.len() >= 4 && p[0] == '\\' && p[1] == '\\' && p[2] == '?' && p[3] == '\\'
}

/// Whether a character separates components of a path that is `verbatim` or is not.
pub open spec fn separates(verbatim: bool, c: char) -> bool {
    c == '\\' || (!verbatim && c == '/')
}

/// Whether a character separates components of any path.
fn separator(c: char) -> (r: bool)
    ensures
        r == is_separator(c),
{
    c == '/' || c == '\\'
}

/// Whether a path is verbatim.
fn verbatim_path(p: &[char]) -> (r: bool)
    ensures
        r == is_verbatim(p@),
{
    p.len() >= 4 && p[0] == '\\' && p[1] == '\\' && p[2] == '?' && p[3] == '\\'
}

/// Whether a character separates components of a path that is `verbatim` or is not.
fn separator_in(verbatim: bool, c: char) -> (r: bool)
    ensures
        r == separates(verbatim, c),
{
    c == '\\' || (!verbatim && c == '/')
}

/// Where the component that starts at `i` ends.
pub open spec fn component_end(verbatim: bool, p: Seq<char>, i: int) -> int
    decreases p.len() - i,
{
    if 0 <= i < p.len() && !separates(verbatim, p[i]) {
        component_end(verbatim, p, i + 1)
    } else {
        i
    }
}

/// Whether this is the letter of a drive.
pub open spec fn is_drive_letter(c: char) -> bool {
    'a' <= c <= 'z' || 'A' <= c <= 'Z'
}

/// The length of what a verbatim path starts with: a server and a share, a drive, or a
/// name.
pub open spec fn verbatim_prefix_len(p: Seq<char>) -> int {
    if p.len() >= 8 && p[4] == 'U' && p[5] == 'N' && p[6] == 'C' && is_separator(p[7]) {
        let server_end = component_end(true, p, 8);
        let share_end = component_end(true, p, server_end + 1);
        if server_end + 1 < share_end {
            share_end
        } else {
            server_end
        }
    } else if p.len() >= 6 && is_drive_letter(p[4]) && p[5] == ':' && (p.len() == 6
        || is_separator(p[6])) {
        6
    } else {
        component_end(true, p, 4)
    }
}

/// The length of the drive, or of the server and the share, that the path starts with.
pub open spec fn prefix_len(p: Seq<char>) -> int {
    if is_verbatim(p) {
        verbatim_prefix_len(p)
    } else if p.len() >= 2 && is_separator(p[0]) && is_separator(p[1]) {
        let server_end = component_end(false, p, 2);
        let share_end = component_end(false, p, server_end + 1);
        if 2 < server_end && server_end + 1 < share_end {
            share_end
        } else {
            0
        }
    } else if p.len() >= 2 && p[1] == ':' && is_drive_letter(p[0]) {
        2
    } else {
        0
    }
}

/// The path without the separators at its end.
pub open spec fn without_end_separators(verbatim: bool, p: Seq<char>) -> Seq<char>
    decreases p.len(),
{
    if p.len() > 0 && separates(verbatim, p.last()) {
        without_end_separators(verbatim, p.drop_last())
    } else {
        p
    }
}

/// Where the last component of a path starts.
pub open spec fn last_start(verbatim: bool, p: Seq<char>) -> int
    decreases p.len(),
{
    if p.len() == 0 || separates(verbatim, p.last()) {
        p.len() as int
    } else {
        last_start(verbatim, p.drop_last())
    }
}

/// Where the file name stands in a path without prefix, as start and end: it is the
/// last component. There is none in a path without components or one that ends in `..`,
/// nor in a verbatim one that ends in `.`.
pub open spec fn name_range(verbatim: bool, p: Seq<char>) -> Option<(int, int)>
    decreases p.len(),
{
    let t = without_end_separators(verbatim, p);
    let k = last_start(verbatim, t);
    let name = t.skip(k);
    if t.len() == 0 {
        None
    } else if name == seq!['.', '.'] {
        None
    } else if name == seq!['.'] && verbatim {
        None
    } else if name == seq!['.'] && 0 <= k < t.len() <= p.len() {
        name_range(verbatim, t.take(k))
    } else {
        Some((k, t.len() as int))
    }
}

/// The file name of a path.
pub open spec fn file_name(p: Seq<char>) -> Option<Seq<char>> {
    let rest = p.skip(prefix_len(p));
    match name_range(is_verbatim(p), rest) {
        Some((start, end)) => Some(rest.subrange(start, end)),
        None => None,
    }
}

/// The place of the last dot, or -1 if there is none.
pub open spec fn last_dot(s: Seq<char>) -> int
    decreases s.len(),
{
    if s.len() == 0 {
        -1
    } else if s.last() == '.' {
        s.len() - 1
    } else {
        last_dot(s.drop_last())
    }
}

/// The extension of a file name: what follows its last dot, unless that dot is missing
/// or comes first.
pub open spec fn name_extension(name: Seq<char>) -> Option<Seq<char>> {
    if last_dot(name) > 0 {
        Some(name.skip(last_dot(name) + 1))
    } else {
        None
    }
}

/// A file name without its extension.
pub open spec fn name_stem(name: Seq<char>) -> Seq<char> {
    if last_dot(name) > 0 {
        name.take(last_dot(name))
    } else {
        name
    }
}

/// The extension of a path's file name.
pub open spec fn extension(p: Seq<char>) -> Option<Seq<char>> {
    match file_name(p) {
        Some(name) => name_extension(name),
        None => None,
    }
}

/// The extension of a path in small letters, empty if there is none.
pub open spec fn lower_extension(p: Seq<char>) -> Seq<char> {
    match extension(p) {
        Some(e) => text::lowercase(e),
        None => Seq::empty(),
    }
}

/// Whether a path has an extension of ASCII characters, or none.
pub open spec fn has_ascii_extension(p: Seq<char>) -> bool {
    extension(p) matches Some(e) ==> is_ascii_chars(e)
}

/// The extension of a path with each of `A` to `Z` made small, empty if there is none.
/// For an extension of ASCII characters this is the extension in small letters.
pub open spec fn ascii_lower_extension(p: Seq<char>) -> Seq<char> {
    match extension(p) {
        Some(e) => e.map_values(|c: char| text::ascii_lower(c)),
        None => Seq::empty(),
    }
}

/// Where the component that starts at `i` ends.
fn end_of_component(verbatim: bool, p: &[char], i: usize) -> (r: usize)
    requires
        i <= p.len(),
    ensures
        i <= r <= p.len(),
        r == component_end(verbatim, p@, i as int),
{
    let mut k: usize = i;
    while k < p.len() && !separator_in(verbatim, p[k])
        invariant
            i <= k <= p.len(),
            component_end(verbatim, p@, k as int) == component_end(verbatim, p@, i as int),
        decreases p.len() - k,
    {
        k += 1;
    }
    k
}

/// A component ends within the path.
proof fn lemma_component_end(verbatim: bool, p: Seq<char>, i: int)
    requires
        0 <= i <= p.len(),
    ensures
        i <= component_end(verbatim, p, i) <= p.len(),
    decreases p.len() - i,
{
    if i < p.len() && !separates(verbatim, p[i]) {
        lemma_component_end(verbatim, p, i + 1);
    }
}

/// The prefix is a part of the path.
pub proof fn lemma_prefix_len(p: Seq<char>)
    ensures
        0 <= prefix_len(p) <= p.len(),
{
    if is_verbatim(p) {
        lemma_component_end(true, p, 4);
        if p.len() >= 8 {
            lemma_component_end(true, p, 8);
            let server_end = component_end(true, p, 8);
            if server_end < p.len() {
                lemma_component_end(true, p, server_end + 1);
            }
        }
    } else if p.len() >= 2 && is_separator(p[0]) && is_separator(p[1]) {
        lemma_component_end(false, p, 2);
        let server_end = component_end(false, p, 2);
        if server_end < p.len() {
            lemma_component_end(false, p, server_end + 1);
        }
    }
}

/// Whether this is the letter of a drive.
fn drive_letter(c: char) -> (r: bool)
    ensures
        r == is_drive_letter(c),
{
    ('a' <= c && c <= 'z') || ('A' <= c && c <= 'Z')
}

/// The length of what a verbatim path starts with.
fn verbatim_prefix_length(p: &[char]) -> (r: usize)
    requires
        is_verbatim(p@),
    ensures
        r <= p.len(),
        r == verbatim_prefix_len(p@),
{
    if p.len() >= 8 && p[4] == 'U' && p[5] == 'N' && p[6] == 'C' && separator(p[7]) {
        let server_end = end_of_component(true, p, 8);
        if server_end == p.len() {
            assert(component_end(true, p@, server_end + 1) == server_end + 1);
            return server_end;
        }
        let share_end = end_of_component(true, p, server_end + 1);
        if server_end + 1 < share_end {
            share_end
        } else {
            server_end
        }
    } else if p.len() >= 6 && drive_letter(p[4]) && p[5] == ':' && (p.len() == 6 || separator(
        p[6],
    )) {
        6
    } else {
        end_of_component(true, p, 4)
    }
}

/// The length of the drive, or of the server and the share, that the path starts with.
fn prefix_length(p: &[char]) -> (r: usize)
    ensures
        r <= p.len(),
        r == prefix_len(p@),
{
    if p.len() < 2 {
        return 0;
    }
    if verbatim_path(p) {
        return verbatim_prefix_length(p);
    }
    if separator(p[0]) && separator(p[1]) {
        let server_end = end_of_component(false, p, 2);
        if server_end == p.len() {
            assert(component_end(false, p@, server_end + 1) == server_end + 1);
            return 0;
        }
        let share_end = end_of_component(false, p, server_end + 1);
        if 2 < server_end && server_end + 1 < share_end {
            share_end
        } else {
            0
        }
    } else if p[1] == ':' && drive_letter(p[0]) {
        2
    } else {
        0
    }
}

/// What is known of the last component and of the path without separators at its end.
proof fn lemma_last(verbatim: bool, p: Seq<char>)
    ensures
        ({
            let t = without_end_separators(verbatim, p);
            &&& t.len() <= p.len()
            &&& t == p.take(t.len() as int)
            &&& t.len() > 0 ==> !separates(verbatim, t.last())
            &&& 0 <= last_start(verbatim, p) <= p.len()
            &&& p.len() > 0 && !separates(verbatim, p.last()) ==> last_start(verbatim, p) < p.len()
        }),
    decreases p.len(),
{
    if p.len() > 0 {
        lemma_last(verbatim, p.drop_last());
        let t = without_end_separators(verbatim, p);
        if separates(verbatim, p.last()) {
            assert(p.drop_last().take(t.len() as int) =~= p.take(t.len() as int));
        } else {
            assert(p.take(p.len() as int) =~= p);
        }
    } else {
        assert(p.take(0) =~= p);
    }
}

/// Where the file name of the path without prefix stands.
fn range_of_name(verbatim: bool, p: &[char]) -> (r: Option<(usize, usize)>)
    ensures
        match (r, name_range(verbatim, p@)) {
            (Some((a, b)), Some((x, y))) => a == x && b == y && a < b <= p.len(),
            (None, None) => true,
            _ => false,
        },
{
    let mut end: usize = p.len();
    assert(p@.take(end as int) =~= p@);
    loop
        invariant
            end <= p.len(),
            name_range(verbatim, p@) == name_range(verbatim, p@.take(end as int)),
        decreases end,
    {
        let ghost q = p@.take(end as int);
        let ghost t = without_end_separators(verbatim, q);
        proof {
            lemma_last(verbatim, q);
            lemma_last(verbatim, t);
        }
        let mut stop: usize = end;
        while stop > 0 && separator_in(verbatim, p[stop - 1])
            invariant
                stop <= end <= p.len(),
                without_end_separators(verbatim, p@.take(stop as int)) == t,
            decreases stop,
        {
            assert(p@.take(stop as int).drop_last() =~= p@.take(stop - 1));
            stop -= 1;
        }
        assert(t =~= p@.take(stop as int));
        if stop == 0 {
            return None;
        }
        let mut start: usize = stop;
        while start > 0 && !separator_in(verbatim, p[start - 1])
            invariant
                start <= stop <= p.len(),
                last_start(verbatim, p@.take(start as int)) == last_start(verbatim, t),
            decreases start,
        {
            assert(p@.take(start as int).drop_last() =~= p@.take(start - 1));
            start -= 1;
        }
        assert(start == last_start(verbatim, t));
        let ghost name = t.skip(start as int);
        if stop - start == 2 && p[start] == '.' && p[start + 1] == '.' {
            assert(name =~= seq!['.', '.']);
            return None;
        }
        assert(name != seq!['.', '.']) by {
            if name == seq!['.', '.'] {
                assert(name.len() == 2);
                assert(name[0] == '.' && name[1] == '.');
                assert(name[0] == p@[start as int] && name[1] == p@[start + 1]);
            }
        }
        if stop - start == 1 && p[start] == '.' {
            assert(name =~= seq!['.']);
            if verbatim {
                return None;
            }
            assert(t.take(start as int) =~= p@.take(start as int));
            end = start;
        } else {
            assert(name != seq!['.']) by {
                if name == seq!['.'] {
                    assert(name.len() == 1);
                    assert(name[0] == '.');
                    assert(name[0] == p@[start as int]);
                }
            }
            return Some((start, stop));
        }
    }
}

/// The place of the last dot of `p[start..end]` within it; none if there is no dot.
fn find_last_dot(p: &[char], start: usize, end: usize) -> (r: Option<usize>)
    requires
        start <= end <= p.len(),
    ensures
        match r {
            Some(k) => k == last_dot(p@.subrange(start as int, end as int)) && k < end - start,
            None => last_dot(p@.subrange(start as int, end as int)) == -1,
        },
{
    let ghost name = p@.subrange(start as int, end as int);
    let mut k: usize = end;
    assert(name.take(end - start) =~= name);
    while k > start
        invariant
            start <= k <= end <= p.len(),
            name == p@.subrange(start as int, end as int),
            last_dot(name) == last_dot(name.take(k - start)),
        decreases k,
    {
        assert(name.take(k - start).last() == p@[k - 1]);
        assert(name.take(k - start).drop_last() =~= name.take(k - start - 1));
        if p[k - 1] == '.' {
            return Some(k - 1 - start);
        }
        k -= 1;
    }
    None
}

/// The text of `p[start..end]`.
fn slice_text(p: &[char], start: usize, end: usize) -> (r: String)
    requires
        start <= end <= p.len(),
    ensures
        r@ == p@.subrange(start as int, end as int),
{
    text::text_of(vstd::slice::slice_subrange(p, start, end))
}

/// The file name of `path`.
pub fn file_name_of(path: &str) -> (r: Option<String>)
    ensures
        match (r, file_name(path@)) {
            (Some(n), Some(m)) => n@ == m,
            (None, None) => true,
            _ => false,
        },
{
    let all = text::chars_of(path);
    let start = prefix_length(all.as_slice());
    let rest = vstd::slice::slice_subrange(all.as_slice(), start, all.len());
    assert(rest@ =~= path@.skip(start as int));
    match range_of_name(verbatim_path(all.as_slice()), rest) {
        Some((a, b)) => Some(slice_text(rest, a, b)),
        None => None,
    }
}

/// The extension of the file name `name`.
pub fn extension_of_name(name: &str) -> (r: Option<String>)
    ensures
        match (r, name_extension(name@)) {
            (Some(e), Some(f)) => e@ == f,
            (None, None) => true,
            _ => false,
        },
{
    let all = text::chars_of(name);
    let n = all.len();
    assert(all@.subrange(0, n as int) =~= name@);
    match find_last_dot(all.as_slice(), 0, n) {
        None => None,
        Some(k) => {
            if k == 0 {
                None
            } else {
                assert(name@.skip(k + 1) =~= all@.subrange(k + 1, n as int));
                Some(slice_text(all.as_slice(), k + 1, n))
            }
        },
    }
}

/// The file name `name` without its extension.
pub fn stem_of_name(name: &str) -> (r: String)
    ensures
        r@ == name_stem(name@),
{
    let all = text::chars_of(name);
    let n = all.len();
    assert(all@.subrange(0, n as int) =~= name@);
    match find_last_dot(all.as_slice(), 0, n) {
        None => String::from_str(name),
        Some(k) => {
            if k == 0 {
                String::from_str(name)
            } else {
                assert(name@.take(k as int) =~= all@.subrange(0, k as int));
                slice_text(all.as_slice(), 0, k)
            }
        },
    }
}

/// The extension of `path`.
pub fn extension_of(path: &str) -> (r: Option<String>)
    ensures
        match (r, extension(path@)) {
            (Some(e), Some(f)) => e@ == f,
            (None, None) => true,
            _ => false,
        },
{
    match file_name_of(path) {
        Some(name) => extension_of_name(name.as_str()),
        None => None,
    }
}

/// The file name lies within the path.
proof fn lemma_name_range(verbatim: bool, p: Seq<char>)
    ensures
        name_range(verbatim, p) matches Some((a, b)) ==> 0 <= a <= b <= p.len(),
    decreases p.len(),
{
    let t = without_end_separators(verbatim, p);
    lemma_last(verbatim, p);
    lemma_last(verbatim, t);
    let k = last_start(verbatim, t);
    if !verbatim && t.len() > 0 && t.skip(k) == seq!['.'] && 0 <= k < t.len() {
        lemma_name_range(verbatim, t.take(k));
    }
}

/// The last dot lies within the text.
proof fn lemma_last_dot(s: Seq<char>)
    ensures
        -1 <= last_dot(s) < s.len(),
    decreases s.len(),
{
    if s.len() > 0 && s.last() != '.' {
        lemma_last_dot(s.drop_last());
    }
}

/// No separator comes after the start of the last component.
proof fn lemma_last_component(verbatim: bool, p: Seq<char>)
    ensures
        forall|i: int| last_start(verbatim, p) <= i < p.len() ==> !separates(verbatim, #[trigger] p[i]),
    decreases p.len(),
{
    if p.len() > 0 && !separates(verbatim, p.last()) {
        lemma_last_component(verbatim, p.drop_last());
        assert forall|i: int| last_start(verbatim, p) <= i < p.len() implies !separates(verbatim, 
            #[trigger] p[i],
        ) by {
            lemma_last(verbatim, p.drop_last());
            if i < p.len() - 1 {
                assert(p.drop_last()[i] == p[i]);
            }
        }
    }
}

/// A file name holds no separator.
proof fn lemma_name_plain(verbatim: bool, p: Seq<char>)
    ensures
        name_range(verbatim, p) matches Some((a, b)) ==> forall|i: int|
            a <= i < b ==> !separates(verbatim, #[trigger] p[i]),
    decreases p.len(),
{
    let t = without_end_separators(verbatim, p);
    lemma_last(verbatim, p);
    lemma_last(verbatim, t);
    lemma_last_component(verbatim, t);
    let k = last_start(verbatim, t);
    if t.len() > 0 && t.skip(k) != seq!['.', '.'] {
        if !verbatim && t.skip(k) == seq!['.'] && 0 <= k < t.len() {
            lemma_name_plain(verbatim, t.take(k));
            lemma_name_range(verbatim, t.take(k));
            if let Some((a, b)) = name_range(verbatim, t.take(k)) {
                assert forall|i: int| a <= i < b implies !separates(verbatim, #[trigger] p[i]) by {
                    assert(t.take(k)[i] == p[i]);
                }
            }
        } else if t.skip(k) != seq!['.'] {
            assert forall|i: int| k <= i < t.len() implies !separates(verbatim, #[trigger] p[i]) by {
                assert(t[i] == p[i]);
            }
        }
    }
}

/// No dot comes after the last one.
proof fn lemma_after_last_dot(s: Seq<char>)
    ensures
        forall|i: int| last_dot(s) < i < s.len() ==> #[trigger] s[i] != '.',
    decreases s.len(),
{
    if s.len() > 0 && s.last() != '.' {
        lemma_last_dot(s);
        lemma_after_last_dot(s.drop_last());
        assert forall|i: int| last_dot(s) < i < s.len() implies #[trigger] s[i] != '.' by {
            if i < s.len() - 1 {
                assert(s.drop_last()[i] == s[i]);
            }
        }
    }
}

/// An extension holds neither what separates the components of its path nor a dot.
pub proof fn law_extension_plain(p: Seq<char>)
    ensures
        extension(p) matches Some(e) ==> forall|i: int|
            0 <= i < e.len() ==> !separates(is_verbatim(p), #[trigger] e[i]) && e[i] != '.',
{
    let verbatim = is_verbatim(p);
    lemma_prefix_len(p);
    let rest = p.skip(prefix_len(p));
    lemma_name_range(verbatim, rest);
    lemma_name_plain(verbatim, rest);
    if let Some((a, b)) = name_range(verbatim, rest) {
        let name = rest.subrange(a, b);
        lemma_last_dot(name);
        lemma_after_last_dot(name);
        if last_dot(name) > 0 {
            let e = name.skip(last_dot(name) + 1);
            assert forall|i: int| 0 <= i < e.len() implies !separates(
                verbatim,
                #[trigger] e[i],
            ) && e[i] != '.' by {
                let j = last_dot(name) + 1 + i;
                assert(e[i] == name[j]);
                assert(name[j] == rest[a + j]);
            }
        }
    }
}

/// The extension of `path` in small letters, empty if there is none.
pub fn lower_extension_of(path: &str) -> (r: String)
    ensures
        r@ == lower_extension(path@),
        has_ascii_extension(path@) ==> r@ == ascii_lower_extension(path@),
{
    match extension_of(path) {
        Some(e) => text::to_lowercase(e.as_str()),
        None => String::new(),
    }
}

/// The components of a verbatim path, each with one separator before it, for what follows
/// the prefix.
pub open spec fn verbatim_components(rest: Seq<char>) -> Seq<char>
    decreases rest.len(),
{
    if rest.len() == 0 {
        Seq::empty()
    } else if rest.last() == '\\' {
        verbatim_components(rest.drop_last())
    } else if rest.len() == 1 || rest[rest.len() - 2] == '\\' {
        verbatim_components(rest.drop_last()) + seq!['\\', rest.last()]
    } else {
        verbatim_components(rest.drop_last()).push(rest.last())
    }
}

/// The path of `name`, a file name, within the directory `dir`. A verbatim directory is
/// written with one separator between its components.
pub open spec fn joined(dir: Seq<char>, name: Seq<char>) -> Seq<char> {
    if is_verbatim(dir) && name.len() > 0 {
        let n = prefix_len(dir);
        (dir.take(n) + verbatim_components(dir.skip(n))).push('\\') + name
    } else if dir.len() == 0 || is_separator(dir.last()) || (dir.len() == 2 && prefix_len(dir) == 2) {
        dir + name
    } else {
        dir.push('\\') + name
    }
}

/// The path of `name` within the directory `dir`.
pub fn join(dir: &str, name: &str) -> (r: String)
    ensures
        r@ == joined(dir@, name@),
{
    let cs = text::chars_of(dir);
    let n = cs.len();
    if verbatim_path(cs.as_slice()) && text::chars_of(name).len() > 0 {
        let start = prefix_length(cs.as_slice());
        let mut r = slice_text(cs.as_slice(), 0, start);
        let ghost prefix = dir@.take(start as int);
        let ghost rest = dir@.skip(start as int);
        assert(r@ =~= prefix + verbatim_components(rest.take(0)));
        let mut i: usize = start;
        while i < n
            invariant
                start <= i <= n == cs.len(),
                cs@ == dir@,
                prefix == dir@.take(start as int),
                rest == dir@.skip(start as int),
                r@ == prefix + verbatim_components(rest.take(i - start)),
            decreases n - i,
        {
            let ghost before = r@;
            let ghost one_more = rest.take(i - start + 1);
            assert(one_more.drop_last() =~= rest.take(i - start));
            assert(one_more.last() == cs@[i as int]);
            if cs[i] != '\\' {
                if i == start || cs[i - 1] == '\\' {
                    r.push('\\');
                }
                r.push(cs[i]);
            }
            assert(i > start ==> one_more[one_more.len() - 2] == cs@[i - 1]);
            assert(r@ =~= prefix + verbatim_components(one_more));
            i += 1;
        }
        assert(rest.take(i - start) =~= rest);
        r.push('\\');
        r.append(name);
        return r;
    }
    let mut r = String::from_str(dir);
    if n > 0 && !separator(cs[n - 1]) && !(n == 2 && prefix_length(cs.as_slice()) == 2) {
        r.push('\\');
    }
    r.append(name);
    r
}

/// The path with another extension, or with one if it had none. A path without a file name
/// stays as it is.
pub open spec fn with_extension(p: Seq<char>, ext: Seq<char>) -> Seq<char> {
    let n = prefix_len(p);
    let rest = p.skip(n);
    match name_range(is_verbatim(p), rest) {
        Some((start, end)) => p.take(n + start) + name_stem(rest.subrange(start, end)) + seq!['.']
            + ext,
        None => p,
    }
}

/// The path with the extension `ext`.
pub fn path_with_extension(path: &str, ext: &str) -> (r: String)
    ensures
        r@ == with_extension(path@, ext@),
{
    let all = text::chars_of(path);
    let n = prefix_length(all.as_slice());
    let rest = vstd::slice::slice_subrange(all.as_slice(), n, all.len());
    assert(rest@ =~= path@.skip(n as int));
    match range_of_name(verbatim_path(all.as_slice()), rest) {
        None => String::from_str(path),
        Some((a, b)) => {
            let name = slice_text(rest, a, b);
            let mut r = slice_text(all.as_slice(), 0, n + a);
            assert(r@ =~= path@.take(n + a));
            r.append(stem_of_name(name.as_str()).as_str());
            let ghost so_far = r@;
            r.push('.');
            assert(r@ =~= so_far + seq!['.']);
            r.append(ext);
            r
        },
    }
}

proof fn lemma_dot_at_last_dot(s: Seq<char>)
    ensures
        last_dot(s) >= 0 ==> s[last_dot(s)] == '.',
    decreases s.len(),
{
    lemma_last_dot(s);
    if s.len() > 0 && s.last() != '.' {
        lemma_dot_at_last_dot(s.drop_last());
        lemma_last_dot(s.drop_last());
    }
}

/// A name is its stem, a dot and its extension, or its stem alone if it has none. The
/// extension begins behind the last dot; a dot at the very start begins none.
pub proof fn law_name_parts(name: Seq<char>)
    ensures
        name_extension(name) matches Some(e) ==> {
            &&& name == name_stem(name) + seq!['.'] + e
            &&& name_stem(name).len() > 0
            &&& !e.contains('.')
        },
        name_extension(name) is None ==> name_stem(name) == name && forall|i: int|
            0 < i < name.len() ==> #[trigger] name[i] != '.',
{
    lemma_last_dot(name);
    lemma_dot_at_last_dot(name);
    lemma_after_last_dot(name);
    let k = last_dot(name);
    if k > 0 {
        assert(name =~= name.take(k) + seq!['.'] + name.skip(k + 1));
        let e = name.skip(k + 1);
        assert forall|i: int| 0 <= i < e.len() implies e[i] != '.' by {
            assert(name[k + 1 + i] != '.');
        }
    } else {
        assert forall|i: int| 0 < i < name.len() implies #[trigger] name[i] != '.' by {
            assert(i > k);
        }
    }
}

/// Any stem that is not empty and any extension without a dot can be read back from a name
/// that is made of them.
pub proof fn law_name_made_of_parts(stem: Seq<char>, ext: Seq<char>)
    requires
        stem.len() > 0,
        !ext.contains('.'),
    ensures
        name_stem(stem + seq!['.'] + ext) == stem,
        name_extension(stem + seq!['.'] + ext) == Some(ext),
{
    let name = stem + seq!['.'] + ext;
    lemma_last_dot(name);
    lemma_dot_at_last_dot(name);
    lemma_after_last_dot(name);
    let k = last_dot(name);
    assert(name[stem.len() as int] == '.');
    assert(k >= stem.len());
    if k > stem.len() {
        assert(name[k] == ext[k - stem.len() - 1]);
        assert(ext.contains(name[k]));
    }
    assert(k == stem.len());
    assert(name.take(k) =~= stem);
    assert(name.skip(k + 1) =~= ext);
}

/// A path with neither a device nor a server before it has no prefix, but for the two
/// characters of a drive.
pub proof fn law_drive_prefix(p: Seq<char>)
    requires
        p.len() >= 1 ==> p[0] != '\\' && p[0] != '/',
    ensures
        ({
            let letter = p.len() >= 2 && (65 <= p[0] as int <= 90 || 97 <= p[0] as int <= 122);
            prefix_len(p) == if letter && p[1] == ':' {
                2int
            } else {
                0
            }
        }),
{
}

/// The prefix of a path on a server goes to the end of the share's name.
pub proof fn law_server_prefix(server: Seq<char>, share: Seq<char>, rest: Seq<char>)
    requires
        server.len() > 0,
        share.len() > 0,
        forall|i: int| 0 <= i < server.len() ==> server[i] != '\\' && server[i] != '/',
        forall|i: int| 0 <= i < share.len() ==> share[i] != '\\' && share[i] != '/',
        rest.len() > 0 ==> rest[0] == '\\' || rest[0] == '/',
        server != seq!['?'],
    ensures
        prefix_len(seq!['\\', '\\'] + server + seq!['\\'] + share + rest) == 3 + server.len()
            + share.len(),
{
    let p = seq!['\\', '\\'] + server + seq!['\\'] + share + rest;
    let m = 2 + server.len() as int;
    let n = m + 1 + share.len() as int;
    assert forall|i: int| 2 <= i < m implies p[i] == server[i - 2] by {}
    assert(p[m] == '\\');
    assert forall|i: int| m < i < n implies p[i] == share[i - m - 1] by {}
    if n < p.len() {
        assert(p[n] == rest[0]);
    }
    if is_verbatim(p) {
        assert(p[2] == server[0]);
        if server.len() > 1 {
            assert(p[3] == server[1]);
        } else {
            assert(server =~= seq!['?']);
        }
        assert(false);
    }
    lemma_component_runs(false, p, 2, m);
    lemma_component_runs(false, p, m + 1, n);
}

proof fn lemma_component_runs(verbatim: bool, p: Seq<char>, i: int, n: int)
    requires
        0 <= i <= n <= p.len(),
        forall|k: int| i <= k < n ==> !separates(verbatim, #[trigger] p[k]),
        n < p.len() ==> separates(verbatim, p[n]),
    ensures
        component_end(verbatim, p, i) == n,
    decreases n - i,
{
    if i < n {
        lemma_component_runs(verbatim, p, i + 1, n);
    }
}

proof fn lemma_last_start_at(verbatim: bool, p: Seq<char>, k: int)
    requires
        0 <= k <= p.len(),
        k > 0 ==> separates(verbatim, p[k - 1]),
        forall|i: int| k <= i < p.len() ==> !separates(verbatim, #[trigger] p[i]),
    ensures
        last_start(verbatim, p) == k,
    decreases p.len(),
{
    if k < p.len() {
        assert(!separates(verbatim, p[p.len() - 1]));
        let q = p.drop_last();
        assert forall|i: int| k <= i < q.len() implies !separates(verbatim, #[trigger] q[i]) by {
            assert(!separates(verbatim, p[i]));
        }
        lemma_last_start_at(verbatim, q, k);
    }
}

/// What follows the last separator of a path is its file name, wherever it lies, unless it
/// is one of the two names for directories.
pub proof fn law_file_name(dir: Seq<char>, sep: char, name: Seq<char>)
    requires
        sep == '\\' || (sep == '/' && !is_verbatim(dir + seq![sep] + name)),
        name.len() > 0,
        name != seq!['.'],
        name != seq!['.', '.'],
        forall|i: int| 0 <= i < name.len() ==> name[i] != '\\' && name[i] != '/',
        prefix_len(dir + seq![sep] + name) <= dir.len(),
    ensures
        file_name(dir + seq![sep] + name) == Some(name),
{
    lemma_file_name_range(dir, sep, name);
}

proof fn lemma_file_name_range(dir: Seq<char>, sep: char, name: Seq<char>)
    requires
        sep == '\\' || (sep == '/' && !is_verbatim(dir + seq![sep] + name)),
        name.len() > 0,
        name != seq!['.'],
        name != seq!['.', '.'],
        forall|i: int| 0 <= i < name.len() ==> name[i] != '\\' && name[i] != '/',
        prefix_len(dir + seq![sep] + name) <= dir.len(),
    ensures
        ({
            let p = dir + seq![sep] + name;
            let rest = p.skip(prefix_len(p));
            let k = dir.len() + 1 - prefix_len(p);
            &&& name_range(is_verbatim(p), rest) == Some((k as int, rest.len() as int))
            &&& rest.subrange(k, rest.len() as int) == name
            &&& file_name(p) == Some(name)
        }),
{
    let p = dir + seq![sep] + name;
    lemma_prefix_len(p);
    let n = prefix_len(p);
    let v = is_verbatim(p);
    let rest = p.skip(n);
    let k = dir.len() + 1 - n;
    assert(rest[k - 1] == sep);
    assert forall|i: int| k <= i < rest.len() implies !separates(v, #[trigger] rest[i]) by {
        assert(rest[i] == name[i - k]);
    }
    assert(!separates(v, rest[rest.len() - 1]));
    assert(without_end_separators(v, rest) == rest);
    lemma_last_start_at(v, rest, k);
    assert(rest.skip(k) =~= name);
    assert(rest.subrange(k, rest.len() as int) =~= name);
}

/// A path without any separator behind its prefix is a file name as a whole.
pub proof fn law_bare_file_name(name: Seq<char>)
    requires
        name.len() > 0,
        name != seq!['.'],
        name != seq!['.', '.'],
        forall|i: int| 0 <= i < name.len() ==> name[i] != '\\' && name[i] != '/' && name[i] != ':',
    ensures
        file_name(name) == Some(name),
{
    if name.len() >= 2 {
        assert(name[1] != ':');
        assert(name[0] != '\\');
    }
    assert(prefix_len(name) == 0);
    assert(name.skip(0) =~= name);
    assert(!separates(false, name[name.len() - 1]));
    assert(!is_verbatim(name)) by {
        if name.len() >= 4 {
            assert(name[0] != '\\');
        }
    }
    lemma_last_start_at(false, name, 0);
    assert(name.subrange(0, name.len() as int) =~= name);
}

/// The extension of a file in a directory is what follows the last dot of its name.
pub proof fn law_extension_of_file(dir: Seq<char>, sep: char, stem: Seq<char>, ext: Seq<char>)
    requires
        sep == '\\' || (sep == '/' && !is_verbatim(dir + seq![sep] + (stem + seq!['.'] + ext))),
        stem.len() > 0,
        !ext.contains('.'),
        stem + seq!['.'] + ext != seq!['.', '.'],
        forall|i: int| 0 <= i < stem.len() ==> stem[i] != '\\' && stem[i] != '/',
        forall|i: int| 0 <= i < ext.len() ==> ext[i] != '\\' && ext[i] != '/',
        prefix_len(dir + seq![sep] + (stem + seq!['.'] + ext)) <= dir.len(),
    ensures
        extension(dir + seq![sep] + (stem + seq!['.'] + ext)) == Some(ext),
{
    let name = stem + seq!['.'] + ext;
    assert(name.len() >= 2);
    assert forall|i: int| 0 <= i < name.len() implies name[i] != '\\' && name[i] != '/' by {
        if i < stem.len() {
            assert(name[i] == stem[i]);
        } else if i > stem.len() {
            assert(name[i] == ext[i - stem.len() - 1]);
        }
    }
    law_file_name(dir, sep, name);
    law_name_made_of_parts(stem, ext);
}

/// Another extension leaves the directory and the stem of the file's name as they are.
pub proof fn law_extension_replaced(dir: Seq<char>, sep: char, name: Seq<char>, ext: Seq<char>)
    requires
        sep == '\\' || (sep == '/' && !is_verbatim(dir + seq![sep] + name)),
        name.len() > 0,
        name != seq!['.'],
        name != seq!['.', '.'],
        forall|i: int| 0 <= i < name.len() ==> name[i] != '\\' && name[i] != '/',
        prefix_len(dir + seq![sep] + name) <= dir.len(),
    ensures
        with_extension(dir + seq![sep] + name, ext) == dir + seq![sep] + name_stem(name) + seq![
            '.',
        ] + ext,
{
    let p = dir + seq![sep] + name;
    lemma_file_name_range(dir, sep, name);
    lemma_prefix_len(p);
    let n = prefix_len(p);
    let k = dir.len() + 1 - n;
    assert(p.take(n + k) =~= dir + seq![sep]);
}

/// A name is put behind a directory with one backslash between them, or with none if the
/// directory is empty, ends with a separator or is a bare drive. Nothing of either is
/// lost.
pub proof fn law_joined(dir: Seq<char>, name: Seq<char>)
    requires
        !is_verbatim(dir),
    ensures
        ({
            let bare_drive = dir.len() == 2 && dir[1] == ':' && (65 <= dir[0] as int <= 90 || 97
                <= dir[0] as int <= 122);
            if dir.len() == 0 || dir.last() == '\\' || dir.last() == '/' || bare_drive {
                joined(dir, name) == dir + name
            } else {
                joined(dir, name) == dir + seq!['\\'] + name
            }
        }),
{
    if dir.len() == 2 {
        lemma_prefix_len(dir);
        if is_separator(dir[0]) && is_separator(dir[1]) {
            assert(is_separator(dir.last()));
        }
    }
    assert(dir.push('\\') + name =~= dir + seq!['\\'] + name);
}

proof fn lemma_clean_components(rest: Seq<char>)
    requires
        rest.len() > 0 ==> rest[0] == '\\',
        rest.len() > 0 ==> rest.last() != '\\',
        forall|i: int| 0 <= i < rest.len() - 1 ==> !(#[trigger] rest[i] == '\\' && rest[i + 1] == '\\'),
    ensures
        verbatim_components(rest) == rest,
{
    if rest.len() > 0 {
        lemma_clean_components_inner(rest);
    } else {
        assert(verbatim_components(rest) =~= rest);
    }
}

proof fn lemma_clean_components_inner(rest: Seq<char>)
    requires
        rest.len() > 0,
        rest[0] == '\\',
        forall|i: int| 0 <= i < rest.len() - 1 ==> !(#[trigger] rest[i] == '\\' && rest[i + 1] == '\\'),
    ensures
        rest.last() != '\\' ==> verbatim_components(rest) == rest,
        rest.last() == '\\' ==> verbatim_components(rest) == rest.drop_last(),
    decreases rest.len(),
{
    let q = rest.drop_last();
    if rest.len() == 1 {
        assert(q =~= Seq::<char>::empty());
        assert(verbatim_components(q) =~= Seq::<char>::empty());
    } else {
        assert forall|i: int| 0 <= i < q.len() - 1 implies !(#[trigger] q[i] == '\\' && q[i + 1]
            == '\\') by {
            assert(!(rest[i] == '\\' && rest[i + 1] == '\\'));
        }
        lemma_clean_components_inner(q);
        let k = rest.len() - 2;
        assert(!(rest[k] == '\\' && rest[k + 1] == '\\'));
        if rest.last() == '\\' {
            assert(verbatim_components(rest) == q);
        } else if rest[k] == '\\' {
            assert(verbatim_components(rest) =~= rest);
        } else {
            assert(verbatim_components(rest) =~= rest);
        }
    }
}

/// In a verbatim directory whose components stand with one backslash before each, a name is
/// put behind one more backslash; nothing of the directory changes.
pub proof fn law_joined_verbatim(dir: Seq<char>, name: Seq<char>)
    requires
        is_verbatim(dir),
        name.len() > 0,
        dir.len() > prefix_len(dir) ==> dir[prefix_len(dir)] == '\\' && dir.last() != '\\',
        forall|i: int|
            prefix_len(dir) <= i < dir.len() - 1 ==> !(#[trigger] dir[i] == '\\' && dir[i + 1]
                == '\\'),
    ensures
        joined(dir, name) == dir + seq!['\\'] + name,
{
    lemma_prefix_len(dir);
    let n = prefix_len(dir);
    let rest = dir.skip(n);
    assert forall|i: int| 0 <= i < rest.len() - 1 implies !(#[trigger] rest[i] == '\\' && rest[i
        + 1] == '\\') by {
        assert(!(dir[n + i] == '\\' && dir[n + i + 1] == '\\'));
    }
    lemma_clean_components(rest);
    assert(dir.take(n) + rest =~= dir);
    assert(dir.push('\\') + name =~= dir + seq!['\\'] + name);
}

/// A separator at the end of a path, and a component that stands for the directory itself,
/// change nothing about its file name; one that stands for the directory above leaves none.
pub proof fn law_file_name_end(p: Seq<char>, sep: char, end: Seq<char>)
    requires
        sep == '\\' || sep == '/',
        end == seq![sep] || end == seq![sep, '.'] || end == seq![sep, '.', '.'],
        prefix_len(p + end) == prefix_len(p),
        !is_verbatim(p),
        !is_verbatim(p + end),
    ensures
        end.len() <= 2 ==> file_name(p + end) == file_name(p),
        end.len() == 3 ==> file_name(p + end) is None,
{
    lemma_prefix_len(p);
    let n = prefix_len(p);
    let q = p + end;
    let a = p.skip(n);
    let b = q.skip(n);
    assert(b =~= a + end);
    let mid = a.push(sep);
    assert(mid.drop_last() =~= a);
    assert(without_end_separators(false, mid) == without_end_separators(false, a));
    lemma_name_range(false, a);
    if end.len() == 1 {
        assert(b =~= mid);
    } else {
        let k = mid.len() as int;
        assert(b[k - 1] == sep);
        assert(!separates(false, b.last()));
        assert forall|i: int| k <= i < b.len() implies !separates(false, #[trigger] b[i]) by {
            assert(b[i] == end[i - a.len()]);
        }
        lemma_last_start_at(false, b, k);
        if end.len() == 2 {
            assert(b.skip(k) =~= seq!['.']);
            assert(b.skip(k) != seq!['.', '.']) by {
                assert(b.skip(k).len() == 1);
            }
            assert(b.take(k) =~= mid);
            assert(name_range(false, b) == name_range(false, mid));
        } else {
            assert(b.skip(k) =~= seq!['.', '.']);
        }
    }
    if end.len() <= 2 {
        assert(name_range(false, b) == name_range(false, a));
        if let Some((x, y)) = name_range(false, a) {
            assert(b.subrange(x, y) =~= a.subrange(x, y));
        }
    }
}

/// The prefix of a verbatim path to a drive ends behind the drive; that of one to a server
/// behind the share's name; that of any other behind its first component. In a verbatim path
/// only the backslash separates.
pub proof fn law_verbatim_prefix(p: Seq<char>, first: Seq<char>, second: Seq<char>, rest: Seq<char>)
    requires
        forall|i: int| 0 <= i < first.len() ==> first[i] != '\\',
        forall|i: int| 0 <= i < second.len() ==> second[i] != '\\',
        rest.len() > 0 ==> rest[0] == '\\',
        first.len() > 0,
        second.len() > 0,
    ensures
        p == seq!['\\', '\\', '?', '\\', 'U', 'N', 'C', '\\'] + first + seq!['\\'] + second + rest
            ==> prefix_len(p) == 9 + first.len() + second.len(),
        p == seq!['\\', '\\', '?', '\\'] + first + rest && !first.contains('/') && first != seq![
            'U',
            'N',
            'C',
        ] ==> prefix_len(p) == 4 + first.len(),
{
    if p == seq!['\\', '\\', '?', '\\', 'U', 'N', 'C', '\\'] + first + seq!['\\'] + second + rest {
        let m = 8 + first.len() as int;
        let n = m + 1 + second.len() as int;
        assert(p[0] == '\\' && p[1] == '\\' && p[2] == '?' && p[3] == '\\' && p[4] == 'U' && p[5]
            == 'N' && p[6] == 'C' && p[7] == '\\');
        assert forall|i: int| 8 <= i < m implies !separates(true, #[trigger] p[i]) by {
            assert(p[i] == first[i - 8]);
        }
        assert(p[m] == '\\');
        assert forall|i: int| m < i < n implies !separates(true, #[trigger] p[i]) by {
            assert(p[i] == second[i - m - 1]);
        }
        if n < p.len() {
            assert(p[n] == rest[0]);
        }
        lemma_component_runs(true, p, 8, m);
        lemma_component_runs(true, p, m + 1, n);
    }
    if p == seq!['\\', '\\', '?', '\\'] + first + rest && !first.contains('/') && first != seq![
        'U',
        'N',
        'C',
    ] {
        let m = 4 + first.len() as int;
        assert(p[0] == '\\' && p[1] == '\\' && p[2] == '?' && p[3] == '\\');
        assert forall|i: int| 4 <= i < m implies !separates(true, #[trigger] p[i]) && p[i] != '/' by {
            assert(p[i] == first[i - 4]);
            assert(first.contains(first[i - 4]));
        }
        if m < p.len() {
            assert(p[m] == rest[0]);
        }
        lemma_component_runs(true, p, 4, m);
        if p.len() >= 8 && p[4] == 'U' && p[5] == 'N' && p[6] == 'C' && is_separator(p[7]) {
            assert(m <= 7);
            if m < 7 {
                assert(p[m] == '\\');
                assert(false);
            }
            assert(first =~= seq!['U', 'N', 'C']);
            assert(false);
        }
        if p.len() >= 6 && is_drive_letter(p[4]) && p[5] == ':' && (p.len() == 6 || is_separator(
            p[6],
        )) {
            assert(m >= 6) by {
                if m == 5 {
                    assert(p[5] == '\\');
                }
            }
            if p.len() > 6 && m > 6 {
                assert(!separates(true, p[6]) && p[6] != '/');
                assert(false);
            }
            assert(m == 6);
        }
    }
}

/// In a verbatim directory separators at the end do not count, and slashes are ordinary
/// characters.
pub proof fn law_joined_verbatim_end(dir: Seq<char>, name: Seq<char>)
    requires
        is_verbatim(dir),
        name.len() > 0,
        prefix_len(dir.push('\\')) == prefix_len(dir),
    ensures
        joined(dir.push('\\'), name) == joined(dir, name),
{
    lemma_prefix_len(dir);
    let n = prefix_len(dir);
    let longer = dir.push('\\');
    assert(longer.take(n) =~= dir.take(n));
    assert(longer.skip(n) =~= dir.skip(n).push('\\'));
    assert(dir.skip(n).push('\\').drop_last() =~= dir.skip(n));
    assert(verbatim_components(longer.skip(n)) == verbatim_components(dir.skip(n)));
}

/// An extension of ASCII characters is made small letter by letter; without an extension
/// there is nothing.
pub proof fn law_small_extension(p: Seq<char>)
    ensures
        extension(p) is None ==> ascii_lower_extension(p).len() == 0 && lower_extension(p).len() == 0,
        extension(p) matches Some(e) ==> {
            &&& lower_extension(p) == text::lowercase(e)
            &&& ascii_lower_extension(p).len() == e.len()
            &&& forall|i: int|
                0 <= i < e.len() ==> #[trigger] ascii_lower_extension(p)[i] as int == if 65
                    <= e[i] as int <= 90 {
                    e[i] as int + 32
                } else {
                    e[i] as int
                }
        },
{
}

} // verus!
