//! Character-level text helpers: equality, trimming, lower-casing and joining.

use vstd::prelude::*;

verus! {

/// The Unicode `White_Space` property, which `char::is_whitespace` tests.
pub open spec fn is_white_space(c: char) -> bool {
    let v = c as u32;
    ||| 0x09 <= v <= 0x0d
    ||| v == 0x20
    ||| v == 0x85
    ||| v == 0xa0
    ||| v == 0x1680
    ||| 0x2000 <= v <= 0x200a
    ||| v == 0x2028
    ||| v == 0x2029
    ||| v == 0x202f
    ||| v == 0x205f
    ||| v == 0x3000
}

/// `s` without its leading white space.
pub open spec fn trim_start_ws(s: Seq<char>) -> Seq<char>
    decreases s.len(),
{
    if s.len() > 0 && is_white_space(s[0]) {
        trim_start_ws(s.drop_first())
    } else {
        s
    }
}

/// `s` without its trailing white space.
pub open spec fn trim_end_ws(s: Seq<char>) -> Seq<char>
    decreases s.len(),
{
    if s.len() > 0 && is_white_space(s.last()) {
        trim_end_ws(s.drop_last())
    } else {
        s
    }
}

/// `s` without leading and trailing white space, as `str::trim` returns it.
pub open spec fn trimmed(s: Seq<char>) -> Seq<char> {
    trim_end_ws(trim_start_ws(s))
}

/// Every character of `s` is ASCII.
pub open spec fn is_ascii_text(s: Seq<char>) -> bool {
    forall|i: int| 0 <= i < s.len() ==> (#[trigger] s[i] as u32) < 128
}

/// The ASCII lower-case of `c`: `A`-`Z` become `a`-`z`, every other character
/// stays.
pub open spec fn ascii_lower_char(c: char) -> char {
    if 'A' <= c <= 'Z' {
        ((c as u32) + 32) as char
    } else {
        c
    }
}

/// `s` with each character lower-cased as `ascii_lower_char` does.
pub open spec fn ascii_lowercase(s: Seq<char>) -> Seq<char> {
    s.map_values(|c: char| ascii_lower_char(c))
}

/// The text that `str::to_lowercase` returns for `s` (Unicode lower-case mapping).
pub uninterp spec fn lowercase_of(s: Seq<char>) -> Seq<char>;

/// Whether `c` has the Unicode `White_Space` property (what
/// `char::is_whitespace` tests).
fn char_is_white_space(c: char) -> (res: bool)
    ensures
        res == is_white_space(c),
{
    let v = c as u32;
    (0x09 <= v && v <= 0x0d) || v == 0x20 || v == 0x85 || v == 0xa0 || v == 0x1680 || (0x2000 <= v
        && v <= 0x200a) || v == 0x2028 || v == 0x2029 || v == 0x202f || v == 0x205f || v == 0x3000
}

/// Calls `str::to_lowercase`. Its result is named; what is stated of it is
/// that an ASCII text is mapped character by character, `A`-`Z` to `a`-`z` (the
/// Unicode lower-case mapping of ASCII). The rest of the Unicode mapping (with
/// its context rule for final sigma) is not written out here.
#[verifier::external_body]
pub(crate) fn lowercase_text(s: &str) -> (res: String)
    ensures
        res@ == lowercase_of(s@),
        is_ascii_text(s@) ==> res@ == ascii_lowercase(s@),
{
    s.to_lowercase()
}

/// Whether two texts hold the same characters.
pub fn text_eq(a: &str, b: &str) -> (res: bool)
    ensures
        res == (a@ == b@),
{
    let n = a.unicode_len();
    if n != b.unicode_len() {
        return false;
    }
    let mut i: usize = 0;
    while i < n
        invariant
            n == a@.len(),
            n == b@.len(),
            i <= n,
            forall|k: int| 0 <= k < i ==> a@[k] == b@[k],
        decreases n - i,
    {
        if a.get_char(i) != b.get_char(i) {
            return false;
        }
        i = i + 1;
    }
    assert(a@ =~= b@);
    true
}

/// `text` without leading and trailing white space (the behaviour of `str::trim`).
pub fn trim_text(text: &str) -> (res: &str)
    ensures
        res@ == trimmed(text@),
{
    let n = text.unicode_len();
    let ghost s = text@;
    let mut start: usize = 0;
    assert(s.subrange(0, n as int) =~= s);
    while start < n && char_is_white_space(text.get_char(start))
        invariant
            n == s.len(),
            s == text@,
            start <= n,
            trim_start_ws(s) == trim_start_ws(s.subrange(start as int, n as int)),
        decreases n - start,
    {
        assert(s.subrange(start as int, n as int).drop_first() =~= s.subrange(start + 1, n as int));
        start = start + 1;
    }
    assert(trim_start_ws(s) == s.subrange(start as int, n as int)) by {
        if start == n {
            assert(s.subrange(start as int, n as int).len() == 0);
        }
    }
    let mut end: usize = n;
    while end > start && char_is_white_space(text.get_char(end - 1))
        invariant
            n == s.len(),
            s == text@,
            start <= end <= n,
            trim_end_ws(s.subrange(start as int, n as int)) == trim_end_ws(
                s.subrange(start as int, end as int),
            ),
        decreases end,
    {
        assert(s.subrange(start as int, end as int).drop_last() =~= s.subrange(
            start as int,
            end - 1,
        ));
        end = end - 1;
    }
    text.substring_char(start, end)
}

/// Joins `parts` with `sep` between neighbours.
pub open spec fn join_with(parts: Seq<Seq<char>>, sep: Seq<char>) -> Seq<char>
    decreases parts.len(),
{
    if parts.len() == 0 {
        Seq::empty()
    } else if parts.len() == 1 {
        parts[0]
    } else {
        join_with(parts.drop_last(), sep) + sep + parts.last()
    }
}

/// The character sequences that a list of strings holds.
pub open spec fn texts_of(items: Seq<String>) -> Seq<Seq<char>> {
    items.map_values(|t: String| t@)
}

/// Trimming the start leaves nothing, or a text that starts with a character
/// that is not white space.
proof fn lemma_trim_start_edge(s: Seq<char>)
    ensures
        trim_start_ws(s).len() == 0 || !is_white_space(trim_start_ws(s)[0]),
    decreases s.len(),
{
    if s.len() > 0 && is_white_space(s[0]) {
        lemma_trim_start_edge(s.drop_first());
    }
}

/// Trimming the end keeps a prefix, which is empty or ends with a character
/// that is not white space.
proof fn lemma_trim_end_edge(s: Seq<char>)
    ensures
        trim_end_ws(s).len() <= s.len(),
        trim_end_ws(s) == s.take(trim_end_ws(s).len() as int),
        trim_end_ws(s).len() == 0 || !is_white_space(trim_end_ws(s).last()),
    decreases s.len(),
{
    if s.len() > 0 && is_white_space(s.last()) {
        lemma_trim_end_edge(s.drop_last());
        let r = trim_end_ws(s.drop_last());
        assert(s.drop_last().take(r.len() as int) =~= s.take(r.len() as int));
    } else {
        assert(s.take(s.len() as int) =~= s);
    }
}

/// A trimmed text is empty, or neither starts nor ends with white space.
pub proof fn lemma_trimmed_edges(s: Seq<char>)
    ensures
        trimmed(s).len() == 0 || (!is_white_space(trimmed(s)[0]) && !is_white_space(
            trimmed(s).last(),
        )),
{
    let u = trim_start_ws(s);
    lemma_trim_start_edge(s);
    lemma_trim_end_edge(u);
    let t = trim_end_ws(u);
    if t.len() > 0 {
        assert(t[0] == u.take(t.len() as int)[0]);
    }
}

/// Trimming a trimmed text changes nothing.
pub proof fn lemma_trimmed_idempotent(s: Seq<char>)
    ensures
        trimmed(trimmed(s)) == trimmed(s),
{
    lemma_trimmed_edges(s);
    let t = trimmed(s);
    assert(trim_start_ws(t) == t);
    assert(trim_end_ws(t) == t);
}

/// Trimming keeps an ASCII text ASCII.
pub proof fn lemma_trimmed_ascii(s: Seq<char>)
    requires
        is_ascii_text(s),
    ensures
        is_ascii_text(trimmed(s)),
{
    lemma_trim_start_ascii(s);
    let u = trim_start_ws(s);
    lemma_trim_end_edge(u);
    let t = trim_end_ws(u);
    assert forall|i: int| 0 <= i < t.len() implies (#[trigger] t[i] as u32) < 128 by {
        assert(t[i] == u.take(t.len() as int)[i]);
        assert(u[i] as u32 == u[i] as u32);
    }
}

proof fn lemma_trim_start_ascii(s: Seq<char>)
    requires
        is_ascii_text(s),
    ensures
        is_ascii_text(trim_start_ws(s)),
    decreases s.len(),
{
    if s.len() > 0 && is_white_space(s[0]) {
        let d = s.drop_first();
        assert forall|i: int| 0 <= i < d.len() implies (#[trigger] d[i] as u32) < 128 by {
            assert(d[i] == s[i + 1]);
        }
        lemma_trim_start_ascii(d);
    }
}

} // verus!
