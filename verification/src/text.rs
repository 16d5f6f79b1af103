//! Character-level text operations: white space, trimming and prefixes.
use vstd::prelude::*;

verus! {

/// The characters with the Unicode property White_Space, which is what
/// `char::is_whitespace` tests.
pub open spec fn is_space(c: char) -> bool {
    ||| '\t' <= c <= '\r'
    ||| c == ' '
    ||| c == '\u{85}'
    ||| c == '\u{a0}'
    ||| c == '\u{1680}'
    ||| '\u{2000}' <= c <= '\u{200a}'
    ||| c == '\u{2028}'
    ||| c == '\u{2029}'
    ||| c == '\u{202f}'
    ||| c == '\u{205f}'
    ||| c == '\u{3000}'
}

/// Whether `c` is white space.
pub fn is_whitespace(c: char) -> (res: bool)
    ensures
        res == is_space(c),
{
    ('\t' <= c && c <= '\r') || c == ' ' || c == '\u{85}' || c == '\u{a0}' || c == '\u{1680}' || ('\u{2000}'
        <= c && c <= '\u{200a}') || c == '\u{2028}' || c == '\u{2029}' || c == '\u{202f}' || c
        == '\u{205f}' || c == '\u{3000}'
}

/// `s` without its leading white space.
pub open spec fn trim_start_spec(s: Seq<char>) -> Seq<char>
    decreases s.len(),
{
    if s.len() > 0 && is_space(s[0]) {
        trim_start_spec(s.drop_first())
    } else {
        s
    }
}

/// `s` without its trailing white space.
pub open spec fn trim_end_spec(s: Seq<char>) -> Seq<char>
    decreases s.len(),
{
    if s.len() > 0 && is_space(s.last()) {
        trim_end_spec(s.drop_last())
    } else {
        s
    }
}

/// `s` without leading and trailing white space.
pub open spec fn trim_spec(s: Seq<char>) -> Seq<char> {
    trim_end_spec(trim_start_spec(s))
}

/// Whether `s` begins with `prefix`.
pub open spec fn has_prefix(s: Seq<char>, prefix: Seq<char>) -> bool {
    prefix.len() <= s.len() && s.subrange(0, prefix.len() as int) == prefix
}

/// `s` with `pat` taken off its front as often as it stands there.
pub open spec fn strip_all_prefixes(s: Seq<char>, pat: Seq<char>) -> Seq<char>
    decreases s.len(),
{
    if pat.len() > 0 && has_prefix(s, pat) {
        strip_all_prefixes(s.subrange(pat.len() as int, s.len() as int), pat)
    } else {
        s
    }
}

/// `s` with `pat` taken off its end as often as it stands there.
pub open spec fn strip_all_suffixes(s: Seq<char>, pat: Seq<char>) -> Seq<char>
    decreases s.len(),
{
    if pat.len() > 0 && pat.len() <= s.len() && s.subrange(s.len() - pat.len(), s.len() as int)
        == pat {
        strip_all_suffixes(s.subrange(0, s.len() - pat.len()), pat)
    } else {
        s
    }
}

/// The characters of `s`.
pub fn chars_of(s: &str) -> (res: Vec<char>)
    ensures
        res@ == s@,
{
    let mut v: Vec<char> = Vec::new();
    for c in it: s.chars()
        invariant
            v@ == it.seq().take(it.index() as int),
    {
        v.push(c);
    }
    v
}

} // verus!

verus! {

/// The position of the first character of `cs[from..]` that is not white
/// space, or the length when there is none; trimming the front of `cs[from..]`
/// is the same as taking `cs` from that position.
pub fn skip_spaces(cs: &Vec<char>, from: usize) -> (res: usize)
    requires
        from <= cs@.len(),
    ensures
        from <= res <= cs@.len(),
        trim_start_spec(cs@.subrange(from as int, cs@.len() as int)) == cs@.subrange(res as int, cs@.len() as int),
{
    let n = cs.len();
    let mut a = from;
    while a < n && is_whitespace(cs[a])
        invariant
            from <= a <= n,
            n == cs@.len(),
            trim_start_spec(cs@.subrange(from as int, n as int)) == trim_start_spec(cs@.subrange(a as int, n as int)),
        decreases n - a,
    {
        assert(cs@.subrange(a as int, n as int).drop_first() =~= cs@.subrange(a + 1, n as int));
        a += 1;
    }
    a
}

/// The end of `cs[..to]` without its trailing white space.
pub fn back_spaces(cs: &Vec<char>, from: usize, to: usize) -> (res: usize)
    requires
        from <= to <= cs@.len(),
    ensures
        from <= res <= to,
        trim_end_spec(cs@.subrange(from as int, to as int)) == cs@.subrange(from as int, res as int),
{
    let mut b = to;
    while b > from && is_whitespace(cs[b - 1])
        invariant
            from <= b <= to,
            to <= cs@.len(),
            trim_end_spec(cs@.subrange(from as int, to as int)) == trim_end_spec(cs@.subrange(from as int, b as int)),
        decreases b - from,
    {
        assert(cs@.subrange(from as int, b as int).drop_last() =~= cs@.subrange(from as int, b - 1));
        b -= 1;
    }
    b
}

/// `s` without leading and trailing white space, as `str::trim` gives it.
pub fn trim(s: &str) -> (res: String)
    ensures
        res@ == trim_spec(s@),
{
    let cs = chars_of(s);
    let a = skip_spaces(&cs, 0);
    assert(cs@.subrange(0, cs@.len() as int) =~= cs@);
    let b = back_spaces(&cs, a, cs.len());
    String::from_str(s.substring_char(a, b))
}

} // verus!

verus! {

/// The position of the first `c` in `s`, or the length of `s` when there is none.
pub open spec fn char_pos(s: Seq<char>, c: char) -> int
    decreases s.len(),
{
    if s.len() == 0 {
        0
    } else if s[0] == c {
        0
    } else {
        1 + char_pos(s.drop_first(), c)
    }
}

/// `char_pos` is the first position that holds `c`.
pub proof fn lemma_char_pos(s: Seq<char>, c: char, i: int)
    requires
        0 <= i <= s.len(),
        forall|j: int| 0 <= j < i ==> s[j] != c,
        i == s.len() || s[i] == c,
    ensures
        char_pos(s, c) == i,
    decreases i,
{
    if i > 0 {
        let rest = s.drop_first();
        assert forall|j: int| 0 <= j < i - 1 implies rest[j] != c by {
            assert(rest[j] == s[j + 1]);
        }
        lemma_char_pos(rest, c, i - 1);
    }
}

/// The first position at or after `from` and before `to` that holds `c`, or `to`.
pub fn find_char(cs: &Vec<char>, from: usize, to: usize, c: char) -> (res: usize)
    requires
        from <= to <= cs@.len(),
    ensures
        from <= res <= to,
        char_pos(cs@.subrange(from as int, to as int), c) == res - from,
{
    let mut i = from;
    while i < to && cs[i] != c
        invariant
            from <= i <= to,
            to <= cs@.len(),
            forall|j: int| from <= j < i ==> cs@[j] != c,
        decreases to - i,
    {
        i += 1;
    }
    proof {
        let sub = cs@.subrange(from as int, to as int);
        assert forall|j: int| 0 <= j < i - from implies sub[j] != c by {
            assert(sub[j] == cs@[from + j]);
        }
        lemma_char_pos(sub, c, i - from);
    }
    i
}

/// Whether `cs[from..to]` begins with `pat`.
pub fn has_prefix_at(cs: &Vec<char>, from: usize, to: usize, pat: &Vec<char>) -> (res: bool)
    requires
        from <= to <= cs@.len(),
    ensures
        res == has_prefix(cs@.subrange(from as int, to as int), pat@),
{
    if pat.len() > to - from {
        return false;
    }
    let mut k: usize = 0;
    while k < pat.len()
        invariant
            k <= pat@.len(),
            pat@.len() <= to - from,
            to <= cs@.len(),
            forall|j: int| 0 <= j < k ==> cs@[from + j] == pat@[j],
        decreases pat@.len() - k,
    {
        if cs[from + k] != pat[k] {
            assert(cs@.subrange(from as int, to as int).subrange(0, pat@.len() as int)[k as int] != pat@[k as int]);
            return false;
        }
        k += 1;
    }
    assert(cs@.subrange(from as int, to as int).subrange(0, pat@.len() as int) =~= pat@);
    true
}

/// The start of `cs[from..to]` with `pat` taken off its front as often as it
/// stands there.
pub fn skip_prefixes(cs: &Vec<char>, from: usize, to: usize, pat: &Vec<char>) -> (res: usize)
    requires
        from <= to <= cs@.len(),
    ensures
        from <= res <= to,
        strip_all_prefixes(cs@.subrange(from as int, to as int), pat@) == cs@.subrange(res as int, to as int),
{
    if pat.len() == 0 {
        return from;
    }
    let mut a = from;
    while has_prefix_at(cs, a, to, pat)
        invariant
            from <= a <= to,
            to <= cs@.len(),
            pat@.len() > 0,
            strip_all_prefixes(cs@.subrange(from as int, to as int), pat@) == strip_all_prefixes(
                cs@.subrange(a as int, to as int),
                pat@,
            ),
        decreases to - a,
    {
        assert(cs@.subrange(a as int, to as int).subrange(pat@.len() as int, (to - a) as int) =~= cs@.subrange(
            a + pat@.len(),
            to as int,
        ));
        a = a + pat.len();
    }
    a
}

/// The start of `cs[from..to]` without its leading white space.
pub fn skip_spaces_to(cs: &Vec<char>, from: usize, to: usize) -> (res: usize)
    requires
        from <= to <= cs@.len(),
    ensures
        from <= res <= to,
        trim_start_spec(cs@.subrange(from as int, to as int)) == cs@.subrange(res as int, to as int),
{
    let mut a = from;
    while a < to && is_whitespace(cs[a])
        invariant
            from <= a <= to,
            to <= cs@.len(),
            trim_start_spec(cs@.subrange(from as int, to as int)) == trim_start_spec(cs@.subrange(a as int, to as int)),
        decreases to - a,
    {
        assert(cs@.subrange(a as int, to as int).drop_first() =~= cs@.subrange(a + 1, to as int));
        a += 1;
    }
    a
}

} // verus!

verus! {

/// Trimming the front leaves an empty text or one that begins with a
/// character that is no white space.
pub proof fn lemma_trim_start(s: Seq<char>)
    ensures
        trim_start_spec(s).len() > 0 ==> !is_space(trim_start_spec(s)[0]),
        trim_start_spec(s).len() <= s.len(),
        trim_start_spec(s) == s.subrange(s.len() - trim_start_spec(s).len(), s.len() as int),
    decreases s.len(),
{
    if s.len() > 0 && is_space(s[0]) {
        lemma_trim_start(s.drop_first());
        let t = trim_start_spec(s.drop_first());
        assert(s.drop_first().subrange(s.len() - 1 - t.len(), s.len() - 1) =~= s.subrange(s.len() - t.len(), s.len() as int));
    } else {
        assert(s.subrange(0, s.len() as int) =~= s);
    }
}

/// Trimming the end leaves a prefix that is empty or ends with a character
/// that is no white space.
pub proof fn lemma_trim_end(s: Seq<char>)
    ensures
        trim_end_spec(s).len() > 0 ==> !is_space(trim_end_spec(s).last()),
        trim_end_spec(s).len() <= s.len(),
        trim_end_spec(s) == s.subrange(0, trim_end_spec(s).len() as int),
    decreases s.len(),
{
    if s.len() > 0 && is_space(s.last()) {
        lemma_trim_end(s.drop_last());
        let t = trim_end_spec(s.drop_last());
        assert(s.drop_last().subrange(0, t.len() as int) =~= s.subrange(0, t.len() as int));
    } else {
        assert(s.subrange(0, s.len() as int) =~= s);
    }
}

/// A trimmed text neither begins nor ends with white space, and trimming it
/// again changes nothing.
pub proof fn law_trim(s: Seq<char>)
    ensures
        trim_spec(s).len() > 0 ==> !is_space(trim_spec(s)[0]) && !is_space(trim_spec(s).last()),
        trim_spec(trim_spec(s)) == trim_spec(s),
{
    let a = trim_start_spec(s);
    lemma_trim_start(s);
    lemma_trim_end(a);
    let t = trim_end_spec(a);
    if t.len() > 0 {
        assert(t[0] == a[0]);
    }
    lemma_trim_start(t);
    assert(trim_start_spec(t) == t);
    lemma_trim_end(t);
}

/// A copy of a list of texts.
pub fn copy_texts(list: &Vec<String>) -> (res: Vec<String>)
    ensures
        res.deep_view() == list.deep_view(),
{
    let mut out: Vec<String> = Vec::new();
    let mut i: usize = 0;
    while i < list.len()
        invariant
            i <= list@.len(),
            out.deep_view() =~= list.deep_view().take(i as int),
            out@.len() == i,
        decreases list@.len() - i,
    {
        out.push(list[i].clone());
        i += 1;
        assert(out.deep_view() =~= list.deep_view().take(i as int)) by {
            assert(out.deep_view()[i - 1] == out@[i - 1]@);
        }
    }
    assert(list.deep_view().take(i as int) =~= list.deep_view());
    out
}

} // verus!
