//! Characters of text: white space and trimming.
use vstd::prelude::*;

verus! {

/// Whether `c` has the Unicode `White_Space` property.
pub open spec fn is_white_space(c: char) -> bool {
    ('\u{9}' <= c && c <= '\u{d}') || c == ' ' || c == '\u{85}' || c == '\u{a0}' || c
        == '\u{1680}' || ('\u{2000}' <= c && c <= '\u{200a}') || c == '\u{2028}' || c
        == '\u{2029}' || c == '\u{202f}' || c == '\u{205f}' || c == '\u{3000}'
}

/// Whether `c` is one of the ASCII digits '0' to '9'.
pub open spec fn is_digit(c: char) -> bool {
    '0' <= c && c <= '9'
}

/// `s` without its leading and trailing white space.
pub open spec fn trimmed(s: Seq<char>) -> Seq<char> {
    let rest = s.subrange(trim_start(s), s.len() as int);
    rest.subrange(0, trim_end(rest))
}

/// The index of the first character of `s` that is not white space, or the
/// length of `s` when there is none.
pub open spec fn trim_start(s: Seq<char>) -> int
    decreases s.len(),
{
    if s.len() == 0 {
        0
    } else if is_white_space(s[0]) {
        1 + trim_start(s.drop_first())
    } else {
        0
    }
}

/// One past the index of the last character of `s` that is not white space,
/// or zero when there is none.
pub open spec fn trim_end(s: Seq<char>) -> int
    decreases s.len(),
{
    if s.len() == 0 {
        0
    } else if is_white_space(s.last()) {
        trim_end(s.drop_last())
    } else {
        s.len() as int
    }
}

/// Whether `c` has the Unicode `White_Space` property.
pub fn white_space(c: char) -> (r: bool)
    ensures
        r == is_white_space(c),
{
    ('\u{9}' <= c && c <= '\u{d}') || c == ' ' || c == '\u{85}' || c == '\u{a0}' || c
        == '\u{1680}' || ('\u{2000}' <= c && c <= '\u{200a}') || c == '\u{2028}' || c
        == '\u{2029}' || c == '\u{202f}' || c == '\u{205f}' || c == '\u{3000}'
}

/// The characters of `s`, in order.
pub fn chars_of(s: &str) -> (r: Vec<char>)
    ensures
        r@ == s@,
{
    let mut r: Vec<char> = Vec::new();
    for c in it: s.chars()
        invariant
            it.seq() == s@,
            r@ == it.seq().take(it.index() as int),
    {
        r.push(c);
    }
    assert(r@ =~= s@);
    r
}

proof fn lemma_trim_start_bound(s: Seq<char>)
    ensures
        0 <= trim_start(s) <= s.len(),
        forall|i: int| 0 <= i < trim_start(s) ==> is_white_space(#[trigger] s[i]),
        trim_start(s) < s.len() ==> !is_white_space(s[trim_start(s)]),
    decreases s.len(),
{
    if s.len() > 0 && is_white_space(s[0]) {
        lemma_trim_start_bound(s.drop_first());
        assert forall|i: int| 0 <= i < trim_start(s) implies is_white_space(#[trigger] s[i]) by {
            if i > 0 {
                assert(s[i] == s.drop_first()[i - 1]);
            }
        }
    }
}

proof fn lemma_trim_end_bound(s: Seq<char>)
    ensures
        0 <= trim_end(s) <= s.len(),
        forall|i: int| trim_end(s) <= i < s.len() ==> is_white_space(#[trigger] s[i]),
        trim_end(s) > 0 ==> !is_white_space(s[trim_end(s) - 1]),
    decreases s.len(),
{
    if s.len() > 0 && is_white_space(s.last()) {
        lemma_trim_end_bound(s.drop_last());
        assert forall|i: int| trim_end(s) <= i < s.len() implies is_white_space(
            #[trigger] s[i],
        ) by {
            if i < s.len() - 1 {
                assert(s[i] == s.drop_last()[i]);
            }
        }
    }
}

pub proof fn lemma_trim_start_unique(s: Seq<char>, k: int)
    requires
        0 <= k <= s.len(),
        forall|i: int| 0 <= i < k ==> is_white_space(#[trigger] s[i]),
        k < s.len() ==> !is_white_space(s[k]),
    ensures
        trim_start(s) == k,
{
    lemma_trim_start_bound(s);
    if trim_start(s) < k {
        assert(is_white_space(s[trim_start(s)]));
    } else if trim_start(s) > k {
        assert(is_white_space(s[k]));
    }
}

pub proof fn lemma_trim_end_unique(s: Seq<char>, k: int)
    requires
        0 <= k <= s.len(),
        forall|i: int| k <= i < s.len() ==> is_white_space(#[trigger] s[i]),
        k > 0 ==> !is_white_space(s[k - 1]),
    ensures
        trim_end(s) == k,
{
    lemma_trim_end_bound(s);
    if trim_end(s) < k {
        assert(is_white_space(s[k - 1]));
    } else if trim_end(s) > k {
        assert(is_white_space(s[trim_end(s) - 1]));
    }
}

/// The bounds of `t` without its leading and trailing white space.
pub fn trim_bounds(t: &[char]) -> (r: (usize, usize))
    ensures
        r.0 <= r.1 <= t@.len(),
        t@.subrange(r.0 as int, r.1 as int) == trimmed(t@),
{
    let n = t.len();
    let mut start: usize = 0;
    while start < n && white_space(t[start])
        invariant
            start <= n == t@.len(),
            forall|i: int| 0 <= i < start ==> is_white_space(#[trigger] t@[i]),
        decreases n - start,
    {
        start += 1;
    }
    proof {
        lemma_trim_start_unique(t@, start as int);
    }
    let mut end: usize = n;
    while end > start && white_space(t[end - 1])
        invariant
            start <= end <= n == t@.len(),
            forall|i: int| end <= i < n ==> is_white_space(#[trigger] t@[i]),
        decreases end,
    {
        end -= 1;
    }
    proof {
        let rest = t@.subrange(start as int, n as int);
        assert forall|i: int| end - start <= i < rest.len() implies is_white_space(
            #[trigger] rest[i],
        ) by {
            assert(rest[i] == t@[start + i]);
        }
        lemma_trim_end_unique(rest, end - start);
        assert(t@.subrange(start as int, end as int) =~= rest.subrange(0, end - start));
    }
    (start, end)
}

} // verus!
