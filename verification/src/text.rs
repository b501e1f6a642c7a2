//! Whitespace and trimming of titles.

use vstd::prelude::*;
use vstd::string::StrSliceExecFns;

verus! {

/// Whether `c` is a whitespace character: one of the code points that
/// Unicode gives the property `White_Space`.
pub open spec fn is_space(c: char) -> bool {
    let n = c as u32;
    ||| 0x09 <= n <= 0x0D
    ||| n == 0x20
    ||| n == 0x85
    ||| n == 0xA0
    ||| n == 0x1680
    ||| 0x2000 <= n <= 0x200A
    ||| n == 0x2028
    ||| n == 0x2029
    ||| n == 0x202F
    ||| n == 0x205F
    ||| n == 0x3000
}

/// The number of whitespace characters that `s` starts with.
pub open spec fn leading_spaces(s: Seq<char>) -> nat
    decreases s.len(),
{
    if s.len() > 0 && is_space(s.first()) {
        1 + leading_spaces(s.drop_first())
    } else {
        0
    }
}

/// The number of whitespace characters that `s` ends with.
pub open spec fn trailing_spaces(s: Seq<char>) -> nat
    decreases s.len(),
{
    if s.len() > 0 && is_space(s.last()) {
        1 + trailing_spaces(s.drop_last())
    } else {
        0
    }
}

/// `s` without the whitespace at its two ends.
pub open spec fn trimmed(s: Seq<char>) -> Seq<char> {
    if leading_spaces(s) == s.len() {
        Seq::empty()
    } else {
        s.subrange(leading_spaces(s) as int, s.len() - trailing_spaces(s))
    }
}

/// Whether `s` holds nothing but whitespace.
pub open spec fn is_blank(s: Seq<char>) -> bool {
    forall|i: int| 0 <= i < s.len() ==> is_space(#[trigger] s[i])
}

/// `leading_spaces(s)` is the index of the first character of `s` that is no
/// whitespace, or the length of `s` where there is none.
pub proof fn lemma_leading_spaces(s: Seq<char>, a: int)
    requires
        0 <= a <= s.len(),
        forall|i: int| 0 <= i < a ==> is_space(#[trigger] s[i]),
        a < s.len() ==> !is_space(s[a]),
    ensures
        leading_spaces(s) == a,
    decreases s.len(),
{
    if a > 0 {
        let t = s.drop_first();
        assert forall|i: int| 0 <= i < a - 1 implies is_space(#[trigger] t[i]) by {
            assert(t[i] == s[i + 1]);
        }
        lemma_leading_spaces(t, a - 1);
    }
}

/// `trailing_spaces(s)` counts back to the last character of `s` that is no
/// whitespace.
pub proof fn lemma_trailing_spaces(s: Seq<char>, b: int)
    requires
        0 <= b <= s.len(),
        forall|i: int| b <= i < s.len() ==> is_space(#[trigger] s[i]),
        b > 0 ==> !is_space(s[b - 1]),
    ensures
        trailing_spaces(s) == s.len() - b,
    decreases s.len(),
{
    if b < s.len() {
        let t = s.drop_last();
        assert forall|i: int| b <= i < t.len() implies is_space(#[trigger] t[i]) by {
            assert(t[i] == s[i]);
        }
        lemma_trailing_spaces(t, b);
    }
}

/// The characters that `leading_spaces` counts are whitespace, and the one
/// after them is not.
pub proof fn lemma_leading_spaces_bounds(s: Seq<char>)
    ensures
        leading_spaces(s) <= s.len(),
        forall|i: int| 0 <= i < leading_spaces(s) ==> is_space(#[trigger] s[i]),
        leading_spaces(s) < s.len() ==> !is_space(s[leading_spaces(s) as int]),
    decreases s.len(),
{
    if s.len() > 0 && is_space(s.first()) {
        let t = s.drop_first();
        lemma_leading_spaces_bounds(t);
        assert forall|i: int| 0 <= i < leading_spaces(s) implies is_space(#[trigger] s[i]) by {
            if i > 0 {
                assert(s[i] == t[i - 1]);
            }
        }
        if leading_spaces(s) < s.len() {
            assert(s[leading_spaces(s) as int] == t[leading_spaces(t) as int]);
        }
    }
}

/// The characters that `trailing_spaces` counts are whitespace, and the one
/// before them is not.
pub proof fn lemma_trailing_spaces_bounds(s: Seq<char>)
    ensures
        trailing_spaces(s) <= s.len(),
        forall|i: int| s.len() - trailing_spaces(s) <= i < s.len() ==> is_space(#[trigger] s[i]),
        trailing_spaces(s) < s.len() ==> !is_space(s[s.len() - trailing_spaces(s) - 1]),
    decreases s.len(),
{
    if s.len() > 0 && is_space(s.last()) {
        let t = s.drop_last();
        lemma_trailing_spaces_bounds(t);
        assert forall|i: int| s.len() - trailing_spaces(s) <= i < s.len() implies is_space(
            #[trigger] s[i],
        ) by {
            if i < s.len() - 1 {
                assert(s[i] == t[i]);
            }
        }
        if trailing_spaces(s) < s.len() {
            assert(s[s.len() - trailing_spaces(s) - 1] == t[t.len() - trailing_spaces(t) - 1]);
        }
    }
}

/// Whether `t` can stand as a title: it is not empty, and neither starts nor
/// ends with whitespace.
pub open spec fn is_title(t: Seq<char>) -> bool {
    t.len() > 0 && !is_space(t.first()) && !is_space(t.last())
}

/// Trimming cuts a piece out of `s`: what stands before and after the piece is
/// whitespace, and the piece neither starts nor ends with whitespace.
pub proof fn lemma_trimmed_is_middle(s: Seq<char>)
    ensures
        !is_blank(s) ==> leading_spaces(s) + trimmed(s).len() + trailing_spaces(s) == s.len(),
        forall|i: int|
            0 <= i < trimmed(s).len() ==> #[trigger] trimmed(s)[i] == s[leading_spaces(s) + i],
        trimmed(s).len() > 0 ==> is_title(trimmed(s)),
{
    lemma_leading_spaces_bounds(s);
    lemma_trailing_spaces_bounds(s);
    let a = leading_spaces(s) as int;
    let b = s.len() - trailing_spaces(s);
    if a < s.len() {
        // the character at `a` is no whitespace, so the trailing run ends after it
        if b <= a {
            assert(is_space(s[a]));
        }
        assert(a < b);
        assert(trimmed(s).first() == s[a]);
        assert(trimmed(s).last() == s[b - 1]);
    }
}

/// Trimming leaves nothing exactly where there was nothing but whitespace.
pub proof fn lemma_trimmed_empty_iff_blank(s: Seq<char>)
    ensures
        trimmed(s).len() == 0 <==> is_blank(s),
{
    lemma_leading_spaces_bounds(s);
    lemma_trailing_spaces_bounds(s);
    let a = leading_spaces(s) as int;
    if is_blank(s) {
        lemma_leading_spaces(s, s.len() as int);
    } else if a < s.len() && s.len() - trailing_spaces(s) <= a {
        assert(is_space(s[a]));
    }
}

/// Trimming changes nothing in a title, and only what it leaves unchanged and
/// is not empty is a title.
pub proof fn lemma_title_iff_trimmed_fixpoint(t: Seq<char>)
    ensures
        is_title(t) <==> (trimmed(t) == t && t.len() > 0),
{
    if is_title(t) {
        lemma_leading_spaces(t, 0);
        lemma_trailing_spaces(t, t.len() as int);
        assert(trimmed(t) =~= t);
    }
    if trimmed(t) == t && t.len() > 0 {
        lemma_trimmed_is_middle(t);
    }
}

/// Trimming twice is trimming once.
pub proof fn lemma_trimmed_idempotent(s: Seq<char>)
    ensures
        trimmed(trimmed(s)) == trimmed(s),
{
    lemma_trimmed_is_middle(s);
    if trimmed(s).len() > 0 {
        lemma_title_iff_trimmed_fixpoint(trimmed(s));
    } else {
        assert(trimmed(trimmed(s)) =~= trimmed(s));
    }
}

/// Whether `c` is a whitespace character.
pub fn is_whitespace(c: char) -> (r: bool)
    ensures
        r == is_space(c),
{
    let n: u32 = c as u32;
    (0x09 <= n && n <= 0x0D) || n == 0x20 || n == 0x85 || n == 0xA0 || n == 0x1680 || (0x2000 <= n
        && n <= 0x200A) || n == 0x2028 || n == 0x2029 || n == 0x202F || n == 0x205F || n == 0x3000
}

/// Whether `s` holds nothing but whitespace.
pub fn is_blank_text(s: &str) -> (r: bool)
    ensures
        r == is_blank(s@),
{
    let mut blank: bool = true;
    for c in it: s.chars()
        invariant
            it.seq() == s@,
            blank == forall|j: int| 0 <= j < it.index() ==> is_space(#[trigger] s@[j]),
    {
        if !is_whitespace(c) {
            blank = false;
        }
    }
    blank
}

/// A copy of `s` without the whitespace at its two ends.
pub fn trim(s: &str) -> (r: String)
    ensures
        r@ == trimmed(s@),
{
    let n: usize = s.unicode_len();
    let mut seen: bool = false;
    let mut start: usize = 0;
    let mut end: usize = 0;
    let mut i: usize = 0;
    for c in it: s.chars()
        invariant
            n == s@.len(),
            i == it.index(),
            it.seq() == s@,
            !seen ==> forall|j: int| 0 <= j < i ==> is_space(#[trigger] s@[j]),
            seen ==> start < end <= i,
            seen ==> forall|j: int| 0 <= j < start ==> is_space(#[trigger] s@[j]),
            seen ==> !is_space(s@[start as int]),
            seen ==> !is_space(s@[end - 1]),
            seen ==> forall|j: int| end <= j < i ==> is_space(#[trigger] s@[j]),
    {
        if !is_whitespace(c) {
            if !seen {
                seen = true;
                start = i;
            }
            end = i + 1;
        }
        i = i + 1;
    }
    if seen {
        proof {
            lemma_leading_spaces(s@, start as int);
            lemma_trailing_spaces(s@, end as int);
        }
        s.substring_char(start, end).to_owned()
    } else {
        proof {
            lemma_leading_spaces(s@, s@.len() as int);
        }
        String::new()
    }
}

} // verus!
