//! Character-level operations on text, specified over `Seq<char>`.
//!
//! Texts are short lines typed by a user, so the functions here favour
//! plain loops over characters; each costs a pass over the text per
//! character looked at.

use vstd::prelude::*;
use vstd::string::*;

verus! {

/// Whether `c` is white space: one of the twenty-five characters that
/// Unicode marks `White_Space`, which are the ones `char::is_whitespace`
/// accepts.
pub open spec fn is_whitespace(c: char) -> bool {
    let u = c as u32;
    ||| 0x09 <= u <= 0x0d
    ||| u == 0x20
    ||| u == 0x85
    ||| u == 0xa0
    ||| u == 0x1680
    ||| 0x2000 <= u <= 0x200a
    ||| u == 0x2028
    ||| u == 0x2029
    ||| u == 0x202f
    ||| u == 0x205f
    ||| u == 0x3000
}

/// The sets of characters that delimit something in a command line.
#[derive(Clone, Copy, Debug, PartialEq, Eq)]
pub enum CharClass {
    /// `#` or `@`: the end of a card's name.
    Marker,
    /// `@`: the end of a tag list.
    At,
    /// `,`: the separator inside a tag or folder list.
    Comma,
    /// White space: the end of a command word.
    Whitespace,
}

impl CharClass {
    /// Whether `c` belongs to the class.
    pub open spec fn holds(self, c: char) -> bool {
        match self {
            CharClass::Marker => c == '#' || c == '@',
            CharClass::At => c == '@',
            CharClass::Comma => c == ',',
            CharClass::Whitespace => is_whitespace(c),
        }
    }

    /// Tests whether `c` belongs to the class.
    pub fn contains(self, c: char) -> (b: bool)
        ensures
            b == self.holds(c),
    {
        match self {
            CharClass::Marker => c == '#' || c == '@',
            CharClass::At => c == '@',
            CharClass::Comma => c == ',',
            CharClass::Whitespace => char_is_whitespace(c),
        }
    }
}

/// The number of characters of `s` that stand before the first one in
/// `class`; `s.len()` if there is none.
pub open spec fn span(s: Seq<char>, class: CharClass) -> nat
    decreases s.len(),
{
    if s.len() == 0 || class.holds(s[0]) {
        0
    } else {
        1 + span(s.drop_first(), class)
    }
}

/// The number of white-space characters at the start of `s`.
pub open spec fn leading_whitespace(s: Seq<char>) -> nat
    decreases s.len(),
{
    if s.len() > 0 && is_whitespace(s[0]) {
        1 + leading_whitespace(s.drop_first())
    } else {
        0
    }
}

/// The number of white-space characters at the end of `s`.
pub open spec fn trailing_whitespace(s: Seq<char>) -> nat
    decreases s.len(),
{
    if s.len() > 0 && is_whitespace(s.last()) {
        1 + trailing_whitespace(s.drop_last())
    } else {
        0
    }
}

/// `s` without the white space at its start.
pub open spec fn trimmed_start(s: Seq<char>) -> Seq<char> {
    s.skip(leading_whitespace(s) as int)
}

/// `s` without the white space at its start and at its end.
pub open spec fn trimmed(s: Seq<char>) -> Seq<char> {
    let t = trimmed_start(s);
    t.take(t.len() - trailing_whitespace(t))
}

/// `span` never runs past the end, stops on a character of the class, and
/// passes over none.
pub proof fn lemma_span(s: Seq<char>, class: CharClass)
    ensures
        span(s, class) <= s.len(),
        span(s, class) < s.len() ==> class.holds(s[span(s, class) as int]),
        forall|i: int| 0 <= i < span(s, class) ==> !class.holds(#[trigger] s[i]),
    decreases s.len(),
{
    if s.len() == 0 || class.holds(s[0]) {
    } else {
        let t = s.drop_first();
        lemma_span(t, class);
        assert forall|i: int| 0 <= i < span(s, class) implies !class.holds(#[trigger] s[i]) by {
            if i > 0 {
                assert(s[i] == t[i - 1]);
            }
        }
    }
}

/// An index that stops the scan and has nothing of the class before it is
/// the span.
pub proof fn lemma_span_unique(s: Seq<char>, class: CharClass, k: int)
    requires
        0 <= k <= s.len(),
        k < s.len() ==> class.holds(s[k]),
        forall|i: int| 0 <= i < k ==> !class.holds(#[trigger] s[i]),
    ensures
        span(s, class) == k,
    decreases s.len(),
{
    if k == 0 {
    } else {
        assert(!class.holds(s[0]));
        let t = s.drop_first();
        assert forall|i: int| 0 <= i < k - 1 implies !class.holds(#[trigger] t[i]) by {
            assert(t[i] == s[i + 1]);
        }
        lemma_span_unique(t, class, k - 1);
    }
}

/// The leading white space is white space, and stops at something else.
pub proof fn lemma_leading_bound(s: Seq<char>)
    ensures
        leading_whitespace(s) <= s.len(),
        leading_whitespace(s) < s.len() ==> !is_whitespace(s[leading_whitespace(s) as int]),
    decreases s.len(),
{
    if s.len() > 0 && is_whitespace(s[0]) {
        lemma_leading_bound(s.drop_first());
    }
}

/// The leading white space of `s` ends at `k` if everything before `k` is
/// white space and `k` is the end or holds something else.
pub proof fn lemma_leading_whitespace(s: Seq<char>, k: int)
    requires
        0 <= k <= s.len(),
        k < s.len() ==> !is_whitespace(s[k]),
        forall|i: int| 0 <= i < k ==> is_whitespace(#[trigger] s[i]),
    ensures
        leading_whitespace(s) == k,
    decreases s.len(),
{
    if k > 0 {
        assert(is_whitespace(s[0]));
        let t = s.drop_first();
        assert forall|i: int| 0 <= i < k - 1 implies is_whitespace(#[trigger] t[i]) by {
            assert(t[i] == s[i + 1]);
        }
        lemma_leading_whitespace(t, k - 1);
    }
}

/// The trailing white space is white space, and is preceded by something
/// else.
pub proof fn lemma_trailing_bound(s: Seq<char>)
    ensures
        trailing_whitespace(s) <= s.len(),
        trailing_whitespace(s) < s.len() ==> !is_whitespace(
            s[s.len() - trailing_whitespace(s) - 1],
        ),
    decreases s.len(),
{
    if s.len() > 0 && is_whitespace(s.last()) {
        let t = s.drop_last();
        lemma_trailing_bound(t);
        if trailing_whitespace(t) < t.len() {
            assert(t[t.len() - trailing_whitespace(t) - 1] == s[s.len() - trailing_whitespace(s)
                - 1]);
        }
    }
}

/// Every character of the trailing white space is white space.
pub proof fn lemma_trailing_is_whitespace(s: Seq<char>, i: int)
    requires
        0 <= i,
        s.len() - trailing_whitespace(s) <= i < s.len(),
    ensures
        is_whitespace(s[i]),
    decreases s.len(),
{
    if i < s.len() - 1 {
        lemma_trailing_is_whitespace(s.drop_last(), i);
    }
}

/// The trailing white space of `s` has `k` characters if the last `k` are
/// white space and the one before them, if any, is not.
pub proof fn lemma_trailing_whitespace(s: Seq<char>, k: int)
    requires
        0 <= k <= s.len(),
        k < s.len() ==> !is_whitespace(s[s.len() - k - 1]),
        forall|i: int| s.len() - k <= i < s.len() ==> is_whitespace(#[trigger] s[i]),
    ensures
        trailing_whitespace(s) == k,
    decreases s.len(),
{
    if k > 0 {
        assert(is_whitespace(s[s.len() - 1]));
        let t = s.drop_last();
        assert forall|i: int| t.len() - (k - 1) <= i < t.len() implies is_whitespace(
            #[trigger] t[i],
        ) by {
            assert(t[i] == s[i]);
        }
        lemma_trailing_whitespace(t, k - 1);
    }
}

/// What `trimmed` leaves is a part of the text: its characters are those
/// that follow the leading white space.
pub proof fn lemma_trimmed_is_part(s: Seq<char>)
    ensures
        leading_whitespace(s) + trimmed(s).len() <= s.len(),
        forall|j: int|
            0 <= j < trimmed(s).len() ==> #[trigger] trimmed(s)[j] == s[leading_whitespace(s) + j],
{
    lemma_leading_bound(s);
    lemma_trailing_bound(trimmed_start(s));
}

/// What `trimmed` leaves has no white space at either end.
pub proof fn lemma_trimmed_ends(s: Seq<char>)
    ensures
        trimmed(s).len() > 0 ==> !is_whitespace(trimmed(s).first()) && !is_whitespace(
            trimmed(s).last(),
        ),
        trimmed(s).len() <= s.len(),
{
    let a = leading_whitespace(s) as int;
    lemma_leading_bound(s);
    let t = trimmed_start(s);
    lemma_trailing_bound(t);
    let b = trailing_whitespace(t) as int;
    if trimmed(s).len() > 0 {
        assert(trimmed(s).first() == s[a]);
        assert(trimmed(s).last() == t[t.len() - b - 1]);
    }
}

/// Trimming a text that begins with something other than white space
/// leaves that beginning where it is.
pub proof fn lemma_trimmed_keeps_first(s: Seq<char>)
    requires
        s.len() > 0,
        !is_whitespace(s[0]),
    ensures
        trimmed(s).len() > 0,
        trimmed(s)[0] == s[0],
{
    assert(trimmed_start(s) =~= s);
    lemma_trailing_bound(s);
    if trailing_whitespace(s) == s.len() {
        lemma_trailing_is_whitespace(s, 0);
    }
}

/// A text with no white space at either end is left as it is, and trimming
/// twice is trimming once.
pub proof fn lemma_trimmed_is_idempotent(s: Seq<char>)
    ensures
        s.len() == 0 || (!is_whitespace(s.first()) && !is_whitespace(s.last())) ==> trimmed(s)
            == s,
        trimmed(trimmed(s)) == trimmed(s),
{
    if s.len() > 0 && !is_whitespace(s.first()) && !is_whitespace(s.last()) {
        assert(trimmed_start(s) =~= s);
        assert(trimmed(s) =~= s);
    }
    if s.len() == 0 {
        assert(trimmed(s) =~= s);
    }
    let t = trimmed(s);
    lemma_trimmed_ends(s);
    if t.len() > 0 {
        assert(trimmed_start(t) =~= t);
        assert(trimmed(t) =~= t);
    } else {
        assert(trimmed(t) =~= t);
    }
}

/// Tests whether `c` is white space.
pub fn char_is_whitespace(c: char) -> (b: bool)
    ensures
        b == is_whitespace(c),
{
    let u = c as u32;
    (0x09 <= u && u <= 0x0d) || u == 0x20 || u == 0x85 || u == 0xa0 || u == 0x1680 || (0x2000 <= u
        && u <= 0x200a) || u == 0x2028 || u == 0x2029 || u == 0x202f || u == 0x205f || u == 0x3000
}

/// Counts the characters of `s` before the first one in `class`.
pub fn find(s: &str, class: CharClass) -> (k: usize)
    ensures
        k == span(s@, class),
        k <= s@.len(),
{
    let n = s.unicode_len();
    let mut k: usize = 0;
    while k < n && !class.contains(s.get_char(k))
        invariant
            n == s@.len(),
            k <= n,
            forall|i: int| 0 <= i < k ==> !class.holds(#[trigger] s@[i]),
        decreases n - k,
    {
        k += 1;
    }
    proof {
        lemma_span_unique(s@, class, k as int);
    }
    k
}

/// Removes the white space at both ends of `s`.
pub fn trim(s: &str) -> (t: &str)
    ensures
        t@ == trimmed(s@),
{
    let n = s.unicode_len();
    let mut a: usize = 0;
    while a < n && char_is_whitespace(s.get_char(a))
        invariant
            n == s@.len(),
            a <= n,
            forall|i: int| 0 <= i < a ==> is_whitespace(#[trigger] s@[i]),
        decreases n - a,
    {
        a += 1;
    }
    let mut b: usize = n;
    while b > a && char_is_whitespace(s.get_char(b - 1))
        invariant
            n == s@.len(),
            a <= b <= n,
            forall|i: int| b <= i < n ==> is_whitespace(#[trigger] s@[i]),
        decreases b - a,
    {
        b -= 1;
    }
    proof {
        lemma_leading_whitespace(s@, a as int);
        let t = trimmed_start(s@);
        assert(t == s@.skip(a as int));
        if b > a {
            assert(t[t.len() - (n - b) - 1] == s@[b - 1]);
        }
        assert forall|i: int| t.len() - (n - b) <= i < t.len() implies is_whitespace(
            #[trigger] t[i],
        ) by {
            assert(t[i] == s@[i + a]);
        }
        lemma_trailing_whitespace(t, n - b);
        assert(t.take(t.len() - (n - b)) == s@.subrange(a as int, b as int));
    }
    s.substring_char(a, b)
}

/// Whether `s` begins with `prefix`.
pub fn starts_with(s: &str, prefix: &str) -> (b: bool)
    ensures
        b == prefix@.is_prefix_of(s@),
{
    let n = s.unicode_len();
    let m = prefix.unicode_len();
    if m > n {
        return false;
    }
    let mut i: usize = 0;
    while i < m
        invariant
            n == s@.len(),
            m == prefix@.len(),
            m <= n,
            i <= m,
            forall|j: int| 0 <= j < i ==> s@[j] == prefix@[j],
        decreases m - i,
    {
        if s.get_char(i) != prefix.get_char(i) {
            assert(s@.subrange(0, m as int)[i as int] != prefix@[i as int]);
            return false;
        }
        i += 1;
    }
    assert(prefix@ =~= s@.subrange(0, m as int));
    true
}

} // verus!
