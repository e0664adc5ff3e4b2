use vstd::prelude::*;
use vstd::string::*;

verus! {

/// Whether a character carries the Unicode `White_Space` property, the set of
/// characters that `char::is_whitespace` and `str::trim` recognise.
pub open spec fn is_white_space(c: char) -> bool {
    ||| '\u{9}' <= c <= '\u{d}'
    ||| c == ' '
    ||| c == '\u{85}'
    ||| c == '\u{a0}'
    ||| c == '\u{1680}'
    ||| '\u{2000}' <= c <= '\u{200a}'
    ||| c == '\u{2028}'
    ||| c == '\u{2029}'
    ||| c == '\u{202f}'
    ||| c == '\u{205f}'
    ||| c == '\u{3000}'
}

/// A class of characters that a trimming step strips.
#[derive(Debug, Clone, Copy, PartialEq, Eq, Structural)]
pub enum CharClass {
    /// Any character with the `White_Space` property.
    Whitespace,
    /// Exactly the given character.
    Exactly(char),
}

impl CharClass {
    pub open spec fn holds(self, c: char) -> bool {
        match self {
            CharClass::Whitespace => is_white_space(c),
            CharClass::Exactly(d) => c == d,
        }
    }

    /// Whether `c` belongs to the class.
    pub fn contains(&self, c: char) -> (r: bool)
        ensures
            r == self.holds(c),
    {
        match self {
            CharClass::Whitespace => is_whitespace_char(c),
            CharClass::Exactly(d) => c == *d,
        }
    }
}

/// `s` without the characters of `cls` at its start.
pub open spec fn trim_start_by(s: Seq<char>, cls: CharClass) -> Seq<char>
    decreases s.len(),
{
    if s.len() > 0 && cls.holds(s[0]) {
        trim_start_by(s.drop_first(), cls)
    } else {
        s
    }
}

/// `s` without the characters of `cls` at its end.
pub open spec fn trim_end_by(s: Seq<char>, cls: CharClass) -> Seq<char>
    decreases s.len(),
{
    if s.len() > 0 && cls.holds(s.last()) {
        trim_end_by(s.drop_last(), cls)
    } else {
        s
    }
}

/// `s` without the characters of `cls` at either end.
pub open spec fn trim_by(s: Seq<char>, cls: CharClass) -> Seq<char> {
    trim_end_by(trim_start_by(s, cls), cls)
}

/// Whether `pat` occurs in `s` as a contiguous run.
pub open spec fn has_infix(s: Seq<char>, pat: Seq<char>) -> bool {
    exists|i: int| 0 <= i && i + pat.len() <= s.len() && #[trigger] s.subrange(i, i + pat.len()) == pat
}

/// Whether `c` has the Unicode `White_Space` property.
pub fn is_whitespace_char(c: char) -> (r: bool)
    ensures
        r == is_white_space(c),
{
    ('\u{9}' <= c && c <= '\u{d}') || c == ' ' || c == '\u{85}' || c == '\u{a0}' || c == '\u{1680}'
        || ('\u{2000}' <= c && c <= '\u{200a}') || c == '\u{2028}' || c == '\u{2029}'
        || c == '\u{202f}' || c == '\u{205f}' || c == '\u{3000}'
}

/// The first position in `lo..hi` from which the characters of `cls` at the
/// start of `s[lo..hi]` are stripped.
pub fn skip_start(s: &str, lo: usize, hi: usize, cls: CharClass) -> (i: usize)
    requires
        lo <= hi <= s@.len(),
    ensures
        lo <= i <= hi,
        trim_start_by(s@.subrange(lo as int, hi as int), cls) == s@.subrange(i as int, hi as int),
{
    let mut i = lo;
    while i < hi
        invariant
            lo <= i <= hi <= s@.len(),
            trim_start_by(s@.subrange(lo as int, hi as int), cls) == trim_start_by(
                s@.subrange(i as int, hi as int),
                cls,
            ),
        decreases hi - i,
    {
        let c = s.get_char(i);
        if !cls.contains(c) {
            return i;
        }
        assert(s@.subrange(i as int, hi as int).drop_first() =~= s@.subrange(i + 1, hi as int));
        i = i + 1;
    }
    i
}

/// The last position in `lo..hi` up to which the characters of `cls` at the
/// end of `s[lo..hi]` are stripped.
pub fn skip_end(s: &str, lo: usize, hi: usize, cls: CharClass) -> (j: usize)
    requires
        lo <= hi <= s@.len(),
    ensures
        lo <= j <= hi,
        trim_end_by(s@.subrange(lo as int, hi as int), cls) == s@.subrange(lo as int, j as int),
{
    let mut j = hi;
    while j > lo
        invariant
            lo <= j <= hi <= s@.len(),
            trim_end_by(s@.subrange(lo as int, hi as int), cls) == trim_end_by(
                s@.subrange(lo as int, j as int),
                cls,
            ),
        decreases j - lo,
    {
        let c = s.get_char(j - 1);
        if !cls.contains(c) {
            return j;
        }
        assert(s@.subrange(lo as int, j as int).drop_last() =~= s@.subrange(lo as int, j - 1));
        j = j - 1;
    }
    j
}

/// Whether `c` occurs in `s[lo..hi]`.
pub fn range_contains(s: &str, lo: usize, hi: usize, c: char) -> (r: bool)
    requires
        lo <= hi <= s@.len(),
    ensures
        r == s@.subrange(lo as int, hi as int).contains(c),
{
    let mut i = lo;
    while i < hi
        invariant
            lo <= i <= hi <= s@.len(),
            forall|k: int| lo <= k < i ==> s@[k] != c,
        decreases hi - i,
    {
        if s.get_char(i) == c {
            assert(s@.subrange(lo as int, hi as int)[i - lo] == c);
            return true;
        }
        i = i + 1;
    }
    assert forall|k: int| 0 <= k < hi - lo implies s@.subrange(lo as int, hi as int)[k] != c by {
        assert(s@.subrange(lo as int, hi as int)[k] == s@[lo + k]);
    }
    false
}

/// Whether `s[lo..hi]` equals `pat`.
pub fn range_equals(s: &str, lo: usize, hi: usize, pat: &str) -> (r: bool)
    requires
        lo <= hi <= s@.len(),
    ensures
        r == (s@.subrange(lo as int, hi as int) == pat@),
{
    let n = pat.unicode_len();
    if hi - lo != n {
        return false;
    }
    let mut k: usize = 0;
    while k < n
        invariant
            n == pat@.len(),
            hi - lo == n,
            lo <= hi <= s@.len(),
            k <= n,
            forall|m: int| 0 <= m < k ==> s@[lo + m] == pat@[m],
        decreases n - k,
    {
        if s.get_char(lo + k) != pat.get_char(k) {
            assert(s@.subrange(lo as int, hi as int)[k as int] != pat@[k as int]);
            return false;
        }
        k = k + 1;
    }
    assert(s@.subrange(lo as int, hi as int) =~= pat@);
    true
}

/// Whether the two strings hold the same characters.
pub fn str_equals(a: &str, b: &str) -> (r: bool)
    ensures
        r == (a@ == b@),
{
    let n = a.unicode_len();
    let r = range_equals(a, 0, n, b);
    assert(a@.subrange(0, n as int) =~= a@);
    r
}

/// Whether `pat` occurs in `s` as a contiguous run.
pub fn contains_infix(s: &str, pat: &str) -> (r: bool)
    ensures
        r == has_infix(s@, pat@),
{
    let n = s.unicode_len();
    let m = pat.unicode_len();
    if m > n {
        return false;
    }
    let mut i: usize = 0;
    loop
        invariant
            n == s@.len(),
            m == pat@.len(),
            m <= n,
            i <= n - m,
            forall|k: int| 0 <= k < i ==> #[trigger] s@.subrange(k, k + m) != pat@,
        decreases n - m - i,
    {
        if range_equals(s, i, i + m, pat) {
            return true;
        }
        if i == n - m {
            return false;
        }
        i = i + 1;
    }
}

/// Characters of `cls` appended to a string are stripped by trimming its end.
pub proof fn trim_end_ignores_tail(s: Seq<char>, tail: Seq<char>, cls: CharClass)
    requires
        forall|i: int| 0 <= i < tail.len() ==> cls.holds(#[trigger] tail[i]),
    ensures
        trim_end_by(s + tail, cls) == trim_end_by(s, cls),
    decreases tail.len(),
{
    if tail.len() == 0 {
        assert(s + tail =~= s);
    } else {
        let t = tail.drop_last();
        assert((s + tail).drop_last() =~= s + t);
        assert((s + tail).last() == tail[tail.len() - 1]);
        trim_end_ignores_tail(s, t, cls);
    }
}

/// Trimming the start of `s` drops a prefix made of characters of `cls` and
/// stops at the first character outside it.
pub proof fn trim_start_by_cut(s: Seq<char>, cls: CharClass) -> (j: int)
    ensures
        0 <= j <= s.len(),
        trim_start_by(s, cls) == s.subrange(j, s.len() as int),
        forall|k: int| 0 <= k < j ==> cls.holds(#[trigger] s[k]),
        j < s.len() ==> !cls.holds(s[j]),
    decreases s.len(),
{
    if s.len() > 0 && cls.holds(s[0]) {
        let t = s.drop_first();
        let j0 = trim_start_by_cut(t, cls);
        assert(t.subrange(j0, t.len() as int) =~= s.subrange(j0 + 1, s.len() as int));
        assert forall|k: int| 0 <= k < j0 + 1 implies cls.holds(#[trigger] s[k]) by {
            if k > 0 {
                assert(s[k] == t[k - 1]);
            }
        }
        j0 + 1
    } else {
        assert(s.subrange(0, s.len() as int) =~= s);
        0
    }
}

/// Trimming the end of `s` drops a suffix made of characters of `cls` and
/// stops at the last character outside it.
pub proof fn trim_end_by_cut(s: Seq<char>, cls: CharClass) -> (j: int)
    ensures
        0 <= j <= s.len(),
        trim_end_by(s, cls) == s.subrange(0, j),
        forall|k: int| j <= k < s.len() ==> cls.holds(#[trigger] s[k]),
        j > 0 ==> !cls.holds(s[j - 1]),
    decreases s.len(),
{
    if s.len() > 0 && cls.holds(s.last()) {
        let t = s.drop_last();
        let j0 = trim_end_by_cut(t, cls);
        assert(t.subrange(0, j0) =~= s.subrange(0, j0));
        assert forall|k: int| j0 <= k < s.len() implies cls.holds(#[trigger] s[k]) by {
            if k < s.len() - 1 {
                assert(s[k] == t[k]);
            }
        }
        j0
    } else {
        assert(s.subrange(0, s.len() as int) =~= s);
        s.len() as int
    }
}

/// A part of a part of `c` is a part of `c`.
pub proof fn has_infix_trans(c: Seq<char>, b: Seq<char>, a: Seq<char>)
    requires
        has_infix(c, b),
        has_infix(b, a),
    ensures
        has_infix(c, a),
{
    let i = choose|i: int| 0 <= i && i + b.len() <= c.len() && #[trigger] c.subrange(i, i + b.len()) == b;
    let j = choose|j: int| 0 <= j && j + a.len() <= b.len() && #[trigger] b.subrange(j, j + a.len()) == a;
    assert(c.subrange(i + j, i + j + a.len()) =~= a);
}

/// A character that does not occur in `b` occurs in no part of it.
pub proof fn has_infix_avoids(b: Seq<char>, a: Seq<char>, x: char)
    requires
        has_infix(b, a),
        !b.contains(x),
    ensures
        !a.contains(x),
{
    let j = choose|j: int| 0 <= j && j + a.len() <= b.len() && #[trigger] b.subrange(j, j + a.len()) == a;
    if a.contains(x) {
        let k = choose|k: int| 0 <= k < a.len() && a[k] == x;
        assert(b[j + k] == a[k]);
    }
}

/// Trimming either end leaves a part of the string.
pub proof fn trims_are_infixes(s: Seq<char>, cls: CharClass)
    ensures
        has_infix(s, trim_start_by(s, cls)),
        has_infix(s, trim_end_by(s, cls)),
        has_infix(s, trim_by(s, cls)),
{
    let i = trim_start_by_cut(s, cls);
    assert(s.subrange(i, i + trim_start_by(s, cls).len()) == trim_start_by(s, cls));
    let j = trim_end_by_cut(s, cls);
    assert(s.subrange(0, 0int + trim_end_by(s, cls).len()) == trim_end_by(s, cls));
    let t = trim_start_by(s, cls);
    let k = trim_end_by_cut(t, cls);
    assert(t.subrange(0, 0int + trim_end_by(t, cls).len()) == trim_end_by(t, cls));
    has_infix_trans(s, t, trim_end_by(t, cls));
}

/// A pattern occurs in every string that holds it somewhere, and never in a
/// string shorter than itself.
pub proof fn has_infix_exactly_where_placed(a: Seq<char>, pat: Seq<char>, b: Seq<char>, s: Seq<char>)
    ensures
        has_infix(a + pat + b, pat),
        pat.len() > s.len() ==> !has_infix(s, pat),
{
    let t = a + pat + b;
    assert(t.subrange(a.len() as int, a.len() as int + pat.len()) =~= pat);
}

} // verus!
