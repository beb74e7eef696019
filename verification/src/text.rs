//! Character-level text helpers: whitespace trimming and string comparison
//! over the `Seq<char>` view of strings.

use vstd::prelude::*;
use vstd::string::StrSliceExecFns;

verus! {

/// `str`'s own equality test: two string slices are equal exactly when they
/// hold the same characters in the same order.
pub assume_specification[ <str as PartialEq>::eq ](a: &str, b: &str) -> (r: bool)
    ensures
        r == (a@ == b@),
;

/// The code points with the Unicode `White_Space` property.
pub open spec fn is_whitespace(c: char) -> bool {
    let u = c as u32;
    ||| 0x09 <= u <= 0x0D
    ||| u == 0x20
    ||| u == 0x85
    ||| u == 0xA0
    ||| u == 0x1680
    ||| 0x2000 <= u <= 0x200A
    ||| u == 0x2028
    ||| u == 0x2029
    ||| u == 0x202F
    ||| u == 0x205F
    ||| u == 0x3000
}

/// `s` without its leading whitespace.
pub open spec fn trim_start(s: Seq<char>) -> Seq<char>
    decreases s.len(),
{
    if s.len() > 0 && is_whitespace(s[0]) {
        trim_start(s.drop_first())
    } else {
        s
    }
}

/// `s` without its trailing whitespace.
pub open spec fn trim_end(s: Seq<char>) -> Seq<char>
    decreases s.len(),
{
    if s.len() > 0 && is_whitespace(s.last()) {
        trim_end(s.drop_last())
    } else {
        s
    }
}

/// `s` without leading and trailing whitespace.
pub open spec fn trimmed(s: Seq<char>) -> Seq<char> {
    trim_end(trim_start(s))
}

/// Whether `c` is whitespace.
pub fn char_is_whitespace(c: char) -> (r: bool)
    ensures
        r == is_whitespace(c),
{
    let u: u32 = c as u32;
    (0x09 <= u && u <= 0x0D) || u == 0x20 || u == 0x85 || u == 0xA0 || u == 0x1680 || (0x2000 <= u
        && u <= 0x200A) || u == 0x2028 || u == 0x2029 || u == 0x202F || u == 0x205F || u == 0x3000
}

/// The characters of `s`, in order.
pub fn chars_of(s: &str) -> (r: Vec<char>)
    ensures
        r@ == s@,
{
    let mut out: Vec<char> = Vec::new();
    for c in it: s.chars()
        invariant
            it.seq() == s@,
            out@ == it.seq().take(it.index() as int),
    {
        out.push(c);
    }
    out
}

/// The bounds `(from, to)` of what is left of `chars[lo..hi]` once leading
/// and trailing whitespace is removed.
pub fn trim_bounds(chars: &Vec<char>, lo: usize, hi: usize) -> (r: (usize, usize))
    requires
        lo <= hi <= chars.len(),
    ensures
        lo <= r.0 <= r.1 <= hi,
        chars@.subrange(r.0 as int, r.1 as int) == trimmed(chars@.subrange(lo as int, hi as int)),
{
    let mut from: usize = lo;
    while from < hi && char_is_whitespace(chars[from])
        invariant
            lo <= from <= hi <= chars.len(),
            trim_start(chars@.subrange(lo as int, hi as int)) == trim_start(
                chars@.subrange(from as int, hi as int),
            ),
        decreases hi - from,
    {
        assert(chars@.subrange(from as int, hi as int).drop_first() == chars@.subrange(
            from as int + 1,
            hi as int,
        ));
        from += 1;
    }
    let mut to: usize = hi;
    while from < to && char_is_whitespace(chars[to - 1])
        invariant
            from <= to <= hi <= chars.len(),
            trim_end(chars@.subrange(from as int, hi as int)) == trim_end(
                chars@.subrange(from as int, to as int),
            ),
        decreases to - from,
    {
        assert(chars@.subrange(from as int, to as int).drop_last() == chars@.subrange(
            from as int,
            to as int - 1,
        ));
        to -= 1;
    }
    (from, to)
}

/// `s` without leading and trailing whitespace.
pub fn trim(s: &str) -> (r: &str)
    ensures
        r@ == trimmed(s@),
{
    let chars = chars_of(s);
    let (from, to) = trim_bounds(&chars, 0, chars.len());
    assert(chars@.subrange(0, chars.len() as int) == chars@);
    s.substring_char(from, to)
}

/// Whether `a` and `b` hold the same text once both are trimmed.
pub fn trimmed_eq(a: &str, b: &str) -> (r: bool)
    ensures
        r == (trimmed(a@) == trimmed(b@)),
{
    *trim(a) == *trim(b)
}

/// What `trim_start` leaves is the end of `s` from some place on, and
/// does not start with whitespace.
pub proof fn lemma_trim_start(s: Seq<char>)
    ensures
        exists|k: int| 0 <= k <= s.len() && trim_start(s) == #[trigger] s.skip(k),
        trim_start(s).len() > 0 ==> !is_whitespace(trim_start(s)[0]),
        s.len() > 0 && is_whitespace(s[0]) ==> trim_start(s).len() < s.len(),
    decreases s.len(),
{
    if s.len() > 0 && is_whitespace(s[0]) {
        let rest = s.drop_first();
        lemma_trim_start(rest);
        let k = choose|k: int| 0 <= k <= rest.len() && trim_start(rest) == #[trigger] rest.skip(k);
        assert(rest.skip(k) == s.skip(k + 1));
    } else {
        assert(s.skip(0) == s);
    }
}

/// What `trim_end` leaves is the start of `s` up to some place, and does
/// not end in whitespace.
pub proof fn lemma_trim_end(s: Seq<char>)
    ensures
        exists|k: int| 0 <= k <= s.len() && trim_end(s) == #[trigger] s.take(k),
        trim_end(s).len() > 0 ==> !is_whitespace(trim_end(s).last()),
        s.len() > 0 && is_whitespace(s.last()) ==> trim_end(s).len() < s.len(),
    decreases s.len(),
{
    if s.len() > 0 && is_whitespace(s.last()) {
        let rest = s.drop_last();
        lemma_trim_end(rest);
        let k = choose|k: int| 0 <= k <= rest.len() && trim_end(rest) == #[trigger] rest.take(k);
        assert(rest.take(k) == s.take(k));
    } else {
        assert(s.take(s.len() as int) == s);
    }
}

/// Trimmed text neither starts nor ends with whitespace.
pub proof fn lemma_trimmed_ends(s: Seq<char>)
    ensures
        trimmed(s).len() <= s.len(),
        trimmed(s).len() > 0 ==> !is_whitespace(trimmed(s)[0]) && !is_whitespace(
            trimmed(s).last(),
        ),
{
    let inner = trim_start(s);
    lemma_trim_start(s);
    lemma_trim_end(inner);
    let k = choose|k: int| 0 <= k <= inner.len() && trim_end(inner) == #[trigger] inner.take(k);
    if trimmed(s).len() > 0 {
        assert(trimmed(s)[0] == inner[0]);
    }
}

/// Text that neither starts nor ends with whitespace is left as it is by
/// trimming.
pub proof fn lemma_trimmed_is_fixed(s: Seq<char>)
    requires
        s.len() > 0 ==> !is_whitespace(s[0]) && !is_whitespace(s.last()),
    ensures
        trimmed(s) == s,
{
}

/// Text that trimming leaves as it is neither starts nor ends with
/// whitespace.
pub proof fn lemma_fixed_is_trimmed(s: Seq<char>)
    requires
        trimmed(s) == s,
        s.len() > 0,
    ensures
        !is_whitespace(s[0]),
        !is_whitespace(s.last()),
{
    lemma_trimmed_ends(s);
}

} // verus!
