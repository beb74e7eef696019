//! Decimal notation for unsigned integers: rendering a number as digits and
//! reading digits back as a number.

use vstd::prelude::*;
use vstd::string::StringExecFns;

verus! {

/// The decimal digit that stands for `d`, for `d` below ten.
pub open spec fn digit_char(d: nat) -> char {
    if d == 0 {
        '0'
    } else if d == 1 {
        '1'
    } else if d == 2 {
        '2'
    } else if d == 3 {
        '3'
    } else if d == 4 {
        '4'
    } else if d == 5 {
        '5'
    } else if d == 6 {
        '6'
    } else if d == 7 {
        '7'
    } else if d == 8 {
        '8'
    } else {
        '9'
    }
}

/// Whether `c` is one of the ASCII digits `0` to `9`.
pub open spec fn is_digit(c: char) -> bool {
    0x30 <= c as u32 <= 0x39
}

/// The number that the ASCII digit `c` stands for.
pub open spec fn digit_value(c: char) -> nat {
    (c as u32 - 0x30) as nat
}

/// The decimal notation of `n`, without sign or leading zeros.
pub open spec fn decimal(n: nat) -> Seq<char>
    decreases n,
{
    if n < 10 {
        seq![digit_char(n)]
    } else {
        decimal(n / 10).push(digit_char(n % 10))
    }
}

/// Whether every character of `s` is an ASCII digit.
pub open spec fn all_digits(s: Seq<char>) -> bool {
    forall|i: int| 0 <= i < s.len() ==> is_digit(#[trigger] s[i])
}

/// The number written by the digits `s`, most significant first.
pub open spec fn digits_value(s: Seq<char>) -> nat
    decreases s.len(),
{
    if s.len() == 0 {
        0
    } else {
        digits_value(s.drop_last()) * 10 + digit_value(s.last())
    }
}

/// What is left of `s` once one leading plus sign, if any, is removed.
pub open spec fn unsigned_part(s: Seq<char>) -> Seq<char> {
    if s.len() > 0 && s[0] == '+' {
        s.drop_first()
    } else {
        s
    }
}

/// The `u64` that `s` denotes: an optional plus sign followed by one or more
/// ASCII digits whose value fits in 64 bits. Anything else denotes nothing.
pub open spec fn parse_u64(s: Seq<char>) -> Option<u64> {
    let body = unsigned_part(s);
    if body.len() > 0 && all_digits(body) && digits_value(body) <= u64::MAX {
        Some(digits_value(body) as u64)
    } else {
        None
    }
}

/// A digit stands for the number it was chosen for.
pub proof fn lemma_digit_char_value(d: nat)
    requires
        d < 10,
    ensures
        is_digit(digit_char(d)),
        digit_value(digit_char(d)) == d,
{
}

/// A string of digits is worth at least as much as any of its beginnings.
pub proof fn lemma_digits_value_prefix(s: Seq<char>, k: int)
    requires
        0 <= k <= s.len(),
    ensures
        digits_value(s.take(k)) <= digits_value(s),
    decreases s.len() - k,
{
    if k < s.len() {
        lemma_digits_value_prefix(s, k + 1);
        assert(s.take(k + 1).drop_last() == s.take(k));
    } else {
        assert(s.take(k) == s);
    }
}

/// Decimal notation is made of digits only, is never empty, and reads back
/// as the number it was written for.
pub proof fn lemma_decimal_reads_back(n: nat)
    ensures
        decimal(n).len() > 0,
        all_digits(decimal(n)),
        digits_value(decimal(n)) == n,
    decreases n,
{
    if n < 10 {
        lemma_digit_char_value(n);
        let s = decimal(n);
        assert(s.drop_last().len() == 0);
        assert(digits_value(s.drop_last()) == 0);
    } else {
        lemma_decimal_reads_back(n / 10);
        lemma_digit_char_value(n % 10);
        let s = decimal(n);
        assert(s.drop_last() == decimal(n / 10));
        assert(s.last() == digit_char(n % 10));
    }
}

/// Decimal notation holds none of the characters that frame an issue
/// reference, and does not start with a sign.
pub proof fn lemma_decimal_is_plain(n: nat)
    ensures
        forall|i: int|
            0 <= i < decimal(n).len() ==> {
                let c = #[trigger] decimal(n)[i];
                c != ')' && c != ' ' && c != '(' && c != '#' && c != '+'
            },
{
    lemma_decimal_reads_back(n);
    assert forall|i: int| 0 <= i < decimal(n).len() implies {
        let c = #[trigger] decimal(n)[i];
        c != ')' && c != ' ' && c != '(' && c != '#' && c != '+'
    } by {
        assert(is_digit(decimal(n)[i]));
    }
}

/// Reading the decimal notation of a `u64` gives that number back.
pub proof fn lemma_parse_decimal(n: u64)
    ensures
        parse_u64(decimal(n as nat)) == Some(n),
{
    lemma_decimal_reads_back(n as nat);
    lemma_decimal_is_plain(n as nat);
    assert(decimal(n as nat)[0] != '+');
}

fn digit_text(d: u64) -> (r: &'static str)
    requires
        d < 10,
    ensures
        r@ == seq![digit_char(d as nat)],
{
    proof {
        reveal_strlit("0");
        reveal_strlit("1");
        reveal_strlit("2");
        reveal_strlit("3");
        reveal_strlit("4");
        reveal_strlit("5");
        reveal_strlit("6");
        reveal_strlit("7");
        reveal_strlit("8");
        reveal_strlit("9");
    }
    let r = if d == 0 {
        "0"
    } else if d == 1 {
        "1"
    } else if d == 2 {
        "2"
    } else if d == 3 {
        "3"
    } else if d == 4 {
        "4"
    } else if d == 5 {
        "5"
    } else if d == 6 {
        "6"
    } else if d == 7 {
        "7"
    } else if d == 8 {
        "8"
    } else {
        "9"
    };
    assert(r@ =~= seq![digit_char(d as nat)]);
    r
}

/// Appends the decimal notation of `n` to `out`.
pub fn push_decimal(out: &mut String, n: u64)
    ensures
        final(out)@ == old(out)@ + decimal(n as nat),
    decreases n,
{
    if n >= 10 {
        push_decimal(out, n / 10);
    }
    out.append(digit_text(n % 10));
    proof {
        if n >= 10 {
            assert(old(out)@ + decimal(n as nat / 10) + seq![digit_char(n as nat % 10)] =~= old(
                out,
            )@ + decimal(n as nat));
        } else {
            assert(old(out)@ + seq![digit_char(n as nat)] =~= old(out)@ + decimal(n as nat));
        }
    }
}

/// The number that `chars[lo..hi]` denotes, if it denotes one.
pub fn parse_u64_range(chars: &Vec<char>, lo: usize, hi: usize) -> (r: Option<u64>)
    requires
        lo <= hi <= chars.len(),
    ensures
        r == parse_u64(chars@.subrange(lo as int, hi as int)),
{
    let ghost whole = chars@.subrange(lo as int, hi as int);
    let start: usize = if lo < hi && chars[lo] == '+' {
        lo + 1
    } else {
        lo
    };
    let ghost body = chars@.subrange(start as int, hi as int);
    assert(body == unsigned_part(whole));
    if start == hi {
        return None;
    }
    let mut value: u64 = 0;
    let mut at: usize = start;
    while at < hi
        invariant
            start <= at <= hi <= chars.len(),
            lo <= hi,
            whole == chars@.subrange(lo as int, hi as int),
            body == unsigned_part(whole),
            body == chars@.subrange(start as int, hi as int),
            all_digits(body.take(at - start)),
            value == digits_value(body.take(at - start)),
        decreases hi - at,
    {
        let c = chars[at];
        let u: u32 = c as u32;
        let ghost next = body.take(at - start + 1);
        assert(next.drop_last() == body.take(at - start));
        assert(next.last() == c);
        if u < 0x30 || u > 0x39 {
            assert(!is_digit(body[at - start]));
            return None;
        }
        let d: u64 = (u - 0x30) as u64;
        if value > (u64::MAX - d) / 10 {
            proof {
                assert(digits_value(next) > u64::MAX);
                lemma_digits_value_prefix(body, at - start + 1);
            }
            return None;
        }
        value = value * 10 + d;
        at += 1;
        assert(all_digits(next)) by {
            assert forall|i: int| 0 <= i < next.len() implies is_digit(#[trigger] next[i]) by {
                if i < next.len() - 1 {
                    assert(next[i] == body.take(at - start - 1)[i]);
                }
            }
        }
    }
    assert(body.take(hi - start) == body);
    Some(value)
}

} // verus!
