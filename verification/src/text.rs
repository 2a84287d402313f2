//! Character sequences: containment, period-delimited tokens and decimal
//! numerals, each as a spec function and as an executable function proved
//! to compute it.

use vstd::prelude::*;
use vstd::std_specs::iter::IteratorSpec;

verus! {

/// `needle` stands in `hay` at offset `i`.
pub open spec fn occurs_at(hay: Seq<char>, needle: Seq<char>, i: int) -> bool {
    &&& 0 <= i
    &&& i + needle.len() <= hay.len()
    &&& hay.subrange(i, i + needle.len()) == needle
}

/// `needle` is a contiguous part of `hay`. The empty sequence is part of
/// every sequence.
pub open spec fn contains_seq(hay: Seq<char>, needle: Seq<char>) -> bool {
    exists|i: int| occurs_at(hay, needle, i)
}

/// The offset of the first period in `s`, or the length of `s` where it
/// holds none.
pub open spec fn dot_offset(s: Seq<char>) -> nat
    decreases s.len(),
{
    if s.len() == 0 || s[0] == '.' {
        0
    } else {
        1 + dot_offset(s.drop_first())
    }
}

/// The tokens that the periods of `s` delimit, in order. A sequence
/// without a period is its own single token; the periods belong to no
/// token.
pub open spec fn split_on_dots(s: Seq<char>) -> Seq<Seq<char>>
    decreases s.len(),
{
    let d = dot_offset(s) as int;
    if d >= s.len() {
        seq![s]
    } else {
        seq![s.subrange(0, d)] + split_on_dots(s.subrange(d + 1, s.len() as int))
    }
}

/// `c` is one of the ten ASCII digits.
pub open spec fn is_digit(c: char) -> bool {
    '0' <= c && c <= '9'
}

/// The number that the digit `c` stands for.
pub open spec fn digit_value(c: char) -> nat {
    (c as u32 - '0' as u32) as nat
}

/// The number that the digits of `s` write in base ten, the empty
/// sequence standing for zero.
pub open spec fn decimal_value(s: Seq<char>) -> nat
    decreases s.len(),
{
    if s.len() == 0 {
        0
    } else {
        decimal_value(s.drop_last()) * 10 + digit_value(s.last())
    }
}

/// `s` is one or more decimal digits and nothing else.
pub open spec fn is_decimal(s: Seq<char>) -> bool {
    &&& s.len() > 0
    &&& forall|i: int| 0 <= i < s.len() ==> is_digit(#[trigger] s[i])
}

/// The number that `s` writes, where `s` is a decimal numeral whose
/// value fits in 64 bits. Leading zeros are accepted; a sign is not.
pub open spec fn parse_decimal(s: Seq<char>) -> Option<u64> {
    if is_decimal(s) && decimal_value(s) <= u64::MAX {
        Some(decimal_value(s) as u64)
    } else {
        None
    }
}

/// The first period of `s` is at `d`, or `s` has none and `d` is its length.
pub open spec fn is_first_dot(s: Seq<char>, d: int) -> bool {
    &&& 0 <= d <= s.len()
    &&& forall|j: int| 0 <= j < d ==> #[trigger] s[j] != '.'
    &&& d < s.len() ==> s[d] == '.'
}

/// `dot_offset` is within the sequence, no period stands before it, and
/// a period stands at it unless it is the length.
pub proof fn lemma_dot_offset_first(s: Seq<char>)
    ensures
        is_first_dot(s, dot_offset(s) as int),
    decreases s.len(),
{
    if s.len() == 0 || s[0] == '.' {
    } else {
        let rest = s.drop_first();
        lemma_dot_offset_first(rest);
        let d = dot_offset(s) as int;
        assert forall|j: int| 0 <= j < d implies #[trigger] s[j] != '.' by {
            if j > 0 {
                assert(s[j] == rest[j - 1]);
            }
        }
        if d < s.len() {
            assert(s[d] == rest[d - 1]);
        }
    }
}

/// Only `dot_offset` is the place of the first period.
pub proof fn lemma_first_dot_unique(s: Seq<char>, d: int)
    requires
        is_first_dot(s, d),
    ensures
        dot_offset(s) == d,
{
    lemma_dot_offset_first(s);
    let e = dot_offset(s) as int;
    if e < d {
        assert(s[e] != '.');
    } else if d < e {
        assert(s[d] != '.');
    }
}

/// The tokens of `s` are never none.
pub proof fn lemma_split_nonempty(s: Seq<char>)
    ensures
        split_on_dots(s).len() >= 1,
    decreases s.len(),
{
    let d = dot_offset(s) as int;
    if d < s.len() {
        lemma_split_nonempty(s.subrange(d + 1, s.len() as int));
    }
}

/// The value of a numeral is at least that of each of its prefixes.
pub proof fn lemma_decimal_value_prefix(s: Seq<char>, k: int)
    requires
        0 <= k <= s.len(),
    ensures
        decimal_value(s.subrange(0, k)) <= decimal_value(s),
    decreases s.len(),
{
    if k == s.len() {
        assert(s.subrange(0, k) =~= s);
    } else {
        lemma_decimal_value_prefix(s.drop_last(), k);
        assert(s.drop_last().subrange(0, k) =~= s.subrange(0, k));
    }
}

/// The characters of `s`, in order.
pub fn chars_of(s: &str) -> (r: Vec<char>)
    ensures
        r@ == s@,
{
    let mut rest = s.chars();
    let mut out: Vec<char> = Vec::new();
    loop
        invariant
            out@ + rest.remaining() == s@,
            rest.decrease() is Some,
        ensures
            out@ == s@,
        decreases rest.decrease()->0,
    {
        let ghost before = rest.remaining();
        match rest.next() {
            Some(c) => {
                out.push(c);
                proof {
                    assert(out@ + rest.remaining() =~= out@.drop_last() + before);
                }
            },
            None => {
                proof {
                    assert(out@ + before =~= out@);
                }
                break;
            },
        }
    }
    out
}

/// Whether `needle` stands in `hay` at offset `i`.
pub fn occurs_at_index(hay: &[char], needle: &[char], i: usize) -> (r: bool)
    ensures
        r == occurs_at(hay@, needle@, i as int),
{
    if needle.len() > hay.len() || i > hay.len() - needle.len() {
        return false;
    }
    let mut j: usize = 0;
    while j < needle.len()
        invariant
            j <= needle.len(),
            i + needle.len() <= hay.len(),
            forall|k: int| 0 <= k < j ==> hay@[i + k] == needle@[k],
        decreases needle.len() - j,
    {
        if hay[i + j] != needle[j] {
            proof {
                assert(hay@.subrange(i as int, i + needle.len())[j as int] == hay@[i + j]);
            }
            return false;
        }
        j += 1;
    }
    proof {
        assert(hay@.subrange(i as int, i + needle.len()) =~= needle@);
    }
    true
}

/// Whether `needle` is a contiguous part of `hay`.
pub fn contains_chars(hay: &[char], needle: &[char]) -> (r: bool)
    ensures
        r == contains_seq(hay@, needle@),
{
    if needle.len() > hay.len() {
        return false;
    }
    let last: usize = hay.len() - needle.len();
    let mut i: usize = 0;
    while i < last
        invariant
            last == hay.len() - needle.len(),
            i <= last,
            forall|k: int| 0 <= k < i ==> !occurs_at(hay@, needle@, k),
        decreases last - i,
    {
        if occurs_at_index(hay, needle, i) {
            return true;
        }
        i += 1;
    }
    occurs_at_index(hay, needle, last)
}

/// The offset of the first period of `s` at or after `from`, or the
/// length of `s` where none follows.
pub fn find_dot(s: &[char], from: usize) -> (d: usize)
    requires
        from <= s.len(),
    ensures
        from <= d <= s.len(),
        d - from == dot_offset(s@.subrange(from as int, s@.len() as int)),
{
    let mut d: usize = from;
    while d < s.len() && s[d] != '.'
        invariant
            from <= d <= s.len(),
            forall|j: int| from <= j < d ==> s@[j] != '.',
        decreases s.len() - d,
    {
        d += 1;
    }
    proof {
        let tail = s@.subrange(from as int, s@.len() as int);
        assert forall|j: int| 0 <= j < d - from implies #[trigger] tail[j] != '.' by {
            assert(tail[j] == s@[from + j]);
        }
        lemma_first_dot_unique(tail, d - from);
    }
    d
}

/// Reads the characters of `s` from `from` up to `to` as a decimal
/// numeral.
pub fn parse_decimal_range(s: &[char], from: usize, to: usize) -> (r: Option<u64>)
    requires
        from <= to <= s.len(),
    ensures
        r == parse_decimal(s@.subrange(from as int, to as int)),
{
    let ghost token = s@.subrange(from as int, to as int);
    if from == to {
        return None;
    }
    let mut value: u64 = 0;
    let mut i: usize = from;
    while i < to
        invariant
            from <= i <= to <= s.len(),
            token == s@.subrange(from as int, to as int),
            value == decimal_value(token.subrange(0, i - from)),
            forall|k: int| 0 <= k < i - from ==> is_digit(#[trigger] token[k]),
        decreases to - i,
    {
        let c: char = s[i];
        if c < '0' || c > '9' {
            proof {
                assert(token[i - from] == c);
            }
            return None;
        }
        let digit: u64 = (c as u32 - '0' as u32) as u64;
        proof {
            let next = token.subrange(0, i - from + 1);
            assert(next.drop_last() =~= token.subrange(0, i - from));
            assert(next.last() == c);
            assert(decimal_value(next) == value * 10 + digit);
            lemma_decimal_value_prefix(token, i - from + 1);
        }
        if value > (u64::MAX - digit) / 10 {
            return None;
        }
        value = value * 10 + digit;
        i += 1;
    }
    proof {
        assert(token.subrange(0, to - from) =~= token);
    }
    Some(value)
}

} // verus!
