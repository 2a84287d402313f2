//! The rule by which a file name is reported: it holds the type tag, and
//! its second period-delimited token is a decimal millisecond timestamp
//! inside an inclusive range.

use vstd::prelude::*;
use crate::text::{
    chars_of, contains_chars, contains_seq, decimal_value, dot_offset, find_dot, is_decimal,
    is_first_dot, lemma_dot_offset_first, lemma_first_dot_unique, lemma_split_nonempty,
    occurs_at, parse_decimal, parse_decimal_range, split_on_dots,
};

verus! {

/// The second period-delimited token of `name`, where it has one.
pub open spec fn timestamp_token(name: Seq<char>) -> Option<Seq<char>> {
    let tokens = split_on_dots(name);
    if tokens.len() >= 2 {
        Some(tokens[1])
    } else {
        None
    }
}

/// The timestamp that `name` carries: its second token read as a decimal
/// numeral of at most 64 bits. A name without a second token, or with one
/// that is no such numeral, carries none.
pub open spec fn timestamp_of(name: Seq<char>) -> Option<u64> {
    match timestamp_token(name) {
        Some(token) => parse_decimal(token),
        None => None,
    }
}

/// `t` lies in `range`, both ends included.
pub open spec fn in_range(t: u64, range: (u64, u64)) -> bool {
    range.0 <= t && t <= range.1
}

/// `name` holds `type_tag` and carries a timestamp inside `range`.
pub open spec fn name_matches(name: Seq<char>, type_tag: Seq<char>, range: (u64, u64)) -> bool {
    &&& contains_seq(name, type_tag)
    &&& match timestamp_of(name) {
        Some(t) => in_range(t, range),
        None => false,
    }
}

/// Where the first period of `s` is at `d1` and the first period after it
/// at `d2` (or `d2` is the length of `s`), the second token of `s` is
/// what stands between them.
pub proof fn lemma_second_token(s: Seq<char>, d1: int, d2: int)
    requires
        dot_offset(s) == d1,
        d1 < s.len(),
        d2 - (d1 + 1) == dot_offset(s.subrange(d1 + 1, s.len() as int)),
    ensures
        d1 + 1 <= d2 <= s.len(),
        timestamp_token(s) == Some(s.subrange(d1 + 1, d2)),
{
    let rest = s.subrange(d1 + 1, s.len() as int);
    let e = dot_offset(rest) as int;
    lemma_dot_offset_first(rest);
    lemma_split_nonempty(rest);
    let tail = split_on_dots(rest);
    let tokens = split_on_dots(s);
    assert(tokens == seq![s.subrange(0, d1)] + tail);
    assert(tokens[1] == tail[0]);
    if e >= rest.len() {
        assert(tail[0] == rest);
        assert(rest =~= s.subrange(d1 + 1, d2));
    } else {
        assert(tail[0] == rest.subrange(0, e));
        assert(rest.subrange(0, e) =~= s.subrange(d1 + 1, d2));
    }
}

/// The timestamp that a name carries, where it carries one.
pub fn timestamp_in_name(name: &[char]) -> (r: Option<u64>)
    ensures
        r == timestamp_of(name@),
{
    proof {
        assert(name@.subrange(0, name@.len() as int) =~= name@);
    }
    let d1: usize = find_dot(name, 0);
    if d1 >= name.len() {
        return None;
    }
    let d2: usize = find_dot(name, d1 + 1);
    proof {
        lemma_second_token(name@, d1 as int, d2 as int);
    }
    parse_decimal_range(name, d1 + 1, d2)
}

/// Decides on a name and a type tag that are given by their characters.
pub fn matches_chars(name: &[char], type_tag: &[char], range: (u64, u64)) -> (r: bool)
    ensures
        r == name_matches(name@, type_tag@, range),
{
    if !contains_chars(name, type_tag) {
        return false;
    }
    match timestamp_in_name(name) {
        Some(t) => range.0 <= t && t <= range.1,
        None => false,
    }
}

/// Decides whether the file name `name` is reported for `type_tag` and
/// the inclusive `range` of millisecond timestamps. A name that does not
/// have the expected shape is no match and no error.
pub fn matches(name: &str, type_tag: &str, range: (u64, u64)) -> (r: bool)
    ensures
        r == name_matches(name@, type_tag@, range),
{
    let name_chars = chars_of(name);
    let tag_chars = chars_of(type_tag);
    matches_chars(name_chars.as_slice(), tag_chars.as_slice(), range)
}

/// The names among `names` that are reported for `type_tag` and `range`,
/// in the order in which they were given.
pub fn matching_names(names: &Vec<String>, type_tag: &str, range: (u64, u64)) -> (r: Vec<String>)
    ensures
        r@ == names@.filter(|n: String| name_matches(n@, type_tag@, range)),
{
    let ghost pred = |n: String| name_matches(n@, type_tag@, range);
    let tag_chars = chars_of(type_tag);
    let mut out: Vec<String> = Vec::new();
    let mut i: usize = 0;
    proof {
        reveal(Seq::filter);
        assert(names@.subrange(0, 0) =~= Seq::<String>::empty());
    }
    while i < names.len()
        invariant
            i <= names.len(),
            tag_chars@ == type_tag@,
            pred == (|n: String| name_matches(n@, type_tag@, range)),
            out@ == names@.subrange(0, i as int).filter(pred),
        decreases names.len() - i,
    {
        let name_chars = chars_of(names[i].as_str());
        let keep = matches_chars(name_chars.as_slice(), tag_chars.as_slice(), range);
        proof {
            reveal(Seq::filter);
            let next = names@.subrange(0, i + 1);
            assert(next.drop_last() =~= names@.subrange(0, i as int));
            assert(next.last() == names@[i as int]);
            assert(keep == pred(names@[i as int]));
        }
        if keep {
            out.push(names[i].clone());
        }
        i += 1;
    }
    proof {
        assert(names@.subrange(0, names@.len() as int) =~= names@);
    }
    out
}

/// A name that does not hold the type tag is never reported, whatever
/// the range.
pub proof fn lemma_absent_tag_never_matches(
    name: Seq<char>,
    type_tag: Seq<char>,
    range: (u64, u64),
)
    requires
        !contains_seq(name, type_tag),
    ensures
        !name_matches(name, type_tag, range),
{
}

/// A name made of a prefix without a period, a period, a decimal numeral,
/// a period and any suffix is reported whenever the prefix holds the type
/// tag and the numeral's value lies in the range.
pub proof fn lemma_well_formed_name_matches(
    prefix: Seq<char>,
    digits: Seq<char>,
    suffix: Seq<char>,
    type_tag: Seq<char>,
    range: (u64, u64),
)
    requires
        forall|i: int| 0 <= i < prefix.len() ==> #[trigger] prefix[i] != '.',
        contains_seq(prefix, type_tag),
        is_decimal(digits),
        range.0 <= decimal_value(digits) <= range.1,
    ensures
        name_matches(prefix + seq!['.'] + digits + seq!['.'] + suffix, type_tag, range),
{
    let name = prefix + seq!['.'] + digits + seq!['.'] + suffix;
    let at = choose|i: int| occurs_at(prefix, type_tag, i);
    assert(name.subrange(at, at + type_tag.len()) =~= prefix.subrange(at, at + type_tag.len()));
    assert(occurs_at(name, type_tag, at));
    let d1 = prefix.len() as int;
    assert forall|j: int| 0 <= j < d1 implies #[trigger] name[j] != '.' by {
        assert(name[j] == prefix[j]);
    }
    assert(is_first_dot(name, d1));
    lemma_first_dot_unique(name, d1);
    let rest = name.subrange(d1 + 1, name.len() as int);
    let e = digits.len() as int;
    assert forall|j: int| 0 <= j < e implies #[trigger] rest[j] != '.' by {
        assert(rest[j] == digits[j]);
    }
    assert(rest[e] == '.');
    assert(is_first_dot(rest, e));
    lemma_first_dot_unique(rest, e);
    lemma_second_token(name, d1, d1 + 1 + e);
    assert(name.subrange(d1 + 1, d1 + 1 + e) =~= digits);
}

/// A name whose second token is anything but a decimal numeral (it is
/// empty, or holds a letter, a sign or a blank) is never reported,
/// whatever the range.
pub proof fn lemma_non_numeric_token_never_matches(
    name: Seq<char>,
    type_tag: Seq<char>,
    range: (u64, u64),
)
    requires
        timestamp_token(name) is Some,
        !is_decimal(timestamp_token(name).unwrap()),
    ensures
        !name_matches(name, type_tag, range),
{
}

/// A name with fewer than two period-delimited tokens is never reported.
pub proof fn lemma_too_few_tokens_never_matches(
    name: Seq<char>,
    type_tag: Seq<char>,
    range: (u64, u64),
)
    requires
        split_on_dots(name).len() < 2,
    ensures
        !name_matches(name, type_tag, range),
{
}

/// The range includes both of its ends and nothing beyond them: a name
/// that holds the type tag and carries the timestamp `t` is reported at
/// `t == start` and at `t == end`, and is not reported one below `start`
/// or one above `end`.
pub proof fn lemma_range_is_inclusive(
    name: Seq<char>,
    type_tag: Seq<char>,
    t: u64,
    start: u64,
    end: u64,
)
    requires
        contains_seq(name, type_tag),
        timestamp_of(name) == Some(t),
    ensures
        name_matches(name, type_tag, (start, end)) <==> start <= t <= end,
        start <= end && (t == start || t == end) ==> name_matches(name, type_tag, (start, end)),
        t == start - 1 || t == end + 1 ==> !name_matches(name, type_tag, (start, end)),
{
}

} // verus!
