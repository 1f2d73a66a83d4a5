//! Small verified helpers on byte sequences that the parser and the
//! serialiser share: searching, trimming, comparing without regard to case,
//! and decimal numbers.

use vstd::prelude::*;
use vstd::slice::slice_subrange;
use vstd::utf8::valid_utf8;
use vstd::string::StringSliceAdditionalSpecFns;

verus! {

/// Appends `src` to `dest`.
pub fn append(dest: &mut Vec<u8>, src: &[u8])
    ensures
        final(dest)@ == old(dest)@ + src@,
{
    let n: usize = src.len();
    let mut i: usize = 0;
    while i < n
        invariant
            i <= n,
            n == src@.len(),
            dest@ == old(dest)@ + src@.take(i as int),
        decreases n - i,
    {
        dest.push(src[i]);
        i += 1;
        assert(dest@ =~= old(dest)@ + src@.take(i as int));
    }
    assert(src@.take(n as int) =~= src@);
}

/// Index of the first `b` in `s` at or behind `from`, or the length of `s`
/// when there is none.
pub open spec fn index_of(s: Seq<u8>, b: u8, from: int) -> int
    decreases s.len() - from,
{
    if from >= s.len() {
        s.len() as int
    } else if s[from] == b {
        from
    } else {
        index_of(s, b, from + 1)
    }
}

/// What `index_of` finds is the first occurrence.
pub proof fn lemma_index_of(s: Seq<u8>, b: u8, from: int)
    requires
        0 <= from,
    ensures
        from <= s.len() ==> from <= index_of(s, b, from) <= s.len(),
        from > s.len() ==> index_of(s, b, from) == s.len(),
        index_of(s, b, from) < s.len() ==> s[index_of(s, b, from)] == b,
        forall|j: int| from <= j < index_of(s, b, from) ==> s[j] != b,
    decreases s.len() - from,
{
    if from < s.len() && s[from] != b {
        lemma_index_of(s, b, from + 1);
    }
}

/// A position at or behind `from` that holds `b`, with no `b` between the
/// two, is what `index_of` finds.
pub proof fn lemma_index_of_is(s: Seq<u8>, b: u8, from: int, at: int)
    requires
        0 <= from <= at <= s.len(),
        at < s.len() ==> s[at] == b,
        forall|j: int| from <= j < at ==> s[j] != b,
    ensures
        index_of(s, b, from) == at,
    decreases at - from,
{
    if from < at {
        lemma_index_of_is(s, b, from + 1, at);
    }
}

/// Position of the first `b` in `src` at or behind `from`.
pub fn find_byte_pos(src: &[u8], b: u8, from: usize) -> (res: Option<usize>)
    ensures
        res.is_some() <==> index_of(src@, b, from as int) < src@.len(),
        res matches Some(i) ==> i == index_of(src@, b, from as int) && from <= i && src@[i as int]
            == b,
{
    let n: usize = src.len();
    let mut i: usize = from;
    proof {
        lemma_index_of(src@, b, from as int);
    }
    while i < n
        invariant
            from <= i,
            n == src@.len(),
            index_of(src@, b, from as int) == index_of(src@, b, i as int),
        decreases n - i,
    {
        if src[i] == b {
            return Some(i);
        }
        i += 1;
    }
    None
}

/// The lower-case form of an ASCII letter; any other byte as it is.
pub open spec fn lower(b: u8) -> u8 {
    if 65 <= b <= 90 {
        (b + 32) as u8
    } else {
        b
    }
}

/// True when `a` and `b` are equal once ASCII letters are taken without
/// regard to case.
pub open spec fn same_ignoring_case(a: Seq<u8>, b: Seq<u8>) -> bool {
    a.len() == b.len() && forall|i: int| 0 <= i < a.len() ==> lower(a[i]) == lower(b[i])
}

fn to_lower(b: u8) -> (res: u8)
    ensures
        res == lower(b),
{
    if 65 <= b && b <= 90 {
        b + 32
    } else {
        b
    }
}

/// Compares two byte strings without regard to the case of ASCII letters.
pub fn eq_ignore_case(a: &[u8], b: &[u8]) -> (res: bool)
    ensures
        res == same_ignoring_case(a@, b@),
{
    if a.len() != b.len() {
        return false;
    }
    let n: usize = a.len();
    let mut i: usize = 0;
    while i < n
        invariant
            i <= n,
            n == a@.len(),
            n == b@.len(),
            forall|j: int| 0 <= j < i ==> lower(a@[j]) == lower(b@[j]),
        decreases n - i,
    {
        if to_lower(a[i]) != to_lower(b[i]) {
            return false;
        }
        i += 1;
    }
    true
}

/// Space, tab, line feed, form feed and carriage return.
pub open spec fn is_space(b: u8) -> bool {
    b == 32 || b == 9 || b == 10 || b == 12 || b == 13
}

/// `s` without the white space at its start.
pub open spec fn trim_start(s: Seq<u8>) -> Seq<u8>
    decreases s.len(),
{
    if s.len() > 0 && is_space(s[0]) {
        trim_start(s.skip(1))
    } else {
        s
    }
}

/// `s` without the white space at its end.
pub open spec fn trim_end(s: Seq<u8>) -> Seq<u8>
    decreases s.len(),
{
    if s.len() > 0 && is_space(s.last()) {
        trim_end(s.drop_last())
    } else {
        s
    }
}

/// `s` without the white space at either end.
pub open spec fn trimmed(s: Seq<u8>) -> Seq<u8> {
    trim_end(trim_start(s))
}

fn is_space_byte(b: u8) -> (res: bool)
    ensures
        res == is_space(b),
{
    b == 32 || b == 9 || b == 10 || b == 12 || b == 13
}

/// Strips ASCII white space from both ends of `src`.
pub fn trim(src: &[u8]) -> (res: &[u8])
    ensures
        res@ == trimmed(src@),
{
    let n: usize = src.len();
    let mut start: usize = 0;
    assert(src@.skip(0) =~= src@);
    while start < n && is_space_byte(src[start])
        invariant
            start <= n,
            n == src@.len(),
            trim_start(src@) == trim_start(src@.skip(start as int)),
        decreases n - start,
    {
        proof {
            let cur = src@.skip(start as int);
            assert(cur[0] == src@[start as int]);
            assert(cur.skip(1) =~= src@.skip(start + 1));
        }
        start += 1;
    }
    proof {
        let cur = src@.skip(start as int);
        if start < n {
            assert(cur[0] == src@[start as int]);
        }
        assert(trim_start(src@) == cur);
    }
    let mut end: usize = n;
    while end > start && is_space_byte(src[end - 1])
        invariant
            start <= end <= n,
            n == src@.len(),
            trimmed(src@) == trim_end(src@.subrange(start as int, end as int)),
        decreases end - start,
    {
        proof {
            let cur = src@.subrange(start as int, end as int);
            assert(cur.last() == src@[end - 1]);
            assert(cur.drop_last() =~= src@.subrange(start as int, end - 1));
        }
        end -= 1;
    }
    proof {
        let cur = src@.subrange(start as int, end as int);
        if end > start {
            assert(cur.last() == src@[end - 1]);
        }
        assert(trim_end(cur) == cur);
    }
    slice_subrange(src, start, end)
}

/// True for the ASCII digits.
pub open spec fn is_digit(b: u8) -> bool {
    48 <= b <= 57
}

/// True when every byte of `s` is an ASCII digit.
pub open spec fn all_digits(s: Seq<u8>) -> bool {
    forall|i: int| 0 <= i < s.len() ==> is_digit(#[trigger] s[i])
}

/// The number that the digits of `s` write in base ten.
pub open spec fn decimal_value(s: Seq<u8>) -> nat
    decreases s.len(),
{
    if s.len() == 0 {
        0
    } else {
        (decimal_value(s.drop_last()) * 10 + (s.last() - 48)) as nat
    }
}

/// The digits of a number text, which may start with one plus sign.
pub open spec fn unsigned_part(s: Seq<u8>) -> Seq<u8> {
    if s.len() > 0 && s[0] == 43 {
        s.skip(1)
    } else {
        s
    }
}

/// True when `s` is a base-ten number that fits the machine word: digits
/// only, at least one, behind at most one plus sign.
pub open spec fn is_decimal(s: Seq<u8>) -> bool {
    let d = unsigned_part(s);
    d.len() > 0 && all_digits(d) && decimal_value(d) <= usize::MAX
}

/// A longer run of digits writes a number that is no smaller than the one
/// its start writes.
pub proof fn lemma_decimal_value_grows(s: Seq<u8>, k: int)
    requires
        all_digits(s),
        0 <= k <= s.len(),
    ensures
        decimal_value(s.take(k)) <= decimal_value(s),
    decreases s.len() - k,
{
    if k < s.len() {
        lemma_decimal_value_grows(s, k + 1);
        assert(s.take(k + 1).drop_last() =~= s.take(k));
        assert(is_digit(s[k]));
        assert(s.take(k + 1).last() == s[k]);
    } else {
        assert(s.take(k) =~= s);
    }
}

/// Reads a base-ten number, as a length or a count is written on the wire.
pub fn parse_decimal(src: &[u8]) -> (res: Option<usize>)
    ensures
        res.is_some() <==> is_decimal(src@),
        res matches Some(v) ==> v == decimal_value(unsigned_part(src@)),
{
    let n: usize = src.len();
    let start: usize = if n > 0 && src[0] == 43 { 1 } else { 0 };
    if start == n {
        return None;
    }
    let ghost d = unsigned_part(src@);
    assert(d =~= src@.skip(start as int));
    let mut value: usize = 0;
    let mut i: usize = start;
    while i < n
        invariant
            start <= i <= n,
            n == src@.len(),
            d == src@.skip(start as int),
            d == unsigned_part(src@),
            all_digits(d.take(i - start)),
            value == decimal_value(d.take(i - start)),
        decreases n - i,
    {
        let b: u8 = src[i];
        let ghost next = d.take(i - start + 1);
        proof {
            assert(next.drop_last() =~= d.take(i - start));
            assert(next.last() == b);
            assert(d[i - start] == b);
        }
        if b < 48 || b > 57 {
            assert(!is_digit(d[i - start]));
            return None;
        }
        assert(decimal_value(next) == value * 10 + (b - 48));
        let digit: usize = (b - 48) as usize;
        if value > (usize::MAX - digit) / 10 {
            proof {
                assert(decimal_value(next) > usize::MAX);
                if all_digits(d) {
                    lemma_decimal_value_grows(d, i - start + 1);
                    assert(decimal_value(d) > usize::MAX);
                }
            }
            return None;
        }
        value = value * 10 + digit;
        i += 1;
        assert(all_digits(next)) by {
            assert forall|j: int| 0 <= j < next.len() implies is_digit(#[trigger] next[j]) by {
                if j < next.len() - 1 {
                    assert(next[j] == d.take(i - start - 1)[j]);
                }
            }
        }
    }
    assert(d.take(n - start) =~= d);
    Some(value)
}

/// The digits that write `n` in base ten, without leading zeros.
pub open spec fn decimal_digits(n: nat) -> Seq<u8>
    decreases n,
{
    if n < 10 {
        seq![(48 + n) as u8]
    } else {
        decimal_digits(n / 10).push((48 + n % 10) as u8)
    }
}

/// Writing a number in base ten and reading the digits gives the number
/// back.
pub proof fn lemma_decimal_round_trip(n: nat)
    ensures
        all_digits(decimal_digits(n)),
        decimal_digits(n).len() > 0,
        decimal_value(decimal_digits(n)) == n,
        unsigned_part(decimal_digits(n)) == decimal_digits(n),
    decreases n,
{
    let s = decimal_digits(n);
    if n < 10 {
        assert(s.drop_last() =~= Seq::<u8>::empty());
        assert(decimal_value(s.drop_last()) == 0);
    } else {
        lemma_decimal_round_trip(n / 10);
        let p = decimal_digits(n / 10);
        assert(s.drop_last() =~= p);
        assert(s[0] == p[0]);
        assert forall|i: int| 0 <= i < s.len() implies is_digit(#[trigger] s[i]) by {
            if i < p.len() {
                assert(s[i] == p[i]);
            }
        }
    }
}

/// Writes `n` in base ten.
pub fn format_decimal(n: usize) -> (res: Vec<u8>)
    ensures
        res@ == decimal_digits(n as nat),
{
    let mut reversed: Vec<u8> = Vec::new();
    let mut rest: usize = n;
    while rest >= 10
        invariant
            decimal_digits(n as nat) == decimal_digits(rest as nat) + reversed@.reverse(),
        decreases rest,
    {
        let digit: u8 = (rest % 10) as u8;
        let ghost before = reversed@;
        reversed.push(48 + digit);
        proof {
            let d = (48 + rest % 10) as u8;
            assert(reversed@.reverse() =~= seq![d] + before.reverse());
            assert(decimal_digits(rest as nat) =~= decimal_digits((rest / 10) as nat) + seq![d]);
            assert(decimal_digits((rest / 10) as nat) + seq![d] + before.reverse()
                =~= decimal_digits((rest / 10) as nat) + (seq![d] + before.reverse()));
        }
        rest = rest / 10;
    }
    let mut res: Vec<u8> = Vec::new();
    res.push(48 + (rest as u8));
    let mut i: usize = reversed.len();
    while i > 0
        invariant
            i <= reversed@.len(),
            res@ == decimal_digits(rest as nat) + reversed@.reverse().take(reversed@.len() - i),
        decreases i,
    {
        i -= 1;
        res.push(reversed[i]);
        proof {
            let r = reversed@.reverse();
            let k = reversed@.len() - i;
            assert(r.take(k) =~= r.take(k - 1).push(r[k - 1]));
            assert(r[k - 1] == reversed@[i as int]);
            assert(res@ =~= decimal_digits(rest as nat) + r.take(k));
        }
    }
    assert(reversed@.reverse().take(reversed@.len() as int) =~= reversed@.reverse());
    res
}

/// `std::str::from_utf8`: the text that `bytes` encode, taken in place, when
/// they are well-formed UTF-8, and nothing when they are not.
#[verifier::external_body]
pub(crate) fn str_from_utf8(bytes: &[u8]) -> (res: Option<&str>)
    ensures
        res.is_some() <==> valid_utf8(bytes@),
        res matches Some(s) ==> s.spec_bytes() == bytes@,
{
    match std::str::from_utf8(bytes) {
        Ok(s) => Some(s),
        Err(_) => None,
    }
}

} // verus!
