//! Searching byte strings and reading and writing decimal numbers: what the
//! object keys are made of.

use vstd::prelude::*;

verus! {

/// The first position at or after `from` where `c` stands in `s`, or the
/// length of `s` where it stands nowhere from there on.
pub open spec fn spec_find(s: Seq<u8>, c: u8, from: int) -> int
    decreases s.len() - from,
{
    if from < 0 || from >= s.len() {
        s.len() as int
    } else if s[from] == c {
        from
    } else {
        spec_find(s, c, from + 1)
    }
}

/// The last position where `c` stands in the first `upto` bytes of `s`, or -1.
pub open spec fn spec_rfind(s: Seq<u8>, c: u8, upto: int) -> int
    decreases upto,
{
    if upto <= 0 || upto > s.len() {
        -1
    } else if s[upto - 1] == c {
        upto - 1
    } else {
        spec_rfind(s, c, upto - 1)
    }
}

/// Whether `needle` stands in `hay` at position `at`.
pub open spec fn spec_occurs_at(hay: Seq<u8>, needle: Seq<u8>, at: int) -> bool {
    &&& 0 <= at
    &&& at + needle.len() <= hay.len()
    &&& hay.subrange(at, at + needle.len()) == needle
}

/// Whether `s` ends with `suffix`.
pub open spec fn spec_ends_with(s: Seq<u8>, suffix: Seq<u8>) -> bool {
    spec_occurs_at(s, suffix, s.len() - suffix.len())
}

/// Whether `s` is one decimal digit or more and nothing else.
pub open spec fn spec_is_digits(s: Seq<u8>) -> bool {
    &&& s.len() > 0
    &&& forall|i: int| 0 <= i < s.len() ==> 48 <= #[trigger] s[i] <= 57
}

/// The number that the digits of `s` spell.
pub open spec fn spec_digits_value(s: Seq<u8>) -> nat
    decreases s.len(),
{
    if s.len() == 0 {
        0
    } else {
        spec_digits_value(s.drop_last()) * 10 + (s.last() - 48) as nat
    }
}

/// The number that `s` spells in decimal, where `s` is made of digits and the
/// number is no greater than `max`.
pub open spec fn spec_parse_decimal(s: Seq<u8>, max: u64) -> Option<u64> {
    if spec_is_digits(s) && spec_digits_value(s) <= max {
        Some(spec_digits_value(s) as u64)
    } else {
        None
    }
}

/// The last `width` decimal digits of `v`, with leading zeros.
pub open spec fn spec_padded(v: nat, width: nat) -> Seq<u8>
    decreases width,
{
    if width == 0 {
        Seq::<u8>::empty()
    } else {
        spec_padded(v / 10, (width - 1) as nat).push((48 + v % 10) as u8)
    }
}

/// The decimal digits of `v`, without leading zeros.
pub open spec fn spec_decimal(v: nat) -> Seq<u8>
    decreases v,
{
    if v < 10 {
        seq![(48 + v) as u8]
    } else {
        spec_decimal(v / 10).push((48 + v % 10) as u8)
    }
}

/// Finds the first `c` in `s` at or after `from`.
pub fn find(s: &[u8], c: u8, from: usize) -> (at: usize)
    ensures
        at == spec_find(s@, c, from as int),
        from <= s@.len() ==> from <= at <= s@.len(),
        at < s@.len() ==> s@[at as int] == c,
        forall|j: int| from <= j < at && j < s@.len() ==> s@[j] != c,
{
    if from >= s.len() {
        return s.len();
    }
    let mut i: usize = from;
    while i < s.len() && s[i] != c
        invariant
            from <= i <= s.len(),
            spec_find(s@, c, from as int) == spec_find(s@, c, i as int),
            forall|j: int| from <= j < i ==> s@[j] != c,
        decreases s.len() - i,
    {
        i += 1;
    }
    i
}

/// Finds the last `c` in `s`.
pub fn rfind(s: &[u8], c: u8) -> (at: Option<usize>)
    ensures
        match at {
            Some(i) => i == spec_rfind(s@, c, s@.len() as int) && i < s@.len() && s@[i as int]
                == c,
            None => spec_rfind(s@, c, s@.len() as int) == -1,
        },
        forall|j: int|
            spec_rfind(s@, c, s@.len() as int) < j < s@.len() ==> s@[j] != c,
{
    let mut i: usize = s.len();
    while i > 0 && s[i - 1] != c
        invariant
            i <= s.len(),
            spec_rfind(s@, c, s@.len() as int) == spec_rfind(s@, c, i as int),
            forall|j: int| i <= j < s@.len() ==> s@[j] != c,
        decreases i,
    {
        i -= 1;
    }
    if i == 0 {
        None
    } else {
        Some(i - 1)
    }
}

/// Whether `needle` stands in `hay` at `at`.
pub fn occurs_at(hay: &[u8], needle: &[u8], at: usize) -> (found: bool)
    ensures
        found == spec_occurs_at(hay@, needle@, at as int),
{
    if at > hay.len() || needle.len() > hay.len() - at {
        return false;
    }
    let mut i: usize = 0;
    while i < needle.len()
        invariant
            i <= needle.len(),
            at + needle.len() <= hay.len(),
            forall|j: int| 0 <= j < i ==> hay@[at + j] == needle@[j],
        decreases needle.len() - i,
    {
        if hay[at + i] != needle[i] {
            assert(hay@.subrange(at as int, at + needle@.len())[i as int] != needle@[i as int]);
            return false;
        }
        i += 1;
    }
    assert(hay@.subrange(at as int, at + needle@.len()) =~= needle@);
    true
}

/// Whether `s` ends with `suffix`.
pub fn ends_with(s: &[u8], suffix: &[u8]) -> (found: bool)
    ensures
        found == spec_ends_with(s@, suffix@),
{
    if suffix.len() > s.len() {
        return false;
    }
    occurs_at(s, suffix, s.len() - suffix.len())
}

/// Finds the last place where `needle` stands in `hay`.
pub fn rfind_sub(hay: &[u8], needle: &[u8]) -> (at: Option<usize>)
    ensures
        match at {
            Some(i) => spec_occurs_at(hay@, needle@, i as int) && forall|j: int|
                i < j ==> !spec_occurs_at(hay@, needle@, j),
            None => forall|j: int| !spec_occurs_at(hay@, needle@, j),
        },
{
    if needle.len() > hay.len() {
        return None;
    }
    let mut i: usize = hay.len() - needle.len();
    loop
        invariant
            i + needle.len() <= hay.len(),
            forall|j: int| i < j ==> !spec_occurs_at(hay@, needle@, j),
        decreases i,
    {
        if occurs_at(hay, needle, i) {
            return Some(i);
        }
        if i == 0 {
            return None;
        }
        i -= 1;
    }
}

/// Reads the decimal number that the bytes of `s` from `from` up to `to`
/// spell, where they are digits and the number is no greater than `max`.
pub fn parse_decimal(s: &[u8], from: usize, to: usize, max: u64) -> (value: Option<u64>)
    requires
        from <= to <= s.len(),
    ensures
        value == spec_parse_decimal(s@.subrange(from as int, to as int), max),
{
    let ghost field = s@.subrange(from as int, to as int);
    if from == to {
        return None;
    }
    let mut acc: u64 = 0;
    let mut i: usize = from;
    while i < to
        invariant
            from <= i <= to <= s.len(),
            field == s@.subrange(from as int, to as int),
            acc == spec_digits_value(field.take(i - from)),
            acc <= max,
            forall|j: int| 0 <= j < i - from ==> 48 <= #[trigger] field[j] <= 57,
        decreases to - i,
    {
        let b: u8 = s[i];
        assert(field[i - from] == b);
        if b < 48 || b > 57 {
            return None;
        }
        let d: u64 = (b - 48) as u64;
        proof {
            let next = field.take(i - from + 1);
            assert(next.drop_last() =~= field.take(i - from));
            assert(next.last() == b);
            assert(spec_digits_value(next) == acc * 10 + d);
            if spec_is_digits(field) {
                lemma_digits_value_grows(field, i - from + 1);
            }
        }
        if d > max || acc > (max - d) / 10 {
            return None;
        }
        acc = acc * 10 + d;
        i += 1;
    }
    assert(field.take(to - from) =~= field);
    Some(acc)
}

/// The number that digits spell is no less than the number that any start
/// of them spells.
pub proof fn lemma_digits_value_grows(s: Seq<u8>, n: int)
    requires
        0 <= n <= s.len(),
        forall|i: int| 0 <= i < s.len() ==> 48 <= #[trigger] s[i] <= 57,
    ensures
        spec_digits_value(s.take(n)) <= spec_digits_value(s),
    decreases s.len() - n,
{
    if n < s.len() {
        let t = s.drop_last();
        assert(t.take(n) =~= s.take(n));
        lemma_digits_value_grows(t, n);
    } else {
        assert(s.take(n) =~= s);
    }
}

/// Appends `bytes` to `out`.
pub fn extend(out: &mut Vec<u8>, bytes: &[u8])
    ensures
        final(out)@ == old(out)@ + bytes@,
{
    let mut i: usize = 0;
    while i < bytes.len()
        invariant
            i <= bytes.len(),
            out@ == old(out)@ + bytes@.take(i as int),
        decreases bytes.len() - i,
    {
        out.push(bytes[i]);
        assert(bytes@.take(i + 1) =~= bytes@.take(i as int).push(bytes@[i as int]));
        i += 1;
    }
    assert(bytes@.take(bytes@.len() as int) =~= bytes@);
}

/// Appends `digits`, which hold a number's digits from the last to the first,
/// in reading order.
fn push_reversed(out: &mut Vec<u8>, digits: &Vec<u8>)
    ensures
        final(out)@ == old(out)@ + digits@.reverse(),
{
    let mut i: usize = digits.len();
    while i > 0
        invariant
            i <= digits.len(),
            out@ == old(out)@ + digits@.reverse().take(digits@.len() - i),
        decreases i,
    {
        i -= 1;
        out.push(digits[i]);
        assert(digits@.reverse().take(digits@.len() - i) =~= digits@.reverse().take(
            digits@.len() - i - 1,
        ).push(digits@[i as int]));
    }
    assert(digits@.reverse().take(digits@.len() as int) =~= digits@.reverse());
}

/// Appends the last `width` decimal digits of `v`, with leading zeros.
pub fn push_padded(out: &mut Vec<u8>, v: u64, width: usize)
    ensures
        final(out)@ == old(out)@ + spec_padded(v as nat, width as nat),
{
    let mut digits: Vec<u8> = Vec::new();
    let mut rest: u64 = v;
    let mut n: usize = 0;
    while n < width
        invariant
            n <= width,
            spec_padded(v as nat, width as nat) == spec_padded(rest as nat, (width - n) as nat)
                + digits@.reverse(),
        decreases width - n,
    {
        let d: u8 = (48 + rest % 10) as u8;
        let ghost before = digits@;
        digits.push(d);
        proof {
            assert(digits@.reverse() =~= seq![d] + before.reverse());
            assert(spec_padded((rest / 10) as nat, (width - n - 1) as nat).push(d)
                + before.reverse() =~= spec_padded((rest / 10) as nat, (width - n - 1) as nat)
                + digits@.reverse());
        }
        rest = rest / 10;
        n += 1;
    }
    assert(spec_padded(v as nat, width as nat) =~= digits@.reverse());
    push_reversed(out, &digits);
}

/// Appends the decimal digits of `v`, without leading zeros.
pub fn push_decimal(out: &mut Vec<u8>, v: u64)
    ensures
        final(out)@ == old(out)@ + spec_decimal(v as nat),
{
    let mut digits: Vec<u8> = Vec::new();
    let mut rest: u64 = v;
    while rest >= 10
        invariant
            spec_decimal(v as nat) == spec_decimal(rest as nat) + digits@.reverse(),
        decreases rest,
    {
        let d: u8 = (48 + rest % 10) as u8;
        let ghost before = digits@;
        digits.push(d);
        proof {
            assert(digits@.reverse() =~= seq![d] + before.reverse());
            assert(spec_decimal((rest / 10) as nat).push(d) + before.reverse() =~= spec_decimal(
                (rest / 10) as nat,
            ) + digits@.reverse());
        }
        rest = rest / 10;
    }
    let ghost before = digits@;
    digits.push((48 + rest) as u8);
    assert(digits@.reverse() =~= seq![(48 + rest) as u8] + before.reverse());
    push_reversed(out, &digits);
}

} // verus!
