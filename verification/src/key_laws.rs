//! What holds of the names of batches: a name reads back as what it was
//! written from, and the order of the names is the order of the frames.

use vstd::prelude::*;
use crate::compression::CompressionKind;
use crate::generation::{spec_hex_digit, spec_hyphenated, spec_nibble, Generation};
use crate::keys::{
    spec_dot, spec_extension_bytes, spec_generation_object_key, spec_generation_prefix,
    spec_hyphen, spec_parse_extension, spec_parse_segment_key, spec_parse_segment_name,
    spec_segment_name, spec_slash, WalSegmentSummary, FRAME_NO_WIDTH,
};
use crate::text::{
    spec_decimal, spec_digits_value, spec_find, spec_is_digits, spec_padded, spec_parse_decimal,
    spec_rfind,
};

verus! {

/// Ten to the power of `w`.
pub open spec fn spec_pow10(w: nat) -> nat
    decreases w,
{
    if w == 0 {
        1
    } else {
        10 * spec_pow10((w - 1) as nat)
    }
}

/// `v` without its last `w` decimal digits.
pub open spec fn spec_without_digits(v: nat, w: nat) -> nat
    decreases w,
{
    if w == 0 {
        v
    } else {
        spec_without_digits(v / 10, (w - 1) as nat)
    }
}

/// Whether `a` stands before `b` in the order of the dictionary, for texts of
/// one length: at the first place where they differ, `a` has the lesser
/// byte.
pub open spec fn spec_sorts_before(a: Seq<u8>, b: Seq<u8>) -> bool {
    exists|k: int|
        0 <= k < a.len() && k < b.len() && a[k] < b[k] && forall|j: int|
            0 <= j < k ==> a[j] == b[j]
}

/// The last `w` digits of a number are `w` digits, and they spell the number
/// without what stands before them.
pub proof fn lemma_padded(v: nat, w: nat)
    ensures
        spec_padded(v, w).len() == w,
        forall|i: int| 0 <= i < w ==> 48 <= #[trigger] spec_padded(v, w)[i] <= 57,
        spec_digits_value(spec_padded(v, w)) + spec_without_digits(v, w) * spec_pow10(w) == v,
    decreases w,
{
    if w > 0 {
        let rest = spec_padded(v / 10, (w - 1) as nat);
        let d = (48 + v % 10) as u8;
        lemma_padded(v / 10, (w - 1) as nat);
        assert(spec_padded(v, w) == rest.push(d));
        assert(rest.push(d).drop_last() =~= rest);
        assert(spec_digits_value(rest.push(d)) == spec_digits_value(rest) * 10 + (d - 48) as nat);
        let s = spec_without_digits(v / 10, (w - 1) as nat);
        let p = spec_pow10((w - 1) as nat);
        assert(s * (10 * p) == 10 * (s * p)) by (nonlinear_arith);
    } else {
        assert(spec_without_digits(v, 0) * spec_pow10(0) == v) by (nonlinear_arith)
            requires
                spec_without_digits(v, 0) == v,
                spec_pow10(0) == 1,
        ;
    }
}

/// A number below ten to the power of `w` has nothing before its last `w`
/// digits.
pub proof fn lemma_nothing_before_digits(v: nat, w: nat)
    requires
        v < spec_pow10(w),
    ensures
        spec_without_digits(v, w) == 0,
    decreases w,
{
    if w > 0 {
        lemma_nothing_before_digits(v / 10, (w - 1) as nat);
    }
}

/// Ten to the power of ten.
pub proof fn lemma_pow10_of_ten()
    ensures
        spec_pow10(10) == 10_000_000_000,
{
    assert(spec_pow10(0) == 1);
    assert(spec_pow10(1) == 10);
    assert(spec_pow10(2) == 100);
    assert(spec_pow10(3) == 1_000);
    assert(spec_pow10(4) == 10_000);
    assert(spec_pow10(5) == 100_000);
    assert(spec_pow10(6) == 1_000_000);
    assert(spec_pow10(7) == 10_000_000);
    assert(spec_pow10(8) == 100_000_000);
    assert(spec_pow10(9) == 1_000_000_000);
}

/// A frame number, padded, reads back as itself.
pub proof fn lemma_frame_no_round_trip(v: u32)
    ensures
        spec_padded(v as nat, FRAME_NO_WIDTH as nat).len() == FRAME_NO_WIDTH,
        spec_is_digits(spec_padded(v as nat, FRAME_NO_WIDTH as nat)),
        spec_parse_decimal(spec_padded(v as nat, FRAME_NO_WIDTH as nat), u32::MAX as u64) == Some(
            v as u64,
        ),
{
    lemma_padded(v as nat, 10);
    lemma_pow10_of_ten();
    lemma_nothing_before_digits(v as nat, 10);
    assert(0 * spec_pow10(10) == 0) by (nonlinear_arith);
}

/// The digits of a number are digits, and they spell the number.
pub proof fn lemma_decimal(v: nat)
    ensures
        spec_is_digits(spec_decimal(v)),
        spec_digits_value(spec_decimal(v)) == v,
    decreases v,
{
    if v < 10 {
        let s = seq![(48 + v) as u8];
        assert(s.drop_last() =~= Seq::<u8>::empty());
        assert(spec_digits_value(s.drop_last()) == 0);
    } else {
        let rest = spec_decimal(v / 10);
        let d = (48 + v % 10) as u8;
        lemma_decimal(v / 10);
        assert(rest.push(d).drop_last() =~= rest);
    }
}

/// Where `c` stands at `at` and nowhere between `from` and `at`, the search
/// from `from` finds it at `at`.
pub proof fn lemma_find_first(s: Seq<u8>, c: u8, from: int, at: int)
    requires
        0 <= from <= at < s.len(),
        s[at] == c,
        forall|j: int| from <= j < at ==> s[j] != c,
    ensures
        spec_find(s, c, from) == at,
    decreases at - from,
{
    if from < at {
        lemma_find_first(s, c, from + 1, at);
    }
}

/// Where `c` stands at `at` and nowhere between `at` and `upto`, the search
/// back from `upto` finds it at `at`.
pub proof fn lemma_find_last(s: Seq<u8>, c: u8, upto: int, at: int)
    requires
        0 <= at < upto <= s.len(),
        s[at] == c,
        forall|j: int| at < j < upto ==> s[j] != c,
    ensures
        spec_rfind(s, c, upto) == at,
    decreases upto - at,
{
    if at + 1 < upto {
        lemma_find_last(s, c, upto - 1, at);
    }
}

/// The ending of a batch name reads back as the compression that it was
/// written from.
pub proof fn lemma_extension_round_trip(kind: CompressionKind)
    ensures
        spec_parse_extension(spec_extension_bytes(kind)) == Some(kind),
        forall|i: int|
            0 <= i < spec_extension_bytes(kind).len() ==> 97 <= #[trigger] spec_extension_bytes(
                kind,
            )[i] <= 122,
{
    let gz = spec_extension_bytes(CompressionKind::Gzip);
    let raw = spec_extension_bytes(CompressionKind::Raw);
    assert(gz.len() == 2 && raw.len() == 3);
}

/// Names read back: the name that is written for a batch tells of the batch
/// what it was written from.
pub proof fn lemma_segment_name_round_trip(s: WalSegmentSummary)
    ensures
        spec_parse_segment_name(spec_segment_name(s)) == Some(s),
        forall|i: int|
            0 <= i < spec_segment_name(s).len() ==> #[trigger] spec_segment_name(s)[i] != 47,
{
    let a = spec_padded(s.first_frame_no as nat, FRAME_NO_WIDTH as nat);
    let b = spec_padded(s.last_frame_no as nat, FRAME_NO_WIDTH as nat);
    let c = spec_decimal(s.timestamp as nat);
    let e = spec_extension_bytes(s.compression_kind);
    let name = spec_segment_name(s);
    lemma_frame_no_round_trip(s.first_frame_no);
    lemma_frame_no_round_trip(s.last_frame_no);
    lemma_decimal(s.timestamp as nat);
    lemma_extension_round_trip(s.compression_kind);
    let dash_a = a.len() as int;
    let dash_b = dash_a + 1 + b.len();
    let dot_at = dash_b + 1 + c.len();
    assert(name == a + spec_hyphen() + b + spec_hyphen() + c + spec_dot() + e);
    assert(name.len() == dot_at + 1 + e.len());
    // Every byte of the name, by the part that it stands in.
    assert forall|i: int| 0 <= i < name.len() implies #[trigger] name[i] == (if i < dash_a {
        a[i]
    } else if i == dash_a {
        45u8
    } else if i < dash_b {
        b[i - dash_a - 1]
    } else if i == dash_b {
        45u8
    } else if i < dot_at {
        c[i - dash_b - 1]
    } else if i == dot_at {
        46u8
    } else {
        e[i - dot_at - 1]
    }) by {}
    assert forall|i: int| 0 <= i < name.len() implies #[trigger] name[i] != 47 by {
        if i < dash_a {
            assert(48 <= a[i] <= 57);
        } else if dash_a < i < dash_b {
            assert(48 <= b[i - dash_a - 1] <= 57);
        } else if dash_b < i < dot_at {
            assert(48 <= c[i - dash_b - 1] <= 57);
        } else if i > dot_at {
            assert(97 <= e[i - dot_at - 1] <= 122);
        }
    }
    assert forall|j: int| 0 <= j < dash_a implies name[j] != 45 by {
        assert(48 <= a[j] <= 57);
    }
    lemma_find_first(name, 45u8, 0, dash_a);
    assert forall|j: int| dash_a + 1 <= j < dash_b implies name[j] != 45 by {
        assert(48 <= b[j - dash_a - 1] <= 57);
    }
    lemma_find_first(name, 45u8, dash_a + 1, dash_b);
    assert forall|j: int| dash_b + 1 <= j < dot_at implies name[j] != 46 by {
        assert(48 <= c[j - dash_b - 1] <= 57);
    }
    lemma_find_first(name, 46u8, dash_b + 1, dot_at);
    assert(name.subrange(0, dash_a) =~= a);
    assert(name.subrange(dash_a + 1, dash_b) =~= b);
    assert(name.subrange(dash_b + 1, dot_at) =~= c);
    assert(name.subrange(dot_at + 1, name.len() as int) =~= e);
}

/// Keys read back: the key under which a batch is stored tells of the batch
/// what it was written from, whatever the name of the database is.
pub proof fn lemma_batch_key_round_trip(
    db_name: Seq<u8>,
    generation: Generation,
    s: WalSegmentSummary,
)
    ensures
        spec_parse_segment_key(spec_generation_object_key(db_name, generation, spec_segment_name(s)))
            == Some(s),
{
    let prefix = spec_generation_prefix(db_name, generation);
    let name = spec_segment_name(s);
    let key = spec_generation_object_key(db_name, generation, name);
    lemma_segment_name_round_trip(s);
    let at = prefix.len() as int;
    assert(key == prefix + spec_slash() + name);
    assert(key[at] == 47);
    assert forall|j: int| at < j < key.len() implies key[j] != 47 by {
        assert(key[j] == name[j - at - 1]);
    }
    lemma_find_last(key, 47u8, key.len() as int, at);
    assert(key.subrange(at + 1, key.len() as int) =~= name);
}

/// Of two numbers below ten to the power of `w`, the lesser one sorts first
/// when both are padded to `w` digits.
pub proof fn lemma_padded_order(x: nat, y: nat, w: nat)
    requires
        x < y < spec_pow10(w),
    ensures
        spec_sorts_before(spec_padded(x, w), spec_padded(y, w)),
    decreases w,
{
    lemma_padded(x, w);
    lemma_padded(y, w);
    if w > 0 {
        let a = spec_padded(x, w);
        let b = spec_padded(y, w);
        let ra = spec_padded(x / 10, (w - 1) as nat);
        let rb = spec_padded(y / 10, (w - 1) as nat);
        lemma_padded(x / 10, (w - 1) as nat);
        lemma_padded(y / 10, (w - 1) as nat);
        assert(a == ra.push((48 + x % 10) as u8));
        assert(b == rb.push((48 + y % 10) as u8));
        if x / 10 < y / 10 {
            lemma_padded_order(x / 10, y / 10, (w - 1) as nat);
            let k = choose|k: int|
                0 <= k < ra.len() && k < rb.len() && ra[k] < rb[k] && forall|j: int|
                    0 <= j < k ==> ra[j] == rb[j];
            assert(a[k] == ra[k] && b[k] == rb[k]);
            assert forall|j: int| 0 <= j < k implies a[j] == b[j] by {
                assert(a[j] == ra[j] && b[j] == rb[j]);
            }
        } else {
            assert(x / 10 == y / 10);
            let k = (w - 1) as int;
            assert(a[k] < b[k]);
            assert forall|j: int| 0 <= j < k implies a[j] == b[j] by {
                assert(a[j] == ra[j] && b[j] == rb[j]);
            }
        }
    }
}

/// The order of the names is the order of the frames: of two batches, the
/// one that starts at the lesser frame has the name that sorts first.
pub proof fn lemma_names_sort_as_frames(s: WalSegmentSummary, t: WalSegmentSummary)
    requires
        s.first_frame_no < t.first_frame_no,
    ensures
        spec_sorts_before(spec_segment_name(s), spec_segment_name(t)),
{
    let a = spec_padded(s.first_frame_no as nat, FRAME_NO_WIDTH as nat);
    let b = spec_padded(t.first_frame_no as nat, FRAME_NO_WIDTH as nat);
    lemma_pow10_of_ten();
    lemma_padded(s.first_frame_no as nat, 10);
    lemma_padded(t.first_frame_no as nat, 10);
    lemma_padded_order(s.first_frame_no as nat, t.first_frame_no as nat, 10);
    let k = choose|k: int|
        0 <= k < a.len() && k < b.len() && a[k] < b[k] && forall|j: int|
            0 <= j < k ==> a[j] == b[j];
    let m = spec_segment_name(s);
    let n = spec_segment_name(t);
    assert(m[k] == a[k] && n[k] == b[k]);
    assert forall|j: int| 0 <= j < k implies m[j] == n[j] by {
        assert(m[j] == a[j] && n[j] == b[j]);
    }
}

/// The text of a generation holds no slash: it is made of digits, the
/// letters `a` to `f`, and hyphens.
pub proof fn lemma_hyphenated_has_no_slash(id: u128)
    ensures
        spec_hyphenated(id).len() == 36,
        forall|i: int| 0 <= i < 36 ==> #[trigger] spec_hyphenated(id)[i] != 47,
{
    assert forall|i: int| 0 <= i < 36 implies #[trigger] spec_hyphenated(id)[i] != 47 by {
        if !(i == 8 || i == 13 || i == 18 || i == 23) {
            let k = i - crate::generation::spec_hyphens_before(i);
            let shift = ((31 - k) * 4) as u128;
            let n = spec_nibble(id, k);
            assert((id >> shift) & 0xf <= 15) by (bit_vector);
            assert(spec_hyphenated(id)[i] == spec_hex_digit(n));
        }
    }
}

/// The key of an object of a generation names the generation where the
/// search for the first slash ends: after the name of the database, which
/// holds no slash itself, and the text of the generation.
pub proof fn lemma_generation_stands_before_first_slash(
    db_name: Seq<u8>,
    generation: Generation,
    leaf: Seq<u8>,
)
    requires
        forall|i: int| 0 <= i < db_name.len() ==> db_name[i] != 47,
    ensures
        spec_find(spec_generation_object_key(db_name, generation, leaf), 47u8, 0) == db_name.len()
            + 37,
        spec_generation_object_key(db_name, generation, leaf).subrange(
            db_name.len() as int + 1,
            db_name.len() as int + 37,
        ) == spec_hyphenated(generation.id),
{
    let key = spec_generation_object_key(db_name, generation, leaf);
    let text = spec_hyphenated(generation.id);
    let at = db_name.len() as int + 37;
    lemma_hyphenated_has_no_slash(generation.id);
    assert(key == db_name + spec_hyphen() + text + spec_slash() + leaf);
    assert(key[at] == 47);
    assert forall|j: int| 0 <= j < at implies key[j] != 47 by {
        if j < db_name.len() {
            assert(key[j] == db_name[j]);
        } else if j == db_name.len() {
            assert(key[j] == 45);
        } else {
            assert(key[j] == text[j - db_name.len() - 1]);
        }
    }
    lemma_find_first(key, 47u8, 0, at);
    assert(key.subrange(db_name.len() as int + 1, at) =~= text);
}

} // verus!
