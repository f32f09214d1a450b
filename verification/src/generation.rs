//! Generations: the time-sortable identifiers under which batches and
//! snapshots are stored.
//!
//! A generation is a version 7 UUID whose time field holds the creation time
//! counted backwards from a far future instant, so that a listing in ascending
//! key order meets the newest generation first.

use vstd::prelude::*;
use crate::codec::{lemma_u128_round_trip, push_be_u128, read_be_u128, spec_be_u128, spec_u128_bytes};

verus! {

/// The instant, in milliseconds since the Unix epoch, from which generation
/// identifiers count backwards: 23:00:00.999 UTC on the last day of the year
/// 9998, which is 253 370 761 200 seconds and 999 milliseconds after the
/// epoch.
pub const REVERSED_EPOCH_MILLIS: u64 = 253_370_761_200_999;

/// A generation identifier: 128 bits, of which the upper 48 hold the reversed
/// creation time in milliseconds.
#[derive(Debug, Clone, Copy, PartialEq, Eq, Structural, Hash)]
pub struct Generation {
    pub id: u128,
}

/// The time field of an identifier: its upper 48 bits.
pub open spec fn spec_time_field(id: u128) -> int {
    id as int / 0x1_0000_0000_0000_0000_0000
}

/// The version number of an identifier: bits 76 to 79.
pub open spec fn spec_version(id: u128) -> int {
    (id as int / 0x1000_0000_0000_0000_0000) % 16
}

/// What is left of an identifier below its time field.
pub open spec fn spec_low_bits(id: u128) -> int {
    id as int % 0x1_0000_0000_0000_0000_0000
}

/// The time that `new` embeds for a clock reading of `now_millis`.
pub open spec fn spec_reversed_millis(now_millis: u64) -> int {
    if now_millis >= REVERSED_EPOCH_MILLIS {
        0
    } else {
        REVERSED_EPOCH_MILLIS - now_millis
    }
}

/// The creation time that a generation made at `now_millis` holds: the clock
/// reading, or the instant that is counted back from where it lies beyond.
pub open spec fn spec_clamped_millis(now_millis: u64) -> u64 {
    if now_millis >= REVERSED_EPOCH_MILLIS {
        REVERSED_EPOCH_MILLIS
    } else {
        now_millis
    }
}

/// The creation time that an identifier holds, in milliseconds since the
/// epoch: there is one where the identifier is of version 7 and its time
/// field does not lie beyond the instant that is counted back from.
pub open spec fn spec_creation_millis(id: u128) -> Option<u64> {
    if spec_version(id) == 7 && spec_time_field(id) <= REVERSED_EPOCH_MILLIS {
        Some((REVERSED_EPOCH_MILLIS - spec_time_field(id)) as u64)
    } else {
        None
    }
}

/// The lower-case hexadecimal digit of a number below 16.
pub open spec fn spec_hex_digit(n: u128) -> u8 {
    if n < 10 {
        (48 + n) as u8
    } else {
        (87 + n) as u8
    }
}

/// The `k`-th of the 32 hexadecimal digits of an identifier, the most
/// significant first.
pub open spec fn spec_nibble(id: u128, k: int) -> u128 {
    (id >> (((31 - k) * 4) as u128)) & 0xf
}

/// How many hyphens stand before position `i` of the 36 characters.
pub open spec fn spec_hyphens_before(i: int) -> int {
    if i < 8 {
        0
    } else if i < 13 {
        1
    } else if i < 18 {
        2
    } else if i < 23 {
        3
    } else {
        4
    }
}

/// An identifier as 36 characters: 32 lower-case hexadecimal digits in
/// groups of 8, 4, 4, 4 and 12 with a hyphen between the groups.
pub open spec fn spec_hyphenated(id: u128) -> Seq<u8> {
    Seq::new(
        36,
        |i: int|
            if i == 8 || i == 13 || i == 18 || i == 23 {
                45u8
            } else {
                spec_hex_digit(spec_nibble(id, i - spec_hyphens_before(i)))
            },
    )
}

/// The identifier that a text spells, where it spells one. The outside parser
/// takes the 36-character form that `spec_hyphenated` gives and several
/// others.
pub uninterp spec fn spec_uuid_parsed(text: Seq<u8>) -> Option<u128>;

/// `uuid::Uuid::new_v7` on a Unix timestamp that carries no counter. The
/// identifier that comes back holds the timestamp's milliseconds in its upper
/// 48 bits and the version number 7 below them; the rest is random.
#[verifier::external_body]
fn uuid_v7(secs: u64, nanos: u32) -> (id: u128)
    requires
        secs * 1000 + nanos / 1_000_000 < 0x1_0000_0000_0000,
    ensures
        spec_time_field(id) == secs * 1000 + nanos / 1_000_000,
        spec_version(id) == 7,
{
    uuid::Uuid::new_v7(uuid::Timestamp::from_unix(uuid::NoContext, secs, nanos)).as_u128()
}

/// The `Display` form of `uuid::Uuid`: lower-case and hyphenated.
#[verifier::external_body]
fn uuid_hyphenated(id: u128) -> (text: Vec<u8>)
    ensures
        text@ == spec_hyphenated(id),
{
    uuid::Uuid::from_u128(id).hyphenated().to_string().into_bytes()
}

/// `uuid::Uuid::try_parse_ascii`: the identifier that the text spells, or
/// nothing where the parser refuses it. The parser takes the hyphenated
/// lower-case form of every identifier, and reads it as that identifier.
#[verifier::external_body]
fn uuid_parse(text: &[u8]) -> (parsed: Option<u128>)
    ensures
        parsed == spec_uuid_parsed(text@),
        forall|id: u128| text@ == #[trigger] spec_hyphenated(id) ==> parsed == Some(id),
{
    uuid::Uuid::try_parse_ascii(text).ok().map(|id| id.as_u128())
}

impl Generation {
    /// The creation time held in this generation, in milliseconds since the
    /// epoch.
    pub open spec fn spec_timestamp_millis(&self) -> Option<u64> {
        spec_creation_millis(self.id)
    }

    /// A generation for a clock that reads `now_millis` milliseconds since the
    /// epoch. Readings beyond `REVERSED_EPOCH_MILLIS` count as that instant.
    pub fn new(now_millis: u64) -> (generation: Generation)
        ensures
            spec_time_field(generation.id) == spec_reversed_millis(now_millis),
            spec_version(generation.id) == 7,
            generation.spec_timestamp_millis() == Some(spec_clamped_millis(now_millis)),
    {
        let reversed: u64 = if now_millis >= REVERSED_EPOCH_MILLIS {
            0
        } else {
            REVERSED_EPOCH_MILLIS - now_millis
        };
        let secs: u64 = reversed / 1000;
        let nanos: u32 = ((reversed % 1000) * 1_000_000) as u32;
        Generation { id: uuid_v7(secs, nanos) }
    }

    /// The generation with the given 128 bits.
    pub fn from_u128(id: u128) -> (generation: Generation)
        ensures
            generation.id == id,
    {
        Generation { id }
    }

    /// The 128 bits of this generation.
    pub fn as_u128(&self) -> (id: u128)
        ensures
            id == self.id,
    {
        self.id
    }

    /// Reads a generation from its 16 bytes, as a dependency object and the
    /// last-snapshot file hold them.
    pub fn from_bytes(bytes: &[u8]) -> (generation: Option<Generation>)
        ensures
            generation == if bytes@.len() == 16 {
                Some(Generation { id: spec_be_u128(bytes@, 0) })
            } else {
                None
            },
    {
        if bytes.len() != 16 {
            return None;
        }
        Some(Generation { id: read_be_u128(bytes, 0) })
    }

    /// The 16 bytes of this generation, most significant first.
    pub fn to_bytes(&self) -> (bytes: Vec<u8>)
        ensures
            bytes@ == spec_u128_bytes(self.id),
            bytes@.len() == 16,
    {
        let mut out: Vec<u8> = Vec::new();
        push_be_u128(&mut out, self.id);
        assert(out@ =~= spec_u128_bytes(self.id));
        out
    }

    /// The creation time held in this generation, in milliseconds since the
    /// epoch, where it holds one.
    pub fn timestamp_millis(&self) -> (millis: Option<u64>)
        ensures
            millis == self.spec_timestamp_millis(),
    {
        let field: u128 = self.id / 0x1_0000_0000_0000_0000_0000;
        let version: u128 = (self.id / 0x1000_0000_0000_0000_0000) % 16;
        if version == 7 && field <= REVERSED_EPOCH_MILLIS as u128 {
            Some(REVERSED_EPOCH_MILLIS - field as u64)
        } else {
            None
        }
    }

    /// This generation as it stands in object keys: 36 characters, lower-case
    /// and hyphenated.
    pub fn to_hyphenated(&self) -> (text: Vec<u8>)
        ensures
            text@ == spec_hyphenated(self.id),
            text@.len() == 36,
    {
        uuid_hyphenated(self.id)
    }

    /// Reads a generation from the text of an object key. The form that
    /// `to_hyphenated` gives reads back as the generation that it was made
    /// from.
    pub fn parse(text: &[u8]) -> (generation: Option<Generation>)
        ensures
            generation == match spec_uuid_parsed(text@) {
                Some(id) => Some(Generation { id }),
                None => None,
            },
            forall|id: u128|
                text@ == #[trigger] spec_hyphenated(id) ==> generation == Some(Generation { id }),
    {
        match uuid_parse(text) {
            Some(id) => Some(Generation { id }),
            None => None,
        }
    }
}

/// The 16 bytes of a generation read back as the same generation.
pub proof fn lemma_generation_bytes_round_trip(g: Generation)
    ensures
        spec_u128_bytes(g.id).len() == 16,
        spec_be_u128(spec_u128_bytes(g.id), 0) == g.id,
{
    let e = Seq::<u8>::empty();
    lemma_u128_round_trip(e, g.id, e);
    assert(e + spec_u128_bytes(g.id) + e =~= spec_u128_bytes(g.id));
}

/// Identifiers are ordered against time: of two generations that hold
/// creation times, the one created later has the smaller identifier, so an
/// ascending listing meets it first.
pub proof fn lemma_newer_generation_sorts_first(older: Generation, newer: Generation)
    requires
        older.spec_timestamp_millis() is Some,
        newer.spec_timestamp_millis() is Some,
        older.spec_timestamp_millis().unwrap() < newer.spec_timestamp_millis().unwrap(),
    ensures
        newer.id < older.id,
{
    let t = 0x1_0000_0000_0000_0000_0000int;
    assert(older.id as int == t * spec_time_field(older.id) + spec_low_bits(older.id));
    assert(newer.id as int == t * spec_time_field(newer.id) + spec_low_bits(newer.id));
    assert(spec_time_field(newer.id) + 1 <= spec_time_field(older.id));
}

} // verus!
