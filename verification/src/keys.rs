//! The layout of the object store: where each object of a database stands and
//! how the name of a batch object is written and read.
//!
//! Under `{db-name}-{generation}/` a generation keeps `.meta`,
//! `.changecounter`, `.dep`, its snapshot `db.db` or `db.gz`, and its batches
//! `{first-frame}-{last-frame}-{epoch-ms}.{raw|gz}`. Frame numbers are padded
//! to ten digits, so that the order of the names is the order of the frames.

use vstd::prelude::*;
use crate::compression::CompressionKind;
use crate::generation::{spec_hyphenated, spec_uuid_parsed, Generation};
use crate::text::{
    ends_with, extend, find, parse_decimal, push_decimal, push_padded, rfind, rfind_sub,
    spec_decimal, spec_ends_with, spec_find, spec_occurs_at, spec_padded, spec_parse_decimal,
    spec_rfind,
};

verus! {

/// Number of digits to which frame numbers are padded in batch names.
pub const FRAME_NO_WIDTH: usize = 10;

/// The hyphen that parts the fields of a name.
pub open spec fn spec_hyphen() -> Seq<u8> {
    seq![45u8]
}

/// The slash that parts the directory of a generation from the name of an
/// object.
pub open spec fn spec_slash() -> Seq<u8> {
    seq![47u8]
}

/// The dot in front of the ending of a name.
pub open spec fn spec_dot() -> Seq<u8> {
    seq![46u8]
}

/// `raw` or `gz`: the ending of a batch name.
pub open spec fn spec_extension_bytes(kind: CompressionKind) -> Seq<u8> {
    match kind {
        CompressionKind::Raw => seq![114u8, 97u8, 119u8],
        CompressionKind::Gzip => seq![103u8, 122u8],
    }
}

/// `.meta`: page size and initial checksum of a generation.
pub open spec fn spec_meta_leaf() -> Seq<u8> {
    seq![46u8, 109u8, 101u8, 116u8, 97u8]
}

/// `.changecounter`: the change counter of the snapshot's database file.
pub open spec fn spec_change_counter_leaf() -> Seq<u8> {
    seq![46u8, 99u8, 104u8, 97u8, 110u8, 103u8, 101u8, 99u8, 111u8, 117u8, 110u8, 116u8, 101u8, 114u8]
}

/// `.dep`: the parent of a generation.
pub open spec fn spec_dependency_leaf() -> Seq<u8> {
    seq![46u8, 100u8, 101u8, 112u8]
}

/// `.tombstone`: the ending of a database's tombstone key.
pub open spec fn spec_tombstone_suffix() -> Seq<u8> {
    seq![46u8, 116u8, 111u8, 109u8, 98u8, 115u8, 116u8, 111u8, 110u8, 101u8]
}

/// `db.db` or `db.gz`: the snapshot of a generation.
pub open spec fn spec_snapshot_leaf(kind: CompressionKind) -> Seq<u8> {
    match kind {
        CompressionKind::Raw => seq![100u8, 98u8, 46u8, 100u8, 98u8],
        CompressionKind::Gzip => seq![100u8, 98u8, 46u8, 103u8, 122u8],
    }
}

/// `{db-name}-{generation}`: the directory of a generation.
pub open spec fn spec_generation_prefix(db_name: Seq<u8>, generation: Generation) -> Seq<u8> {
    db_name + spec_hyphen() + spec_hyphenated(generation.id)
}

/// `{db-name}-{generation}/{leaf}`: an object of a generation.
pub open spec fn spec_generation_object_key(
    db_name: Seq<u8>,
    generation: Generation,
    leaf: Seq<u8>,
) -> Seq<u8> {
    spec_generation_prefix(db_name, generation) + spec_slash() + leaf
}

/// What a batch name tells of the batch.
#[derive(Debug, Clone, Copy, PartialEq, Eq, Structural)]
pub struct WalSegmentSummary {
    /// Number of the first frame in the batch.
    pub first_frame_no: u32,
    /// Number of the last frame in the batch.
    pub last_frame_no: u32,
    /// When the batch was written, in milliseconds since the epoch.
    pub timestamp: u64,
    /// How the batch is compressed.
    pub compression_kind: CompressionKind,
}

/// `{first}-{last}-{epoch-ms}.{raw|gz}`: the name of a batch.
pub open spec fn spec_segment_name(s: WalSegmentSummary) -> Seq<u8> {
    spec_padded(s.first_frame_no as nat, FRAME_NO_WIDTH as nat) + spec_hyphen() + spec_padded(
        s.last_frame_no as nat,
        FRAME_NO_WIDTH as nat,
    ) + spec_hyphen() + spec_decimal(s.timestamp as nat) + spec_dot() + spec_extension_bytes(
        s.compression_kind,
    )
}

/// The compression kind that the ending of a batch name spells.
pub open spec fn spec_parse_extension(ext: Seq<u8>) -> Option<CompressionKind> {
    if ext == spec_extension_bytes(CompressionKind::Gzip) {
        Some(CompressionKind::Gzip)
    } else if ext == spec_extension_bytes(CompressionKind::Raw) {
        Some(CompressionKind::Raw)
    } else {
        None
    }
}

/// What a batch name tells: three decimal numbers, parted by hyphens, and
/// after a dot the compression. A name of any other shape tells nothing; so
/// does a name of two numbers only, which carries no time. The numbers are
/// digits and nothing else: a sign is no part of a name.
pub open spec fn spec_parse_segment_name(name: Seq<u8>) -> Option<WalSegmentSummary> {
    let dash_a = spec_find(name, 45u8, 0);
    let dash_b = spec_find(name, 45u8, dash_a + 1);
    let dot_at = spec_find(name, 46u8, dash_b + 1);
    if dot_at >= name.len() {
        None
    } else {
        let first = spec_parse_decimal(name.subrange(0, dash_a), u32::MAX as u64);
        let last = spec_parse_decimal(name.subrange(dash_a + 1, dash_b), u32::MAX as u64);
        let stamp = spec_parse_decimal(name.subrange(dash_b + 1, dot_at), u64::MAX);
        let kind = spec_parse_extension(name.subrange(dot_at + 1, name.len() as int));
        if first is Some && last is Some && stamp is Some && kind is Some {
            Some(
                WalSegmentSummary {
                    first_frame_no: first.unwrap() as u32,
                    last_frame_no: last.unwrap() as u32,
                    timestamp: stamp.unwrap(),
                    compression_kind: kind.unwrap(),
                },
            )
        } else {
            None
        }
    }
}

/// What an object key tells of a batch: what the name after its last slash
/// tells. A key without a slash tells nothing.
pub open spec fn spec_parse_segment_key(key: Seq<u8>) -> Option<WalSegmentSummary> {
    let slash = spec_rfind(key, 47u8, key.len() as int);
    if slash < 0 {
        None
    } else {
        spec_parse_segment_name(key.subrange(slash + 1, key.len() as int))
    }
}

/// The generation that an object key names: the text between the database
/// name with its hyphen and the first slash, or, in a key without a slash, the
/// whole key.
pub open spec fn spec_generation_of_key(db_name: Seq<u8>, key: Seq<u8>) -> Option<Generation> {
    let slash = spec_find(key, 47u8, 0);
    if slash >= key.len() {
        match spec_uuid_parsed(key) {
            Some(id) => Some(Generation { id }),
            None => None,
        }
    } else if slash < db_name.len() + 1 {
        None
    } else {
        match spec_uuid_parsed(key.subrange(db_name.len() as int + 1, slash)) {
            Some(id) => Some(Generation { id }),
            None => None,
        }
    }
}

fn extension_bytes(kind: CompressionKind) -> (ext: Vec<u8>)
    ensures
        ext@ == spec_extension_bytes(kind),
{
    match kind {
        CompressionKind::Raw => vec![114u8, 97u8, 119u8],
        CompressionKind::Gzip => vec![103u8, 122u8],
    }
}

fn parse_extension(name: &[u8], from: usize) -> (kind: Option<CompressionKind>)
    requires
        from <= name.len(),
    ensures
        kind == spec_parse_extension(name@.subrange(from as int, name@.len() as int)),
{
    let ghost ext = name@.subrange(from as int, name@.len() as int);
    let n: usize = name.len() - from;
    if n == 2 && name[from] == 103 && name[from + 1] == 122 {
        assert(ext =~= spec_extension_bytes(CompressionKind::Gzip));
        Some(CompressionKind::Gzip)
    } else if n == 3 && name[from] == 114 && name[from + 1] == 97 && name[from + 2] == 119 {
        assert(ext =~= spec_extension_bytes(CompressionKind::Raw));
        Some(CompressionKind::Raw)
    } else {
        proof {
            if ext == spec_extension_bytes(CompressionKind::Gzip) {
                assert(ext[0] == 103 && ext[1] == 122);
            }
            if ext == spec_extension_bytes(CompressionKind::Raw) {
                assert(ext[0] == 114 && ext[1] == 97 && ext[2] == 119);
            }
        }
        None
    }
}

impl WalSegmentSummary {
    /// Reads what a batch's object key tells of it.
    pub fn parse(key: &[u8]) -> (summary: Option<WalSegmentSummary>)
        ensures
            summary == spec_parse_segment_key(key@),
    {
        let len: usize = key.len();
        let start: usize = match rfind(key, 47) {
            Some(slash) => {
                assert(slash < len);
                slash + 1
            },
            None => {
                return None;
            },
        };
        let ghost name = key@.subrange(start as int, key@.len() as int);
        let mut name_bytes: Vec<u8> = Vec::new();
        let mut i: usize = start;
        while i < key.len()
            invariant
                start <= i <= key.len(),
                name_bytes@ == key@.subrange(start as int, i as int),
            decreases key.len() - i,
        {
            name_bytes.push(key[i]);
            assert(key@.subrange(start as int, i + 1) =~= key@.subrange(start as int, i as int).push(
                key@[i as int],
            ));
            i += 1;
        }
        Self::parse_name(name_bytes.as_slice())
    }

    /// Reads what a batch's name, the part of its key after the last slash,
    /// tells of it.
    pub fn parse_name(name: &[u8]) -> (summary: Option<WalSegmentSummary>)
        ensures
            summary == spec_parse_segment_name(name@),
    {
        let dash_a: usize = find(name, 45, 0);
        if dash_a >= name.len() {
            return None;
        }
        let dash_b: usize = find(name, 45, dash_a + 1);
        if dash_b >= name.len() {
            return None;
        }
        let dot_at: usize = find(name, 46, dash_b + 1);
        if dot_at >= name.len() {
            return None;
        }
        let first: Option<u64> = parse_decimal(name, 0, dash_a, u32::MAX as u64);
        let last: Option<u64> = parse_decimal(name, dash_a + 1, dash_b, u32::MAX as u64);
        let stamp: Option<u64> = parse_decimal(name, dash_b + 1, dot_at, u64::MAX);
        let kind: Option<CompressionKind> = parse_extension(name, dot_at + 1);
        match (first, last, stamp, kind) {
            (Some(first), Some(last), Some(stamp), Some(kind)) => Some(
                WalSegmentSummary {
                    first_frame_no: first as u32,
                    last_frame_no: last as u32,
                    timestamp: stamp,
                    compression_kind: kind,
                },
            ),
            _ => None,
        }
    }

    /// The name under which a batch is stored in its generation.
    pub fn file_name(&self) -> (name: Vec<u8>)
        ensures
            name@ == spec_segment_name(*self),
    {
        let mut out: Vec<u8> = Vec::new();
        push_padded(&mut out, self.first_frame_no as u64, FRAME_NO_WIDTH);
        out.push(45);
        push_padded(&mut out, self.last_frame_no as u64, FRAME_NO_WIDTH);
        out.push(45);
        push_decimal(&mut out, self.timestamp);
        out.push(46);
        let ext: Vec<u8> = extension_bytes(self.compression_kind);
        extend(&mut out, ext.as_slice());
        assert(out@ =~= spec_segment_name(*self));
        out
    }

    /// Number of frames in the batch; none where the last frame lies before
    /// the first.
    pub fn frame_count(&self) -> (count: u64)
        ensures
            count == if self.last_frame_no >= self.first_frame_no {
                self.last_frame_no - self.first_frame_no + 1
            } else {
                0
            },
    {
        if self.last_frame_no >= self.first_frame_no {
            (self.last_frame_no - self.first_frame_no) as u64 + 1
        } else {
            0
        }
    }
}

/// The directory of a generation: `{db-name}-{generation}`.
pub fn generation_prefix(db_name: &[u8], generation: &Generation) -> (prefix: Vec<u8>)
    ensures
        prefix@ == spec_generation_prefix(db_name@, *generation),
{
    let mut out: Vec<u8> = Vec::new();
    extend(&mut out, db_name);
    out.push(45);
    let id: Vec<u8> = generation.to_hyphenated();
    extend(&mut out, id.as_slice());
    assert(out@ =~= spec_generation_prefix(db_name@, *generation));
    out
}

/// The key of an object of a generation: `{db-name}-{generation}/{leaf}`.
pub fn generation_object_key(db_name: &[u8], generation: &Generation, leaf: &[u8]) -> (key: Vec<u8>)
    ensures
        key@ == spec_generation_object_key(db_name@, *generation, leaf@),
{
    let mut out: Vec<u8> = generation_prefix(db_name, generation);
    out.push(47);
    extend(&mut out, leaf);
    assert(out@ =~= spec_generation_object_key(db_name@, *generation, leaf@));
    out
}

/// The key of a batch of a generation.
pub fn batch_key(db_name: &[u8], generation: &Generation, summary: &WalSegmentSummary) -> (key: Vec<
    u8,
>)
    ensures
        key@ == spec_generation_object_key(db_name@, *generation, spec_segment_name(*summary)),
{
    let name: Vec<u8> = summary.file_name();
    generation_object_key(db_name, generation, name.as_slice())
}

/// The key of a generation's `.meta` object.
pub fn meta_key(db_name: &[u8], generation: &Generation) -> (key: Vec<u8>)
    ensures
        key@ == spec_generation_object_key(db_name@, *generation, spec_meta_leaf()),
{
    let leaf: Vec<u8> = vec![46u8, 109u8, 101u8, 116u8, 97u8];
    assert(leaf@ =~= spec_meta_leaf());
    generation_object_key(db_name, generation, leaf.as_slice())
}

/// The key of a generation's `.changecounter` object.
pub fn change_counter_key(db_name: &[u8], generation: &Generation) -> (key: Vec<u8>)
    ensures
        key@ == spec_generation_object_key(db_name@, *generation, spec_change_counter_leaf()),
{
    let leaf: Vec<u8> = vec![
        46u8,
        99u8,
        104u8,
        97u8,
        110u8,
        103u8,
        101u8,
        99u8,
        111u8,
        117u8,
        110u8,
        116u8,
        101u8,
        114u8,
    ];
    assert(leaf@ =~= spec_change_counter_leaf());
    generation_object_key(db_name, generation, leaf.as_slice())
}

/// The key of a generation's `.dep` object, which names its parent.
pub fn dependency_key(db_name: &[u8], generation: &Generation) -> (key: Vec<u8>)
    ensures
        key@ == spec_generation_object_key(db_name@, *generation, spec_dependency_leaf()),
{
    let leaf: Vec<u8> = vec![46u8, 100u8, 101u8, 112u8];
    assert(leaf@ =~= spec_dependency_leaf());
    generation_object_key(db_name, generation, leaf.as_slice())
}

/// The key of a generation's snapshot: `db.db`, or `db.gz` where it is
/// compressed.
pub fn snapshot_key(db_name: &[u8], generation: &Generation, kind: CompressionKind) -> (key: Vec<u8>)
    ensures
        key@ == spec_generation_object_key(db_name@, *generation, spec_snapshot_leaf(kind)),
{
    let leaf: Vec<u8> = match kind {
        CompressionKind::Raw => vec![100u8, 98u8, 46u8, 100u8, 98u8],
        CompressionKind::Gzip => vec![100u8, 98u8, 46u8, 103u8, 122u8],
    };
    assert(leaf@ =~= spec_snapshot_leaf(kind));
    generation_object_key(db_name, generation, leaf.as_slice())
}

/// The key of a database's tombstone: `{db-name}.tombstone`.
pub fn tombstone_key(db_name: &[u8]) -> (key: Vec<u8>)
    ensures
        key@ == db_name@ + spec_tombstone_suffix(),
{
    let mut out: Vec<u8> = Vec::new();
    extend(&mut out, db_name);
    let suffix: Vec<u8> = vec![46u8, 116u8, 111u8, 109u8, 98u8, 115u8, 116u8, 111u8, 110u8, 101u8];
    assert(suffix@ =~= spec_tombstone_suffix());
    extend(&mut out, suffix.as_slice());
    out
}

/// The generation that an object key of the database `db_name` names. The
/// key of an object of a generation names that generation, as long as the
/// name of the database holds no slash.
pub fn generation_of_key(db_name: &[u8], key: &[u8]) -> (generation: Option<Generation>)
    ensures
        generation == spec_generation_of_key(db_name@, key@),
        forall|g: Generation, leaf: Seq<u8>|
            key@ == #[trigger] spec_generation_object_key(db_name@, g, leaf) && (forall|i: int|
                0 <= i < db_name@.len() ==> db_name@[i] != 47) ==> generation == Some(g),
{
    proof {
        assert forall|g: Generation, leaf: Seq<u8>|
            key@ == #[trigger] spec_generation_object_key(db_name@, g, leaf) && (forall|i: int|
                0 <= i < db_name@.len() ==> db_name@[i] != 47) implies spec_find(key@, 47u8, 0)
            == db_name@.len() + 37 && key@.subrange(
            db_name@.len() as int + 1,
            db_name@.len() as int + 37,
        ) == spec_hyphenated(g.id) by {
            crate::key_laws::lemma_generation_stands_before_first_slash(db_name@, g, leaf);
        }
    }
    let slash: usize = find(key, 47, 0);
    if slash >= key.len() {
        return Generation::parse(key);
    }
    if db_name.len() >= slash {
        return None;
    }
    let from: usize = db_name.len() + 1;
    let mut text: Vec<u8> = Vec::new();
    let mut i: usize = from;
    while i < slash
        invariant
            from <= i <= slash < key.len(),
            text@ == key@.subrange(from as int, i as int),
        decreases slash - i,
    {
        text.push(key[i]);
        assert(key@.subrange(from as int, i + 1) =~= key@.subrange(from as int, i as int).push(
            key@[i as int],
        ));
        i += 1;
    }
    Generation::parse(text.as_slice())
}

/// Whether a file of the staging directory is one that is uploaded: a
/// snapshot, a batch, or one of the small objects of a generation.
pub open spec fn spec_is_backup_file(path: Seq<u8>) -> bool {
    ||| spec_ends_with(path, seq![46u8, 100u8, 98u8])
    ||| spec_ends_with(path, seq![46u8, 103u8, 122u8])
    ||| spec_ends_with(path, seq![46u8, 114u8, 97u8, 119u8])
    ||| spec_ends_with(path, spec_meta_leaf())
    ||| spec_ends_with(path, spec_dependency_leaf())
    ||| spec_ends_with(path, spec_change_counter_leaf())
}

/// Whether `at` is the last place where `dir` stands in `path`.
pub open spec fn spec_is_last_occurrence(path: Seq<u8>, dir: Seq<u8>, at: int) -> bool {
    &&& spec_occurs_at(path, dir, at)
    &&& forall|j: int| at < j ==> !spec_occurs_at(path, dir, j)
}

fn is_backup_file(path: &[u8]) -> (is: bool)
    ensures
        is == spec_is_backup_file(path@),
{
    let db: Vec<u8> = vec![46u8, 100u8, 98u8];
    let gz: Vec<u8> = vec![46u8, 103u8, 122u8];
    let raw: Vec<u8> = vec![46u8, 114u8, 97u8, 119u8];
    let meta: Vec<u8> = vec![46u8, 109u8, 101u8, 116u8, 97u8];
    let dep: Vec<u8> = vec![46u8, 100u8, 101u8, 112u8];
    let counter: Vec<u8> = vec![
        46u8,
        99u8,
        104u8,
        97u8,
        110u8,
        103u8,
        101u8,
        99u8,
        111u8,
        117u8,
        110u8,
        116u8,
        101u8,
        114u8,
    ];
    assert(db@ =~= seq![46u8, 100u8, 98u8]);
    assert(gz@ =~= seq![46u8, 103u8, 122u8]);
    assert(raw@ =~= seq![46u8, 114u8, 97u8, 119u8]);
    assert(meta@ =~= spec_meta_leaf());
    assert(dep@ =~= spec_dependency_leaf());
    assert(counter@ =~= spec_change_counter_leaf());
    ends_with(path, db.as_slice()) || ends_with(path, gz.as_slice()) || ends_with(
        path,
        raw.as_slice(),
    ) || ends_with(path, meta.as_slice()) || ends_with(path, dep.as_slice()) || ends_with(
        path,
        counter.as_slice(),
    )
}

/// The object key of a file left in the staging directory: the path from the
/// last place where the generation's directory name `dir` stands in it. A
/// file that is no part of a backup, or whose path does not hold `dir`, has
/// no key.
pub fn fpath_to_key(fpath: &[u8], dir: &[u8]) -> (key: Option<Vec<u8>>)
    ensures
        match key {
            Some(k) => spec_is_backup_file(fpath@) && exists|at: int|
                spec_is_last_occurrence(fpath@, dir@, at) && k@ == fpath@.subrange(
                    at,
                    fpath@.len() as int,
                ),
            None => !spec_is_backup_file(fpath@) || forall|at: int|
                !spec_occurs_at(fpath@, dir@, at),
        },
{
    if !is_backup_file(fpath) {
        return None;
    }
    let at: usize = match rfind_sub(fpath, dir) {
        Some(at) => at,
        None => {
            return None;
        },
    };
    let mut out: Vec<u8> = Vec::new();
    let mut i: usize = at;
    while i < fpath.len()
        invariant
            at <= i <= fpath.len(),
            out@ == fpath@.subrange(at as int, i as int),
        decreases fpath.len() - i,
    {
        out.push(fpath[i]);
        assert(fpath@.subrange(at as int, i + 1) =~= fpath@.subrange(at as int, i as int).push(
            fpath@[i as int],
        ));
        i += 1;
    }
    assert(spec_is_last_occurrence(fpath@, dir@, at as int));
    Some(out)
}

} // verus!
