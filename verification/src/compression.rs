//! The compression applied to batch objects and snapshots.

use vstd::prelude::*;
use vstd::string::*;

verus! {

/// Kind of compression applied to the WAL frames and snapshots sent to the
/// object store.
#[derive(Debug, Clone, Copy, Ord, PartialOrd, Eq, PartialEq, Structural)]
pub enum CompressionKind {
    Raw,
    Gzip,
}

/// The spelling of a compression kind in object keys and file names.
pub open spec fn extension_of(kind: CompressionKind) -> Seq<char> {
    match kind {
        CompressionKind::Raw => "raw"@,
        CompressionKind::Gzip => "gz"@,
    }
}

/// What `CompressionKind::parse` makes of a name: `gz` and `gzip` select gzip,
/// `raw` and the empty string select no compression, anything else is unknown.
pub open spec fn parsed_kind(name: Seq<char>) -> Option<CompressionKind> {
    if name == "gz"@ || name == "gzip"@ {
        Some(CompressionKind::Gzip)
    } else if name == "raw"@ || name == ""@ {
        Some(CompressionKind::Raw)
    } else {
        None
    }
}

/// Whether two strings hold the same characters.
pub fn str_equals(a: &str, b: &str) -> (same: bool)
    ensures
        same == (a@ == b@),
{
    let n: usize = a.unicode_len();
    if n != b.unicode_len() {
        return false;
    }
    let mut i: usize = 0;
    while i < n
        invariant
            i <= n,
            n == a@.len(),
            n == b@.len(),
            forall|j: int| 0 <= j < i ==> a@[j] == b@[j],
        decreases n - i,
    {
        if a.get_char(i) != b.get_char(i) {
            return false;
        }
        i += 1;
    }
    assert(a@ =~= b@);
    true
}

impl CompressionKind {
    /// Reads a compression kind from its name. An unknown name is handed back
    /// as the error.
    pub fn parse(kind: &str) -> (parsed: Result<CompressionKind, &str>)
        ensures
            match parsed {
                Ok(k) => parsed_kind(kind@) == Some(k),
                Err(other) => parsed_kind(kind@).is_none() && other@ == kind@,
            },
    {
        if str_equals(kind, "gz") || str_equals(kind, "gzip") {
            Ok(CompressionKind::Gzip)
        } else if str_equals(kind, "raw") || str_equals(kind, "") {
            Ok(CompressionKind::Raw)
        } else {
            Err(kind)
        }
    }

    /// The name under which this kind appears in object keys: `raw` or `gz`.
    pub fn extension(&self) -> (name: &'static str)
        ensures
            name@ == extension_of(*self),
    {
        match self {
            CompressionKind::Raw => "raw",
            CompressionKind::Gzip => "gz",
        }
    }
}

impl Default for CompressionKind {
    fn default() -> (kind: CompressionKind)
        ensures
            kind == CompressionKind::Raw,
    {
        CompressionKind::Raw
    }
}

} // verus!
