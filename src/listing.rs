//! Directory listing: which entries are shown and what is reported of each.
//!
//! The host enumerates the directory and reads each entry's metadata; this
//! module turns those raw records into the listing, in enumeration order.

use vstd::prelude::*;
use crate::classify::{classify_entry, type_of_entry, FileType};
use crate::text::{lower_of, lowercase, starts_with_char, text_eq};

verus! {

/// What the file system reported of one entry's metadata.
#[derive(Clone, Debug)]
pub struct EntryMeta {
    pub is_dir: bool,
    /// Length in bytes.
    pub len: u64,
    /// Last modification, in milliseconds since the epoch (0 if unknown).
    pub modified: u64,
    /// The platform's attribute bits (0 where the platform has none).
    pub attributes: u32,
}

/// One entry as enumerated: its metadata is `None` when it could not be read.
#[derive(Clone, Debug)]
pub struct RawEntry {
    pub name: String,
    pub path: String,
    pub meta: Option<EntryMeta>,
}

/// One entry of a listing.
#[derive(Clone, Debug)]
pub struct FileEntry {
    pub name: String,
    pub path: String,
    pub is_dir: bool,
    /// Length in bytes; 0 for directories.
    pub size: u64,
    /// Last modification, in milliseconds since the epoch.
    pub modified: u64,
    pub file_type: FileType,
}

/// The hidden (`0x2`) and system (`0x4`) attribute bits.
pub const HIDDEN_OR_SYSTEM: u32 = 6;

/// Operating-system bookkeeping files, by lower-case name.
pub open spec fn is_bookkeeping_name(lower: Seq<char>) -> bool {
    lower == "desktop.ini"@ || lower == "thumbs.db"@ || lower == "ntuser.dat"@
}

/// Whether an entry with this name and these attribute bits is shown: not
/// hidden or system by attribute, not starting with `.`, and not a
/// bookkeeping file (compared without regard to case).
pub open spec fn is_listed(name: Seq<char>, attributes: u32) -> bool {
    &&& attributes & HIDDEN_OR_SYSTEM == 0
    &&& !(name.len() > 0 && name[0] == '.')
    &&& !is_bookkeeping_name(lower_of(name))
}

/// The listing record of an entry whose metadata was read.
pub open spec fn entry_of(raw: RawEntry, meta: EntryMeta) -> FileEntry {
    FileEntry {
        name: raw.name,
        path: raw.path,
        is_dir: meta.is_dir,
        size: if meta.is_dir {
            0
        } else {
            meta.len
        },
        modified: meta.modified,
        file_type: type_of_entry(raw.name@, meta.is_dir),
    }
}

/// The listing of raw entries: unreadable and filtered entries are dropped,
/// the others kept in order.
pub open spec fn listing_of(raws: Seq<RawEntry>) -> Seq<FileEntry>
    decreases raws.len(),
{
    if raws.len() == 0 {
        Seq::empty()
    } else {
        let rest = listing_of(raws.drop_last());
        let last = raws.last();
        match last.meta {
            Some(m) => if is_listed(last.name@, m.attributes) {
                rest.push(entry_of(last, m))
            } else {
                rest
            },
            None => rest,
        }
    }
}

/// Whether an entry with this name and these attribute bits is shown.
pub fn should_list(name: &str, attributes: u32) -> (r: bool)
    ensures
        r == is_listed(name@, attributes),
{
    if attributes & HIDDEN_OR_SYSTEM != 0 {
        return false;
    }
    if starts_with_char(name, '.') {
        return false;
    }
    let lower = lowercase(name);
    let l = lower.as_str();
    !(text_eq(l, "desktop.ini") || text_eq(l, "thumbs.db") || text_eq(l, "ntuser.dat"))
}

/// The listing record of one entry whose metadata was read.
pub fn make_entry(raw: &RawEntry, meta: &EntryMeta) -> (r: FileEntry)
    ensures
        r == entry_of(*raw, *meta),
{
    FileEntry {
        name: raw.name.clone(),
        path: raw.path.clone(),
        is_dir: meta.is_dir,
        size: if meta.is_dir {
            0
        } else {
            meta.len
        },
        modified: meta.modified,
        file_type: classify_entry(raw.name.as_str(), meta.is_dir),
    }
}

/// The listing of one directory from its enumerated entries, in the same
/// order: entries without metadata are dropped silently, as are hidden,
/// system and bookkeeping entries; directories get size 0 and the
/// `Directory` tag, files their length and the tag of their name.
pub fn build_listing(raws: &Vec<RawEntry>) -> (r: Vec<FileEntry>)
    ensures
        r@ == listing_of(raws@),
{
    let mut out: Vec<FileEntry> = Vec::new();
    let mut i: usize = 0;
    while i < raws.len()
        invariant
            i <= raws@.len(),
            out@ == listing_of(raws@.subrange(0, i as int)),
        decreases raws@.len() - i,
    {
        let raw = &raws[i];
        proof {
            assert(raws@.subrange(0, i as int + 1).drop_last() =~= raws@.subrange(0, i as int));
            assert(raws@.subrange(0, i as int + 1).last() == raws@[i as int]);
        }
        match &raw.meta {
            Some(meta) => {
                if should_list(raw.name.as_str(), meta.attributes) {
                    out.push(make_entry(raw, meta));
                }
            },
            None => {},
        }
        i = i + 1;
    }
    assert(raws@.subrange(0, raws@.len() as int) =~= raws@);
    out
}

} // verus!
