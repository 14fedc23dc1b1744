//! The registry as it is kept between runs: a list of keyed tunnels.
//!
//! Reading and writing the file is the caller's business. This module
//! decides what a file's text means for loading, turns a registry into the
//! entries to write, and accepts entries read back only where they form a
//! valid registry.

use vstd::prelude::*;
use vstd::string::*;
use crate::cache::{distinct_keys, lemma_has_key_iff, ConnectionCache};
use crate::connection::{Connection, ConnectionView};
use crate::error::{CacheError, CacheErrorView};

verus! {

/// The name of the file, in the user's home directory, that keeps the
/// registry.
pub const CACHE: &'static str = ".remote_jupyter_sessions";

/// The permissions of that file: its owner may read and write it, nobody
/// else may do anything.
pub const CACHE_MODE: u32 = 0o600;

/// A tunnel as it is stored: under its key.
#[derive(Debug, Clone, PartialEq, Eq)]
pub struct Entry {
    pub key: String,
    pub connection: Connection,
}

/// The mathematical value of an [`Entry`].
pub struct EntryView {
    pub key: Seq<char>,
    pub connection: ConnectionView,
}

impl View for Entry {
    type V = EntryView;

    open spec fn view(&self) -> EntryView {
        EntryView { key: self.key@, connection: self.connection@ }
    }
}

/// The views of a sequence of entries, one for one.
pub open spec fn entry_views(s: Seq<Entry>) -> Seq<EntryView> {
    Seq::new(s.len(), |i: int| s[i]@)
}

/// The entries under which a registry is stored: each tunnel under its
/// key, in the order of the registry.
pub open spec fn stored(cache: Seq<ConnectionView>) -> Seq<EntryView> {
    Seq::new(cache.len(), |i: int| EntryView { key: cache[i].key(), connection: cache[i] })
}

/// The tunnels of a sequence of entries, in order.
pub open spec fn tunnels(entries: Seq<EntryView>) -> Seq<ConnectionView> {
    Seq::new(entries.len(), |i: int| entries[i].connection)
}

/// Entries form a registry where each stands under the key of its tunnel
/// and no key occurs twice.
pub open spec fn well_keyed(entries: Seq<EntryView>) -> bool {
    &&& forall|i: int|
        0 <= i < entries.len() ==> (#[trigger] entries[i]).key == entries[i].connection.key()
    &&& distinct_keys(tunnels(entries))
}

/// The registry that stored entries describe.
pub open spec fn loaded(entries: Seq<EntryView>) -> Result<Seq<ConnectionView>, CacheErrorView> {
    if well_keyed(entries) {
        Ok(tunnels(entries))
    } else {
        Err(CacheErrorView::CorruptState)
    }
}

/// The view of a registry or the reason there is none.
pub open spec fn loaded_view(r: Result<ConnectionCache, CacheError>) -> Result<
    Seq<ConnectionView>,
    CacheErrorView,
> {
    match r {
        Ok(cache) => Ok(cache@),
        Err(e) => Err(e@),
    }
}

/// The characters that count as white space: those with the Unicode
/// property `White_Space`.
pub open spec fn is_white_space(c: char) -> bool {
    let n = c as u32;
    ||| 0x09 <= n <= 0x0D
    ||| n == 0x20
    ||| n == 0x85
    ||| n == 0xA0
    ||| n == 0x1680
    ||| 0x2000 <= n <= 0x200A
    ||| n == 0x2028
    ||| n == 0x2029
    ||| n == 0x202F
    ||| n == 0x205F
    ||| n == 0x3000
}

/// A text is blank where it holds nothing but white space.
pub open spec fn blank(text: Seq<char>) -> bool {
    forall|i: int| 0 <= i < text.len() ==> is_white_space(#[trigger] text[i])
}

/// What to do with the content of the registry's file.
#[derive(Debug, Clone, Copy, PartialEq, Eq, Structural)]
pub enum LoadPlan {
    /// There is nothing stored: start with an empty registry and write it
    /// out at once.
    Bootstrap,
    /// The text holds a registry: read its entries.
    Parse,
}

/// The plan for a file's content; `None` stands for a file that does not
/// exist.
pub open spec fn plan_for(contents: Option<Seq<char>>) -> LoadPlan {
    match contents {
        None => LoadPlan::Bootstrap,
        Some(text) => if blank(text) {
            LoadPlan::Bootstrap
        } else {
            LoadPlan::Parse
        },
    }
}

/// The view of a text that may be missing.
pub open spec fn contents_view(contents: Option<&str>) -> Option<Seq<char>> {
    match contents {
        Some(text) => Some(text@),
        None => None,
    }
}

/// Whether a character counts as white space.
pub fn white_space(c: char) -> (white: bool)
    ensures
        white == is_white_space(c),
{
    let n = c as u32;
    (0x09 <= n && n <= 0x0D) || n == 0x20 || n == 0x85 || n == 0xA0 || n == 0x1680 || (0x2000 <= n
        && n <= 0x200A) || n == 0x2028 || n == 0x2029 || n == 0x202F || n == 0x205F || n == 0x3000
}

/// Whether a text holds nothing but white space.
pub fn is_blank(text: &str) -> (empty: bool)
    ensures
        empty == blank(text@),
{
    let n = text.unicode_len();
    let mut i: usize = 0;
    while i < n
        invariant
            i <= n,
            n == text@.len(),
            forall|j: int| 0 <= j < i ==> is_white_space(#[trigger] text@[j]),
        decreases n - i,
    {
        if !white_space(text.get_char(i)) {
            return false;
        }
        i += 1;
    }
    true
}

/// Decides how to load the registry from the content of its file, where
/// `None` stands for a file that does not exist: a missing or blank file
/// means an empty registry that is to be written out at once.
pub fn load_plan(contents: Option<&str>) -> (plan: LoadPlan)
    ensures
        plan == plan_for(contents_view(contents)),
{
    match contents {
        None => LoadPlan::Bootstrap,
        Some(text) => if is_blank(text) {
            LoadPlan::Bootstrap
        } else {
            LoadPlan::Parse
        },
    }
}

impl ConnectionCache {
    /// The entries to store for this registry.
    pub fn entries(&self) -> (entries: Vec<Entry>)
        ensures
            entry_views(entries@) == stored(self@),
    {
        let n = self.len();
        let mut entries: Vec<Entry> = Vec::new();
        let mut i: usize = 0;
        while i < n
            invariant
                i <= n,
                n == self@.len(),
                entries@.len() == i,
                forall|j: int|
                    0 <= j < i ==> (#[trigger] entries@[j])@ == (EntryView {
                        key: self@[j].key(),
                        connection: self@[j],
                    }),
            decreases n - i,
        {
            let connection = self.copy_at(i);
            entries.push(Entry { key: connection.key(), connection });
            i += 1;
        }
        assert(entry_views(entries@) =~= stored(self@));
        entries
    }

    /// Builds the registry that stored entries describe. Fails with
    /// `CorruptState` unless every entry stands under the key of its tunnel
    /// and no key occurs twice.
    pub fn from_entries(entries: Vec<Entry>) -> (cache: Result<ConnectionCache, CacheError>)
        ensures
            loaded_view(cache) == loaded(entry_views(entries@)),
    {
        let ghost all = entry_views(entries@);
        let mut cache = ConnectionCache::new();
        let mut i: usize = 0;
        while i < entries.len()
            invariant
                i <= entries.len(),
                all == entry_views(entries@),
                cache@ == tunnels(all).take(i as int),
                distinct_keys(cache@),
                forall|j: int| 0 <= j < i ==> (#[trigger] all[j]).key == all[j].connection.key(),
            decreases entries.len() - i,
        {
            assert(all[i as int] == entries@[i as int]@);
            let connection = entries[i].connection.duplicate();
            let key = connection.key();
            if key != entries[i].key {
                return Err(CacheError::CorruptState);
            }
            let ghost before = cache@;
            match cache.insert(connection) {
                Ok(_) => {},
                Err(_) => {
                    proof {
                        lemma_has_key_iff(before, key@);
                        let j = choose|j: int| 0 <= j < before.len() && (#[trigger] before[j]).key() == key@;
                        assert(tunnels(all)[j] == before[j]);
                        assert(tunnels(all)[i as int].key() == key@);
                    }
                    return Err(CacheError::CorruptState);
                },
            }
            assert(cache@ =~= tunnels(all).take(i + 1));
            i += 1;
        }
        assert(cache@ =~= tunnels(all));
        Ok(cache)
    }
}

} // verus!
