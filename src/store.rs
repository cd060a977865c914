//! The lyric index: records that map a track's (name, album) to the location
//! of its lyric file, and the exact-match lookup over them.

use vstd::prelude::*;

verus! {

/// One record of the index, as read from a track's tags.
#[derive(Debug, Clone)]
pub struct SongMetadata {
    pub name: String,
    pub artist: String,
    pub album: String,
    pub lyrics_location: Option<String>,
}

/// A record of the index, as plain sequences.
pub struct SongView {
    pub name: Seq<char>,
    pub artist: Seq<char>,
    pub album: Seq<char>,
    pub lyrics_location: Option<Seq<char>>,
}

impl View for SongMetadata {
    type V = SongView;

    open spec fn view(&self) -> SongView {
        SongView {
            name: self.name@,
            artist: self.artist@,
            album: self.album@,
            lyrics_location: match self.lyrics_location {
                Some(l) => Some(l@),
                None => None,
            },
        }
    }
}

/// What a media player reports of the track it plays; `time` is the playback
/// position in nanoseconds.
#[derive(Debug, Default, Clone)]
pub struct OverlayMetadata {
    pub name: String,
    pub artist: String,
    pub album: String,
    pub time: u64,
}

/// The record is filed under this name and album. The artist plays no part.
pub open spec fn holds_key(e: SongView, name: Seq<char>, album: Seq<char>) -> bool {
    e.name == name && e.album == album
}

/// Record `i` is the first one filed under the key.
pub open spec fn is_first_match(entries: Seq<SongView>, name: Seq<char>, album: Seq<char>, i: int) -> bool {
    &&& 0 <= i < entries.len()
    &&& holds_key(entries[i], name, album)
    &&& forall|j: int| 0 <= j < i ==> !holds_key(#[trigger] entries[j], name, album)
}

/// The lyric location that a lookup of the key gives: that of the first record
/// filed under it, or `None` where no record is.
pub open spec fn indexed_location(entries: Seq<SongView>, name: Seq<char>, album: Seq<char>) -> Option<Seq<char>> {
    if exists|i: int| is_first_match(entries, name, album, i) {
        entries[choose|i: int| is_first_match(entries, name, album, i)].lyrics_location
    } else {
        None
    }
}

/// At most one record is the first under a key.
pub proof fn lemma_first_match_unique(entries: Seq<SongView>, name: Seq<char>, album: Seq<char>, i: int, k: int)
    requires
        is_first_match(entries, name, album, i),
        is_first_match(entries, name, album, k),
    ensures
        i == k,
{
    if i < k {
        assert(!holds_key(entries[i], name, album));
    } else if k < i {
        assert(!holds_key(entries[k], name, album));
    }
}

/// A lookup of a key under which no record is filed gives `None`.
pub proof fn lemma_unindexed_lookup_is_none(entries: Seq<SongView>, name: Seq<char>, album: Seq<char>)
    requires
        forall|i: int| 0 <= i < entries.len() ==> !holds_key(#[trigger] entries[i], name, album),
    ensures
        indexed_location(entries, name, album) is None,
{
}

/// The index: its records in the order in which they were inserted.
pub struct LyricIndex {
    entries: Vec<SongMetadata>,
}

impl View for LyricIndex {
    type V = Seq<SongView>;

    closed spec fn view(&self) -> Seq<SongView> {
        self.entries@.map_values(|e: SongMetadata| e@)
    }
}

impl LyricIndex {
    /// An index with no record.
    pub fn new() -> (r: LyricIndex)
        ensures
            r@ == Seq::<SongView>::empty(),
    {
        let r = LyricIndex { entries: Vec::new() };
        assert(r@ =~= Seq::<SongView>::empty());
        r
    }

    /// The number of records.
    pub fn len(&self) -> (r: usize)
        ensures
            r == self@.len(),
    {
        self.entries.len()
    }

    /// Record `i`, in order of insertion.
    pub fn get(&self, i: usize) -> (r: &SongMetadata)
        requires
            i < self@.len(),
        ensures
            r@ == self@[i as int],
    {
        &self.entries[i]
    }

    /// Appends a record. A record already filed under the same key stays, and
    /// is still the one that lookups give.
    pub fn insert(&mut self, entry: SongMetadata)
        ensures
            final(self)@ == old(self)@.push(entry@),
    {
        self.entries.push(entry);
        assert(final(self)@ =~= old(self)@.push(entry@));
    }

    /// The lyric location of the first record filed under `name` and `album`,
    /// both compared exactly; `None` where there is no such record.
    pub fn lookup(&self, name: &String, album: &String) -> (r: Option<String>)
        ensures
            match r {
                None => indexed_location(self@, name@, album@) is None,
                Some(l) => indexed_location(self@, name@, album@) == Some(l@),
            },
    {
        let mut i: usize = 0;
        while i < self.entries.len()
            invariant
                i <= self.entries.len(),
                forall|j: int| 0 <= j < i ==> !holds_key(#[trigger] self@[j], name@, album@),
            decreases self.entries.len() - i,
        {
            let e = &self.entries[i];
            if e.name == *name && e.album == *album {
                proof {
                    let k = choose|k: int| is_first_match(self@, name@, album@, k);
                    assert(is_first_match(self@, name@, album@, i as int));
                    lemma_first_match_unique(self@, name@, album@, i as int, k);
                }
                return match &e.lyrics_location {
                    Some(l) => Some(l.clone()),
                    None => None,
                };
            }
            i += 1;
        }
        None
    }
}

/// The lyric location indexed for the track that `data` describes.
pub fn search_db(index: &LyricIndex, data: &OverlayMetadata) -> (r: Option<String>)
    ensures
        match r {
            None => indexed_location(index@, data.name@, data.album@) is None,
            Some(l) => indexed_location(index@, data.name@, data.album@) == Some(l@),
        },
{
    index.lookup(&data.name, &data.album)
}

} // verus!
