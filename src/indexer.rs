//! Filling the lyric index from what a walk over a music library found.

use vstd::prelude::*;
use crate::store::{
    holds_key, indexed_location, is_first_match, lemma_first_match_unique, LyricIndex,
    SongMetadata, SongView,
};

verus! {

/// The tags read from an audio file: its title and album, where present.
#[derive(Debug, Clone)]
pub struct TrackTags {
    pub title: Option<String>,
    pub album: Option<String>,
}

/// One regular file met in the library: its tags, where they could be read,
/// and the location of its companion lyric file, with whether that exists.
#[derive(Debug, Clone)]
pub struct ScannedFile {
    pub tags: Option<TrackTags>,
    pub lyrics_path: String,
    pub lyrics_exists: bool,
}

/// A scanned file as plain values: the title and album of its tags, where
/// these were readable, its companion location and whether that exists.
pub struct ScannedView {
    pub tags: Option<(Option<Seq<char>>, Option<Seq<char>>)>,
    pub lyrics_path: Seq<char>,
    pub lyrics_exists: bool,
}

pub open spec fn opt_view(o: Option<String>) -> Option<Seq<char>> {
    match o {
        Some(s) => Some(s@),
        None => None,
    }
}

impl View for ScannedFile {
    type V = ScannedView;

    open spec fn view(&self) -> ScannedView {
        ScannedView {
            tags: match self.tags {
                Some(t) => Some((opt_view(t.title), opt_view(t.album))),
                None => None,
            },
            lyrics_path: self.lyrics_path@,
            lyrics_exists: self.lyrics_exists,
        }
    }
}

/// A missing tag counts as empty text.
pub open spec fn or_empty(o: Option<Seq<char>>) -> Seq<char> {
    match o {
        Some(s) => s,
        None => Seq::empty(),
    }
}

/// The name under which a file's record is filed: its title tag.
pub open spec fn track_name(f: ScannedView) -> Seq<char> {
    match f.tags {
        Some(tags) => or_empty(tags.0),
        None => Seq::empty(),
    }
}

/// The album under which a file's record is filed: its album tag.
pub open spec fn track_album(f: ScannedView) -> Seq<char> {
    match f.tags {
        Some(tags) => or_empty(tags.1),
        None => Seq::empty(),
    }
}

/// The record that a file adds to the index: one where its tags were read,
/// its title is present and not empty, and its companion lyric file exists;
/// none otherwise.
pub open spec fn record_for(f: ScannedView) -> Option<SongView> {
    match f.tags {
        Some(tags) => if f.lyrics_exists && or_empty(tags.0).len() > 0 {
            Some(
                SongView {
                    name: or_empty(tags.0),
                    artist: Seq::empty(),
                    album: or_empty(tags.1),
                    lyrics_location: Some(f.lyrics_path),
                },
            )
        } else {
            None
        },
        None => None,
    }
}

pub open spec fn record_seq(f: ScannedView) -> Seq<SongView> {
    match record_for(f) {
        Some(r) => seq![r],
        None => Seq::empty(),
    }
}

/// The records that a sequence of files adds, in the order of the files.
pub open spec fn records_of(files: Seq<ScannedView>) -> Seq<SongView>
    decreases files.len(),
{
    if files.len() == 0 {
        Seq::empty()
    } else {
        records_of(files.drop_last()) + record_seq(files.last())
    }
}

fn copy_or_empty(o: &Option<String>) -> (r: String)
    ensures
        r@ == or_empty(opt_view(*o)),
{
    match o {
        Some(s) => s.clone(),
        None => String::new(),
    }
}

/// Adds the record of one file, if it has one; tells whether it did.
fn write_to_database(index: &mut LyricIndex, file: &ScannedFile) -> (added: bool)
    ensures
        final(index)@ == old(index)@ + record_seq(file@),
        added == record_for(file@) is Some,
{
    match &file.tags {
        Some(tags) => {
            let untitled = match &tags.title {
                Some(t) => t.as_str().is_empty(),
                None => true,
            };
            if file.lyrics_exists && !untitled {
                let entry = SongMetadata {
                    name: copy_or_empty(&tags.title),
                    artist: String::new(),
                    album: copy_or_empty(&tags.album),
                    lyrics_location: Some(file.lyrics_path.clone()),
                };
                index.insert(entry);
                assert(final(index)@ =~= old(index)@ + record_seq(file@));
                true
            } else {
                assert(old(index)@ + record_seq(file@) =~= old(index)@);
                false
            }
        },
        None => {
            assert(old(index)@ + record_seq(file@) =~= old(index)@);
            false
        },
    }
}

/// Adds to the index the record of every file, in order, that has readable
/// tags with a non-empty title and an existing companion lyric file; the
/// others are skipped. Returns
/// how many records were added.
pub fn read_folder(index: &mut LyricIndex, files: &Vec<ScannedFile>) -> (added: usize)
    ensures
        final(index)@ == old(index)@ + records_of(files@.map_values(|f: ScannedFile| f@)),
        added == records_of(files@.map_values(|f: ScannedFile| f@)).len(),
{
    let ghost views = files@.map_values(|f: ScannedFile| f@);
    let mut added: usize = 0;
    let mut i: usize = 0;
    while i < files.len()
        invariant
            i <= files.len(),
            views == files@.map_values(|f: ScannedFile| f@),
            added <= i,
            index@ == old(index)@ + records_of(views.take(i as int)),
            added == records_of(views.take(i as int)).len(),
        decreases files.len() - i,
    {
        proof {
            assert(views.take(i as int + 1).drop_last() =~= views.take(i as int));
        }
        let fresh = write_to_database(index, &files[i]);
        if fresh {
            added += 1;
        }
        i += 1;
        assert(index@ =~= old(index)@ + records_of(views.take(i as int)));
    }
    assert(views.take(i as int) =~= views);
    added
}

/// Every file that has tags and a companion lyric file adds exactly its own
/// record, in order.
proof fn lemma_records_of_complete(files: Seq<ScannedView>)
    requires
        forall|k: int| 0 <= k < files.len() ==> (#[trigger] record_for(files[k])) is Some,
    ensures
        records_of(files).len() == files.len(),
        forall|k: int| 0 <= k < files.len() ==> records_of(files)[k] == record_for(files[k])->0,
    decreases files.len(),
{
    if files.len() > 0 {
        let init = files.drop_last();
        assert forall|k: int| 0 <= k < init.len() implies (#[trigger] record_for(init[k])) is Some by {
            assert(init[k] == files[k]);
        }
        lemma_records_of_complete(init);
        assert(record_for(files[files.len() - 1]) is Some);
        assert forall|k: int| 0 <= k < files.len() implies records_of(files)[k] == record_for(files[k])->0 by {
            if k < files.len() - 1 {
                assert(init[k] == files[k]);
            }
        }
    }
}

/// Indexing a library of tracks whose tags were all read, whose titles are
/// all non-empty, whose companion lyric files all exist and whose (name, album) keys are all distinct adds
/// one record per track, and a lookup of each track's key gives its lyric
/// file.
pub proof fn lemma_indexed_library_round_trip(files: Seq<ScannedView>)
    requires
        forall|k: int|
            0 <= k < files.len() ==> (#[trigger] files[k]).tags is Some && files[k].lyrics_exists
                && track_name(files[k]).len() > 0,
        forall|j: int, k: int|
            0 <= j < k < files.len() ==> !(track_name(files[j]) == track_name(files[k])
                && track_album(files[j]) == track_album(files[k])),
    ensures
        records_of(files).len() == files.len(),
        forall|k: int|
            0 <= k < files.len() ==> indexed_location(
                records_of(files),
                track_name(files[k]),
                track_album(files[k]),
            ) == Some(files[k].lyrics_path),
{
    assert forall|k: int| 0 <= k < files.len() implies (#[trigger] record_for(files[k])) is Some by {
        assert(files[k].tags is Some);
    }
    lemma_records_of_complete(files);
    let recs = records_of(files);
    assert forall|k: int|
        0 <= k < files.len() implies indexed_location(
            recs,
            track_name(files[k]),
            track_album(files[k]),
        ) == Some(files[k].lyrics_path) by {
        let name = track_name(files[k]);
        let album = track_album(files[k]);
        assert(record_for(files[k]) is Some);
        assert forall|j: int| 0 <= j < k implies !holds_key(#[trigger] recs[j], name, album) by {
            assert(record_for(files[j]) is Some);
        }
        assert(is_first_match(recs, name, album, k));
        let c = choose|c: int| is_first_match(recs, name, album, c);
        lemma_first_match_unique(recs, name, album, k, c);
    }
}

/// A library in which no file has a companion lyric file adds no record.
pub proof fn lemma_no_companion_adds_nothing(files: Seq<ScannedView>)
    requires
        forall|k: int| 0 <= k < files.len() ==> !(#[trigger] files[k]).lyrics_exists,
    ensures
        records_of(files).len() == 0,
    decreases files.len(),
{
    if files.len() > 0 {
        let init = files.drop_last();
        assert forall|k: int| 0 <= k < init.len() implies !(#[trigger] init[k]).lyrics_exists by {
            assert(init[k] == files[k]);
        }
        lemma_no_companion_adds_nothing(init);
        assert(!files[files.len() - 1].lyrics_exists);
    }
}

} // verus!
