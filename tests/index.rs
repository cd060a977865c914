use snowstormosd::indexer::{read_folder, ScannedFile, TrackTags};
use snowstormosd::store::{search_db, LyricIndex, OverlayMetadata, SongMetadata};

fn song(name: &str, album: &str, location: &str) -> SongMetadata {
    SongMetadata {
        name: name.to_string(),
        artist: String::new(),
        album: album.to_string(),
        lyrics_location: Some(location.to_string()),
    }
}

fn tagged(title: &str, album: &str, lyrics: &str, exists: bool) -> ScannedFile {
    ScannedFile {
        tags: Some(TrackTags { title: Some(title.to_string()), album: Some(album.to_string()) }),
        lyrics_path: lyrics.to_string(),
        lyrics_exists: exists,
    }
}

fn key(s: &str) -> String {
    s.to_string()
}

#[test]
fn lookup_finds_exact_key() {
    let mut index = LyricIndex::new();
    index.insert(song("Song", "Album", "/m/song.lrc"));
    assert_eq!(index.len(), 1);
    assert_eq!(index.lookup(&key("Song"), &key("Album")), Some("/m/song.lrc".to_string()));
}

#[test]
fn lookup_of_unindexed_key_is_none() {
    let mut index = LyricIndex::new();
    assert_eq!(index.lookup(&key("Song"), &key("Album")), None);
    index.insert(song("Song", "Album", "/m/song.lrc"));
    assert_eq!(index.lookup(&key("Song"), &key("Other")), None);
    assert_eq!(index.lookup(&key("Other"), &key("Album")), None);
}

#[test]
fn lookup_is_case_and_space_sensitive() {
    let mut index = LyricIndex::new();
    index.insert(song("Song", "Album", "/m/song.lrc"));
    assert_eq!(index.lookup(&key("song"), &key("Album")), None);
    assert_eq!(index.lookup(&key("Song "), &key("Album")), None);
}

#[test]
fn first_inserted_record_wins() {
    let mut index = LyricIndex::new();
    index.insert(song("Song", "Album", "/first.lrc"));
    index.insert(song("Song", "Album", "/second.lrc"));
    assert_eq!(index.len(), 2);
    assert_eq!(index.lookup(&key("Song"), &key("Album")), Some("/first.lrc".to_string()));
}

#[test]
fn artist_plays_no_part_in_lookup() {
    let mut index = LyricIndex::new();
    let mut s = song("Song", "Album", "/m/song.lrc");
    s.artist = "Someone".to_string();
    index.insert(s);
    let data = OverlayMetadata {
        name: key("Song"),
        artist: key("Someone else"),
        album: key("Album"),
        time: 0,
    };
    assert_eq!(search_db(&index, &data), Some("/m/song.lrc".to_string()));
}

#[test]
fn search_db_of_unindexed_track_is_none() {
    let index = LyricIndex::new();
    let data = OverlayMetadata { name: key("A"), artist: key(""), album: key("B"), time: 5 };
    assert_eq!(search_db(&index, &data), None);
}

#[test]
fn indexing_library_round_trip() {
    let files = vec![
        tagged("One", "Album", "/lib/one.lrc", true),
        tagged("Two", "Album", "/lib/two.lrc", true),
        tagged("One", "Other", "/lib/other/one.lrc", true),
    ];
    let mut index = LyricIndex::new();
    assert_eq!(read_folder(&mut index, &files), 3);
    assert_eq!(index.len(), 3);
    assert_eq!(index.lookup(&key("One"), &key("Album")), Some("/lib/one.lrc".to_string()));
    assert_eq!(index.lookup(&key("Two"), &key("Album")), Some("/lib/two.lrc".to_string()));
    assert_eq!(index.lookup(&key("One"), &key("Other")), Some("/lib/other/one.lrc".to_string()));
}

#[test]
fn file_without_companion_adds_nothing() {
    let files = vec![tagged("One", "Album", "/lib/one.lrc", false)];
    let mut index = LyricIndex::new();
    assert_eq!(read_folder(&mut index, &files), 0);
    assert_eq!(index.len(), 0);
    assert_eq!(index.lookup(&key("One"), &key("Album")), None);
}

#[test]
fn file_without_tags_adds_nothing() {
    let files = vec![ScannedFile { tags: None, lyrics_path: key("/lib/x.lrc"), lyrics_exists: true }];
    let mut index = LyricIndex::new();
    assert_eq!(read_folder(&mut index, &files), 0);
    assert_eq!(index.len(), 0);
}

#[test]
fn missing_title_adds_nothing() {
    let files = vec![ScannedFile {
        tags: Some(TrackTags { title: None, album: Some(key("Album")) }),
        lyrics_path: key("/lib/x.lrc"),
        lyrics_exists: true,
    }];
    let mut index = LyricIndex::new();
    assert_eq!(read_folder(&mut index, &files), 0);
    assert_eq!(index.len(), 0);
    assert_eq!(index.lookup(&key(""), &key("Album")), None);
}

#[test]
fn empty_title_adds_nothing() {
    let files = vec![tagged("", "Album", "/lib/x.lrc", true)];
    let mut index = LyricIndex::new();
    assert_eq!(read_folder(&mut index, &files), 0);
    assert_eq!(index.len(), 0);
}

#[test]
fn missing_album_is_filed_as_empty() {
    let files = vec![ScannedFile {
        tags: Some(TrackTags { title: Some(key("One")), album: None }),
        lyrics_path: key("/lib/x.lrc"),
        lyrics_exists: true,
    }];
    let mut index = LyricIndex::new();
    assert_eq!(read_folder(&mut index, &files), 1);
    assert_eq!(index.lookup(&key("One"), &key("")), Some("/lib/x.lrc".to_string()));
}

#[test]
fn indexing_twice_appends_records() {
    let files = vec![tagged("One", "Album", "/lib/one.lrc", true)];
    let mut index = LyricIndex::new();
    assert_eq!(read_folder(&mut index, &files), 1);
    assert_eq!(read_folder(&mut index, &files), 1);
    assert_eq!(index.len(), 2);
    assert_eq!(index.lookup(&key("One"), &key("Album")), Some("/lib/one.lrc".to_string()));
}

#[test]
fn empty_library_adds_nothing() {
    let mut index = LyricIndex::new();
    assert_eq!(read_folder(&mut index, &Vec::new()), 0);
    assert_eq!(index.len(), 0);
}
