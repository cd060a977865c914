//! Line-timed lyric documents: parsing through the `lrc` crate and the choice
//! of the line that is active at a given time.

use vstd::prelude::*;

verus! {

#[verifier::external_type_specification]
#[verifier::external_body]
pub struct ExLyrics(lrc::Lyrics);

#[verifier::external_type_specification]
#[verifier::external_body]
pub struct ExLyricsError(lrc::LyricsError);

/// What `lrc::Lyrics::from_str` makes of a text: `None` where it refuses the
/// text, else the timed lines of the parsed document (time in milliseconds).
pub uninterp spec fn lrc_parse(text: Seq<char>) -> Option<Seq<(int, Seq<char>)>>;

/// The timed lines that an `lrc::Lyrics` holds, in its own order.
pub uninterp spec fn lrc_timed_lines(lyrics: lrc::Lyrics) -> Seq<(int, Seq<char>)>;

/// Times never decrease along the sequence.
pub open spec fn sorted_by_time(lines: Seq<(int, Seq<char>)>) -> bool {
    forall|i: int, j: int| 0 <= i <= j < lines.len() ==> lines[i].0 <= lines[j].0
}

/// Line `i` is the last line, in order, whose time is not after `t`.
pub open spec fn is_active(lines: Seq<(int, Seq<char>)>, t: int, i: int) -> bool {
    &&& 0 <= i < lines.len()
    &&& lines[i].0 <= t
    &&& forall|j: int| i < j < lines.len() ==> lines[j].0 > t
}

/// The line shown at time `t`: the last line whose time is not after `t`.
/// On lines sorted by time this is the line with the greatest time not after
/// `t`, and among lines sharing that time the one declared last.
pub open spec fn line_at(lines: Seq<(int, Seq<char>)>, t: int) -> Option<(int, Seq<char>)> {
    if exists|i: int| is_active(lines, t, i) {
        Some(lines[choose|i: int| is_active(lines, t, i)])
    } else {
        None
    }
}

/// At most one line is active at a time.
pub proof fn lemma_active_unique(lines: Seq<(int, Seq<char>)>, t: int, i: int, k: int)
    requires
        is_active(lines, t, i),
        is_active(lines, t, k),
    ensures
        i == k,
{
    if i < k {
        assert(lines[k].0 > t);
    } else if k < i {
        assert(lines[i].0 > t);
    }
}

/// The line chosen by `line_at` is the one at the active index.
pub proof fn lemma_line_at_index(lines: Seq<(int, Seq<char>)>, t: int, i: int)
    requires
        is_active(lines, t, i),
    ensures
        line_at(lines, t) == Some(lines[i]),
{
    let k = choose|k: int| is_active(lines, t, k);
    lemma_active_unique(lines, t, i, k);
}

/// Resolution is stable between time tags: once a line is shown at `t1`, the
/// same line is shown at every later `t2` as long as no line starts in
/// `(t1, t2]`.
pub proof fn lemma_resolve_monotonic(lines: Seq<(int, Seq<char>)>, t1: int, t2: int)
    requires
        sorted_by_time(lines),
        t1 < t2,
        line_at(lines, t1) is Some,
        forall|i: int| 0 <= i < lines.len() ==> !(t1 < #[trigger] lines[i].0 <= t2),
    ensures
        line_at(lines, t2) == line_at(lines, t1),
{
    let i = choose|i: int| is_active(lines, t1, i);
    lemma_line_at_index(lines, t1, i);
    assert forall|j: int| i < j < lines.len() implies lines[j].0 > t2 by {
        assert(lines[j].0 > t1);
    }
    lemma_line_at_index(lines, t2, i);
}

/// Of two lines that share a time, the one declared later is shown at that
/// time, provided no line after it has the same time.
pub proof fn lemma_later_duplicate_wins(lines: Seq<(int, Seq<char>)>, i: int, j: int)
    requires
        sorted_by_time(lines),
        0 <= i < j < lines.len(),
        lines[i].0 == lines[j].0,
        forall|k: int| j < k < lines.len() ==> #[trigger] lines[k].0 != lines[j].0,
    ensures
        line_at(lines, lines[j].0) == Some(lines[j]),
{
    let t = lines[j].0;
    assert forall|k: int| j < k < lines.len() implies lines[k].0 > t by {
        assert(lines[j].0 <= lines[k].0);
    }
    lemma_line_at_index(lines, t, j);
}

/// An empty document shows no line at any time.
pub proof fn lemma_empty_document_shows_nothing(t: int)
    ensures
        line_at(Seq::<(int, Seq<char>)>::empty(), t) is None,
{
}

/// Relies on `lrc::Lyrics::from_str`, which reads a whole LRC text, and on
/// `Lyrics::get_timed_lines`, whose lines it keeps sorted by time.
#[verifier::external_body]
fn lrc_from_str(text: &str) -> (r: Result<lrc::Lyrics, lrc::LyricsError>)
    ensures
        match r {
            Ok(l) => lrc_parse(text@) == Some(lrc_timed_lines(l)),
            Err(_) => lrc_parse(text@) is None,
        },
        r is Ok ==> sorted_by_time(lrc_timed_lines(r->Ok_0)),
        text@.len() == 0 ==> r is Ok && lrc_timed_lines(r->Ok_0).len() == 0,
{
    lrc::Lyrics::from_str(text)
}

/// Relies on `lrc::Lyrics::find_timed_line_index`: a partition point over the
/// sorted timed lines, less one, so the last line whose time is not after `t`.
#[verifier::external_body]
fn lrc_find_index(lyrics: &lrc::Lyrics, t: i64) -> (r: Option<usize>)
    requires
        sorted_by_time(lrc_timed_lines(*lyrics)),
    ensures
        match r {
            None => forall|i: int|
                0 <= i < lrc_timed_lines(*lyrics).len() ==> lrc_timed_lines(*lyrics)[i].0 > t,
            Some(i) => is_active(lrc_timed_lines(*lyrics), t as int, i as int),
        },
{
    lyrics.find_timed_line_index(t)
}

/// Relies on `lrc::Lyrics::get_timed_lines`: the time and text of line `i`.
#[verifier::external_body]
fn lrc_timed_line(lyrics: &lrc::Lyrics, i: usize) -> (r: (i64, String))
    requires
        i < lrc_timed_lines(*lyrics).len(),
    ensures
        r.0 as int == lrc_timed_lines(*lyrics)[i as int].0,
        r.1@ == lrc_timed_lines(*lyrics)[i as int].1,
{
    let (time_tag, text) = &lyrics.get_timed_lines()[i];
    (time_tag.get_timestamp(), text.to_string())
}

/// Why a lyric text could not be read.
#[derive(Debug, Clone, Copy, PartialEq, Eq, Structural)]
pub enum ParseError {
    /// The text is not in the line-timed lyric format.
    MalformedInput,
}

/// One timed line: its time in milliseconds and its text.
#[derive(Debug, Clone)]
pub struct TimedLine {
    pub timestamp: i64,
    pub text: String,
}

impl View for TimedLine {
    type V = (int, Seq<char>);

    open spec fn view(&self) -> (int, Seq<char>) {
        (self.timestamp as int, self.text@)
    }
}

/// A parsed lyric document: its timed lines, ordered by time, lines of equal
/// time in the order in which the text declares them.
pub struct LyricDocument {
    lyrics: lrc::Lyrics,
}

impl View for LyricDocument {
    type V = Seq<(int, Seq<char>)>;

    closed spec fn view(&self) -> Seq<(int, Seq<char>)> {
        lrc_timed_lines(self.lyrics)
    }
}

impl LyricDocument {
    /// The document's lines are sorted by time.
    pub open spec fn wf(&self) -> bool {
        sorted_by_time(self@)
    }

    /// Parses a lyric text into its timed lines, sorted by time, lines of equal
    /// time in the order of the text. An empty text gives an empty document.
    pub fn parse(text: &str) -> (r: Result<LyricDocument, ParseError>)
        ensures
            match r {
                Ok(d) => d.wf() && sorted_by_time(d@) && lrc_parse(text@) == Some(d@),
                Err(e) => lrc_parse(text@) is None && e == ParseError::MalformedInput,
            },
            text@.len() == 0 ==> r is Ok && r->Ok_0@.len() == 0,
    {
        match lrc_from_str(text) {
            Ok(lyrics) => Ok(LyricDocument { lyrics }),
            Err(_) => Err(ParseError::MalformedInput),
        }
    }

    /// The line shown at time `t` (milliseconds), if any line has started.
    pub fn resolve(&self, t: i64) -> (r: Option<TimedLine>)
        requires
            self.wf(),
        ensures
            match r {
                None => line_at(self@, t as int) is None,
                Some(l) => line_at(self@, t as int) == Some(l@),
            },
    {
        match lrc_find_index(&self.lyrics, t) {
            None => {
                assert(!exists|i: int| is_active(self@, t as int, i));
                None
            },
            Some(i) => {
                let (timestamp, text) = lrc_timed_line(&self.lyrics, i);
                proof {
                    lemma_line_at_index(self@, t as int, i as int);
                }
                Some(TimedLine { timestamp, text })
            },
        }
    }
}

} // verus!
