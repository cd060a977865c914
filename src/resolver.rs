//! The lyric line to show for a track at a playback position.

use vstd::prelude::*;
use crate::codec::{line_at, lrc_parse, sorted_by_time, LyricDocument};

verus! {

/// Why no lyric line can be shown.
#[derive(Debug, Clone, Copy, PartialEq, Eq, Structural)]
pub enum ResolveError {
    /// The track has no record in the index.
    NotIndexed,
    /// The indexed lyric file is no longer there.
    FileMissing,
    /// The lyric file is not in the line-timed lyric format.
    ParseFailure,
    /// Playback has not reached the first timed line.
    NoActiveLine,
}

/// A playback position in nanoseconds, in the milliseconds of lyric time tags.
pub fn position_millis(nanos: u64) -> (r: i64)
    ensures
        r as int == nanos as int / 1_000_000,
{
    (nanos / 1_000_000) as i64
}

/// The text, verbatim, of the line shown at `time` (milliseconds) in the
/// lyric text `contents`.
pub fn get_lyric(contents: &str, time: i64) -> (r: Result<String, ResolveError>)
    ensures
        match lrc_parse(contents@) {
            None => r == Err::<String, ResolveError>(ResolveError::ParseFailure),
            Some(lines) => match line_at(lines, time as int) {
                None => r == Err::<String, ResolveError>(ResolveError::NoActiveLine),
                Some(line) => r is Ok && r->Ok_0@ == line.1,
            },
        },
        lrc_parse(contents@) is Some ==> sorted_by_time(lrc_parse(contents@)->0),
{
    match LyricDocument::parse(contents) {
        Err(_) => Err(ResolveError::ParseFailure),
        Ok(doc) => match doc.resolve(time) {
            None => Err(ResolveError::NoActiveLine),
            Some(line) => Ok(line.text),
        },
    }
}

} // verus!
