//! Time-synchronised lyric lookup: parsing of line-timed lyric text, an index
//! from track identity to lyric file, and the choice of the line that is active
//! at a playback position.

pub mod codec;
pub mod store;
pub mod indexer;
pub mod resolver;
