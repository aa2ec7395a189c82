//! Decoding and analysis of ARINC 429 avionics bus words: word layout and
//! parity, BNR/BCD/discrete payload decoding, the label dictionary, the
//! decoding pipeline and its statistics, capture timing and replay scheduling.

pub mod text;
pub mod protocol;
pub mod timing;
pub mod decode;
pub mod io;
pub mod replay;

use vstd::prelude::*;
use crate::protocol::word::ArincWord;
use crate::timing::timestamp::Timestamp;

verus! {

/// A bus word together with the time it was captured.
#[derive(Debug, Clone)]
pub struct TimedWord {
    pub word: ArincWord,
    pub timestamp: Timestamp,
}

impl TimedWord {
    pub fn new(word: ArincWord, timestamp: Timestamp) -> (t: Self)
        ensures
            t.word == word,
            t.timestamp == timestamp,
    {
        TimedWord { word, timestamp }
    }

    /// The word and its timestamp, taken apart.
    pub fn into_inner(self) -> (r: (ArincWord, Timestamp))
        ensures
            r.0 == self.word,
            r.1 == self.timestamp,
    {
        (self.word, self.timestamp)
    }
}

impl std::ops::Deref for TimedWord {
    type Target = ArincWord;

    fn deref(&self) -> (w: &ArincWord)
        ensures
            *w == self.word,
    {
        &self.word
    }
}

} // verus!
