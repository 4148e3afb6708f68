//! One entry of the playlist.
use crate::playback::Lang;
use vstd::prelude::*;

verus! {

/// A track of the playlist: its name, audio file, lyric files and pictures.
#[derive(Clone, Debug)]
pub struct Config {
    pub name: String,
    pub source_path: String,
    /// The Chinese lyrics, if any.
    pub lyrics_first: Option<String>,
    /// The Japanese lyrics, if any.
    pub lyrics_second: Option<String>,
    pub avatar: String,
    pub background: String,
}

/// The lyric languages shown in mode `lang`, as (Chinese, Japanese).
pub open spec fn shown_spec(lang: Lang) -> (bool, bool) {
    match lang {
        Lang::All => (true, true),
        Lang::Chinese => (true, false),
        Lang::Japanese => (false, true),
    }
}

/// The lyric languages shown in mode `lang`, as (Chinese, Japanese).
pub fn shown_languages(lang: Lang) -> (r: (bool, bool))
    ensures
        r == shown_spec(lang),
{
    match lang {
        Lang::All => (true, true),
        Lang::Chinese => (true, false),
        Lang::Japanese => (false, true),
    }
}

} // verus!
