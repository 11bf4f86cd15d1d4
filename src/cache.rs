use vstd::prelude::*;

verus! {

/// The identity of an episode: its season and its number within the season.
#[derive(Debug, PartialEq, Eq, Structural, Clone, Copy, Hash)]
pub struct EpisodeKey {
    pub season: u32,
    pub episode: u32,
}

/// One episode record of the metadata store.
pub struct Episode {
    pub name: Option<String>,
}

/// The series that a metadata store describes.
pub struct Series {
    pub name: String,
}

/// Where the record of an episode stands in the list of episodes.
#[derive(Debug, PartialEq, Eq, Structural, Clone, Copy)]
pub struct EpisodeIndex {
    pub key: EpisodeKey,
    pub index: usize,
}

/// A read-only snapshot of episode metadata for one series.
pub struct TvdbCache {
    pub series: Series,
    pub episodes: Vec<Episode>,
    pub episode_cache: Vec<EpisodeIndex>,
}

/// The index recorded for `key` in the entries from `i` on: the first entry
/// that has that key.
pub open spec fn index_from(entries: Seq<EpisodeIndex>, key: EpisodeKey, i: int) -> Option<usize>
    decreases entries.len() - i,
{
    if i < 0 || i >= entries.len() {
        None
    } else if entries[i].key == key {
        Some(entries[i].index)
    } else {
        index_from(entries, key, i + 1)
    }
}

impl TvdbCache {
    /// The index recorded for an episode.
    pub open spec fn spec_index_of(&self, key: EpisodeKey) -> Option<usize> {
        index_from(self.episode_cache@, key, 0)
    }

    /// The title known for an episode: none when the episode has no record,
    /// when its record points past the list, or when the record has no title.
    pub open spec fn spec_title(&self, key: EpisodeKey) -> Option<Seq<char>> {
        match self.spec_index_of(key) {
            Some(ix) => if ix < self.episodes@.len() {
                match self.episodes@[ix as int].name {
                    Some(n) => Some(n@),
                    None => None,
                }
            } else {
                None
            },
            None => None,
        }
    }

    /// The name of the series.
    pub open spec fn spec_series_name(&self) -> Seq<char> {
        self.series.name@
    }

    /// Looks up the index recorded for an episode.
    pub fn index_of(&self, key: EpisodeKey) -> (r: Option<usize>)
        ensures
            r == self.spec_index_of(key),
    {
        let mut i: usize = 0;
        while i < self.episode_cache.len()
            invariant
                i <= self.episode_cache@.len(),
                self.spec_index_of(key) == index_from(self.episode_cache@, key, i as int),
            decreases self.episode_cache.len() - i,
        {
            let e = self.episode_cache[i];
            if e.key == key {
                return Some(e.index);
            }
            i = i + 1;
        }
        None
    }

    /// Looks up the title known for an episode.
    pub fn lookup_episode_title(&self, key: EpisodeKey) -> (r: Option<&String>)
        ensures
            match r {
                Some(t) => self.spec_title(key) == Some(t@),
                None => self.spec_title(key) is None,
            },
    {
        match self.index_of(key) {
            Some(ix) => if ix < self.episodes.len() {
                match &self.episodes[ix].name {
                    Some(n) => Some(n),
                    None => None,
                }
            } else {
                None
            },
            None => None,
        }
    }
}

} // verus!
