//! Per-source track preferences.
//!
//! The player remembers, per magnet link, which audio and subtitle tracks
//! the user picked.  Persistence is plain file I/O outside the library.

use vstd::prelude::*;

use crate::text::{chars_eq, str_chars};

verus! {

/// The tracks chosen for one source.
pub struct TrackPreference {
    pub audio_track_index: Option<usize>,
    pub subtitle_track_index: Option<i32>,
    pub subtitle_language: Option<String>,
}

impl TrackPreference {
    /// Field-for-field copy.
    pub fn clone_pref(&self) -> (r: TrackPreference)
        ensures
            r == *self,
    {
        TrackPreference {
            audio_track_index: self.audio_track_index,
            subtitle_track_index: self.subtitle_track_index,
            subtitle_language: match &self.subtitle_language {
                Option::Some(l) => Option::Some(l.clone()),
                Option::None => Option::None,
            },
        }
    }
}

/// All stored preferences, keyed by magnet link.
pub struct PreferencesData {
    pub torrents: Vec<(String, TrackPreference)>,
}

/// In-memory holder of the stored preferences.
pub struct TrackPreferencesManager {
    pub data: PreferencesData,
}

impl TrackPreferencesManager {
    pub open spec fn has_key(self, k: Seq<char>) -> bool {
        exists|i: int|
            0 <= i < self.data.torrents@.len() && (#[trigger] self.data.torrents@[i]).0@ == k
    }

    pub open spec fn index_of(self, k: Seq<char>) -> int {
        choose|i: int|
            0 <= i < self.data.torrents@.len() && (#[trigger] self.data.torrents@[i]).0@ == k
    }

    pub open spec fn value_of(self, k: Seq<char>) -> TrackPreference {
        self.data.torrents@[self.index_of(k)].1
    }

    /// Keys are unique.
    pub open spec fn wf(self) -> bool {
        forall|i: int, j: int|
            0 <= i < j < self.data.torrents@.len() ==> (#[trigger] self.data.torrents@[i]).0@ != (
            #[trigger] self.data.torrents@[j]).0@
    }

    /// A holder with no stored preferences.
    pub fn new() -> (r: Self)
        ensures
            r.wf(),
            r.data.torrents@.len() == 0,
    {
        TrackPreferencesManager { data: PreferencesData { torrents: Vec::new() } }
    }

    fn find(&self, k: &Vec<char>) -> (r: Option<usize>)
        requires
            self.wf(),
        ensures
            match r {
                Option::Some(i) => i < self.data.torrents@.len()
                    && self.data.torrents@[i as int].0@ == k@ && self.has_key(k@) && self.index_of(
                    k@,
                ) == i,
                Option::None => !self.has_key(k@),
            },
    {
        let n = self.data.torrents.len();
        let mut i: usize = 0;
        while i < n
            invariant
                self.wf(),
                n == self.data.torrents@.len(),
                i <= n,
                forall|j: int| 0 <= j < i ==> (#[trigger] self.data.torrents@[j]).0@ != k@,
            decreases n - i,
        {
            if chars_eq(&str_chars(self.data.torrents[i].0.as_str()), k) {
                proof {
                    let w = self.index_of(k@);
                    assert(self.data.torrents@[i as int].0@ == k@);
                    if w != i {
                        assert(false);
                    }
                }
                return Option::Some(i);
            }
            i = i + 1;
        }
        Option::None
    }

    /// Store the tracks chosen for a source, replacing any earlier choice.
    pub fn save_preference(
        &mut self,
        magnet_link: String,
        audio_track_index: Option<usize>,
        subtitle_track_index: Option<i32>,
        subtitle_language: Option<String>,
    )
        requires
            old(self).wf(),
        ensures
            final(self).wf(),
            final(self).has_key(magnet_link@),
            final(self).value_of(magnet_link@) == (TrackPreference {
                audio_track_index,
                subtitle_track_index,
                subtitle_language,
            }),
    {
        let key = str_chars(magnet_link.as_str());
        let pref = TrackPreference { audio_track_index, subtitle_track_index, subtitle_language };
        match self.find(&key) {
            Option::Some(i) => {
                self.data.torrents.set(i, (magnet_link, pref));
                proof {
                    let k = self.data.torrents@[i as int].0@;
                    assert(self.index_of(k) == i) by {
                        let w = self.index_of(k);
                        if w != i {
                            assert(old(self).data.torrents@[w] == self.data.torrents@[w]);
                            assert(false);
                        }
                    }
                    assert forall|a: int, b: int|
                        0 <= a < b < self.data.torrents@.len() implies (
                    #[trigger] self.data.torrents@[a]).0@ != (
                    #[trigger] self.data.torrents@[b]).0@ by {
                        if a != i && b != i {
                            assert(self.data.torrents@[a] == old(self).data.torrents@[a]);
                            assert(self.data.torrents@[b] == old(self).data.torrents@[b]);
                        } else if a == i {
                            assert(self.data.torrents@[b] == old(self).data.torrents@[b]);
                            assert(old(self).data.torrents@[i as int].0@ == k);
                        } else {
                            assert(self.data.torrents@[a] == old(self).data.torrents@[a]);
                            assert(old(self).data.torrents@[i as int].0@ == k);
                        }
                    }
                }
            },
            Option::None => {
                let ghost n0 = self.data.torrents@.len() as int;
                self.data.torrents.push((magnet_link, pref));
                proof {
                    let k = self.data.torrents@[n0].0@;
                    assert(self.index_of(k) == n0) by {
                        let w = self.index_of(k);
                        if w != n0 {
                            assert(old(self).data.torrents@[w] == self.data.torrents@[w]);
                            assert(false);
                        }
                    }
                }
            },
        }
    }

    /// The tracks chosen for a source, if any were stored.
    pub fn get_preference(&self, magnet_link: &str) -> (r: Option<TrackPreference>)
        requires
            self.wf(),
        ensures
            match r {
                Option::Some(p) => self.has_key(magnet_link@) && p == self.value_of(magnet_link@),
                Option::None => !self.has_key(magnet_link@),
            },
    {
        let key = str_chars(magnet_link);
        match self.find(&key) {
            Option::Some(i) => Option::Some(self.data.torrents[i].1.clone_pref()),
            Option::None => Option::None,
        }
    }
}

} // verus!
