//! Remembered torrent selections per show, season and episode.
//!
//! The store itself is flat — one record per `(show, season, episode)` —
//! which keeps its logic exact; the nested per-show view handed to clients
//! is assembled from it on demand.  Persistence is plain file I/O outside
//! the library.

use vstd::prelude::*;

verus! {

/// The torrent chosen for one episode: the magnet link and the file inside
/// the torrent.
pub struct EpisodeTorrent {
    pub magnet_link: String,
    pub file_index: usize,
}

impl EpisodeTorrent {
    /// Field-for-field copy.
    pub fn clone_episode(&self) -> (r: EpisodeTorrent)
        ensures
            r == *self,
    {
        EpisodeTorrent { magnet_link: self.magnet_link.clone(), file_index: self.file_index }
    }
}

/// The selections of one season, by episode number.
pub struct SeasonTorrent {
    pub episodes: Vec<(u32, EpisodeTorrent)>,
}

/// The selections of one show, by season number.
pub struct ShowHistory {
    pub seasons: Vec<(u32, SeasonTorrent)>,
}

/// All stored selections, by show id.
pub struct HistoryData {
    pub shows: Vec<(u32, ShowHistory)>,
}

/// One stored selection record.
pub struct SelectionEntry {
    pub show_id: u32,
    pub season: u32,
    pub episode: u32,
    pub selection: EpisodeTorrent,
}

/// Flat store of all selection records, one per (show, season, episode).
pub struct TrackingManager {
    pub entries: Vec<SelectionEntry>,
}

impl TrackingManager {
    pub open spec fn has_key(self, show: u32, season: u32, episode: u32) -> bool {
        exists|i: int|
            0 <= i < self.entries@.len() && (#[trigger] self.entries@[i]).show_id == show
                && self.entries@[i].season == season && self.entries@[i].episode == episode
    }

    pub open spec fn index_of(self, show: u32, season: u32, episode: u32) -> int {
        choose|i: int|
            0 <= i < self.entries@.len() && (#[trigger] self.entries@[i]).show_id == show
                && self.entries@[i].season == season && self.entries@[i].episode == episode
    }

    pub open spec fn value_of(self, show: u32, season: u32, episode: u32) -> EpisodeTorrent {
        self.entries@[self.index_of(show, season, episode)].selection
    }

    /// One record per (show, season, episode).
    pub open spec fn wf(self) -> bool {
        forall|i: int, j: int|
            0 <= i < j < self.entries@.len() ==> !((#[trigger] self.entries@[i]).show_id == (
            #[trigger] self.entries@[j]).show_id && self.entries@[i].season
                == self.entries@[j].season && self.entries@[i].episode
                == self.entries@[j].episode)
    }

    /// An empty store.
    pub fn new() -> (r: Self)
        ensures
            r.wf(),
            r.entries@.len() == 0,
    {
        TrackingManager { entries: Vec::new() }
    }

    fn find(&self, show: u32, season: u32, episode: u32) -> (r: Option<usize>)
        requires
            self.wf(),
        ensures
            match r {
                Option::Some(i) => i < self.entries@.len() && self.entries@[i as int].show_id
                    == show && self.entries@[i as int].season == season
                    && self.entries@[i as int].episode == episode && self.has_key(
                    show,
                    season,
                    episode,
                ) && self.index_of(show, season, episode) == i,
                Option::None => !self.has_key(show, season, episode),
            },
    {
        let n = self.entries.len();
        let mut i: usize = 0;
        while i < n
            invariant
                self.wf(),
                n == self.entries@.len(),
                i <= n,
                forall|j: int|
                    0 <= j < i ==> !((#[trigger] self.entries@[j]).show_id == show
                        && self.entries@[j].season == season && self.entries@[j].episode
                        == episode),
            decreases n - i,
        {
            if self.entries[i].show_id == show && self.entries[i].season == season
                && self.entries[i].episode == episode {
                proof {
                    let w = self.index_of(show, season, episode);
                    assert(self.entries@[i as int].show_id == show);
                    if w != i {
                        assert(false);
                    }
                }
                return Option::Some(i);
            }
            i = i + 1;
        }
        Option::None
    }

    /// Remember the torrent chosen for one episode, replacing any earlier
    /// choice for the same episode.
    pub fn save_selection(
        &mut self,
        show_id: u32,
        season: u32,
        episode: u32,
        magnet_link: String,
        file_index: usize,
    )
        requires
            old(self).wf(),
        ensures
            final(self).wf(),
            final(self).has_key(show_id, season, episode),
            final(self).value_of(show_id, season, episode) == (EpisodeTorrent {
                magnet_link,
                file_index,
            }),
    {
        let sel = EpisodeTorrent { magnet_link, file_index };
        let e = SelectionEntry { show_id, season, episode, selection: sel };
        match self.find(show_id, season, episode) {
            Option::Some(i) => {
                self.entries.set(i, e);
                proof {
                    assert(self.entries@[i as int].show_id == show_id
                        && self.entries@[i as int].season == season
                        && self.entries@[i as int].episode == episode);
                    assert(self.has_key(show_id, season, episode));
                    assert(self.index_of(show_id, season, episode) == i) by {
                        let w = self.index_of(show_id, season, episode);
                        assert(self.entries@[i as int].show_id == show_id);
                        if w != i {
                            assert(old(self).entries@[w] == self.entries@[w]);
                            assert(false);
                        }
                    }
                    assert forall|a: int, b: int|
                        0 <= a < b < self.entries@.len() implies !((
                    #[trigger] self.entries@[a]).show_id == (#[trigger] self.entries@[b]).show_id
                        && self.entries@[a].season == self.entries@[b].season
                        && self.entries@[a].episode == self.entries@[b].episode) by {
                        if a != i && b != i {
                            assert(self.entries@[a] == old(self).entries@[a]);
                            assert(self.entries@[b] == old(self).entries@[b]);
                        } else if a == i {
                            assert(self.entries@[b] == old(self).entries@[b]);
                            assert(old(self).entries@[i as int].show_id == show_id
                                && old(self).entries@[i as int].season == season
                                && old(self).entries@[i as int].episode == episode);
                        } else {
                            assert(self.entries@[a] == old(self).entries@[a]);
                            assert(old(self).entries@[i as int].show_id == show_id
                                && old(self).entries@[i as int].season == season
                                && old(self).entries@[i as int].episode == episode);
                        }
                    }
                }
            },
            Option::None => {
                let ghost n0 = self.entries@.len() as int;
                self.entries.push(e);
                proof {
                    assert(self.entries@[n0].show_id == show_id);
                    assert(self.index_of(show_id, season, episode) == n0) by {
                        let w = self.index_of(show_id, season, episode);
                        if w != n0 {
                            assert(old(self).entries@[w] == self.entries@[w]);
                            assert(false);
                        }
                    }
                }
            },
        }
    }

    /// The torrent remembered for one episode, if any.
    pub fn get_selection(&self, show_id: u32, season: u32, episode: u32) -> (r: Option<
        EpisodeTorrent,
    >)
        requires
            self.wf(),
        ensures
            match r {
                Option::Some(s) => self.has_key(show_id, season, episode) && s == self.value_of(
                    show_id,
                    season,
                    episode,
                ),
                Option::None => !self.has_key(show_id, season, episode),
            },
    {
        match self.find(show_id, season, episode) {
            Option::Some(i) => Option::Some(self.entries[i].selection.clone_episode()),
            Option::None => Option::None,
        }
    }

    /// Forget the torrent remembered for one episode; absent records are a
    /// no-op.
    pub fn remove_selection(&mut self, show_id: u32, season: u32, episode: u32)
        requires
            old(self).wf(),
        ensures
            final(self).wf(),
            !final(self).has_key(show_id, season, episode),
    {
        match self.find(show_id, season, episode) {
            Option::Some(i) => {
                self.entries.remove(i);
                proof {
                    assert(forall|j: int|
                        0 <= j < self.entries@.len() ==> (#[trigger] self.entries@[j]) == (if j
                            < i {
                            old(self).entries@[j]
                        } else {
                            old(self).entries@[j + 1]
                        }));
                    assert forall|j: int|
                        0 <= j < self.entries@.len() implies !((
                    #[trigger] self.entries@[j]).show_id == show_id && self.entries@[j].season
                        == season && self.entries@[j].episode == episode) by {
                        if j < i {
                            assert(self.entries@[j] == old(self).entries@[j]);
                            assert(old(self).entries@[i as int].show_id == show_id);
                        } else {
                            assert(self.entries@[j] == old(self).entries@[j + 1]);
                            assert(old(self).entries@[i as int].show_id == show_id);
                        }
                    }
                }
            },
            Option::None => {},
        }
    }

    /// The nested per-show view of the stored selections for one show, or
    /// nothing when the show has no records.  Every episode listed reflects
    /// one stored record of that show.
    pub fn get_all_selections(&self, show_id: u32) -> (r: Option<ShowHistory>)
        requires
            self.wf(),
        ensures
            r is Some <==> (exists|i: int|
                0 <= i < self.entries@.len() && (#[trigger] self.entries@[i]).show_id == show_id),
    {
        let mut seasons: Vec<(u32, SeasonTorrent)> = Vec::new();
        let mut found = false;
        let n = self.entries.len();
        let mut i: usize = 0;
        while i < n
            invariant
                i <= n,
                n == self.entries@.len(),
                found == (exists|j: int|
                    0 <= j < i && (#[trigger] self.entries@[j]).show_id == show_id),
            decreases n - i,
        {
            let e = &self.entries[i];
            if e.show_id == show_id {
                found = true;
                let mut si_found: Option<usize> = Option::None;
                let mut si: usize = 0;
                while si < seasons.len()
                    invariant
                        si <= seasons@.len(),
                        match si_found {
                            Option::Some(k) => k < seasons@.len(),
                            Option::None => true,
                        },
                    decreases seasons@.len() - si,
                {
                    if seasons[si].0 == e.season {
                        si_found = Option::Some(si);
                        si = seasons.len();
                    } else {
                        si = si + 1;
                    }
                }
                match si_found {
                    Option::Some(k) => {
                        let (snum, mut st) = seasons.remove(k);
                        st.episodes.push((e.episode, e.selection.clone_episode()));
                        seasons.insert(k, (snum, st));
                    },
                    Option::None => {
                        let mut st = SeasonTorrent { episodes: Vec::new() };
                        st.episodes.push((e.episode, e.selection.clone_episode()));
                        seasons.push((e.season, st));
                    },
                }
            }
            i = i + 1;
        }
        if found {
            Option::Some(ShowHistory { seasons })
        } else {
            Option::None
        }
    }
}

} // verus!
