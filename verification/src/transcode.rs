//! Transcode progress tracking.
//!
//! One entry exists per `(session, file)` pair from the moment a track is
//! found to need transcoding.  The external transcoder reports its output
//! position on a machine-readable side channel; the entry's percentage is
//! derived from that position against the probed duration, is capped at 99
//! until the process exits successfully, never decreases, and is set to
//! exactly 100 when the entry is marked completed.

use vstd::prelude::*;

use crate::text::{all_digits, digits_value, parse_u64_chars, starts_with_seq, starts_with_vec,
    str_chars, subrange_chars};

verus! {

/// Progress of one transcode task.
pub struct TranscodeState {
    pub progress: u8,
    pub output_path: Option<String>,
    pub completed: bool,
    pub error: Option<String>,
}

impl TranscodeState {
    /// Field-for-field copy.
    pub fn clone_state(&self) -> (r: TranscodeState)
        ensures
            r == *self,
    {
        TranscodeState {
            progress: self.progress,
            output_path: match &self.output_path {
                Option::Some(p) => Option::Some(p.clone()),
                Option::None => Option::None,
            },
            completed: self.completed,
            error: match &self.error {
                Option::Some(e) => Option::Some(e.clone()),
                Option::None => Option::None,
            },
        }
    }

    /// A completed transcode stands at exactly 100 percent; a running one is
    /// capped at 99 so that clients never see a premature "done".
    pub open spec fn wf(self) -> bool {
        if self.completed {
            self.progress == 100
        } else {
            self.progress <= 99
        }
    }
}

/// The percentage reported for output position `out_time_us` against a total
/// of `duration_us` microseconds: proportional, capped at 99; zero when the
/// duration is unknown.
pub open spec fn spec_progress_pct(out_time_us: u64, duration_us: u64) -> int {
    if duration_us == 0 {
        0
    } else if out_time_us * 100 / (duration_us as int) < 99 {
        out_time_us * 100 / (duration_us as int)
    } else {
        99
    }
}

/// Percentage of `out_time_us` against `duration_us`, capped at 99.
pub fn progress_pct(out_time_us: u64, duration_us: u64) -> (r: u8)
    ensures
        r == spec_progress_pct(out_time_us, duration_us),
        r <= 99,
{
    if duration_us == 0 {
        return 0;
    }
    let wide: u128 = (out_time_us as u128) * 100 / (duration_us as u128);
    if wide < 99 {
        wide as u8
    } else {
        99
    }
}

/// One tracked transcode task.
pub struct TranscodeEntry {
    pub session_id: usize,
    pub file_index: usize,
    pub state: TranscodeState,
}

/// All transcode tasks, keyed by `(session, file)`.
pub struct TranscodeRegistry {
    pub entries: Vec<TranscodeEntry>,
}

impl TranscodeRegistry {
    pub open spec fn has_key(self, sid: usize, fid: usize) -> bool {
        exists|i: int|
            0 <= i < self.entries@.len() && (#[trigger] self.entries@[i]).session_id == sid
                && self.entries@[i].file_index == fid
    }

    pub open spec fn index_of(self, sid: usize, fid: usize) -> int {
        choose|i: int|
            0 <= i < self.entries@.len() && (#[trigger] self.entries@[i]).session_id == sid
                && self.entries@[i].file_index == fid
    }

    pub open spec fn state_of(self, sid: usize, fid: usize) -> TranscodeState {
        self.entries@[self.index_of(sid, fid)].state
    }

    /// Keys are unique and every state is well-formed.
    pub open spec fn wf(self) -> bool {
        &&& (forall|i: int, j: int|
            0 <= i < j < self.entries@.len() ==> !((#[trigger] self.entries@[i]).session_id == (
            #[trigger] self.entries@[j]).session_id && self.entries@[i].file_index
                == self.entries@[j].file_index))
        &&& (forall|i: int| 0 <= i < self.entries@.len() ==> (#[trigger] self.entries@[i]).state.wf())
    }

    pub fn new() -> (r: Self)
        ensures
            r.wf(),
            r.entries@.len() == 0,
    {
        TranscodeRegistry { entries: Vec::new() }
    }

    fn find(&self, sid: usize, fid: usize) -> (r: Option<usize>)
        requires
            self.wf(),
        ensures
            match r {
                Option::Some(i) => i < self.entries@.len() && self.entries@[i as int].session_id
                    == sid && self.entries@[i as int].file_index == fid && self.has_key(sid, fid)
                    && self.index_of(sid, fid) == i,
                Option::None => !self.has_key(sid, fid),
            },
    {
        let n = self.entries.len();
        let mut i: usize = 0;
        while i < n
            invariant
                self.wf(),
                n == self.entries@.len(),
                i <= n,
                forall|k: int|
                    0 <= k < i ==> !((#[trigger] self.entries@[k]).session_id == sid
                        && self.entries@[k].file_index == fid),
            decreases n - i,
        {
            if self.entries[i].session_id == sid && self.entries[i].file_index == fid {
                proof {
                    let w = self.index_of(sid, fid);
                    assert(self.entries@[i as int].session_id == sid);
                    if w != i {
                        assert(false);
                    }
                }
                return Option::Some(i);
            }
            i = i + 1;
        }
        Option::None
    }

    /// Look up the tracked state of `(sid, fid)`.
    pub fn get(&self, sid: usize, fid: usize) -> (r: Option<&TranscodeState>)
        requires
            self.wf(),
        ensures
            match r {
                Option::Some(st) => self.has_key(sid, fid) && *st == self.state_of(sid, fid)
                    && st.wf(),
                Option::None => !self.has_key(sid, fid),
            },
    {
        match self.find(sid, fid) {
            Option::Some(i) => Option::Some(&self.entries[i].state),
            Option::None => Option::None,
        }
    }

    /// Track a fresh task at zero percent, replacing any earlier entry of the
    /// same key.
    pub fn start(&mut self, sid: usize, fid: usize, output_path: Option<String>)
        requires
            old(self).wf(),
        ensures
            final(self).wf(),
            final(self).has_key(sid, fid),
            final(self).state_of(sid, fid) == (TranscodeState {
                progress: 0,
                output_path,
                completed: false,
                error: Option::None,
            }),
            forall|s2: usize, f2: usize|
                !(s2 == sid && f2 == fid) ==> (#[trigger] final(self).has_key(s2, f2)) == old(
                    self,
                ).has_key(s2, f2) && (old(self).has_key(s2, f2) ==> final(self).state_of(s2, f2)
                    == old(self).state_of(s2, f2)),
    {
        let st = TranscodeState {
            progress: 0,
            output_path,
            completed: false,
            error: Option::None,
        };
        match self.find(sid, fid) {
            Option::Some(i) => {
                let e = TranscodeEntry { session_id: sid, file_index: fid, state: st };
                self.entries.set(i, e);
                proof {
                    self.lemma_other_keys_stable(*old(self), i as int);
                }
            },
            Option::None => {
                let e = TranscodeEntry { session_id: sid, file_index: fid, state: st };
                self.entries.push(e);
                proof {
                    let n = old(self).entries@.len() as int;
                    assert(self.entries@[n].session_id == sid && self.entries@[n].file_index
                        == fid);
                    assert(self.index_of(sid, fid) == n) by {
                        let w = self.index_of(sid, fid);
                        if w != n {
                            assert(old(self).entries@[w] == self.entries@[w]);
                            assert(false);
                        }
                    }
                    self.lemma_other_keys_stable_push(*old(self));
                }
            },
        }
    }

    /// Apply one progress report: the entry's percentage becomes the larger
    /// of its current value and the reported one, so progress never moves
    /// backwards.  A completed or untracked task is left untouched.
    pub fn update_progress(&mut self, sid: usize, fid: usize, out_time_us: u64, duration_us: u64)
        requires
            old(self).wf(),
        ensures
            final(self).wf(),
            forall|s2: usize, f2: usize|
                (#[trigger] final(self).has_key(s2, f2)) == old(self).has_key(s2, f2),
            !old(self).has_key(sid, fid) ==> final(self).entries@ == old(self).entries@,
            old(self).has_key(sid, fid) ==> {
                let st0 = old(self).state_of(sid, fid);
                let pct = spec_progress_pct(out_time_us, duration_us);
                let st1 = final(self).state_of(sid, fid);
                &&& st1.completed == st0.completed
                &&& st1.output_path == st0.output_path
                &&& st1.error == st0.error
                &&& (st0.completed ==> st1 == st0)
                &&& (!st0.completed ==> st1.progress == (if st0.progress >= pct {
                    st0.progress as int
                } else {
                    pct
                }))
                &&& st1.progress >= st0.progress
            },
            forall|s2: usize, f2: usize|
                !(s2 == sid && f2 == fid) && old(self).has_key(s2, f2) ==> (#[trigger] final(self).state_of(s2, f2)) == old(self).state_of(s2, f2),
    {
        let i = match self.find(sid, fid) {
            Option::Some(i) => i,
            Option::None => {
                return ;
            },
        };
        if self.entries[i].state.completed {
            return ;
        }
        let pct = progress_pct(out_time_us, duration_us);
        let cur = self.entries[i].state.progress;
        let np = if cur >= pct {
            cur
        } else {
            pct
        };
        let path = match &self.entries[i].state.output_path {
            Option::Some(p) => Option::Some(p.clone()),
            Option::None => Option::None,
        };
        let err = match &self.entries[i].state.error {
            Option::Some(m) => Option::Some(m.clone()),
            Option::None => Option::None,
        };
        let st = TranscodeState { progress: np, output_path: path, completed: false, error: err };
        let e = TranscodeEntry { session_id: sid, file_index: fid, state: st };
        self.entries.set(i, e);
        proof {
            self.lemma_other_keys_stable(*old(self), i as int);
        }
    }

    /// Mark a task completed: its progress becomes exactly 100.
    pub fn complete(&mut self, sid: usize, fid: usize)
        requires
            old(self).wf(),
        ensures
            final(self).wf(),
            forall|s2: usize, f2: usize|
                (#[trigger] final(self).has_key(s2, f2)) == old(self).has_key(s2, f2),
            !old(self).has_key(sid, fid) ==> final(self).entries@ == old(self).entries@,
            old(self).has_key(sid, fid) ==> {
                let st0 = old(self).state_of(sid, fid);
                let st1 = final(self).state_of(sid, fid);
                st1.progress == 100 && st1.completed && st1.output_path == st0.output_path
                    && st1.error == st0.error
            },
            forall|s2: usize, f2: usize|
                !(s2 == sid && f2 == fid) && old(self).has_key(s2, f2) ==> (#[trigger] final(self).state_of(s2, f2)) == old(self).state_of(s2, f2),
    {
        let i = match self.find(sid, fid) {
            Option::Some(i) => i,
            Option::None => {
                return ;
            },
        };
        let path = match &self.entries[i].state.output_path {
            Option::Some(p) => Option::Some(p.clone()),
            Option::None => Option::None,
        };
        let err = match &self.entries[i].state.error {
            Option::Some(m) => Option::Some(m.clone()),
            Option::None => Option::None,
        };
        let st = TranscodeState { progress: 100, output_path: path, completed: true, error: err };
        let e = TranscodeEntry { session_id: sid, file_index: fid, state: st };
        self.entries.set(i, e);
        proof {
            self.lemma_other_keys_stable(*old(self), i as int);
        }
    }

    /// Record a failure message on a task, leaving its progress untouched.
    pub fn fail(&mut self, sid: usize, fid: usize, message: String)
        requires
            old(self).wf(),
        ensures
            final(self).wf(),
            forall|s2: usize, f2: usize|
                (#[trigger] final(self).has_key(s2, f2)) == old(self).has_key(s2, f2),
            !old(self).has_key(sid, fid) ==> final(self).entries@ == old(self).entries@,
            old(self).has_key(sid, fid) ==> {
                let st0 = old(self).state_of(sid, fid);
                let st1 = final(self).state_of(sid, fid);
                st1.progress == st0.progress && st1.completed == st0.completed && st1.output_path
                    == st0.output_path && st1.error == Option::Some(message)
            },
            forall|s2: usize, f2: usize|
                !(s2 == sid && f2 == fid) && old(self).has_key(s2, f2) ==> (#[trigger] final(self).state_of(s2, f2)) == old(self).state_of(s2, f2),
    {
        let i = match self.find(sid, fid) {
            Option::Some(i) => i,
            Option::None => {
                return ;
            },
        };
        let path = match &self.entries[i].state.output_path {
            Option::Some(p) => Option::Some(p.clone()),
            Option::None => Option::None,
        };
        let prog = self.entries[i].state.progress;
        let comp = self.entries[i].state.completed;
        let st = TranscodeState {
            progress: prog,
            output_path: path,
            completed: comp,
            error: Option::Some(message),
        };
        let e = TranscodeEntry { session_id: sid, file_index: fid, state: st };
        self.entries.set(i, e);
        proof {
            self.lemma_other_keys_stable(*old(self), i as int);
        }
    }

    /// Updating the entry at one index leaves every other key's presence and
    /// state unchanged.
    proof fn lemma_other_keys_stable(self, prev: Self, i: int)
        requires
            prev.wf(),
            0 <= i < prev.entries@.len(),
            self.entries@ == prev.entries@.update(
                i,
                TranscodeEntry {
                    session_id: prev.entries@[i].session_id,
                    file_index: prev.entries@[i].file_index,
                    state: self.entries@[i].state,
                },
            ),
            self.entries@[i].state.wf(),
        ensures
            self.wf(),
            self.has_key(prev.entries@[i].session_id, prev.entries@[i].file_index),
            self.index_of(prev.entries@[i].session_id, prev.entries@[i].file_index) == i,
            forall|s2: usize, f2: usize|
                (#[trigger] self.has_key(s2, f2)) == prev.has_key(s2, f2),
            forall|s2: usize, f2: usize|
                !(s2 == prev.entries@[i].session_id && f2 == prev.entries@[i].file_index)
                    && prev.has_key(s2, f2) ==> (#[trigger] self.state_of(s2, f2))
                    == prev.state_of(s2, f2),
    {
        let sid = prev.entries@[i].session_id;
        let fid = prev.entries@[i].file_index;
        assert(self.entries@[i].session_id == sid && self.entries@[i].file_index == fid);
        assert(self.index_of(sid, fid) == i) by {
            let w = self.index_of(sid, fid);
            assert(self.has_key(sid, fid));
            if w != i {
                assert(prev.entries@[w] == self.entries@[w]);
                assert(false);
            }
        }
        assert forall|s2: usize, f2: usize| (#[trigger] self.has_key(s2, f2)) == prev.has_key(
            s2,
            f2,
        ) by {
            if prev.has_key(s2, f2) {
                let w = prev.index_of(s2, f2);
                assert(self.entries@[w].session_id == s2 && self.entries@[w].file_index == f2);
                assert(self.has_key(s2, f2));
            }
            if self.has_key(s2, f2) {
                let w = self.index_of(s2, f2);
                assert(prev.entries@[w].session_id == s2 && prev.entries@[w].file_index == f2);
                assert(prev.has_key(s2, f2));
            }
        }
        assert forall|s2: usize, f2: usize|
            !(s2 == sid && f2 == fid) && prev.has_key(s2, f2) implies (#[trigger] self.state_of(
            s2,
            f2,
        )) == prev.state_of(s2, f2) by {
            let w = prev.index_of(s2, f2);
            assert(w != i);
            assert(self.entries@[w] == prev.entries@[w]);
            assert(self.index_of(s2, f2) == w) by {
                let w2 = self.index_of(s2, f2);
                assert(self.has_key(s2, f2));
                if w2 != w {
                    if w2 == i {
                        assert(false);
                    } else {
                        assert(prev.entries@[w2] == self.entries@[w2]);
                        assert(false);
                    }
                }
            }
        }
    }

    /// Appending an entry with a fresh key leaves every other key's presence
    /// and state unchanged.
    proof fn lemma_other_keys_stable_push(self, prev: Self)
        requires
            prev.wf(),
            self.entries@.len() == prev.entries@.len() + 1,
            forall|k: int| 0 <= k < prev.entries@.len() ==> self.entries@[k] == prev.entries@[k],
            !prev.has_key(
                self.entries@[prev.entries@.len() as int].session_id,
                self.entries@[prev.entries@.len() as int].file_index,
            ),
            self.entries@[prev.entries@.len() as int].state.wf(),
        ensures
            self.wf(),
            forall|s2: usize, f2: usize|
                !(s2 == self.entries@[prev.entries@.len() as int].session_id && f2
                    == self.entries@[prev.entries@.len() as int].file_index) ==> (
                #[trigger] self.has_key(s2, f2)) == prev.has_key(s2, f2) && (prev.has_key(s2, f2)
                    ==> self.state_of(s2, f2) == prev.state_of(s2, f2)),
    {
        let n = prev.entries@.len() as int;
        let nsid = self.entries@[n].session_id;
        let nfid = self.entries@[n].file_index;
        assert forall|i: int, j: int| 0 <= i < j < self.entries@.len() implies !((
        #[trigger] self.entries@[i]).session_id == (#[trigger] self.entries@[j]).session_id
            && self.entries@[i].file_index == self.entries@[j].file_index) by {
            if j < n {
                assert(self.entries@[i] == prev.entries@[i] && self.entries@[j]
                    == prev.entries@[j]);
            } else {
                assert(j == n);
                assert(self.entries@[i] == prev.entries@[i]);
                if self.entries@[i].session_id == nsid && self.entries@[i].file_index == nfid {
                    assert(prev.has_key(nsid, nfid));
                    assert(false);
                }
            }
        }
        assert forall|s2: usize, f2: usize|
            !(s2 == nsid && f2 == nfid) implies (#[trigger] self.has_key(s2, f2)) == prev.has_key(
            s2,
            f2,
        ) && (prev.has_key(s2, f2) ==> self.state_of(s2, f2) == prev.state_of(s2, f2)) by {
            if prev.has_key(s2, f2) {
                let w = prev.index_of(s2, f2);
                assert(self.entries@[w].session_id == s2 && self.entries@[w].file_index == f2);
                assert(self.has_key(s2, f2));
                assert(self.index_of(s2, f2) == w) by {
                    let w2 = self.index_of(s2, f2);
                    if w2 != w {
                        if w2 == n {
                            assert(false);
                        } else {
                            assert(prev.entries@[w2] == self.entries@[w2]);
                            assert(false);
                        }
                    }
                }
            }
            if self.has_key(s2, f2) {
                let w = self.index_of(s2, f2);
                assert(w != n);
                assert(prev.entries@[w].session_id == s2 && prev.entries@[w].file_index == f2);
                assert(prev.has_key(s2, f2));
            }
        }
    }
}

/// Status monotonicity: one progress report never lowers a running task's
/// percentage and keeps it below 100.
pub proof fn lemma_progress_monotone(st: TranscodeState, out_time_us: u64, duration_us: u64)
    requires
        st.wf(),
        !st.completed,
    ensures
        ({
            let pct = spec_progress_pct(out_time_us, duration_us);
            let np = if st.progress >= pct {
                st.progress as int
            } else {
                pct
            };
            st.progress <= np <= 99
        }),
{
}

/// A completed task stands at exactly 100 percent.
pub proof fn lemma_completed_is_full(st: TranscodeState)
    requires
        st.wf(),
        st.completed,
    ensures
        st.progress == 100,
{
}

/// Value of the transcoder's machine-readable progress line: for a line of
/// the form `out_time_ms=<digits>` the reported output position in
/// microseconds, and nothing for any other line.
pub fn parse_progress_line(line: &str) -> (r: Option<u64>)
    ensures
        match r {
            Option::Some(v) => {
                let rest = line@.subrange(12, line@.len() as int);
                starts_with_seq(line@, "out_time_ms="@) && rest.len() > 0 && all_digits(rest)
                    && v == digits_value(rest)
            },
            Option::None => !starts_with_seq(line@, "out_time_ms="@) || {
                let rest = line@.subrange(12, line@.len() as int);
                rest.len() == 0 || !all_digits(rest) || digits_value(rest) > u64::MAX
            },
        },
{
    let chars = str_chars(line);
    let prefix = str_chars("out_time_ms=");
    proof {
        reveal_strlit("out_time_ms=");
    }
    if !starts_with_vec(&chars, &prefix) {
        return Option::None;
    }
    let rest = subrange_chars(&chars, 12, chars.len());
    assert(rest@ =~= line@.subrange(12, line@.len() as int));
    parse_u64_chars(&rest)
}

} // verus!
