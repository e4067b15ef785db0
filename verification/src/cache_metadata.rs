//! Mapping from info hashes to the media they belong to.
//!
//! Hashes are stored lower-cased so that lookups are case-insensitive.
//! Persistence of the mapping is plain file I/O and lives outside the
//! library; the mapping logic itself is exact.

use vstd::prelude::*;

use crate::text::{chars_eq, chars_to_string, lower_chars_vec, str_chars, to_lower_chars};

verus! {

/// What a cached torrent belongs to.
pub struct CacheMetadata {
    pub tmdb_id: u32,
    pub media_type: String,
}

impl CacheMetadata {
    /// Field-for-field copy.
    pub fn clone_meta(&self) -> (r: CacheMetadata)
        ensures
            r == *self,
    {
        CacheMetadata { tmdb_id: self.tmdb_id, media_type: self.media_type.clone() }
    }
}

/// Info-hash to media mapping, keyed by the lower-cased hash.
pub struct CacheMetadataManager {
    pub mappings: Vec<(String, CacheMetadata)>,
}

impl CacheMetadataManager {
    pub open spec fn has_key(self, k: Seq<char>) -> bool {
        exists|i: int| 0 <= i < self.mappings@.len() && (#[trigger] self.mappings@[i]).0@ == k
    }

    pub open spec fn index_of(self, k: Seq<char>) -> int {
        choose|i: int| 0 <= i < self.mappings@.len() && (#[trigger] self.mappings@[i]).0@ == k
    }

    pub open spec fn value_of(self, k: Seq<char>) -> CacheMetadata {
        self.mappings@[self.index_of(k)].1
    }

    /// Keys are unique and lower-cased.
    pub open spec fn wf(self) -> bool {
        &&& (forall|i: int, j: int|
            0 <= i < j < self.mappings@.len() ==> (#[trigger] self.mappings@[i]).0@ != (
            #[trigger] self.mappings@[j]).0@)
        &&& (forall|i: int|
            0 <= i < self.mappings@.len() ==> (#[trigger] self.mappings@[i]).0@ == to_lower_chars(
                self.mappings@[i].0@,
            ))
    }

    /// An empty mapping.
    pub fn new() -> (r: Self)
        ensures
            r.wf(),
            r.mappings@.len() == 0,
    {
        CacheMetadataManager { mappings: Vec::new() }
    }

    fn find(&self, k: &Vec<char>) -> (r: Option<usize>)
        requires
            self.wf(),
        ensures
            match r {
                Option::Some(i) => i < self.mappings@.len() && self.mappings@[i as int].0@ == k@
                    && self.has_key(k@) && self.index_of(k@) == i,
                Option::None => !self.has_key(k@),
            },
    {
        let n = self.mappings.len();
        let mut i: usize = 0;
        while i < n
            invariant
                self.wf(),
                n == self.mappings@.len(),
                i <= n,
                forall|j: int| 0 <= j < i ==> (#[trigger] self.mappings@[j]).0@ != k@,
            decreases n - i,
        {
            if chars_eq(&str_chars(self.mappings[i].0.as_str()), k) {
                proof {
                    let w = self.index_of(k@);
                    assert(self.mappings@[i as int].0@ == k@);
                    if w != i {
                        assert(false);
                    }
                }
                return Option::Some(i);
            }
            i = i + 1;
        }
        Option::None
    }

    /// Record what a hash belongs to, replacing any earlier record; the
    /// stored key is the hash lower-cased.
    pub fn set_mapping(&mut self, hash: String, tmdb_id: u32, media_type: String)
        requires
            old(self).wf(),
        ensures
            final(self).wf(),
            final(self).has_key(to_lower_chars(hash@)),
            final(self).value_of(to_lower_chars(hash@)) == (CacheMetadata { tmdb_id, media_type }),
    {
        let lowered = lower_chars_vec(&str_chars(hash.as_str()));
        let key = chars_to_string(&lowered);
        let meta = CacheMetadata { tmdb_id, media_type };
        proof {
            lemma_lower_idempotent(hash@);
        }
        match self.find(&lowered) {
            Option::Some(i) => {
                self.mappings.set(i, (key, meta));
                proof {
                    let k = to_lower_chars(hash@);
                    assert(self.mappings@[i as int].0@ == k);
                    assert(self.index_of(k) == i) by {
                        let w = self.index_of(k);
                        if w != i {
                            assert(old(self).mappings@[w] == self.mappings@[w]);
                            assert(false);
                        }
                    }
                    assert forall|a: int, b: int|
                        0 <= a < b < self.mappings@.len() implies (
                    #[trigger] self.mappings@[a]).0@ != (#[trigger] self.mappings@[b]).0@ by {
                        if a != i && b != i {
                            assert(self.mappings@[a] == old(self).mappings@[a]);
                            assert(self.mappings@[b] == old(self).mappings@[b]);
                        } else if a == i {
                            assert(self.mappings@[b] == old(self).mappings@[b]);
                            assert(old(self).mappings@[i as int].0@ == k);
                        } else {
                            assert(self.mappings@[a] == old(self).mappings@[a]);
                            assert(old(self).mappings@[i as int].0@ == k);
                        }
                    }
                }
            },
            Option::None => {
                let ghost n0 = self.mappings@.len() as int;
                self.mappings.push((key, meta));
                proof {
                    let k = to_lower_chars(hash@);
                    assert(self.mappings@[n0].0@ == k);
                    assert(self.index_of(k) == n0) by {
                        let w = self.index_of(k);
                        if w != n0 {
                            assert(old(self).mappings@[w] == self.mappings@[w]);
                            assert(false);
                        }
                    }
                }
            },
        }
    }

    /// Look up what a hash belongs to, case-insensitively.
    pub fn get_mapping(&self, hash: &str) -> (r: Option<CacheMetadata>)
        requires
            self.wf(),
        ensures
            match r {
                Option::Some(m) => self.has_key(to_lower_chars(hash@)) && m == self.value_of(
                    to_lower_chars(hash@),
                ),
                Option::None => !self.has_key(to_lower_chars(hash@)),
            },
    {
        let lowered = lower_chars_vec(&str_chars(hash));
        match self.find(&lowered) {
            Option::Some(i) => Option::Some(self.mappings[i].1.clone_meta()),
            Option::None => Option::None,
        }
    }

    /// Forget what a hash belongs to; absent hashes are a no-op.
    pub fn remove_mapping(&mut self, hash: &str)
        requires
            old(self).wf(),
        ensures
            final(self).wf(),
            !final(self).has_key(to_lower_chars(hash@)),
    {
        let lowered = lower_chars_vec(&str_chars(hash));
        match self.find(&lowered) {
            Option::Some(i) => {
                self.mappings.remove(i);
                proof {
                    let k = to_lower_chars(hash@);
                    assert(forall|j: int|
                        0 <= j < self.mappings@.len() ==> (#[trigger] self.mappings@[j]) == (if j
                            < i {
                            old(self).mappings@[j]
                        } else {
                            old(self).mappings@[j + 1]
                        }));
                    assert forall|j: int|
                        0 <= j < self.mappings@.len() implies (#[trigger] self.mappings@[j]).0@
                        != k by {
                        if j < i {
                            assert(self.mappings@[j] == old(self).mappings@[j]);
                            assert(old(self).mappings@[i as int].0@ == k);
                        } else {
                            assert(self.mappings@[j] == old(self).mappings@[j + 1]);
                            assert(old(self).mappings@[i as int].0@ == k);
                        }
                    }
                }
            },
            Option::None => {},
        }
    }
}

/// Lower-casing is idempotent.
proof fn lemma_lower_idempotent(s: Seq<char>)
    ensures
        to_lower_chars(to_lower_chars(s)) =~= to_lower_chars(s),
{
}

} // verus!
