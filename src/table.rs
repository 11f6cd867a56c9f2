//! The authoritative torrent table: torrent id to content hash, with a
//! secondary index from content hash back to torrent id.
use std::collections::HashMap;
use vstd::prelude::*;

use crate::hexid::ContentHash;

verus! {

broadcast use vstd::std_specs::hash::group_hash_axioms;

/// Why a torrent could not be added to the table.
#[derive(Clone, Copy, Debug, PartialEq, Eq, Structural)]
pub enum AddError {
    /// A torrent with the same content hash is already present.
    Duplicate,
    /// Every torrent id has been issued.
    IdsExhausted,
}

pub struct TorrentTable {
    torrents: HashMap<usize, ContentHash>,
    hash_idx: Vec<(ContentHash, usize)>,
    next_tid: usize,
}

impl TorrentTable {
    /// The primary index: each live torrent id and its content hash.
    pub closed spec fn view_map(&self) -> Map<usize, Seq<u8>> {
        Map::new(|t: usize| self.torrents@.contains_key(t), |t: usize| self.torrents@[t]@)
    }

    /// The secondary index, as (hash, torrent id) entries.
    pub closed spec fn index(&self) -> Seq<(Seq<u8>, usize)> {
        self.hash_idx@.map_values(|e: (ContentHash, usize)| (e.0@, e.1))
    }

    /// The id that the next added torrent receives.
    pub closed spec fn next_id(&self) -> usize {
        self.next_tid
    }

    pub open spec fn contains_hash(&self, h: Seq<u8>) -> bool {
        exists|t: usize| self.view_map().contains_key(t) && #[trigger] self.view_map()[t] == h
    }

    /// The torrent id whose hash is `h`, if any.
    pub open spec fn tid_of(&self, h: Seq<u8>) -> Option<usize> {
        if self.contains_hash(h) {
            Some(choose|t: usize| self.view_map().contains_key(t) && #[trigger] self.view_map()[t] == h)
        } else {
            None
        }
    }

    /// Both indices agree, hashes are unique and ids lie below the counter.
    pub closed spec fn wf(&self) -> bool {
        &&& forall|i: int| 0 <= i < self.hash_idx@.len() ==> {
            let e = #[trigger] self.hash_idx@[i];
            self.torrents@.contains_key(e.1) && self.torrents@[e.1]@ == e.0@
        }
        &&& forall|t: usize| #[trigger] self.torrents@.contains_key(t) ==> exists|i: int|
            0 <= i < self.hash_idx@.len() && #[trigger] self.hash_idx@[i].1 == t
        &&& forall|i: int, j: int|
            0 <= i < self.hash_idx@.len() && 0 <= j < self.hash_idx@.len() && i != j
                ==> #[trigger] self.hash_idx@[i].0@ != #[trigger] self.hash_idx@[j].0@
        &&& forall|t: usize| #[trigger] self.torrents@.contains_key(t) ==> t < self.next_tid
    }

    /// Every key of the secondary index leads through the primary index to
    /// a torrent that carries that very hash.
    pub proof fn lemma_index_resolves(&self, i: int)
        requires
            self.wf(),
            0 <= i < self.index().len(),
        ensures
            self.view_map().contains_key(self.index()[i].1),
            self.view_map()[self.index()[i].1] == self.index()[i].0,
    {
    }

    /// Every id in the table lies below the counter; the next id is unused.
    pub proof fn lemma_ids_below_counter(&self, t: usize)
        requires
            self.wf(),
            self.view_map().contains_key(t),
        ensures
            t < self.next_id(),
            !self.view_map().contains_key(self.next_id()),
    {
    }

    /// No two torrents of the primary index carry the same content hash.
    pub proof fn lemma_hashes_unique(&self, a: usize, b: usize)
        requires
            self.wf(),
            self.view_map().contains_key(a),
            self.view_map().contains_key(b),
            a != b,
        ensures
            self.view_map()[a] != self.view_map()[b],
    {
        let i = choose|i: int| 0 <= i < self.hash_idx@.len() && #[trigger] self.hash_idx@[i].1 == a;
        let j = choose|j: int| 0 <= j < self.hash_idx@.len() && #[trigger] self.hash_idx@[j].1 == b;
        assert(self.hash_idx@[i].0@ != self.hash_idx@[j].0@);
    }

    pub fn new() -> (r: TorrentTable)
        ensures
            r.wf(),
            r.view_map() == Map::<usize, Seq<u8>>::empty(),
            r.next_id() == 0,
    {
        let r = TorrentTable { torrents: HashMap::new(), hash_idx: Vec::new(), next_tid: 0 };
        assert(r.view_map() =~= Map::<usize, Seq<u8>>::empty());
        r
    }

    /// The number of torrents in the table.
    pub fn len(&self) -> (r: usize)
        ensures
            r == self.view_map().len(),
    {
        assert(self.view_map().dom() =~= self.torrents@.dom());
        self.torrents.len()
    }

    pub fn next_tid(&self) -> (r: usize)
        ensures
            r == self.next_id(),
    {
        self.next_tid
    }

    pub fn contains(&self, tid: usize) -> (r: bool)
        ensures
            r == self.view_map().contains_key(tid),
    {
        self.torrents.contains_key(&tid)
    }

    /// The content hash of torrent `tid`.
    pub fn hash_of(&self, tid: usize) -> (r: Option<ContentHash>)
        ensures
            match r {
                Some(h) => self.view_map().contains_key(tid) && h@ == self.view_map()[tid],
                None => !self.view_map().contains_key(tid),
            },
    {
        match self.torrents.get(&tid) {
            Some(h) => Some(*h),
            None => None,
        }
    }

    /// Position of `h` in the secondary index.
    fn position(&self, h: &ContentHash) -> (r: Option<usize>)
        requires
            self.wf(),
        ensures
            match r {
                Some(i) => i < self.hash_idx@.len() && self.hash_idx@[i as int].0@ == h@,
                None => forall|i: int|
                    0 <= i < self.hash_idx@.len() ==> #[trigger] self.hash_idx@[i].0@ != h@,
            },
    {
        let mut i: usize = 0;
        while i < self.hash_idx.len()
            invariant
                i <= self.hash_idx@.len(),
                forall|k: int| 0 <= k < i ==> #[trigger] self.hash_idx@[k].0@ != h@,
            decreases self.hash_idx@.len() - i,
        {
            if same_hash(&self.hash_idx[i].0, h) {
                return Some(i);
            }
            i = i + 1;
        }
        None
    }

    proof fn lemma_tid_of_position(&self, h: Seq<u8>, i: int)
        requires
            self.wf(),
            0 <= i < self.hash_idx@.len(),
            self.hash_idx@[i].0@ == h,
        ensures
            self.tid_of(h) == Some(self.hash_idx@[i].1),
    {
        let t = self.hash_idx@[i].1;
        assert(self.view_map().contains_key(t) && self.view_map()[t] == h);
        let c = choose|c: usize| self.view_map().contains_key(c) && #[trigger] self.view_map()[c] == h;
        if c != t {
            self.lemma_hashes_unique(c, t);
        }
    }

    proof fn lemma_absent(&self, h: Seq<u8>)
        requires
            self.wf(),
            forall|i: int| 0 <= i < self.hash_idx@.len() ==> #[trigger] self.hash_idx@[i].0@ != h,
        ensures
            !self.contains_hash(h),
            self.tid_of(h) is None,
    {
        if self.contains_hash(h) {
            let t = choose|t: usize| self.view_map().contains_key(t) && #[trigger] self.view_map()[t] == h;
            assert(self.torrents@.contains_key(t));
            let i = choose|i: int| 0 <= i < self.hash_idx@.len() && #[trigger] self.hash_idx@[i].1 == t;
            assert(self.hash_idx@[i].0@ == h);
        }
    }

    /// The torrent id indexed under `h`.
    pub fn lookup(&self, h: &ContentHash) -> (r: Option<usize>)
        requires
            self.wf(),
        ensures
            r == self.tid_of(h@),
            r matches Some(t) ==> self.view_map().contains_key(t) && self.view_map()[t] == h@,
    {
        match self.position(h) {
            Some(i) => {
                proof { self.lemma_tid_of_position(h@, i as int); }
                Some(self.hash_idx[i].1)
            },
            None => {
                proof { self.lemma_absent(h@); }
                None
            },
        }
    }

    /// Adds a torrent with hash `h` under the next id, unless the hash is
    /// already present (the table is then left as it was).
    pub fn insert(&mut self, h: &ContentHash) -> (r: Result<usize, AddError>)
        requires
            old(self).wf(),
        ensures
            final(self).wf(),
            old(self).contains_hash(h@) ==> r == Err::<usize, AddError>(AddError::Duplicate),
            !old(self).contains_hash(h@) && old(self).next_id() == usize::MAX ==> r == Err::<
                usize,
                AddError,
            >(AddError::IdsExhausted),
            !old(self).contains_hash(h@) && old(self).next_id() < usize::MAX ==> r == Ok::<
                usize,
                AddError,
            >(old(self).next_id()),
            match r {
                Ok(t) => final(self).view_map() == old(self).view_map().insert(t, h@)
                    && final(self).next_id() == t + 1 && !old(self).view_map().contains_key(t),
                Err(_) => final(self).view_map() == old(self).view_map() && final(self).next_id()
                    == old(self).next_id(),
            },
    {
        if self.lookup(h).is_some() {
            return Err(AddError::Duplicate);
        }
        if self.next_tid == usize::MAX {
            return Err(AddError::IdsExhausted);
        }
        let tid = self.next_tid;
        let ghost old_self = *self;
        proof {
            assert forall|i: int| 0 <= i < self.hash_idx@.len() implies #[trigger] self.hash_idx@[i].0@
                != h@ by {
                if self.hash_idx@[i].0@ == h@ {
                    let t = self.hash_idx@[i].1;
                    assert(self.view_map().contains_key(t) && self.view_map()[t] == h@);
                }
            }
        }
        self.torrents.insert(tid, *h);
        self.hash_idx.push((*h, tid));
        self.next_tid = tid + 1;
        proof {
            let n = self.hash_idx@.len() - 1;
            assert(self.hash_idx@[n] == (*h, tid));
            assert forall|t: usize| #[trigger] self.torrents@.contains_key(t) implies exists|i: int|
                0 <= i < self.hash_idx@.len() && #[trigger] self.hash_idx@[i].1 == t by {
                if t == tid {
                    assert(self.hash_idx@[n].1 == t);
                } else {
                    assert(old_self.torrents@.contains_key(t));
                    let i = choose|i: int|
                        0 <= i < old_self.hash_idx@.len() && #[trigger] old_self.hash_idx@[i].1 == t;
                    assert(self.hash_idx@[i].1 == t);
                }
            }
            assert forall|i: int| 0 <= i < self.hash_idx@.len() implies {
                let e = #[trigger] self.hash_idx@[i];
                self.torrents@.contains_key(e.1) && self.torrents@[e.1]@ == e.0@
            } by {
                if i < n {
                    assert(old_self.hash_idx@[i] == self.hash_idx@[i]);
                    assert(old_self.torrents@.contains_key(self.hash_idx@[i].1));
                }
            }
            assert forall|i: int, j: int|
                0 <= i < self.hash_idx@.len() && 0 <= j < self.hash_idx@.len() && i != j
                    implies #[trigger] self.hash_idx@[i].0@ != #[trigger] self.hash_idx@[j].0@ by {
                if i < n && j < n {
                    assert(old_self.hash_idx@[i] == self.hash_idx@[i]);
                    assert(old_self.hash_idx@[j] == self.hash_idx@[j]);
                } else if i < n {
                    assert(old_self.hash_idx@[i] == self.hash_idx@[i]);
                } else {
                    assert(old_self.hash_idx@[j] == self.hash_idx@[j]);
                }
            }
            assert(self.view_map() =~= old_self.view_map().insert(tid, h@));
        }
        Ok(tid)
    }

    /// Removes the torrent indexed under `h` from both indices.
    pub fn remove(&mut self, h: &ContentHash) -> (r: Option<usize>)
        requires
            old(self).wf(),
        ensures
            final(self).wf(),
            r == old(self).tid_of(h@),
            final(self).next_id() == old(self).next_id(),
            match r {
                Some(t) => old(self).view_map().contains_key(t) && old(self).view_map()[t] == h@
                    && final(self).view_map() == old(self).view_map().remove(t),
                None => final(self).view_map() == old(self).view_map(),
            },
    {
        match self.position(h) {
            None => {
                proof { self.lemma_absent(h@); }
                None
            },
            Some(p) => {
                proof { self.lemma_tid_of_position(h@, p as int); }
                let ghost old_self = *self;
                let tid = self.hash_idx[p].1;
                self.hash_idx.remove(p);
                self.torrents.remove(&tid);
                proof {
                    let pi = p as int;
                    assert forall|i: int| 0 <= i < old_self.hash_idx@.len() && i != pi implies
                        #[trigger] old_self.hash_idx@[i].1 != tid by {
                        assert(old_self.hash_idx@[i].0@ != old_self.hash_idx@[pi].0@);
                    }
                    assert forall|i: int| 0 <= i < self.hash_idx@.len() implies {
                        let e = #[trigger] self.hash_idx@[i];
                        self.torrents@.contains_key(e.1) && self.torrents@[e.1]@ == e.0@
                    } by {
                        if i < pi {
                            assert(self.hash_idx@[i] == old_self.hash_idx@[i]);
                        } else {
                            assert(self.hash_idx@[i] == old_self.hash_idx@[i + 1]);
                        }
                    }
                    assert forall|t: usize| #[trigger] self.torrents@.contains_key(t) implies exists|i: int|
                        0 <= i < self.hash_idx@.len() && #[trigger] self.hash_idx@[i].1 == t by {
                        assert(old_self.torrents@.contains_key(t));
                        let i = choose|i: int|
                            0 <= i < old_self.hash_idx@.len() && #[trigger] old_self.hash_idx@[i].1 == t;
                        if i < pi {
                            assert(self.hash_idx@[i].1 == t);
                        } else {
                            assert(self.hash_idx@[i - 1].1 == t);
                        }
                    }
                    assert forall|i: int, j: int|
                        0 <= i < self.hash_idx@.len() && 0 <= j < self.hash_idx@.len() && i != j
                            implies #[trigger] self.hash_idx@[i].0@ != #[trigger] self.hash_idx@[j].0@ by {
                        let oi = if i < pi { i } else { i + 1 };
                        let oj = if j < pi { j } else { j + 1 };
                        assert(self.hash_idx@[i] == old_self.hash_idx@[oi]);
                        assert(self.hash_idx@[j] == old_self.hash_idx@[oj]);
                    }
                    assert(self.view_map() =~= old_self.view_map().remove(tid));
                }
                Some(tid)
            },
        }
    }
}

/// Whether two hashes hold the same bytes.
pub fn same_hash(a: &ContentHash, b: &ContentHash) -> (r: bool)
    ensures
        r == (a@ == b@),
{
    let mut i: usize = 0;
    while i < 20
        invariant
            i <= 20,
            forall|k: int| 0 <= k < i ==> a@[k] == b@[k],
        decreases 20 - i,
    {
        if a[i] != b[i] {
            return false;
        }
        i = i + 1;
    }
    assert(a@ =~= b@);
    true
}

} // verus!
