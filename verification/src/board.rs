//! The board manager's registry of live chunks: which coordinates have a
//! running chunk manager, under a hard cap on how many may live at once.
//!
//! The registry is generic in the handle it stores, so the surrounding
//! process can keep its channel endpoints in it. All mutations are meant to
//! run inside the one board manager task, which serialises admission
//! decisions.

use vstd::prelude::*;
use vstd::map::*;

use crate::coords::ChunkCoordinates;
use crate::MAX_LIVE_CHUNKS;

verus! {

/// What the board manager can refuse a request with.
#[derive(Debug)]
pub enum BoardManagerError {
    /// The cap on live chunks is reached; nothing was created.
    TooManyChunksLoaded,
    /// A chunk could not be loaded.
    LoadingChunks,
}

/// Where a chunk snapshot should come from: straight from storage, or from
/// the live manager when one is running.
#[derive(Debug)]
pub enum ChunkRequest {
    Storage,
    Live,
}

/// The key a coordinate pair occupies in the registry's map view.
pub open spec fn coord_key(c: ChunkCoordinates) -> (int, int) {
    (c.spec_x() as int, c.spec_y() as int)
}

/// The live-chunk registry: at most one handle per coordinate, and never
/// more than `MAX_LIVE_CHUNKS` handles at once.
pub struct ChunkRegistry<H> {
    entries: Vec<(ChunkCoordinates, H)>,
}

impl<H> View for ChunkRegistry<H> {
    type V = Map<(int, int), H>;

    /// The registry as a map from coordinates to handles.
    closed spec fn view(&self) -> Map<(int, int), H> {
        Map::new(
            |p: (int, int)|
                exists|k: int|
                    0 <= k < self.entries@.len() && coord_key(#[trigger] self.entries@[k].0) == p,
            |p: (int, int)|
                self.entries@[choose|k: int|
                    0 <= k < self.entries@.len() && coord_key(#[trigger] self.entries@[k].0)
                        == p].1,
        )
    }
}

impl<H> ChunkRegistry<H> {
    /// How many chunks are live.
    pub closed spec fn spec_len(self) -> int {
        self.entries@.len() as int
    }

    /// No coordinate appears twice, and the cap holds. This is the
    /// registry's standing invariant: every constructor establishes it,
    /// every mutation preserves it, so the live count never exceeds
    /// `MAX_LIVE_CHUNKS`.
    pub closed spec fn inv(self) -> bool {
        &&& self.entries@.len() <= MAX_LIVE_CHUNKS
        &&& forall|k1: int, k2: int|
            0 <= k1 < k2 < self.entries@.len() ==> coord_key(#[trigger] self.entries@[k1].0)
                != coord_key(#[trigger] self.entries@[k2].0)
    }

    /// Every entry is the one its key maps to.
    proof fn lemma_view_index(self, k: int)
        requires
            self.inv(),
            0 <= k < self.spec_len(),
        ensures
            self@.dom().contains(coord_key(self.entries@[k].0)),
            self@[coord_key(self.entries@[k].0)] == self.entries@[k].1,
    {
        let p = coord_key(self.entries@[k].0);
        assert(self@.dom().contains(p));
        let k2 = choose|k2: int|
            0 <= k2 < self.entries@.len() && coord_key(#[trigger] self.entries@[k2].0) == p;
        if k2 != k {
            assert(coord_key(self.entries@[k].0) != coord_key(self.entries@[k2].0));
        }
    }

    /// An empty registry.
    pub fn new() -> (r: Self)
        ensures
            r.inv(),
            r.spec_len() == 0,
            r@ =~= Map::<(int, int), H>::empty(),
    {
        let r = ChunkRegistry { entries: Vec::new() };
        proof {
            assert(r@ =~= Map::<(int, int), H>::empty());
        }
        r
    }

    /// How many chunks are live; never above `MAX_LIVE_CHUNKS`.
    pub fn len(&self) -> (r: usize)
        requires
            self.inv(),
        ensures
            r == self.spec_len(),
            r <= MAX_LIVE_CHUNKS,
    {
        self.entries.len()
    }

    /// The live handle at a coordinate, if one is registered.
    pub fn get(&self, coordinates: &ChunkCoordinates) -> (r: Option<&H>)
        requires
            self.inv(),
        ensures
            r is Some <==> self@.dom().contains(coord_key(*coordinates)),
            r is Some ==> *r->0 == self@[coord_key(*coordinates)],
    {
        let p = *coordinates;
        let mut k: usize = 0;
        while k < self.entries.len()
            invariant
                self.inv(),
                p == *coordinates,
                k <= self.entries@.len(),
                forall|j: int| 0 <= j < k ==> coord_key(#[trigger] self.entries@[j].0) != coord_key(p),
            decreases self.entries@.len() - k,
        {
            let (c, _) = &self.entries[k];
            if c.x() == p.x() && c.y() == p.y() {
                proof {
                    self.lemma_view_index(k as int);
                }
                return Some(&self.entries[k].1);
            }
            k = k + 1;
        }
        proof {
            if self@.dom().contains(coord_key(p)) {
                let j = choose|j: int|
                    0 <= j < self.entries@.len() && coord_key(#[trigger] self.entries@[j].0)
                        == coord_key(p);
                assert(coord_key(self.entries@[j].0) != coord_key(p));
            }
        }
        None
    }

    /// Admits a new chunk manager, unless the cap is reached: then nothing
    /// is created or changed and the caller is refused.
    pub fn try_insert(&mut self, coordinates: ChunkCoordinates, handle: H) -> (r: Result<
        (),
        BoardManagerError,
    >)
        requires
            old(self).inv(),
            !old(self)@.dom().contains(coord_key(coordinates)),
        ensures
            final(self).inv(),
            old(self).spec_len() < MAX_LIVE_CHUNKS ==> r is Ok,
            r is Ok ==> final(self)@ =~= old(self)@.insert(coord_key(coordinates), handle)
                && final(self).spec_len() == old(self).spec_len() + 1,
            r is Err ==> final(self)@ =~= old(self)@ && final(self).spec_len() == old(
                self,
            ).spec_len() && r->Err_0 is TooManyChunksLoaded,
    {
        if self.entries.len() >= MAX_LIVE_CHUNKS {
            return Err(BoardManagerError::TooManyChunksLoaded);
        }
        let ghost old_entries = self.entries@;
        let ghost old_view = self@;
        self.entries.push((coordinates, handle));
        proof {
            let p = coord_key(coordinates);
            let n = old_entries.len() as int;
            assert forall|j: int| 0 <= j < n implies coord_key(
                #[trigger] old_entries[j].0,
            ) != p by {
                if coord_key(old_entries[j].0) == p {
                    old(self).lemma_view_index(j);
                }
            }
            assert(self.inv());
            assert forall|q: (int, int)| #[trigger]
                self@.dom().contains(q) || old_view.insert(p, handle).dom().contains(q) implies (
            self@.dom().contains(q) && old_view.insert(p, handle).dom().contains(q) && self@[q]
                == old_view.insert(p, handle)[q]) by {
                if q == p {
                    self.lemma_view_index(n);
                } else {
                    if old_view.insert(p, handle).dom().contains(q) {
                        let j = choose|j: int|
                            0 <= j < n && coord_key(#[trigger] old_entries[j].0) == q;
                        old(self).lemma_view_index(j);
                        self.lemma_view_index(j);
                    } else if self@.dom().contains(q) {
                        let j = choose|j: int|
                            0 <= j < self.entries@.len() && coord_key(
                                #[trigger] self.entries@[j].0,
                            ) == q;
                        assert(j < n);
                        old(self).lemma_view_index(j);
                    }
                }
            }
            assert(self@ =~= old_view.insert(p, handle));
        }
        Ok(())
    }

    /// Drops the entry at a coordinate, if any: after a chunk manager has
    /// announced its death, its coordinate is no longer live.
    pub fn remove(&mut self, coordinates: &ChunkCoordinates)
        requires
            old(self).inv(),
        ensures
            final(self).inv(),
            final(self)@ =~= old(self)@.remove(coord_key(*coordinates)),
            !final(self)@.dom().contains(coord_key(*coordinates)),
            old(self)@.dom().contains(coord_key(*coordinates)) ==> final(self).spec_len() == old(
                self,
            ).spec_len() - 1,
            !old(self)@.dom().contains(coord_key(*coordinates)) ==> final(self).spec_len() == old(
                self,
            ).spec_len(),
    {
        let p = *coordinates;
        let ghost old_view = self@;
        let mut k: usize = 0;
        while k < self.entries.len()
            invariant
                self.inv(),
                p == *coordinates,
                k <= self.entries@.len(),
                forall|j: int| 0 <= j < k ==> coord_key(#[trigger] self.entries@[j].0) != coord_key(p),
                self@ == old_view,
                self.entries@ == old(self).entries@,
            decreases self.entries@.len() - k,
        {
            let (c, _) = &self.entries[k];
            if c.x() == p.x() && c.y() == p.y() {
                proof {
                    self.lemma_view_index(k as int);
                }
                let ghost pre = self.entries@;
                self.entries.remove(k);
                proof {
                    let n = pre.len() as int;
                    let ki = k as int;
                    assert forall|q: (int, int)| #[trigger]
                        self@.dom().contains(q) || old_view.remove(coord_key(p)).dom().contains(
                            q,
                        ) implies (self@.dom().contains(q) && old_view.remove(
                        coord_key(p),
                    ).dom().contains(q) && self@[q] == old_view.remove(coord_key(p))[q]) by {
                        if self@.dom().contains(q) {
                            let j = choose|j: int|
                                0 <= j < self.entries@.len() && coord_key(
                                    #[trigger] self.entries@[j].0,
                                ) == q;
                            let j0 = if j < ki {
                                j
                            } else {
                                j + 1
                            };
                            assert(self.entries@[j] == pre[j0]);
                            old(self).lemma_view_index(j0);
                            self.lemma_view_index(j);
                            if q == coord_key(p) {
                                assert(coord_key(pre[j0].0) != coord_key(pre[ki].0));
                            }
                        } else if old_view.remove(coord_key(p)).dom().contains(q) {
                            let j = choose|j: int|
                                0 <= j < n && coord_key(#[trigger] pre[j].0) == q;
                            assert(j != ki);
                            let j1 = if j < ki {
                                j
                            } else {
                                j - 1
                            };
                            assert(self.entries@[j1] == pre[j]);
                            old(self).lemma_view_index(j);
                            self.lemma_view_index(j1);
                        }
                    }
                    assert(self@ =~= old_view.remove(coord_key(p)));
                }
                return ;
            }
            k = k + 1;
        }
        proof {
            if old_view.dom().contains(coord_key(p)) {
                let j = choose|j: int|
                    0 <= j < self.entries@.len() && coord_key(#[trigger] self.entries@[j].0)
                        == coord_key(p);
                assert(coord_key(self.entries@[j].0) != coord_key(p));
            }
            assert(self@ =~= old_view.remove(coord_key(p)));
        }
    }
}

} // verus!
