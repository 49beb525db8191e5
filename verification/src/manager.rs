//! The chunk manager's decision core: one manager owns one chunk, buffers
//! the updates that arrive during a coalescing window, and at the window's
//! close either commits them (last writer wins per pixel), keeps waiting, or
//! tears itself down when it has been idle with no subscribers. The channels
//! and timers that feed it live outside this crate; this core is what they
//! drive.

use vstd::prelude::*;

use crate::chunk::Chunk;
use crate::coords::ChunkCoordinates;
use crate::packed::PackedCell;
use crate::{CHUNK_BYTE_SIZE, CHUNK_SIZE, IDLE_TTL_MS};

verus! {

/// A chunk manager's notice to the board manager.
pub enum ChunkUpdate {
    /// The chunk manager has no clients left and can be removed.
    Clear(ChunkCoordinates),
    /// The chunk has seen enough updates to be worth saving.
    Save,
}

/// Whether some element of `u` carries pixel index `i`.
pub open spec fn spec_has_index(u: Seq<PackedCell>, i: int) -> bool {
    exists|j: int| 0 <= j < u.len() && u[j].spec_index() == i
}

/// The last element of `u` carrying pixel index `i`: the write that wins
/// the window.
pub open spec fn spec_last_of(u: Seq<PackedCell>, i: int) -> PackedCell
    recommends
        spec_has_index(u, i),
    decreases u.len(),
{
    if u.len() == 0 {
        arbitrary()
    } else if u.last().spec_index() == i {
        u.last()
    } else {
        spec_last_of(u.drop_last(), i)
    }
}

/// The position of the entry carrying pixel index `idx`, if any.
fn find_index(cells: &Vec<PackedCell>, idx: usize) -> (r: Option<usize>)
    ensures
        r is Some ==> r->0 < cells@.len() && cells@[r->0 as int].spec_index() == idx as int,
        r is None ==> forall|j: int| 0 <= j < cells@.len() ==> cells@[j].spec_index() != idx as int,
{
    let mut m: usize = 0;
    while m < cells.len()
        invariant
            m <= cells@.len(),
            forall|j: int| 0 <= j < m ==> cells@[j].spec_index() != idx as int,
        decreases cells@.len() - m,
    {
        if cells[m].index() == idx {
            return Some(m);
        }
        m = m + 1;
    }
    None
}

/// Coalesces a window's updates to one entry per pixel: the last write to a
/// pixel wins, and a pixel's entry sits where that pixel first appeared.
pub fn coalesce(updates: &Vec<PackedCell>) -> (r: Vec<PackedCell>)
    ensures
        forall|k1: int, k2: int|
            0 <= k1 < k2 < r@.len() ==> r@[k1].spec_index() != r@[k2].spec_index(),
        forall|i: int| #[trigger] spec_has_index(r@, i) <==> spec_has_index(updates@, i),
        forall|k: int| 0 <= k < r@.len() ==> r@[k] == spec_last_of(updates@, r@[k].spec_index()),
        r@.len() <= updates@.len(),
{
    let n = updates.len();
    let mut r: Vec<PackedCell> = Vec::new();
    let mut t: usize = 0;
    while t < n
        invariant
            n == updates@.len(),
            t <= n,
            r@.len() <= t,
            forall|k1: int, k2: int|
                0 <= k1 < k2 < r@.len() ==> r@[k1].spec_index() != r@[k2].spec_index(),
            forall|i: int| #[trigger]
                spec_has_index(r@, i) <==> spec_has_index(updates@.take(t as int), i),
            forall|k: int|
                0 <= k < r@.len() ==> r@[k] == spec_last_of(
                    updates@.take(t as int),
                    r@[k].spec_index(),
                ),
        decreases n - t,
    {
        let change = updates[t];
        let idx = change.index();
        let ghost prefix = updates@.take(t as int);
        let ghost prefix1 = updates@.take(t + 1 as int);
        proof {
            assert(prefix1.drop_last() =~= prefix);
            assert(prefix1.last() == updates@[t as int]);
            assert forall|i: int| #[trigger]
                spec_has_index(prefix1, i) implies (spec_has_index(prefix, i) || i == updates@[t
                as int].spec_index()) by {
                let j = choose|j: int| 0 <= j < prefix1.len() && prefix1[j].spec_index() == i;
                if j < t {
                    assert(prefix[j].spec_index() == i);
                }
            }
            assert forall|i: int|
                spec_has_index(prefix, i) implies #[trigger] spec_has_index(prefix1, i) by {
                let j = choose|j: int| 0 <= j < prefix.len() && prefix[j].spec_index() == i;
                assert(prefix1[j].spec_index() == i);
            }
            assert(spec_has_index(prefix1, updates@[t as int].spec_index()));
        }
        let ghost r_old = r@;
        let ghost ci = change.spec_index();
        proof {
            assert(ci == updates@[t as int].spec_index());
            assert(spec_last_of(prefix1, ci) == updates@[t as int]);
            assert forall|i: int| i != ci implies spec_last_of(prefix1, i) == spec_last_of(
                prefix,
                i,
            ) by {
                assert(prefix1.drop_last() == prefix);
            }
        }
        match find_index(&r, idx) {
            Some(m) => {
                r[m] = change;
                proof {
                    let mi = m as int;
                    assert(r@ =~= r_old.update(mi, change));
                    assert forall|k: int| 0 <= k < r@.len() implies #[trigger] r@[k].spec_index()
                        == r_old[k].spec_index() by {
                        if k == mi {
                            assert(r_old[mi].spec_index() == ci);
                        }
                    }
                    assert forall|i: int| #[trigger]
                        spec_has_index(r@, i) implies spec_has_index(prefix1, i) by {
                        let k = choose|k: int| 0 <= k < r@.len() && r@[k].spec_index() == i;
                        assert(r_old[k].spec_index() == i);
                        assert(spec_has_index(r_old, i));
                    }
                    assert forall|i: int|
                        spec_has_index(prefix1, i) implies #[trigger] spec_has_index(r@, i) by {
                        if i == ci {
                            assert(r@[mi].spec_index() == i);
                        } else {
                            assert(spec_has_index(prefix, i));
                            assert(spec_has_index(r_old, i));
                            let k = choose|k: int|
                                0 <= k < r_old.len() && r_old[k].spec_index() == i;
                            assert(r@[k].spec_index() == i);
                        }
                    }
                    assert forall|k: int| 0 <= k < r@.len() implies r@[k] == spec_last_of(
                        prefix1,
                        r@[k].spec_index(),
                    ) by {
                        if k == mi {
                            assert(r@[k] == updates@[t as int]);
                        } else {
                            assert(r_old[k].spec_index() != r_old[mi].spec_index());
                            assert(r@[k] == r_old[k]);
                            assert(r_old[k] == spec_last_of(prefix, r_old[k].spec_index()));
                        }
                    }
                }
            },
            None => {
                r.push(change);
                proof {
                    assert(r@ =~= r_old.push(change));
                    let n_old = r_old.len() as int;
                    assert forall|i: int| #[trigger]
                        spec_has_index(r@, i) implies spec_has_index(prefix1, i) by {
                        let k = choose|k: int| 0 <= k < r@.len() && r@[k].spec_index() == i;
                        if k < n_old {
                            assert(r_old[k].spec_index() == i);
                            assert(spec_has_index(r_old, i));
                        } else {
                            assert(i == ci);
                        }
                    }
                    assert forall|i: int|
                        spec_has_index(prefix1, i) implies #[trigger] spec_has_index(r@, i) by {
                        if i == ci {
                            assert(r@[n_old].spec_index() == i);
                        } else {
                            assert(spec_has_index(prefix, i));
                            assert(spec_has_index(r_old, i));
                            let k = choose|k: int|
                                0 <= k < r_old.len() && r_old[k].spec_index() == i;
                            assert(r@[k].spec_index() == i);
                        }
                    }
                    assert forall|k: int| 0 <= k < r@.len() implies r@[k] == spec_last_of(
                        prefix1,
                        r@[k].spec_index(),
                    ) by {
                        if k < n_old {
                            assert(r_old[k].spec_index() != ci);
                            assert(r@[k] == r_old[k]);
                            assert(r_old[k] == spec_last_of(prefix, r_old[k].spec_index()));
                        } else {
                            assert(r@[k] == updates@[t as int]);
                        }
                    }
                }
            },
        }
        t = t + 1;
    }
    proof {
        assert(updates@.take(n as int) =~= updates@);
    }
    r
}

/// Applies a coalesced batch to a chunk: every batched pixel takes its
/// batched color, every other pixel keeps its value.
fn apply_coalesced(chunk: &mut Chunk, batch: &Vec<PackedCell>)
    requires
        old(chunk).wf(),
        forall|k1: int, k2: int|
            0 <= k1 < k2 < batch@.len() ==> batch@[k1].spec_index() != batch@[k2].spec_index(),
    ensures
        final(chunk).wf(),
        forall|k: int| 0 <= k < batch@.len() ==> 0 <= #[trigger] batch@[k].spec_index() < CHUNK_SIZE,
        forall|k: int|
            0 <= k < batch@.len() ==> final(chunk).spec_pixel(#[trigger] batch@[k].spec_index())
                == batch@[k].spec_value(),
        forall|i: int|
            0 <= i < CHUNK_SIZE && !spec_has_index(batch@, i) ==> final(chunk).spec_pixel(i)
                == old(chunk).spec_pixel(i),
{
    proof {
        assert(2 * CHUNK_BYTE_SIZE == CHUNK_SIZE);
    }
    let mut k: usize = 0;
    while k < batch.len()
        invariant
            chunk.wf(),
            k <= batch@.len(),
            forall|k1: int, k2: int|
                0 <= k1 < k2 < batch@.len() ==> batch@[k1].spec_index() != batch@[k2].spec_index(),
            forall|j: int| 0 <= j < k ==> 0 <= #[trigger] batch@[j].spec_index() < CHUNK_SIZE,
            forall|j: int|
                0 <= j < k ==> chunk.spec_pixel(#[trigger] batch@[j].spec_index())
                    == batch@[j].spec_value(),
            forall|i: int|
                0 <= i < CHUNK_SIZE && !spec_has_index(batch@.take(k as int), i)
                    ==> chunk.spec_pixel(i) == old(chunk).spec_pixel(i),
        decreases batch@.len() - k,
    {
        let cell = &batch[k];
        proof {
            use_type_invariant(cell);
            assert(2 * CHUNK_BYTE_SIZE == CHUNK_SIZE);
            assert(batch@.take(k + 1 as int).drop_last() =~= batch@.take(k as int));
        }
        chunk.apply_packed_cell(cell);
        proof {
            assert forall|i: int|
                0 <= i < CHUNK_SIZE && !spec_has_index(batch@.take(k + 1 as int), i) implies
            chunk.spec_pixel(i) == old(chunk).spec_pixel(i) by {
                assert(!spec_has_index(batch@.take(k as int), i)) by {
                    if spec_has_index(batch@.take(k as int), i) {
                        let j = choose|j: int|
                            0 <= j < k && batch@.take(k as int)[j].spec_index() == i;
                        assert(batch@.take(k + 1 as int)[j].spec_index() == i);
                    }
                }
                assert(i != batch@[k as int].spec_index()) by {
                    if i == batch@[k as int].spec_index() {
                        assert(batch@.take(k + 1 as int)[k as int].spec_index() == i);
                    }
                }
            }
        }
        k = k + 1;
    }
    proof {
        assert(batch@.take(batch@.len() as int) =~= batch@);
    }
}

/// What a chunk manager does when a coalescing window closes.
pub enum WindowOutcome {
    /// No updates, no subscribers, idle past the TTL: save, announce death,
    /// exit.
    Terminate,
    /// No updates this window: keep serving.
    Idle,
    /// Updates were applied: broadcast this coalesced batch and persist.
    Commit(Vec<PackedCell>),
}

/// The state a chunk manager owns: its coordinate, its chunk, and when the
/// chunk last changed.
pub struct ChunkManagerCore {
    coordinates: ChunkCoordinates,
    chunk: Chunk,
    last_change_ms: u64,
}

impl ChunkManagerCore {
    /// The coordinate this manager serves.
    pub closed spec fn spec_coordinates(self) -> ChunkCoordinates {
        self.coordinates
    }

    /// The chunk this manager owns.
    pub closed spec fn spec_chunk(self) -> Chunk {
        self.chunk
    }

    /// When the chunk last changed (or when the manager started),
    /// in the caller's clock.
    pub closed spec fn spec_last_change(self) -> u64 {
        self.last_change_ms
    }

    /// The manager's chunk always holds a full chunk's bytes.
    pub open spec fn wf(self) -> bool {
        self.spec_chunk().wf()
    }

    /// A manager that has just loaded (or created) its chunk.
    pub fn new(coordinates: ChunkCoordinates, chunk: Chunk, now_ms: u64) -> (r: Self)
        requires
            chunk.wf(),
        ensures
            r.wf(),
            r.spec_coordinates() == coordinates,
            r.spec_chunk() == chunk,
            r.spec_last_change() == now_ms,
    {
        ChunkManagerCore { coordinates, chunk, last_change_ms: now_ms }
    }

    /// The coordinate this manager serves.
    pub fn coordinates(&self) -> (r: ChunkCoordinates)
        ensures
            r == self.spec_coordinates(),
    {
        self.coordinates
    }

    /// The chunk, for snapshots.
    pub fn chunk(&self) -> (r: &Chunk)
        ensures
            *r == self.spec_chunk(),
    {
        &self.chunk
    }

    /// The chunk's raw bytes, for persisting.
    pub fn chunk_bytes(&self) -> (r: Vec<u8>)
        requires
            self.wf(),
        ensures
            r@ =~= self.spec_chunk().spec_bytes(),
    {
        self.chunk.data()
    }

    /// Closes one coalescing window.
    ///
    /// With no pending updates the chunk is untouched: the manager keeps
    /// waiting, or — when it also has no subscribers and has been idle for
    /// `IDLE_TTL_MS` — tears down. With updates, the pending buffer is
    /// coalesced (last writer wins), applied to the chunk, and returned for
    /// broadcasting; every batched pixel then shows the color of the last
    /// update that named it, and every other pixel is untouched.
    pub fn end_window(&mut self, pending: &Vec<PackedCell>, subscriber_count: usize, now_ms: u64) -> (r:
        WindowOutcome)
        requires
            old(self).wf(),
            old(self).spec_last_change() <= now_ms,
        ensures
            final(self).wf(),
            final(self).spec_coordinates() == old(self).spec_coordinates(),
            pending@.len() == 0 ==> *final(self) == *old(self) && (r is Terminate <==> (
            subscriber_count == 0 && now_ms - old(self).spec_last_change() >= IDLE_TTL_MS)) && (r
                is Idle <==> !(subscriber_count == 0 && now_ms - old(self).spec_last_change()
                >= IDLE_TTL_MS)),
            pending@.len() > 0 ==> r is Commit && final(self).spec_last_change() == now_ms && {
                let batch = r->Commit_0;
                &&& forall|k1: int, k2: int|
                    0 <= k1 < k2 < batch@.len() ==> batch@[k1].spec_index()
                        != batch@[k2].spec_index()
                &&& (forall|i: int| #[trigger]
                    spec_has_index(batch@, i) <==> spec_has_index(pending@, i))
                &&& forall|k: int|
                    0 <= k < batch@.len() ==> batch@[k] == spec_last_of(
                        pending@,
                        batch@[k].spec_index(),
                    )
                &&& forall|i: int|
                    0 <= i < CHUNK_SIZE && spec_has_index(pending@, i) ==> final(self).spec_chunk().spec_pixel(i) == spec_last_of(pending@, i).spec_value()
                &&& forall|i: int|
                    0 <= i < CHUNK_SIZE && !spec_has_index(pending@, i) ==> final(self).spec_chunk().spec_pixel(i) == old(self).spec_chunk().spec_pixel(i)
            },
    {
        if pending.len() == 0 {
            if subscriber_count == 0 && now_ms - self.last_change_ms >= IDLE_TTL_MS {
                return WindowOutcome::Terminate;
            }
            return WindowOutcome::Idle;
        }
        let batch = coalesce(pending);
        apply_coalesced(&mut self.chunk, &batch);
        self.last_change_ms = now_ms;
        proof {
            assert forall|i: int|
                0 <= i < CHUNK_SIZE && spec_has_index(pending@, i) implies self.chunk.spec_pixel(
                i,
            ) == spec_last_of(pending@, i).spec_value() by {
                assert(spec_has_index(batch@, i));
                let k = choose|k: int| 0 <= k < batch@.len() && batch@[k].spec_index() == i;
                assert(batch@[k] == spec_last_of(pending@, i));
                assert(self.chunk.spec_pixel(batch@[k].spec_index()) == batch@[k].spec_value());
            }
        }
        WindowOutcome::Commit(batch)
    }
}

} // verus!
