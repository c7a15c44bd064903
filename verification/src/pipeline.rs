//! Ordered reassembly of concurrently rendered chunks.
//!
//! Workers render sources out of order; a single ordering stage holds
//! completed chunks in a position-indexed holding area and releases them
//! strictly in source order, under a bounded window so that rendering far
//! ahead of the sink blocks instead of buffering without bound.

use vstd::prelude::*;

use crate::sink::WriterSink;

verus! {

/// Why a reassembly run failed.
#[derive(Debug, Copy, Clone, PartialEq, Eq, Structural)]
pub enum PipelineError {
    /// A chunk arrived for a source index at or past the source count.
    IndexOutOfRange { index: usize },
    /// Two chunks arrived for the same source index.
    DuplicateIndex { index: usize },
    /// A source index never received its chunk.
    MissingChunk { index: usize },
}

/// The position-indexed holding area of the ordering stage. Slot `i` holds
/// the rendered chunk of source `i` until every earlier chunk has been
/// released; releases happen strictly in source order.
pub struct Reorderer {
    pub slots: Vec<Option<Vec<u8>>>,
    pub next: usize,
    pub window: usize,
}

impl Reorderer {
    /// How many sources this reorderer serves.
    pub open spec fn spec_total(self) -> int {
        self.slots@.len() as int
    }

    /// The chunk held for source `i`, if one is held.
    pub open spec fn chunk_at(self, i: int) -> Option<Seq<u8>> {
        match self.slots@[i] {
            Some(v) => Some(v@),
            None => None,
        }
    }

    /// Released slots are empty again, and nothing is held at or past the
    /// backpressure window.
    pub open spec fn wf(self) -> bool {
        &&& self.next <= self.slots@.len()
        &&& self.window >= 1
        &&& forall|i: int| 0 <= i < self.next ==> self.chunk_at(i) is None
        &&& forall|i: int|
            self.next + self.window <= i < self.slots@.len() ==> self.chunk_at(i) is None
    }

    /// A fresh holding area for `total` sources with the given backpressure
    /// window: nothing held, nothing released.
    pub fn new(total: usize, window: usize) -> (r: Reorderer)
        requires
            window >= 1,
        ensures
            r.wf(),
            r.next == 0,
            r.window == window,
            r.spec_total() == total,
            forall|i: int| 0 <= i < total ==> r.chunk_at(i) is None,
    {
        let mut slots: Vec<Option<Vec<u8>>> = Vec::new();
        let mut k: usize = 0;
        while k < total
            invariant
                k <= total,
                slots@.len() == k,
                forall|i: int| 0 <= i < k ==> slots@[i] is None,
            decreases total - k,
        {
            slots.push(None);
            k = k + 1;
        }
        Reorderer { slots, next: 0, window }
    }

    /// Whether a rendered chunk for source `i` may enter the holding area
    /// now: the index is real, unclaimed, and within the window.
    pub fn can_accept(&self, i: usize) -> (r: bool)
        ensures
            r <==> (i < self.spec_total() && self.chunk_at(i as int) is None && i >= self.next
                && (i as int) < self.next + self.window),
    {
        i < self.slots.len() && i >= self.next && i - self.next < self.window
            && self.slots[i].is_none()
    }

    /// Hands the rendered chunk of source `i` to the ordering stage.
    pub fn accept(&mut self, i: usize, chunk: Vec<u8>)
        requires
            old(self).wf(),
            i < old(self).spec_total(),
            old(self).chunk_at(i as int) is None,
            i >= old(self).next,
            (i as int) < old(self).next + old(self).window,
        ensures
            final (self).wf(),
            final (self).next == old(self).next,
            final (self).window == old(self).window,
            final (self).spec_total() == old(self).spec_total(),
            final (self).chunk_at(i as int) == Some(chunk@),
            forall|j: int|
                0 <= j < old(self).spec_total() && j != i ==> final (self).chunk_at(j) == old(
                    self).chunk_at(j),
    {
        self.slots[i] = Some(chunk);
        proof {
            assert(self.slots@ =~= old(self).slots@.update(i as int, Some(chunk)));
            assert forall|j: int| 0 <= j < self.next implies self.chunk_at(j) is None by {
                assert(self.slots@[j] == old(self).slots@[j]);
                assert(old(self).chunk_at(j) is None);
            }
            assert forall|j: int|
                self.next + self.window <= j < self.slots@.len() implies self.chunk_at(
                j,
            ) is None by {
                assert(self.slots@[j] == old(self).slots@[j]);
                assert(old(self).chunk_at(j) is None);
            }
        }
    }

    /// Releases the next chunk in source order, if it has arrived.
    pub fn pop_ready(&mut self) -> (r: Option<Vec<u8>>)
        requires
            old(self).wf(),
        ensures
            final (self).wf(),
            final (self).window == old(self).window,
            final (self).spec_total() == old(self).spec_total(),
            r is Some <==> (old(self).next < old(self).spec_total() && old(self).chunk_at(
                old(self).next as int,
            ) is Some),
            r is Some ==> {
                &&& final (self).next == old(self).next + 1
                &&& Some(r->0@) == old(self).chunk_at(old(self).next as int)
                &&& final (self).chunk_at(old(self).next as int) is None
                &&& forall|j: int|
                    0 <= j < old(self).spec_total() && j != old(self).next ==> final (
                    self).chunk_at(j) == old(self).chunk_at(j)
            },
            r is None ==> {
                &&& final (self).next == old(self).next
                &&& forall|j: int|
                    0 <= j < old(self).spec_total() ==> final (self).chunk_at(j) == old(
                        self).chunk_at(j)
            },
    {
        if self.next < self.slots.len() {
            let ghost pre = *self;
            let idx = self.next;
            let slot = &mut self.slots[idx];
            let c = slot.take();
            proof {
                assert(self.slots@ == pre.slots@.update(idx as int, None));
            }
            match c {
                Some(bytes) => {
                    self.next = self.next + 1;
                    proof {
                        assert forall|j: int| 0 <= j < self.next implies self.chunk_at(
                            j,
                        ) is None by {
                            if j != idx {
                                assert(self.slots@[j] == pre.slots@[j]);
                                assert(pre.chunk_at(j) is None);
                            }
                        }
                        assert forall|j: int|
                            self.next + self.window <= j < self.slots@.len() implies self.chunk_at(
                            j,
                        ) is None by {
                            assert(self.slots@[j] == pre.slots@[j]);
                            assert(pre.chunk_at(j) is None);
                        }
                        assert forall|j: int|
                            0 <= j < self.slots@.len() && j != idx implies self.chunk_at(j)
                            == pre.chunk_at(j) by {
                            assert(self.slots@[j] == pre.slots@[j]);
                        }
                    }
                    Some(bytes)
                },
                None => {
                    proof {
                        assert(self.slots@ =~= pre.slots@);
                        assert forall|j: int| 0 <= j < self.next implies self.chunk_at(
                            j,
                        ) is None by {
                            assert(pre.chunk_at(j) is None);
                        }
                        assert forall|j: int|
                            self.next + self.window <= j < self.slots@.len() implies self.chunk_at(
                            j,
                        ) is None by {
                            assert(pre.chunk_at(j) is None);
                        }
                        assert forall|j: int|
                            0 <= j < self.slots@.len() implies self.chunk_at(j) == pre.chunk_at(
                            j,
                        ) by {
                            assert(self.slots@[j] == pre.slots@[j]);
                        }
                    }
                    None
                },
            }
        } else {
            None
        }
    }
}

/// The ordering stage of one pipeline run: the holding area together with
/// the run's error policy. Rendered chunks enter through `on_chunk`; a
/// rendering or sink failure enters through `on_failure`; `next_release`
/// hands out the next chunk in source order. The first failure ends
/// acceptance: chunks still in flight may arrive and are discarded, nothing
/// is ever released after the failure, and the first failure is the one
/// reported.
pub struct OrderingStage {
    pub holding: Reorderer,
    pub failed: Option<usize>,
}

impl OrderingStage {
    /// The stage is well formed when its holding area is.
    pub open spec fn wf(self) -> bool {
        self.holding.wf()
    }

    /// A fresh ordering stage for `total` sources: nothing held, nothing
    /// released, no failure seen.
    pub fn new(total: usize, window: usize) -> (r: OrderingStage)
        requires
            window >= 1,
        ensures
            r.wf(),
            r.failed is None,
            r.holding.next == 0,
            r.holding.window == window,
            r.holding.spec_total() == total,
            forall|i: int| 0 <= i < total ==> r.holding.chunk_at(i) is None,
    {
        OrderingStage { holding: Reorderer::new(total, window), failed: None }
    }

    /// Whether a chunk for source `i` would fit the holding area now; a
    /// worker blocked on this also watches `error`, since a failed run
    /// accepts nothing more.
    pub fn can_accept(&self, i: usize) -> (r: bool)
        ensures
            r <==> (i < self.holding.spec_total() && self.holding.chunk_at(i as int) is None && i
                >= self.holding.next && (i as int) < self.holding.next + self.holding.window),
    {
        self.holding.can_accept(i)
    }

    /// The first failure the run saw, if any: the one the run reports.
    pub fn error(&self) -> (r: Option<usize>)
        ensures
            r == self.failed,
    {
        self.failed
    }

    /// Decides what happens to a rendered chunk: it enters the holding
    /// area, unless the run has already failed — then it is discarded and
    /// nothing changes.
    pub fn on_chunk(&mut self, i: usize, chunk: Vec<u8>) -> (accepted: bool)
        requires
            old(self).wf(),
            old(self).failed is None ==> i < old(self).holding.spec_total() && old(
                self,
            ).holding.chunk_at(i as int) is None && i >= old(self).holding.next && (i as int) < old(
                self,
            ).holding.next + old(self).holding.window,
        ensures
            final (self).wf(),
            final (self).failed == old(self).failed,
            accepted <==> old(self).failed is None,
            accepted ==> {
                &&& final (self).holding.next == old(self).holding.next
                &&& final (self).holding.window == old(self).holding.window
                &&& final (self).holding.spec_total() == old(self).holding.spec_total()
                &&& final (self).holding.chunk_at(i as int) == Some(chunk@)
                &&& forall|j: int|
                    0 <= j < old(self).holding.spec_total() && j != i ==> final (
                    self).holding.chunk_at(j) == old(self).holding.chunk_at(j)
            },
            !accepted ==> final (self).holding == old(self).holding,
    {
        if self.failed.is_some() {
            return false;
        }
        self.holding.accept(i, chunk);
        true
    }

    /// Records a rendering or sink failure at source `i`. The first
    /// failure of the run is kept; later ones change nothing.
    pub fn on_failure(&mut self, i: usize)
        ensures
            final (self).holding == old(self).holding,
            final (self).failed == (if old(self).failed is Some {
                old(self).failed
            } else {
                Some(i)
            }),
    {
        if self.failed.is_none() {
            self.failed = Some(i);
        }
    }

    /// Releases the next chunk in source order — or nothing: once the run
    /// has failed, nothing is ever released again.
    pub fn next_release(&mut self) -> (r: Option<Vec<u8>>)
        requires
            old(self).wf(),
        ensures
            final (self).wf(),
            final (self).failed == old(self).failed,
            final (self).holding.window == old(self).holding.window,
            final (self).holding.spec_total() == old(self).holding.spec_total(),
            old(self).failed is Some ==> r is None && final (self).holding == old(self).holding,
            old(self).failed is None ==> {
                &&& (r is Some <==> (old(self).holding.next < old(self).holding.spec_total()
                    && old(self).holding.chunk_at(old(self).holding.next as int) is Some))
                &&& r is Some ==> {
                    &&& final (self).holding.next == old(self).holding.next + 1
                    &&& Some(r->0@) == old(self).holding.chunk_at(old(self).holding.next as int)
                    &&& forall|j: int|
                        0 <= j < old(self).holding.spec_total() && j != old(self).holding.next
                            ==> final (self).holding.chunk_at(j) == old(self).holding.chunk_at(j)
                }
                &&& r is None ==> {
                    &&& final (self).holding.next == old(self).holding.next
                    &&& forall|j: int|
                        0 <= j < old(self).holding.spec_total() ==> final (
                        self).holding.chunk_at(j) == old(self).holding.chunk_at(j)
                }
            },
    {
        if self.failed.is_some() {
            return None;
        }
        self.holding.pop_ready()
    }
}

/// Every arrival names a source index below the source count.
pub open spec fn spec_arrivals_in_range(arr: Seq<(usize, Vec<u8>)>, total: int) -> bool {
    forall|j: int| 0 <= j < arr.len() ==> (#[trigger] arr[j]).0 < total
}

/// No two arrivals name the same source index.
pub open spec fn spec_arrivals_unique(arr: Seq<(usize, Vec<u8>)>) -> bool {
    forall|j1: int, j2: int|
        0 <= j1 < j2 < arr.len() ==> (#[trigger] arr[j1]).0 != (#[trigger] arr[j2]).0
}

/// Whether some arrival names source index `k`.
pub open spec fn spec_has_arrival(arr: Seq<(usize, Vec<u8>)>, k: int) -> bool {
    exists|j: int| 0 <= j < arr.len() && (#[trigger] arr[j]).0 == k
}

/// Every source index below the source count has an arrival.
pub open spec fn spec_arrivals_complete(arr: Seq<(usize, Vec<u8>)>, total: int) -> bool {
    forall|k: int| 0 <= k < total ==> #[trigger] spec_has_arrival(arr, k)
}

/// Reassembles the rendered chunks of `total` sources from their arrivals,
/// whatever order the arrivals come in, into source order. Succeeds exactly
/// when the arrivals name each source index below `total` once and nothing
/// else; the output then depends only on which chunk arrived for which
/// index, never on arrival order.
#[verifier::loop_isolation(false)]
pub fn reassemble(total: usize, arrivals: Vec<(usize, Vec<u8>)>) -> (r: Result<
    Vec<Vec<u8>>,
    PipelineError,
>)
    ensures
        r is Ok <==> (spec_arrivals_in_range(arrivals@, total as int) && spec_arrivals_unique(
            arrivals@,
        ) && spec_arrivals_complete(arrivals@, total as int)),
        r is Ok ==> {
            &&& r->Ok_0@.len() == total
            &&& forall|j: int|
                0 <= j < arrivals@.len() ==> (#[trigger] arrivals@[j]).1@ == r->Ok_0@[arrivals@[j].0 as int]@
        },
        r is Err ==> match r->Err_0 {
            PipelineError::IndexOutOfRange { index } => exists|j: int|
                0 <= j < arrivals@.len() && (#[trigger] arrivals@[j]).0 == index && index >= total,
            PipelineError::DuplicateIndex { index } => exists|j1: int, j2: int|
                0 <= j1 < j2 < arrivals@.len() && (#[trigger] arrivals@[j1]).0 == index && (
                #[trigger] arrivals@[j2]).0 == index,
            PipelineError::MissingChunk { index } => index < total && !spec_has_arrival(
                arrivals@,
                index as int,
            ),
        },
{
    let ghost orig = arrivals@;
    let n = arrivals.len();
    let window = if total == 0 {
        1
    } else {
        total
    };
    let mut ro = Reorderer::new(total, window);
    let mut rest = arrivals;
    while rest.len() > 0
        invariant
            ro.wf(),
            ro.next == 0,
            ro.window == window,
            window >= 1,
            total < window + 1,
            ro.spec_total() == total,
            n == orig.len(),
            rest@ == orig.take(rest@.len() as int),
            rest@.len() <= n,
            forall|j: int|
                rest@.len() <= j < n ==> (#[trigger] orig[j]).0 < total && ro.chunk_at(
                    orig[j].0 as int,
                ) == Some(orig[j].1@),
            forall|k: int|
                0 <= k < total && ro.chunk_at(k) is Some ==> exists|j: int|
                    rest@.len() <= j < n && (#[trigger] orig[j]).0 == k,
            forall|j1: int, j2: int|
                rest@.len() <= j1 < j2 < n ==> (#[trigger] orig[j1]).0 != (#[trigger] orig[j2]).0,
        decreases rest@.len(),
    {
        let ghost m = rest@.len() as int;
        let (i, chunk) = rest.pop().unwrap();
        proof {
            assert(orig.take(m)[m - 1] == orig[m - 1]);
            assert(rest@ =~= orig.take(m - 1));
        }
        if i >= total {
            proof {
                assert(!spec_arrivals_in_range(orig, total as int)) by {
                    assert(0 <= m - 1 < n && orig[m - 1].0 == i && i >= total);
                }
                assert(!(spec_arrivals_in_range(arrivals@, total as int) && spec_arrivals_unique(
                    arrivals@,
                ) && spec_arrivals_complete(arrivals@, total as int)));
            }
            return Err(PipelineError::IndexOutOfRange { index: i });
        }
        if !ro.can_accept(i) {
            proof {
                let k = i as int;
                assert(ro.chunk_at(k) is Some);
                let j = choose|j: int| m <= j < n && (#[trigger] orig[j]).0 == k;
                assert(!spec_arrivals_unique(orig)) by {
                    assert(0 <= m - 1 < j < n && orig[m - 1].0 == orig[j].0);
                }
                assert(!(spec_arrivals_in_range(arrivals@, total as int) && spec_arrivals_unique(
                    arrivals@,
                ) && spec_arrivals_complete(arrivals@, total as int)));
            }
            return Err(PipelineError::DuplicateIndex { index: i });
        }
        let ghost before = ro;
        ro.accept(i, chunk);
        proof {
            assert forall|k: int|
                0 <= k < total && ro.chunk_at(k) is Some implies exists|j: int|
                    m - 1 <= j < n && (#[trigger] orig[j]).0 == k by {
                if k == i as int {
                    assert(m - 1 <= m - 1 < n && orig[m - 1].0 == k);
                } else {
                    assert(before.chunk_at(k) is Some);
                    let j = choose|j: int| m <= j < n && (#[trigger] orig[j]).0 == k;
                    assert(m - 1 <= j < n && orig[j].0 == k);
                }
            }
            assert forall|j1: int, j2: int|
                m - 1 <= j1 < j2 < n implies (#[trigger] orig[j1]).0 != (#[trigger] orig[j2]).0 by {
                if j1 == m - 1 {
                    if orig[j1].0 == orig[j2].0 {
                        assert(before.chunk_at(orig[j2].0 as int) == Some(orig[j2].1@));
                        assert(before.chunk_at(i as int) is None);
                        assert(false);
                    }
                }
            }
        }
    }
    let mut out: Vec<Vec<u8>> = Vec::new();
    while out.len() < total
        invariant
            ro.wf(),
            ro.window == window,
            ro.spec_total() == total,
            out@.len() == ro.next,
            ro.next <= total,
            n == orig.len(),
            forall|j: int|
                0 <= j < n ==> (#[trigger] orig[j]).0 < total,
            forall|j: int|
                0 <= j < n && orig[j].0 >= ro.next ==> ro.chunk_at((#[trigger] orig[j]).0 as int)
                    == Some(orig[j].1@),
            forall|j: int|
                0 <= j < n && orig[j].0 < ro.next ==> out@[(#[trigger] orig[j]).0 as int]@
                    == orig[j].1@,
            forall|k: int|
                0 <= k < total && ro.chunk_at(k) is Some ==> exists|j: int|
                    0 <= j < n && (#[trigger] orig[j]).0 == k,
            forall|k: int| 0 <= k < ro.next ==> #[trigger] spec_has_arrival(orig, k),
            spec_arrivals_unique(orig),
            spec_arrivals_in_range(orig, total as int),
        decreases total - out@.len(),
    {
        let ghost pre = ro;
        match ro.pop_ready() {
            Some(bytes) => {
                out.push(bytes);
                proof {
                    assert(pre.chunk_at(pre.next as int) is Some);
                    let j = choose|j: int| 0 <= j < n && (#[trigger] orig[j]).0 == pre.next as int;
                    assert(0 <= j < orig.len() && orig[j].0 == pre.next as int);
                    assert(spec_has_arrival(orig, pre.next as int));
                }
            },
            None => {
                let idx = ro.next;
                proof {
                    assert(ro.chunk_at(idx as int) is None);
                    assert(!spec_arrivals_complete(orig, total as int)) by {
                        if spec_has_arrival(orig, idx as int) {
                            let j = choose|j: int| 0 <= j < n && (#[trigger] orig[j]).0 == idx as int;
                            assert(ro.chunk_at(orig[j].0 as int) == Some(orig[j].1@));
                            assert(false);
                        }
                        assert(0 <= idx < total && !spec_has_arrival(orig, idx as int));
                    }
                    assert(!(spec_arrivals_in_range(arrivals@, total as int)
                        && spec_arrivals_unique(arrivals@) && spec_arrivals_complete(
                        arrivals@,
                        total as int,
                    )));
                }
                return Err(PipelineError::MissingChunk { index: idx });
            },
        }
    }
    proof {
        assert(ro.next == total);
        assert(spec_arrivals_complete(orig, total as int));
    }
    Ok(out)
}

/// Writes a rendered header and then every reassembled chunk, in source
/// order, into a sink: the sink ends holding the header followed by the
/// chunks' bytes concatenated in order.
pub fn write_output(header: &Vec<u8>, chunks: &Vec<Vec<u8>>, sink: &mut WriterSink)
    requires
        old(sink).wf(),
        old(sink).data@.len() == 0,
        old(sink).statistics.chunks == 0,
        header@.len() + spec_chunks_len(chunks@) <= u64::MAX,
        chunks@.len() + 1 <= u64::MAX,
    ensures
        final (sink).wf(),
        final (sink).data@ == header@ + spec_concat_chunks(chunks@),
        final (sink).statistics.chunks == 1 + chunks@.len(),
{
    sink.sink(header.as_slice());
    let mut k: usize = 0;
    while k < chunks.len()
        invariant
            sink.wf(),
            k <= chunks@.len(),
            sink.data@ == header@ + spec_concat_chunks(chunks@.take(k as int)),
            sink.statistics.chunks == 1 + k,
            header@.len() + spec_chunks_len(chunks@) <= u64::MAX,
            chunks@.len() + 1 <= u64::MAX,
        decreases chunks@.len() - k,
    {
        proof {
            lemma_chunks_len_take(chunks@, k as int);
        }
        sink.sink(chunks[k].as_slice());
        k = k + 1;
        proof {
            assert(chunks@.take(k as int).drop_last() =~= chunks@.take(k as int - 1));
            assert(sink.data@ =~= header@ + spec_concat_chunks(chunks@.take(k as int)));
        }
    }
    proof {
        assert(chunks@.take(chunks@.len() as int) =~= chunks@);
    }
}

/// The bytes of a chunk sequence concatenated in order.
pub open spec fn spec_concat_chunks(chunks: Seq<Vec<u8>>) -> Seq<u8>
    decreases chunks.len(),
{
    if chunks.len() == 0 {
        Seq::empty()
    } else {
        spec_concat_chunks(chunks.drop_last()) + chunks.last()@
    }
}

/// The total byte length of a chunk sequence.
pub open spec fn spec_chunks_len(chunks: Seq<Vec<u8>>) -> nat
    decreases chunks.len(),
{
    if chunks.len() == 0 {
        0
    } else {
        spec_chunks_len(chunks.drop_last()) + chunks.last()@.len()
    }
}

proof fn lemma_chunks_len_take(chunks: Seq<Vec<u8>>, k: int)
    requires
        0 <= k < chunks.len(),
    ensures
        spec_concat_chunks(chunks.take(k)).len() + chunks[k]@.len() <= spec_chunks_len(chunks),
    decreases chunks.len(),
{
    lemma_concat_chunks_len(chunks.take(k));
    lemma_chunks_len_prefix_bound(chunks, k + 1);
    assert(chunks.take(k + 1).drop_last() =~= chunks.take(k));
    assert(spec_chunks_len(chunks.take(k + 1)) == spec_chunks_len(chunks.take(k)) + chunks[k]@.len());
}

/// Concatenated length equals summed length.
proof fn lemma_concat_chunks_len(chunks: Seq<Vec<u8>>)
    ensures
        spec_concat_chunks(chunks).len() == spec_chunks_len(chunks),
    decreases chunks.len(),
{
    if chunks.len() > 0 {
        lemma_concat_chunks_len(chunks.drop_last());
    }
}

/// A prefix never sums longer than the whole.
proof fn lemma_chunks_len_prefix_bound(chunks: Seq<Vec<u8>>, k: int)
    requires
        0 <= k <= chunks.len(),
    ensures
        spec_chunks_len(chunks.take(k)) <= spec_chunks_len(chunks),
    decreases chunks.len() - k,
{
    if k == chunks.len() {
        assert(chunks.take(k) =~= chunks);
    } else {
        lemma_chunks_len_prefix_bound(chunks, k + 1);
        assert(chunks.take(k + 1).drop_last() =~= chunks.take(k));
        assert(spec_chunks_len(chunks.take(k + 1)) == spec_chunks_len(chunks.take(k))
            + chunks[k]@.len());
    }
}

/// The chunk that arrived for source index `k`, when exactly one did.
pub open spec fn spec_chunk_for(arr: Seq<(usize, Vec<u8>)>, k: int) -> Seq<u8> {
    if spec_has_arrival(arr, k) {
        let j = choose|j: int| 0 <= j < arr.len() && (#[trigger] arr[j]).0 == k;
        arr[j].1@
    } else {
        Seq::empty()
    }
}

/// A successful reassembly is exactly the arrivals' chunks in source
/// order: position `k` of the output holds the chunk that arrived for
/// source `k`, whatever order the arrivals came in.
pub proof fn lemma_reassembled_in_order(arr: Seq<(usize, Vec<u8>)>, total: int, out: Seq<Vec<u8>>)
    requires
        out.len() == total,
        spec_arrivals_in_range(arr, total),
        spec_arrivals_unique(arr),
        spec_arrivals_complete(arr, total),
        forall|j: int| 0 <= j < arr.len() ==> (#[trigger] arr[j]).1@ == out[arr[j].0 as int]@,
    ensures
        forall|k: int| 0 <= k < total ==> out[k]@ == spec_chunk_for(arr, k),
{
    assert forall|k: int| 0 <= k < total implies out[k]@ == spec_chunk_for(arr, k) by {
        assert(spec_has_arrival(arr, k));
        let j = choose|j: int| 0 <= j < arr.len() && (#[trigger] arr[j]).0 == k;
        assert(arr[j].1@ == out[arr[j].0 as int]@);
    }
}

/// Thread-count invariance: two reassembled outputs over the same
/// chunk-for-index association are equal, however their arrivals were
/// interleaved; together with `reassemble`'s contract, the pipeline's
/// output is the same for every worker count.
pub proof fn lemma_thread_count_invariance(
    m: Map<int, Seq<u8>>,
    total: int,
    out1: Seq<Seq<u8>>,
    out2: Seq<Seq<u8>>,
)
    requires
        out1.len() == total,
        out2.len() == total,
        forall|i: int| 0 <= i < total ==> out1[i] == m[i] && out2[i] == m[i],
    ensures
        out1 == out2,
{
    assert(out1 =~= out2);
}

} // verus!
