//! Counters for what an output sink has accepted.

use vstd::prelude::*;

verus! {

/// A monotonically increasing pair of counters: how many chunks and how
/// many bytes a sink has accepted. Mutated only by the sink that owns it.
#[derive(Debug, Copy, Clone, PartialEq, Eq, Structural)]
pub struct WriteStatistics {
    pub chunks: u64,
    pub bytes: u64,
}

impl WriteStatistics {
    /// Fresh counters, both zero.
    pub fn new() -> (r: WriteStatistics)
        ensures
            r.chunks == 0,
            r.bytes == 0,
    {
        WriteStatistics { chunks: 0, bytes: 0 }
    }

    /// Counts `n` more accepted chunks.
    pub fn increment_chunks(&mut self, n: u64)
        requires
            old(self).chunks + n <= u64::MAX,
        ensures
            final (self).chunks == old(self).chunks + n,
            final (self).bytes == old(self).bytes,
    {
        self.chunks = self.chunks + n;
    }

    /// Counts `n` more accepted bytes.
    pub fn increment_bytes(&mut self, n: u64)
        requires
            old(self).bytes + n <= u64::MAX,
        ensures
            final (self).bytes == old(self).bytes + n,
            final (self).chunks == old(self).chunks,
    {
        self.bytes = self.bytes + n;
    }
}

} // verus!
