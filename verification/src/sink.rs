//! The output sink: accepts ordered byte buffers, accumulates them, and
//! counts what it accepted.

use vstd::prelude::*;

use crate::statistics::WriteStatistics;

verus! {

/// A sink that accepts ordered byte buffers and tracks write statistics.
/// It accumulates the accepted bytes; whoever owns the sink writes them on.
/// It is driven only by the pipeline's single ordering stage, so acceptance
/// order is exactly release order.
pub struct WriterSink {
    pub statistics: WriteStatistics,
    pub data: Vec<u8>,
}

impl WriterSink {
    /// The sink's counters agree with what it holds.
    pub open spec fn wf(self) -> bool {
        self.statistics.bytes == self.data@.len()
    }

    /// A fresh sink: nothing accepted, counters zero.
    pub fn new() -> (r: WriterSink)
        ensures
            r.data@ == Seq::<u8>::empty(),
            r.statistics.chunks == 0,
            r.statistics.bytes == 0,
            r.wf(),
    {
        WriterSink { statistics: WriteStatistics::new(), data: Vec::new() }
    }

    /// Accepts one buffer: appends its bytes after everything accepted so
    /// far and counts one more chunk.
    pub fn sink(&mut self, buffer: &[u8])
        requires
            old(self).wf(),
            old(self).statistics.chunks < u64::MAX,
            old(self).data@.len() + buffer@.len() <= u64::MAX,
        ensures
            final (self).data@ == old(self).data@ + buffer@,
            final (self).statistics.chunks == old(self).statistics.chunks + 1,
            final (self).statistics.bytes == old(self).statistics.bytes + buffer@.len(),
            final (self).wf(),
    {
        self.statistics.increment_chunks(1);
        self.statistics.increment_bytes(buffer.len() as u64);
        self.data.extend_from_slice(buffer);
    }

    /// Finishes the sink, handing back everything it accepted, in
    /// acceptance order.
    pub fn flush(self) -> (r: Vec<u8>)
        ensures
            r@ == self.data@,
    {
        self.data
    }
}

} // verus!
