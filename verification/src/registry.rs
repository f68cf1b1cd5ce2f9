//! The stream registry: identifier allocation and record storage.

use vstd::prelude::*;

use crate::stream::Stream;

verus! {

/// The registry of stream records.
///
/// Identifiers are allocated from 1 upward by a monotonic counter and never
/// reused; records are never deleted. The record of stream `id` lives at
/// position `id - 1`, so the counter and the table stay in step by
/// construction.
pub struct StreamRegistry {
    streams: Vec<Stream>,
}

impl View for StreamRegistry {
    type V = Seq<Stream>;

    closed spec fn view(&self) -> Seq<Stream> {
        self.streams@
    }
}

impl StreamRegistry {
    /// Whether a record exists under `stream_id`.
    pub open spec fn contains_id(self, stream_id: u64) -> bool {
        1 <= stream_id <= self@.len()
    }

    /// The record under `stream_id`.
    pub open spec fn stream_at(self, stream_id: u64) -> Stream {
        self@[stream_id - 1]
    }

    /// An empty registry.
    pub fn new() -> (r: StreamRegistry)
        ensures
            r@ =~= Seq::<Stream>::empty(),
    {
        StreamRegistry { streams: Vec::new() }
    }

    /// The identifier most recently allocated; 0 when none ever was.
    pub fn last_id(&self) -> (r: u64)
        ensures
            r == self@.len(),
    {
        self.streams.len() as u64
    }

    /// The record under `stream_id`, if any.
    pub fn get(&self, stream_id: u64) -> (r: Option<&Stream>)
        ensures
            match r {
                Some(s) => self.contains_id(stream_id) && *s == self.stream_at(stream_id),
                None => !self.contains_id(stream_id),
            },
    {
        if stream_id == 0 {
            return None;
        }
        let idx: u64 = stream_id - 1;
        if idx < self.streams.len() as u64 {
            Some(&self.streams[idx as usize])
        } else {
            None
        }
    }

    /// Stores a new record under the next unused identifier and returns that
    /// identifier.
    pub fn append(&mut self, s: Stream) -> (id: u64)
        requires
            old(self)@.len() < u64::MAX,
        ensures
            final(self)@ =~= old(self)@.push(s),
            id == old(self)@.len() + 1,
            final(self).contains_id(id),
            final(self).stream_at(id) == s,
    {
        self.streams.push(s);
        self.streams.len() as u64
    }

    /// Overwrites the record under an existing identifier.
    pub fn update(&mut self, stream_id: u64, s: Stream)
        requires
            old(self).contains_id(stream_id),
        ensures
            final(self)@ =~= old(self)@.update(stream_id - 1, s),
    {
        let n: usize = self.streams.len();
        proof {
            assert(stream_id - 1 < n);
        }
        let idx: usize = (stream_id - 1) as usize;
        self.streams[idx] = s;
    }
}

} // verus!
