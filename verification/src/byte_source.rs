use vstd::prelude::*;

verus! {

/// A source of bytes that hands them out in order, a chunk at a time.
///
/// `pending` is everything the source has yet to hand out. A read takes a
/// chunk off its front.
pub trait ByteSource {
    /// The bytes not yet read, in order.
    spec fn pending(&self) -> Seq<u8>;

    /// The invariant of the source.
    spec fn wf(&self) -> bool;

    /// Reads at most `max` bytes. An empty chunk, when `max` is not 0, means
    /// that the source has come to its end.
    fn read(&mut self, max: usize) -> (chunk: Vec<u8>)
        requires
            old(self).wf(),
        ensures
            final(self).wf(),
            chunk@.len() <= max,
            chunk@.len() <= old(self).pending().len(),
            chunk@ == old(self).pending().take(chunk@.len() as int),
            final(self).pending() == old(self).pending().skip(chunk@.len() as int),
            max > 0 && old(self).pending().len() > 0 ==> chunk@.len() > 0,
    ;
}

/// A byte source over bytes held in memory.
///
/// It hands out at most `chunk_size` bytes per read, or as many as are asked
/// for where `chunk_size` is 0.
pub struct MemorySource {
    bytes: Vec<u8>,
    position: usize,
    chunk_size: usize,
}

impl MemorySource {
    /// A source that hands out `bytes`, as many per read as are asked for.
    pub fn new(bytes: Vec<u8>) -> (source: Self)
        ensures
            source.wf(),
            source.pending() == bytes@,
            source.spec_chunk_size() == 0,
    {
        let source = MemorySource { bytes, position: 0, chunk_size: 0 };
        assert(source.bytes@.skip(0) =~= source.bytes@);
        source
    }

    /// A source that hands out `bytes`, at most `chunk_size` per read.
    pub fn with_chunk_size(bytes: Vec<u8>, chunk_size: usize) -> (source: Self)
        ensures
            source.wf(),
            source.pending() == bytes@,
            source.spec_chunk_size() == chunk_size,
    {
        let source = MemorySource { bytes, position: 0, chunk_size };
        assert(source.bytes@.skip(0) =~= source.bytes@);
        source
    }

    /// The most bytes a read hands out, or 0 for no limit.
    pub closed spec fn spec_chunk_size(&self) -> nat {
        self.chunk_size as nat
    }

    /// How many bytes a read for at most `max` bytes hands out.
    pub open spec fn chunk_len(&self, max: nat) -> nat {
        let limit = if self.spec_chunk_size() == 0 || max < self.spec_chunk_size() {
            max
        } else {
            self.spec_chunk_size()
        };
        if limit < self.pending().len() {
            limit
        } else {
            self.pending().len()
        }
    }
}

impl ByteSource for MemorySource {
    closed spec fn pending(&self) -> Seq<u8> {
        self.bytes@.skip(self.position as int)
    }

    closed spec fn wf(&self) -> bool {
        self.position <= self.bytes@.len()
    }

    fn read(&mut self, max: usize) -> (chunk: Vec<u8>)
        ensures
            chunk@.len() == old(self).chunk_len(max as nat),
            final(self).spec_chunk_size() == old(self).spec_chunk_size(),
    {
        let limit = if self.chunk_size == 0 || max < self.chunk_size {
            max
        } else {
            self.chunk_size
        };
        let left = self.bytes.len() - self.position;
        let count = if limit < left {
            limit
        } else {
            left
        };
        let mut chunk: Vec<u8> = Vec::new();
        let mut i: usize = 0;
        while i < count
            invariant
                i <= count,
                self.position + count <= self.bytes@.len() <= usize::MAX,
                chunk@ == self.bytes@.subrange(self.position as int, self.position + i),
            decreases count - i,
        {
            chunk.push(self.bytes[self.position + i]);
            assert(chunk@ =~= self.bytes@.subrange(self.position as int, self.position + i + 1));
            i += 1;
        }
        assert(chunk@ =~= old(self).pending().take(count as int));
        self.position = self.position + count;
        assert(self.pending() =~= old(self).pending().skip(count as int));
        chunk
    }
}

} // verus!
