//! A pool of byte buffers that are used again.

use vstd::prelude::*;

verus! {

/// Buffers that were given back, and the capacity that new ones get.
#[derive(Debug)]
pub struct BufferPool {
    pub buffers: Vec<Vec<u8>>,
    pub size: usize,
}

impl BufferPool {
    /// An empty pool whose new buffers have the capacity `size`.
    pub fn new(size: usize) -> (p: BufferPool)
        ensures
            p.buffers@.len() == 0,
            p.size == size,
    {
        BufferPool { buffers: Vec::new(), size }
    }

    /// A buffer to fill: the one that was given back last, or a new, empty
    /// one where the pool holds none.
    pub fn get(&mut self) -> (buffer: Vec<u8>)
        ensures
            final(self).size == old(self).size,
            old(self).buffers@.len() > 0 ==> buffer == old(self).buffers@.last(),
            old(self).buffers@.len() > 0 ==> final(self).buffers@ == old(self).buffers@.drop_last(),
            old(self).buffers@.len() == 0 ==> buffer@.len() == 0,
            old(self).buffers@.len() == 0 ==> final(self).buffers@ == old(self).buffers@,
    {
        match self.buffers.pop() {
            Some(buffer) => buffer,
            None => Vec::with_capacity(self.size),
        }
    }

    /// Gives `buffer` back. It is emptied and kept for the next `get`.
    pub fn put(&mut self, buffer: Vec<u8>)
        ensures
            final(self).size == old(self).size,
            final(self).buffers@.len() == old(self).buffers@.len() + 1,
            final(self).buffers@.last()@.len() == 0,
            final(self).buffers@.drop_last() == old(self).buffers@,
    {
        let mut buffer = buffer;
        buffer.clear();
        self.buffers.push(buffer);
        assert(self.buffers@.drop_last() =~= old(self).buffers@);
    }
}

impl Default for BufferPool {
    fn default() -> (p: BufferPool)
        ensures
            p.buffers@.len() == 0,
            p.size == 8192,
    {
        BufferPool::new(8192)
    }
}

} // verus!
