//! Buffer frames circulated between the producers and the writer.
//!
//! A frame is a contiguous byte buffer large enough for a whole number of
//! nonces. The backing storage here is an ordinary vector; a host that
//! needs page-aligned storage for direct I/O allocates its own aligned
//! copy and moves bytes through this one.

use vstd::prelude::*;

verus! {

/// A byte buffer frame. The name records its role: the writer hands its
/// contents to the kernel in sector-sized pieces, which on most systems
/// asks for page alignment of the backing allocation.
pub struct PageAlignedByteBuffer {
    /// The bytes of the frame.
    pub data: Vec<u8>,
}

impl View for PageAlignedByteBuffer {
    type V = Seq<u8>;

    open spec fn view(&self) -> Seq<u8> {
        self.data@
    }
}

impl PageAlignedByteBuffer {
    /// Allocates a zeroed frame of `buffer_size` bytes.
    pub fn new(buffer_size: usize) -> (r: Self)
        ensures
            r@.len() == buffer_size,
            forall|i: int| 0 <= i < buffer_size ==> r@[i] == 0u8,
    {
        let mut data: Vec<u8> = Vec::new();
        while data.len() < buffer_size
            invariant
                data@.len() <= buffer_size,
                forall|i: int| 0 <= i < data@.len() ==> data@[i] == 0u8,
            decreases buffer_size - data@.len(),
        {
            data.push(0u8);
        }
        PageAlignedByteBuffer { data }
    }

    /// The bytes of the frame.
    pub fn get_buffer(&self) -> (r: &Vec<u8>)
        ensures
            r@ == self@,
    {
        &self.data
    }
}

} // verus!
