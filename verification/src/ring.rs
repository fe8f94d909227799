use vstd::prelude::*;

verus! {

/// Big-endian value of two bytes.
pub open spec fn be16_value(b0: u8, b1: u8) -> int {
    b0 * 0x100 + b1
}

/// Big-endian value of four bytes.
pub open spec fn be32_value(b0: u8, b1: u8, b2: u8, b3: u8) -> int {
    b0 * 0x1000000 + b1 * 0x10000 + b2 * 0x100 + b3
}

/// A fixed-capacity shared byte region: `capacity` data bytes followed by
/// two out-of-band cursor fields, each a 4-byte big-endian unsigned integer:
/// the read cursor at offset `capacity` and the write cursor at offset
/// `capacity + 4`. Every access is bounds-checked by contract.
pub struct SharedRegion {
    bytes: Vec<u8>,
    capacity: usize,
}

impl SharedRegion {
    /// The number of data bytes in the ring.
    pub closed spec fn spec_capacity(self) -> int {
        self.capacity as int
    }

    /// Well-formedness: the buffer holds the data area plus the two cursors.
    pub closed spec fn wf(self) -> bool {
        &&& self.bytes@.len() == self.capacity + 8
        &&& 3 <= self.capacity
        &&& self.capacity <= 0xFFFF_FFFF
        &&& self.capacity + 8 <= usize::MAX
    }

    /// The data area of the ring.
    pub closed spec fn spec_data(self) -> Seq<u8> {
        self.bytes@.subrange(0, self.capacity as int)
    }

    /// The stored read cursor.
    pub closed spec fn spec_read_pos(self) -> int {
        be32_value(
            self.bytes@[self.capacity as int],
            self.bytes@[self.capacity + 1],
            self.bytes@[self.capacity + 2],
            self.bytes@[self.capacity + 3],
        )
    }

    /// The stored write cursor.
    pub closed spec fn spec_write_pos(self) -> int {
        be32_value(
            self.bytes@[self.capacity + 4],
            self.bytes@[self.capacity + 5],
            self.bytes@[self.capacity + 6],
            self.bytes@[self.capacity + 7],
        )
    }

    /// Consequences of well-formedness, for the modules that build on the
    /// region: the data area has exactly `capacity` bytes, the capacity is
    /// within the agreed bounds, both stored cursors fit 32 bits, and the
    /// data area is the prefix of the underlying buffer.
    pub proof fn lemma_wf(&self)
        requires
            self.wf(),
        ensures
            self.spec_data().len() == self.spec_capacity(),
            3 <= self.spec_capacity() <= 0xFFFF_FFFF,
            self.spec_capacity() + 8 <= usize::MAX,
            0 <= self.spec_read_pos() <= 0xFFFF_FFFF,
            0 <= self.spec_write_pos() <= 0xFFFF_FFFF,
            forall|i: int|
                0 <= i < self.spec_capacity() ==> self.spec_data()[i] == self.spec_bytes_at(i),
    {
    }

    /// A fresh region of the given capacity, all data bytes zero and both
    /// cursors zero.
    pub fn new(capacity: usize) -> (r: Self)
        requires
            3 <= capacity <= 0xFFFF_FFFF,
            capacity + 8 <= usize::MAX,
        ensures
            r.wf(),
            r.spec_capacity() == capacity,
            r.spec_data() == Seq::new(capacity as nat, |i: int| 0u8),
            r.spec_read_pos() == 0,
            r.spec_write_pos() == 0,
    {
        let mut bytes: Vec<u8> = Vec::new();
        let total = capacity + 8;
        let mut i: usize = 0;
        while i < total
            invariant
                i <= total,
                bytes@ == Seq::new(i as nat, |j: int| 0u8),
            decreases total - i,
        {
            bytes.push(0u8);
            proof {
                assert(bytes@ =~= Seq::new((i + 1) as nat, |j: int| 0u8));
            }
            i = i + 1;
        }
        let r = SharedRegion { bytes, capacity };
        proof {
            assert(r.spec_data() =~= Seq::new(capacity as nat, |i: int| 0u8));
        }
        r
    }

    /// A region over an existing buffer whose layout is `len - 8` data bytes
    /// followed by the two cursor fields.
    pub fn from_bytes(bytes: Vec<u8>) -> (r: Self)
        requires
            11 <= bytes@.len(),
            bytes@.len() <= 0xFFFF_FFFF,
        ensures
            r.wf(),
            r.spec_capacity() == bytes@.len() - 8,
            r.spec_data() == bytes@.subrange(0, bytes@.len() - 8),
            r.spec_read_pos() == be32_value(
                bytes@[bytes@.len() - 8],
                bytes@[bytes@.len() - 7],
                bytes@[bytes@.len() - 6],
                bytes@[bytes@.len() - 5],
            ),
            r.spec_write_pos() == be32_value(
                bytes@[bytes@.len() - 4],
                bytes@[bytes@.len() - 3],
                bytes@[bytes@.len() - 2],
                bytes@[bytes@.len() - 1],
            ),
    {
        let capacity = bytes.len() - 8;
        SharedRegion { bytes, capacity }
    }

    /// The capacity in executable code.
    pub fn capacity(&self) -> (r: usize)
        ensures
            r == self.spec_capacity(),
    {
        self.capacity
    }

    /// Read the byte at `pos` (data area or cursor area).
    pub fn get_u8(&self, pos: usize) -> (r: u8)
        requires
            self.wf(),
            pos < self.spec_capacity() + 8,
        ensures
            r == self.spec_bytes_at(pos as int),
    {
        self.bytes[pos]
    }

    /// The byte stored at an offset of the underlying buffer.
    pub closed spec fn spec_bytes_at(self, pos: int) -> u8 {
        self.bytes@[pos]
    }

    /// Read a big-endian 16-bit integer at `pos`, not wrapping.
    pub fn get_u16(&self, pos: usize) -> (r: u16)
        requires
            self.wf(),
            pos + 2 <= self.spec_capacity() + 8,
        ensures
            r == be16_value(self.spec_bytes_at(pos as int), self.spec_bytes_at(pos + 1)),
    {
        let b0 = self.bytes[pos];
        let b1 = self.bytes[pos + 1];
        b0 as u16 * 0x100 + b1 as u16
    }

    /// Read a big-endian 32-bit integer at `pos`, not wrapping.
    pub fn get_u32(&self, pos: usize) -> (r: u32)
        requires
            self.wf(),
            pos + 4 <= self.spec_capacity() + 8,
        ensures
            r == be32_value(
                self.spec_bytes_at(pos as int),
                self.spec_bytes_at(pos + 1),
                self.spec_bytes_at(pos + 2),
                self.spec_bytes_at(pos + 3),
            ),
    {
        let b0 = self.bytes[pos];
        let b1 = self.bytes[pos + 1];
        let b2 = self.bytes[pos + 2];
        let b3 = self.bytes[pos + 3];
        b0 as u32 * 0x1000000 + b1 as u32 * 0x10000 + b2 as u32 * 0x100 + b3 as u32
    }

    /// Write a big-endian 32-bit integer at `pos`, not wrapping.
    pub fn put_u32(&mut self, pos: usize, value: u32)
        requires
            old(self).wf(),
            pos + 4 <= old(self).spec_capacity() + 8,
        ensures
            final(self).wf(),
            final(self).spec_capacity() == old(self).spec_capacity(),
            forall|i: int|
                0 <= i < old(self).spec_capacity() + 8 && !(pos <= i < pos + 4)
                    ==> final(self).spec_bytes_at(i) == old(self).spec_bytes_at(i),
            be32_value(
                final(self).spec_bytes_at(pos as int),
                final(self).spec_bytes_at(pos + 1),
                final(self).spec_bytes_at(pos + 2),
                final(self).spec_bytes_at(pos + 3),
            ) == value,
    {
        let b0 = (value >> 24u32) as u8;
        let b1 = (value >> 16u32) as u8;
        let b2 = (value >> 8u32) as u8;
        let b3 = value as u8;
        proof {
            assert((b0 as u32) * 0x1000000 + (b1 as u32) * 0x10000 + (b2 as u32) * 0x100 + (
            b3 as u32) == value) by (bit_vector)
                requires
                    b0 == (value >> 24u32) as u8,
                    b1 == (value >> 16u32) as u8,
                    b2 == (value >> 8u32) as u8,
                    b3 == value as u8,
            ;
        }
        self.bytes.set(pos, b0);
        self.bytes.set(pos + 1, b1);
        self.bytes.set(pos + 2, b2);
        self.bytes.set(pos + 3, b3);
    }

    /// The current read cursor, as stored in the region.
    pub fn read_pos(&self) -> (r: u32)
        requires
            self.wf(),
        ensures
            r == self.spec_read_pos(),
    {
        self.get_u32(self.capacity)
    }

    /// The current write cursor, as stored in the region.
    pub fn write_pos(&self) -> (r: u32)
        requires
            self.wf(),
        ensures
            r == self.spec_write_pos(),
    {
        self.get_u32(self.capacity + 4)
    }

    /// Persist a new read cursor; the data area and the write cursor are
    /// untouched.
    pub fn set_read_pos(&mut self, value: u32)
        requires
            old(self).wf(),
        ensures
            final(self).wf(),
            final(self).spec_capacity() == old(self).spec_capacity(),
            final(self).spec_data() == old(self).spec_data(),
            final(self).spec_write_pos() == old(self).spec_write_pos(),
            final(self).spec_read_pos() == value,
    {
        let cap = self.capacity;
        self.put_u32(cap, value);
        proof {
            assert forall|i: int|
                0 <= i < old(self).spec_capacity() implies self.spec_data()[i] == old(
                self,
            ).spec_data()[i] by {
                assert(self.spec_bytes_at(i) == old(self).spec_bytes_at(i));
            }
            assert(self.spec_data() =~= old(self).spec_data());
            assert(self.spec_bytes_at(cap as int + 4) == old(self).spec_bytes_at(cap as int + 4));
            assert(self.spec_bytes_at(cap as int + 5) == old(self).spec_bytes_at(cap as int + 5));
            assert(self.spec_bytes_at(cap as int + 6) == old(self).spec_bytes_at(cap as int + 6));
            assert(self.spec_bytes_at(cap as int + 7) == old(self).spec_bytes_at(cap as int + 7));
        }
    }

    /// Persist a new write cursor; the data area and the read cursor are
    /// untouched.
    pub fn set_write_pos(&mut self, value: u32)
        requires
            old(self).wf(),
        ensures
            final(self).wf(),
            final(self).spec_capacity() == old(self).spec_capacity(),
            final(self).spec_data() == old(self).spec_data(),
            final(self).spec_read_pos() == old(self).spec_read_pos(),
            final(self).spec_write_pos() == value,
    {
        let cap = self.capacity;
        self.put_u32(cap + 4, value);
        proof {
            assert forall|i: int|
                0 <= i < old(self).spec_capacity() implies self.spec_data()[i] == old(
                self,
            ).spec_data()[i] by {
                assert(self.spec_bytes_at(i) == old(self).spec_bytes_at(i));
            }
            assert(self.spec_data() =~= old(self).spec_data());
            assert(self.spec_bytes_at(cap as int) == old(self).spec_bytes_at(cap as int));
            assert(self.spec_bytes_at(cap as int + 1) == old(self).spec_bytes_at(cap as int + 1));
            assert(self.spec_bytes_at(cap as int + 2) == old(self).spec_bytes_at(cap as int + 2));
            assert(self.spec_bytes_at(cap as int + 3) == old(self).spec_bytes_at(cap as int + 3));
        }
    }

    /// Whether the cursors differ, i.e. the producer has written data that
    /// the consumer has not yet read.
    pub fn has_data(&self) -> (r: bool)
        requires
            self.wf(),
        ensures
            r == (self.spec_read_pos() != self.spec_write_pos()),
    {
        self.read_pos() != self.write_pos()
    }

    /// Store one byte of the data area; used by the producer side when a
    /// frame is laid into the ring.
    pub fn put_u8(&mut self, pos: usize, value: u8)
        requires
            old(self).wf(),
            pos < old(self).spec_capacity(),
        ensures
            final(self).wf(),
            final(self).spec_capacity() == old(self).spec_capacity(),
            final(self).spec_data() == old(self).spec_data().update(pos as int, value),
            final(self).spec_read_pos() == old(self).spec_read_pos(),
            final(self).spec_write_pos() == old(self).spec_write_pos(),
    {
        self.bytes.set(pos, value);
        proof {
            assert(self.spec_data() =~= old(self).spec_data().update(pos as int, value));
        }
    }
}

} // verus!
