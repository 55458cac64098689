//! One decompressed unit of a block-compressed file, read sequentially and
//! addressed by virtual positions.

use vstd::prelude::*;

verus! {

/// The signed 32-bit integer whose little-endian bytes are `b[0..4]`.
pub open spec fn i32_from_le(b: Seq<u8>) -> i32 {
    (b[0] as int + 0x100 * b[1] as int + 0x1_0000 * b[2] as int + 0x100_0000 * b[3] as int) as i32
}

/// The virtual position of an offset within a unit that starts at `c_offset`:
/// the unit's offset in the upper 48 bits, the offset within it in the lower 16.
pub open spec fn virtual_position_of(c_offset: u64, u_offset: u64) -> u64 {
    (c_offset << 16u64) | u_offset
}

/// The error of a read from a block.
#[derive(Clone, Copy, Debug, PartialEq, Eq, Structural)]
pub enum ReadError {
    /// Fewer bytes remain than the read needs.
    ShortRead,
}

/// Relies on byteorder's `ByteOrder::read_i32` for `LittleEndian`, which reads
/// the four bytes at the front of its slice (it panics on fewer, which the
/// `requires` leaves out).
#[verifier::external_body]
fn read_i32_le(data: &[u8], at: usize) -> (r: i32)
    requires
        at + 4 <= data@.len(),
    ensures
        r == i32_from_le(data@.subrange(at as int, at + 4)),
{
    <byteorder::LittleEndian as byteorder::ByteOrder>::read_i32(&data[at..])
}

proof fn lemma_virtual_position(c: u64, u: u64)
    by (bit_vector)
    requires
        c < 0x1_0000_0000_0000,
        u < 0x1_0000,
    ensures
        (c << 16u64) | u == c * 0x1_0000 + u,
{
}

/// The decompressed content of one compressed unit, with a read cursor, and the
/// offset of the unit within the compressed file.
#[derive(Debug)]
pub struct Block {
    c_offset: u64,
    data: Vec<u8>,
    pos: usize,
}

impl Block {
    /// The offset of the compressed unit within the compressed file.
    pub closed spec fn spec_c_offset(&self) -> u64 {
        self.c_offset
    }

    /// The decompressed content.
    pub closed spec fn content(&self) -> Seq<u8> {
        self.data@
    }

    /// The number of bytes of the content already read.
    pub closed spec fn consumed(&self) -> nat {
        self.pos as nat
    }

    /// The number of bytes that a read into a buffer of `buf_len` bytes copies:
    /// as many as fit, at most the unread rest of the content.
    pub open spec fn read_len(&self, buf_len: nat) -> int {
        if buf_len <= self.content().len() - self.consumed() {
            buf_len as int
        } else {
            self.content().len() - self.consumed()
        }
    }

    /// The cursor stays within the content.
    pub open spec fn wf(&self) -> bool {
        self.consumed() <= self.content().len()
    }

    /// Creates an empty block at offset zero.
    pub fn new() -> (r: Self)
        ensures
            r.wf(),
            r.spec_c_offset() == 0,
            r.content() == Seq::<u8>::empty(),
            r.consumed() == 0,
    {
        Block { c_offset: 0, data: Vec::new(), pos: 0 }
    }

    /// Replaces the content with a newly decompressed unit and moves the cursor
    /// to its start.
    pub fn set_data(&mut self, data: Vec<u8>)
        ensures
            final(self).wf(),
            final(self).content() == data@,
            final(self).consumed() == 0,
            final(self).spec_c_offset() == old(self).spec_c_offset(),
    {
        self.data = data;
        self.pos = 0;
    }

    /// Returns the content.
    pub fn get_ref(&self) -> (r: &Vec<u8>)
        ensures
            r@ == self.content(),
    {
        &self.data
    }

    /// Returns the number of bytes of the content already read.
    pub fn position(&self) -> (r: u64)
        ensures
            r == self.consumed(),
    {
        self.pos as u64
    }

    /// Returns the virtual position of the cursor: the unit's offset shifted left
    /// by 16 bits, OR-ed with the cursor.
    pub fn virtual_position(&self) -> (r: u64)
        ensures
            r == virtual_position_of(self.spec_c_offset(), self.consumed() as u64),
            self.spec_c_offset() < 0x1_0000_0000_0000 && self.consumed() < 0x1_0000 ==> r
                == self.spec_c_offset() * 0x1_0000 + self.consumed(),
    {
        proof {
            if self.c_offset < 0x1_0000_0000_0000 && self.pos < 0x1_0000 {
                lemma_virtual_position(self.c_offset, self.pos as u64);
            }
        }
        self.c_offset() << 16u64 | self.u_offset()
    }

    /// Returns the offset of the compressed unit within the compressed file.
    pub fn c_offset(&self) -> (r: u64)
        ensures
            r == self.spec_c_offset(),
    {
        self.c_offset
    }

    /// Sets the offset of the compressed unit within the compressed file.
    pub fn set_c_offset(&mut self, c_offset: u64)
        ensures
            final(self).spec_c_offset() == c_offset,
            final(self).content() == old(self).content(),
            final(self).consumed() == old(self).consumed(),
    {
        self.c_offset = c_offset;
    }

    /// Returns the offset of the cursor within the decompressed unit.
    pub fn u_offset(&self) -> (r: u64)
        ensures
            r == self.consumed(),
    {
        self.position()
    }

    /// Copies as many unread bytes as fit into `buf`, moves the cursor past them
    /// and returns their number; zero once the content is exhausted.
    pub fn read_record(&mut self, buf: &mut [u8]) -> (r: usize)
        requires
            old(self).wf(),
        ensures
            final(self).wf(),
            r == old(self).read_len(old(buf)@.len()),
            final(buf)@ == old(self).content().subrange(
                old(self).consumed() as int,
                old(self).consumed() + r,
            ) + old(buf)@.skip(r as int),
            final(self).consumed() == old(self).consumed() + r,
            final(self).content() == old(self).content(),
            final(self).spec_c_offset() == old(self).spec_c_offset(),
    {
        let remaining: usize = self.data.len() - self.pos;
        let n: usize = if buf.len() <= remaining {
            buf.len()
        } else {
            remaining
        };
        let ghost start = buf@;
        let mut j: usize = 0;
        while j < n
            invariant
                n <= buf@.len(),
                buf@.len() == start.len(),
                self.pos + n <= self.data@.len() <= usize::MAX,
                j <= n,
                buf@ == self.data@.subrange(self.pos as int, self.pos + j) + start.skip(j as int),
            decreases n - j,
        {
            buf[j] = self.data[self.pos + j];
            j += 1;
            assert(buf@ =~= self.data@.subrange(self.pos as int, self.pos + j) + start.skip(
                j as int,
            ));
        }
        self.pos = self.pos + n;
        n
    }

    /// Whether every byte of the content has been read.
    pub fn is_eof(&self) -> (r: bool)
        ensures
            r == (self.consumed() >= self.content().len()),
    {
        self.pos >= self.data.len()
    }

    /// Reads the next four bytes as a little-endian signed 32-bit integer and
    /// moves the cursor past them; with fewer than four bytes left, fails with
    /// [`ReadError::ShortRead`] and leaves the cursor where it was.
    pub fn read_block_size(&mut self) -> (r: Result<i32, ReadError>)
        requires
            old(self).wf(),
        ensures
            final(self).wf(),
            final(self).content() == old(self).content(),
            final(self).spec_c_offset() == old(self).spec_c_offset(),
            old(self).consumed() + 4 <= old(self).content().len() ==> r == Ok::<i32, ReadError>(
                i32_from_le(
                    old(self).content().subrange(
                        old(self).consumed() as int,
                        old(self).consumed() + 4int,
                    ),
                ),
            ) && final(self).consumed() == old(self).consumed() + 4,
            old(self).consumed() + 4 > old(self).content().len() ==> r == Err::<i32, ReadError>(
                ReadError::ShortRead,
            ) && final(self).consumed() == old(self).consumed(),
    {
        if self.data.len() - self.pos < 4 {
            return Err(ReadError::ShortRead);
        }
        let n = read_i32_le(self.data.as_slice(), self.pos);
        self.pos = self.pos + 4;
        Ok(n)
    }
}

/// Exhaustion: a block is exhausted exactly when all of its content has been
/// read; until then a read into a non-empty buffer copies at least one byte, and
/// from then on every read copies none.
pub proof fn lemma_exhaustion(b: Block, buf_len: nat)
    requires
        b.wf(),
    ensures
        (b.consumed() >= b.content().len()) == (b.consumed() == b.content().len()),
        b.consumed() == b.content().len() ==> b.read_len(buf_len) == 0,
        b.consumed() < b.content().len() && buf_len > 0 ==> b.read_len(buf_len) > 0,
{
}

impl Default for Block {
    fn default() -> (r: Self)
        ensures
            r.wf(),
            r.spec_c_offset() == 0,
            r.content() == Seq::<u8>::empty(),
            r.consumed() == 0,
    {
        Block::new()
    }
}

} // verus!
