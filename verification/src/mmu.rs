//! The memory unit: a fixed-capacity byte array with bounds-checked scalar
//! and bulk access, owning the framebuffer and exposing its pixel accessors.
//!
//! Scalar reads and writes fail atomically with `OutOfBounds` outside
//! `[0, capacity)`.  Bulk writes truncate at the capacity boundary instead
//! and report how many bytes were written, so a program image may abut the
//! end of memory.

use vstd::prelude::*;
use crate::Chip8Error;
use crate::filled_vec;
use crate::framebuffer::Framebuffer;
use crate::framebuffer::pix;

verus! {

/// Mathematical image of the memory unit: the byte array (its length is the
/// capacity), the pixel grid of the owned framebuffer, and the redraw flag.
pub ghost struct MemState {
    pub mem: Seq<u8>,
    pub fb: Seq<u8>,
    pub dirty: bool,
}

/// The 16-bit word stored big-endian at `mem[a]`, `mem[a + 1]`.
pub open spec fn word_at(mem: Seq<u8>, a: int) -> u16 {
    (mem[a] * 256 + mem[a + 1]) as u16
}

/// `mem` with the bytes of `buf` laid down from `off`, truncated at the end
/// of `mem`.
pub open spec fn block_written(mem: Seq<u8>, buf: Seq<u8>, off: int) -> Seq<u8> {
    Seq::new(mem.len(), |j: int| if off <= j && j < off + buf.len() { buf[j - off] } else { mem[j] })
}

pub struct MMU {
    memory: Vec<u8>,
    max_size: usize,
    framebuffer: Framebuffer,
}

impl View for MMU {
    type V = MemState;

    closed spec fn view(&self) -> MemState {
        MemState { mem: self.memory@, fb: self.framebuffer@.pixels, dirty: self.framebuffer@.dirty }
    }
}

impl MMU {
    /// The recorded capacity matches the byte array, and the framebuffer is
    /// the canonical 64 x 32 grid of bits.
    pub closed spec fn inv(&self) -> bool {
        &&& self.memory@.len() == self.max_size
        &&& self.framebuffer.wf()
        &&& self.framebuffer@.width == 64
        &&& self.framebuffer@.height == 32
    }

    pub open spec fn wf(&self) -> bool {
        &&& self.inv()
        &&& self@.fb.len() == 2048
        &&& forall|k: int| 0 <= k < self@.fb.len() ==> self@.fb[k] <= 1
    }

    /// A memory unit of `max_size` zeroed bytes with a cleared 64 x 32
    /// framebuffer.
    pub fn new(max_size: usize) -> (m: MMU)
        ensures
            m.wf(),
            m@.mem.len() == max_size,
            forall|k: int| 0 <= k < m@.mem.len() ==> m@.mem[k] == 0,
            forall|k: int| 0 <= k < m@.fb.len() ==> m@.fb[k] == 0,
            !m@.dirty,
    {
        MMU {
            memory: filled_vec(max_size, 0u8),
            max_size,
            framebuffer: Framebuffer::new(64, 32),
        }
    }

    /// The size of the address space.
    pub fn capacity(&self) -> (r: usize)
        requires
            self.wf(),
        ensures
            r == self@.mem.len(),
    {
        self.max_size
    }

    /// Bulk write: fails outright when `offset` is out of range, otherwise
    /// lays down as many leading bytes of `buf` as fit and reports the count.
    pub fn write_to_mem(&mut self, buf: Vec<u8>, offset: usize) -> (r: Result<usize, Chip8Error>)
        requires
            old(self).wf(),
        ensures
            final(self).wf(),
            final(self)@.fb == old(self)@.fb,
            final(self)@.dirty == old(self)@.dirty,
            final(self)@.mem.len() == old(self)@.mem.len(),
            r is Ok <==> offset < old(self)@.mem.len(),
            r is Err ==> r == Err::<usize, Chip8Error>(Chip8Error::OutOfBounds)
                && final(self)@.mem == old(self)@.mem,
            r is Ok ==> final(self)@.mem == block_written(old(self)@.mem, buf@, offset as int)
                && r == Ok::<usize, Chip8Error>(
                    if buf@.len() <= old(self)@.mem.len() - offset {
                        buf@.len() as usize
                    } else {
                        (old(self)@.mem.len() - offset) as usize
                    },
                ),
    {
        if offset >= self.max_size {
            return Err(Chip8Error::OutOfBounds);
        }
        let ghost mem0 = self.memory@;
        let remaining = self.max_size - offset;
        let mut idx: usize = 0;
        while idx < buf.len() && idx < remaining
            invariant
                self.inv(),
                self@.fb == old(self)@.fb,
                self@.dirty == old(self)@.dirty,
                self.max_size == old(self).max_size,
                offset < self.max_size,
                remaining == self.max_size - offset,
                idx <= buf@.len(),
                idx <= remaining,
                forall|j: int| 0 <= j < idx ==> self.memory@[offset + j] == buf@[j],
                forall|j: int| 0 <= j < self.memory@.len()
                    && !(offset <= j < offset + idx) ==> self.memory@[j] == mem0[j],
            decreases buf@.len() - idx,
        {
            self.memory[offset + idx] = buf[idx];
            idx += 1;
        }
        proof {
            assert(self.memory@ =~= block_written(mem0, buf@, offset as int));
        }
        Ok(idx)
    }

    /// Strict single-byte write: fails atomically out of range.
    pub fn write(&mut self, address: usize, value: u8) -> (r: Result<(), Chip8Error>)
        requires
            old(self).wf(),
        ensures
            final(self).wf(),
            final(self)@.fb == old(self)@.fb,
            final(self)@.dirty == old(self)@.dirty,
            final(self)@.mem.len() == old(self)@.mem.len(),
            r is Ok <==> address < old(self)@.mem.len(),
            r is Err ==> r == Err::<(), Chip8Error>(Chip8Error::OutOfBounds)
                && final(self)@.mem == old(self)@.mem,
            r is Ok ==> final(self)@.mem == old(self)@.mem.update(address as int, value),
    {
        if address >= self.max_size {
            return Err(Chip8Error::OutOfBounds);
        }
        self.memory[address] = value;
        Ok(())
    }

    /// Strict single-byte read.
    pub fn read(&self, address: usize) -> (r: Result<u8, Chip8Error>)
        requires
            self.wf(),
        ensures
            r is Ok <==> address < self@.mem.len(),
            r is Ok ==> r == Ok::<u8, Chip8Error>(self@.mem[address as int]),
            r is Err ==> r == Err::<u8, Chip8Error>(Chip8Error::OutOfBounds),
    {
        if address >= self.max_size {
            return Err(Chip8Error::OutOfBounds);
        }
        Ok(self.memory[address])
    }

    /// Big-endian 16-bit read of `address`, `address + 1`.
    pub fn read_short(&self, address: usize) -> (r: Result<u16, Chip8Error>)
        requires
            self.wf(),
        ensures
            r is Ok <==> address + 1 < self@.mem.len(),
            r is Ok ==> r == Ok::<u16, Chip8Error>(word_at(self@.mem, address as int)),
            r is Err ==> r == Err::<u16, Chip8Error>(Chip8Error::OutOfBounds),
    {
        if address >= self.max_size || address + 1 >= self.max_size {
            return Err(Chip8Error::OutOfBounds);
        }
        let high = self.memory[address];
        let low = self.memory[address + 1];
        let word = ((high as u16) << 8) | (low as u16);
        proof {
            let h = high as u16;
            let l = low as u16;
            assert((h << 8) | l == h * 256 + l) by (bit_vector)
                requires
                    h <= 255,
                    l <= 255,
            ;
        }
        Ok(word)
    }

    /// Reads pixel `(x, y)` of the owned framebuffer.
    pub fn fb_get(&self, x: usize, y: usize) -> (r: u8)
        requires
            self.wf(),
            x < 64,
            y < 32,
        ensures
            r == self@.fb[pix(64, x as int, y as int)],
            r <= 1,
    {
        self.framebuffer.get(x, y)
    }

    /// Writes pixel `(x, y)` of the owned framebuffer and marks it dirty.
    pub fn fb_set(&mut self, x: usize, y: usize, val: u8)
        requires
            old(self).wf(),
            x < 64,
            y < 32,
            val <= 1,
        ensures
            final(self).wf(),
            final(self)@.mem == old(self)@.mem,
            final(self)@.fb == old(self)@.fb.update(pix(64, x as int, y as int), val),
            final(self)@.dirty,
    {
        self.framebuffer.set(x, y, val);
    }

    /// A copy of the frame, row-major, one byte per pixel.
    pub fn fb_get_data(&self) -> (r: Vec<u8>)
        requires
            self.wf(),
        ensures
            r@ == self@.fb,
    {
        self.framebuffer.get_data()
    }

    /// Whether the frame changed since the consumer last cleared the flag.
    pub fn fb_needs_refresh(&self) -> (r: bool)
        requires
            self.wf(),
        ensures
            r == self@.dirty,
    {
        self.framebuffer.is_dirty()
    }

    /// Turns every pixel off and marks the frame dirty.
    pub fn fb_clear(&mut self)
        requires
            old(self).wf(),
        ensures
            final(self).wf(),
            final(self)@.mem == old(self)@.mem,
            final(self)@.fb.len() == old(self)@.fb.len(),
            forall|k: int| 0 <= k < final(self)@.fb.len() ==> final(self)@.fb[k] == 0,
            final(self)@.dirty,
    {
        self.framebuffer.clear();
    }
}

/// Law: a write of `v` at an in-range address followed by a read of the same
/// address yields `v`.  `MMU::write` ensures the memory is the old memory
/// updated at `addr`, and `MMU::read` returns the byte stored there.
pub proof fn lemma_write_then_read(mem: Seq<u8>, addr: int, v: u8)
    requires
        0 <= addr < mem.len(),
    ensures
        mem.update(addr, v)[addr] == v,
{
}

} // verus!
