//! The flat memory image: a loader and bounds-checked access.

use vstd::prelude::*;
use vstd::slice::slice_subrange;
use crate::error::{ExecError, LoadError};

verus! {

/// Number of addressable bytes; addresses run from 0 to `MEMORY_SIZE - 1`.
pub const MEMORY_SIZE: usize = 4096;

/// Address at which a program image begins.
pub const PROGRAM_START: usize = 512;

/// `base` with the bytes of `data` laid over it from address `at` on.
pub open spec fn overlay(base: Seq<u8>, at: int, data: Seq<u8>) -> Seq<u8> {
    Seq::new(
        base.len(),
        |a: int|
            if at <= a < at + data.len() {
                data[a - at]
            } else {
                base[a]
            },
    )
}

/// The `len` bytes of `base` from address `at` on.
pub open spec fn span(base: Seq<u8>, at: int, len: int) -> Seq<u8> {
    Seq::new(len as nat, |k: int| base[at + k])
}

/// The 16-bit word whose high byte is `hi` and whose low byte is `lo`.
pub open spec fn big_endian(hi: u8, lo: u8) -> u16 {
    (hi as int * 256 + lo as int) as u16
}

/// The word read as bits: the high byte shifted up by eight, joined with
/// the low byte.
pub proof fn lemma_big_endian_bits(hi: u8, lo: u8)
    ensures
        big_endian(hi, lo) == ((hi as u16) << 8u16) | (lo as u16),
        big_endian(hi, lo) / 256 == hi,
        big_endian(hi, lo) % 256 == lo,
{
    assert(((hi as u16) << 8u16) | (lo as u16) == (hi as int * 256 + lo as int) as u16)
        by (bit_vector);
}

/// A memory with every byte zero.
pub open spec fn blank_image() -> Seq<u8> {
    Seq::new(MEMORY_SIZE as nat, |a: int| 0u8)
}

/// 4096 bytes, addressed from 0. Its view is the sequence of those bytes.
#[derive(Debug)]
pub struct Memory {
    bytes: [u8; MEMORY_SIZE],
}

impl View for Memory {
    type V = Seq<u8>;

    closed spec fn view(&self) -> Seq<u8> {
        self.bytes@
    }
}

impl Clone for Memory {
    /// A memory with the same bytes.
    fn clone(&self) -> (m: Memory)
        ensures
            m@ == self@,
    {
        Memory { bytes: self.bytes }
    }
}

impl Memory {
    /// Every memory holds exactly `MEMORY_SIZE` bytes.
    pub proof fn lemma_len(&self)
        ensures
            self@.len() == MEMORY_SIZE,
    {
    }

    /// A zero-filled memory.
    pub fn new() -> (m: Memory)
        ensures
            m@ == blank_image(),
    {
        let m = Memory { bytes: [0u8; MEMORY_SIZE] };
        assert(m@ =~= blank_image());
        m
    }

    /// A zero-filled memory with `rom` copied in from `PROGRAM_START` on.
    /// Fails when the image would reach past the last address.
    pub fn load(rom: &[u8]) -> (r: Result<Memory, LoadError>)
        ensures
            rom@.len() + PROGRAM_START > MEMORY_SIZE ==> r == Err::<Memory, LoadError>(
                LoadError::TooLarge,
            ),
            rom@.len() + PROGRAM_START <= MEMORY_SIZE ==> r is Ok && r->Ok_0@ == overlay(
                blank_image(),
                PROGRAM_START as int,
                rom@,
            ),
    {
        if rom.len() > MEMORY_SIZE - PROGRAM_START {
            return Err(LoadError::TooLarge);
        }
        let mut m = Memory::new();
        match m.write_span(PROGRAM_START, rom) {
            Ok(()) => Ok(m),
            Err(_) => Err(LoadError::TooLarge),
        }
    }

    /// The byte at `addr`.
    pub fn read8(&self, addr: usize) -> (r: Result<u8, ExecError>)
        ensures
            addr < MEMORY_SIZE ==> r == Ok::<u8, ExecError>(self@[addr as int]),
            addr >= MEMORY_SIZE ==> r == Err::<u8, ExecError>(ExecError::OutOfBounds),
    {
        if addr < MEMORY_SIZE {
            Ok(self.bytes[addr])
        } else {
            Err(ExecError::OutOfBounds)
        }
    }

    /// The big-endian word held at `addr` and `addr + 1`.
    pub fn read16(&self, addr: usize) -> (r: Result<u16, ExecError>)
        ensures
            addr + 1 < MEMORY_SIZE ==> r == Ok::<u16, ExecError>(
                big_endian(self@[addr as int], self@[addr + 1]),
            ),
            addr + 1 >= MEMORY_SIZE ==> r == Err::<u16, ExecError>(ExecError::OutOfBounds),
    {
        if addr < MEMORY_SIZE - 1 {
            let hi: u8 = self.bytes[addr];
            let lo: u8 = self.bytes[addr + 1];
            proof {
                lemma_big_endian_bits(hi, lo);
            }
            Ok(((hi as u16) << 8u16) | (lo as u16))
        } else {
            Err(ExecError::OutOfBounds)
        }
    }

    /// The `len` bytes from `addr` on. Reading no bytes touches no address
    /// and always succeeds.
    pub fn read_span(&self, addr: usize, len: usize) -> (r: Result<&[u8], ExecError>)
        ensures
            len == 0 || addr + len <= MEMORY_SIZE ==> r is Ok && r->Ok_0@ == span(
                self@,
                addr as int,
                len as int,
            ),
            len > 0 && addr + len > MEMORY_SIZE ==> r == Err::<&[u8], ExecError>(
                ExecError::OutOfBounds,
            ),
    {
        if len == 0 {
            let bytes: &[u8] = slice_subrange(self.bytes.as_slice(), 0, 0);
            assert(bytes@ =~= span(self@, addr as int, 0));
            Ok(bytes)
        } else if len <= MEMORY_SIZE && addr <= MEMORY_SIZE - len {
            let bytes: &[u8] = slice_subrange(self.bytes.as_slice(), addr, addr + len);
            assert(bytes@ =~= span(self@, addr as int, len as int));
            Ok(bytes)
        } else {
            Err(ExecError::OutOfBounds)
        }
    }

    /// Stores `value` at `addr`.
    pub fn write8(&mut self, addr: usize, value: u8) -> (r: Result<(), ExecError>)
        ensures
            addr < MEMORY_SIZE ==> r == Ok::<(), ExecError>(())
                && final(self)@ == old(self)@.update(addr as int, value),
            addr >= MEMORY_SIZE ==> r == Err::<(), ExecError>(ExecError::OutOfBounds)
                && final(self)@ == old(self)@,
    {
        if addr < MEMORY_SIZE {
            self.bytes[addr] = value;
            Ok(())
        } else {
            Err(ExecError::OutOfBounds)
        }
    }

    /// Stores the bytes of `data` from `addr` on. Either the whole span lies
    /// in memory and is written, or nothing is written.
    pub fn write_span(&mut self, addr: usize, data: &[u8]) -> (r: Result<(), ExecError>)
        ensures
            data@.len() == 0 || addr + data@.len() <= MEMORY_SIZE ==> r == Ok::<(), ExecError>(())
                && final(self)@ == overlay(old(self)@, addr as int, data@),
            data@.len() > 0 && addr + data@.len() > MEMORY_SIZE ==> r == Err::<(), ExecError>(
                ExecError::OutOfBounds,
            ) && final(self)@ == old(self)@,
    {
        let len: usize = data.len();
        if len == 0 {
            assert(self@ =~= overlay(self@, addr as int, data@));
            return Ok(());
        }
        if len > MEMORY_SIZE || addr > MEMORY_SIZE - len {
            return Err(ExecError::OutOfBounds);
        }
        let mut k: usize = 0;
        while k < len
            invariant
                k <= len,
                len == data@.len(),
                addr + len <= MEMORY_SIZE,
                self@ == overlay(old(self)@, addr as int, data@.subrange(0, k as int)),
            decreases len - k,
        {
            self.bytes[addr + k] = data[k];
            k += 1;
        }
        assert(data@.subrange(0, len as int) =~= data@);
        Ok(())
    }
}

} // verus!
