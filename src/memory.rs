use vstd::prelude::*;
use crate::error::Chip8Error;

verus! {

/// Number of addressable bytes, addresses `0x000`..=`0xFFF`.
pub const MEMORY_SIZE: usize = 4096;

/// The machine's memory: 4096 bytes. Addresses below `0x200` hold the font;
/// programs are loaded from `0x200` on.
pub struct Memory {
    bytes: [u8; 4096],
}

/// `s` with `data` written over it from `offset` on.
pub open spec fn overwrite(s: Seq<u8>, offset: int, data: Seq<u8>) -> Seq<u8> {
    Seq::new(s.len(), |a: int| if offset <= a < offset + data.len() { data[a - offset] } else { s[a] })
}

/// The first address at or after `start` that lies past the end of memory.
pub open spec fn first_out(start: int) -> int {
    if start >= MEMORY_SIZE {
        start
    } else {
        MEMORY_SIZE as int
    }
}

impl View for Memory {
    type V = Seq<u8>;

    closed spec fn view(&self) -> Seq<u8> {
        self.bytes@
    }
}

impl Memory {
    /// Zero-filled memory.
    pub fn new() -> (r: Memory)
        ensures
            r@ == Seq::new(MEMORY_SIZE as nat, |a: int| 0u8),
    {
        let r = Memory { bytes: [0u8; 4096] };
        assert(r@ =~= Seq::new(MEMORY_SIZE as nat, |a: int| 0u8));
        r
    }

    /// The memory always holds `MEMORY_SIZE` bytes.
    pub proof fn lemma_size(&self)
        ensures
            self@.len() == MEMORY_SIZE,
    {
    }

    /// The byte at `addr`, or `OutOfBounds` beyond the last address.
    pub fn read(&self, addr: usize) -> (r: Result<u8, Chip8Error>)
        ensures
            addr < MEMORY_SIZE ==> r == Ok::<u8, Chip8Error>(self@[addr as int]),
            addr >= MEMORY_SIZE ==> r == Err::<u8, Chip8Error>(Chip8Error::OutOfBounds(addr)),
    {
        if addr < MEMORY_SIZE {
            Ok(self.bytes[addr])
        } else {
            Err(Chip8Error::OutOfBounds(addr))
        }
    }

    /// Stores `b` at `addr`, or leaves memory alone and reports `OutOfBounds`
    /// beyond the last address.
    pub fn write(&mut self, addr: usize, b: u8) -> (r: Result<(), Chip8Error>)
        ensures
            addr < MEMORY_SIZE ==> r is Ok && final(self)@ == old(self)@.update(addr as int, b),
            addr >= MEMORY_SIZE ==> r == Err::<(), Chip8Error>(Chip8Error::OutOfBounds(addr))
                && final(self)@ == old(self)@,
    {
        if addr < MEMORY_SIZE {
            self.bytes[addr] = b;
            Ok(())
        } else {
            Err(Chip8Error::OutOfBounds(addr))
        }
    }

    /// The `len` bytes from `start` on. Fails with `OutOfBounds`, naming the
    /// first address past the end of memory, where they would run past it.
    pub fn read_range(&self, start: usize, len: usize) -> (r: Result<Vec<u8>, Chip8Error>)
        ensures
            len == 0 ==> r is Ok && r->Ok_0@.len() == 0,
            start + len <= MEMORY_SIZE ==> r is Ok
                && r->Ok_0@ == self@.subrange(start as int, start + len),
            len > 0 && start + len > MEMORY_SIZE ==> r == Err::<Vec<u8>, Chip8Error>(
                Chip8Error::OutOfBounds(first_out(start as int) as usize),
            ),
    {
        let mut out: Vec<u8> = Vec::new();
        if len == 0 {
            if start <= MEMORY_SIZE {
                assert(out@ =~= self@.subrange(start as int, start as int));
            }
            return Ok(out);
        }
        if start >= MEMORY_SIZE {
            return Err(Chip8Error::OutOfBounds(start));
        }
        if len > MEMORY_SIZE - start {
            return Err(Chip8Error::OutOfBounds(MEMORY_SIZE));
        }
        let mut k: usize = 0;
        while k < len
            invariant
                start + len <= MEMORY_SIZE,
                k <= len,
                out@ == self@.subrange(start as int, start + k),
            decreases len - k,
        {
            out.push(self.bytes[start + k]);
            k = k + 1;
            assert(out@ =~= self@.subrange(start as int, start + k));
        }
        Ok(out)
    }

    /// Writes `data` from `start` on. Fails with `OutOfBounds`, naming the
    /// first address past the end of memory and leaving memory alone, where
    /// the bytes would run past it.
    pub fn write_range(&mut self, start: usize, data: &[u8]) -> (r: Result<(), Chip8Error>)
        ensures
            data@.len() == 0 || start + data@.len() <= MEMORY_SIZE ==> r is Ok
                && final(self)@ == overwrite(old(self)@, start as int, data@),
            data@.len() > 0 && start + data@.len() > MEMORY_SIZE ==> r == Err::<(), Chip8Error>(
                Chip8Error::OutOfBounds(first_out(start as int) as usize),
            ) && final(self)@ == old(self)@,
    {
        if data.len() == 0 {
            assert(self@ =~= overwrite(old(self)@, start as int, data@));
            return Ok(());
        }
        if start >= MEMORY_SIZE {
            return Err(Chip8Error::OutOfBounds(start));
        }
        if data.len() > MEMORY_SIZE - start {
            return Err(Chip8Error::OutOfBounds(MEMORY_SIZE));
        }
        let mut k: usize = 0;
        assert(self@ =~= overwrite(old(self)@, start as int, data@.subrange(0, 0)));
        while k < data.len()
            invariant
                start + data@.len() <= MEMORY_SIZE,
                k <= data@.len(),
                self@ == overwrite(old(self)@, start as int, data@.subrange(0, k as int)),
            decreases data@.len() - k,
        {
            self.bytes[start + k] = data[k];
            k = k + 1;
            assert(self@ =~= overwrite(old(self)@, start as int, data@.subrange(0, k as int)));
        }
        assert(data@.subrange(0, k as int) =~= data@);
        Ok(())
    }

    /// Copies `data` into memory from `offset` on. Fails with
    /// `ProgramTooLarge`, leaving memory alone, where the bytes would run past
    /// the last address.
    pub fn load(&mut self, offset: usize, data: &[u8]) -> (r: Result<(), Chip8Error>)
        ensures
            offset + data@.len() <= MEMORY_SIZE ==> r is Ok
                && final(self)@ == overwrite(old(self)@, offset as int, data@),
            offset + data@.len() > MEMORY_SIZE ==> r == Err::<(), Chip8Error>(Chip8Error::ProgramTooLarge)
                && final(self)@ == old(self)@,
    {
        if offset > MEMORY_SIZE || data.len() > MEMORY_SIZE - offset {
            return Err(Chip8Error::ProgramTooLarge);
        }
        let r = self.write_range(offset, data);
        assert(r is Ok);
        Ok(())
    }
}

} // verus!
