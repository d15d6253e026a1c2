//! Memory: 4096 bytes with the font table at a fixed, read-only place.

use vstd::prelude::*;

verus! {

/// The number of bytes of memory.
pub const MEMORY_SIZE: usize = 4096;

/// The address at which programs are loaded and start to run.
pub const PROGRAM_START: u16 = 0x200;

/// The address of the first byte of the font table.
pub const FONT_START: u16 = 0x050;

/// The number of bytes in the font table: sixteen glyphs of five rows.
pub const FONT_SIZE: usize = 80;

/// The largest program that fits between `PROGRAM_START` and the end of memory.
pub const MAX_PROGRAM_SIZE: usize = 3584;

/// The glyphs of the hexadecimal digits `0` to `F`, five bytes each, one
/// byte per row with the leftmost pixel in the most significant bit.
pub const FONT: [u8; 80] = [
    0xE0, 0xA0, 0xA0, 0xA0, 0xE0,
    0x40, 0x40, 0x40, 0x40, 0x40,
    0xE0, 0x20, 0xE0, 0x80, 0xE0,
    0xE0, 0x20, 0xE0, 0x20, 0xE0,
    0x80, 0xA0, 0xA0, 0xE0, 0x20,
    0xE0, 0x80, 0xE0, 0x20, 0xE0,
    0xE0, 0x80, 0xE0, 0xA0, 0xE0,
    0xE0, 0x20, 0x20, 0x20, 0x20,
    0xE0, 0xA0, 0xE0, 0xA0, 0xE0,
    0xE0, 0xA0, 0xE0, 0x20, 0xE0,
    0xE0, 0xA0, 0xE0, 0xA0, 0xA0,
    0xC0, 0xA0, 0xE0, 0xA0, 0xC0,
    0xE0, 0x80, 0x80, 0x80, 0xE0,
    0xC0, 0xA0, 0xA0, 0xA0, 0xC0,
    0xE0, 0x80, 0xE0, 0x80, 0xE0,
    0xE0, 0x80, 0xC0, 0x80, 0x80,
];

/// Why a memory access was refused.
#[derive(Debug, Clone, Copy, PartialEq, Eq, Structural)]
pub enum MemoryError {
    /// The access would reach beyond the last byte of memory.
    OutOfBounds,
    /// The access would write into the font table.
    ReadOnly,
}

/// Why a program was not loaded.
#[derive(Debug, Clone, Copy, PartialEq, Eq, Structural)]
pub enum LoadError {
    /// The program is longer than `MAX_PROGRAM_SIZE` bytes.
    ProgramTooLarge,
}

/// Whether the `len` bytes from `start` on overlap the font table.
pub open spec fn touches_font(start: int, len: int) -> bool {
    len > 0 && start < FONT_START + FONT_SIZE && start + len > FONT_START
}

/// Why `len` bytes cannot be written from `start` on, if they cannot:
/// reaching beyond the end of memory comes first, the font table second.
pub open spec fn write_error(start: int, len: int) -> Option<MemoryError> {
    if start + len > MEMORY_SIZE {
        Some(MemoryError::OutOfBounds)
    } else if touches_font(start, len) {
        Some(MemoryError::ReadOnly)
    } else {
        None
    }
}

/// The font table stands at `FONT_START` in `mem`.
pub open spec fn font_in_place(mem: Seq<u8>) -> bool {
    forall|i: int| 0 <= i < FONT_SIZE ==> mem[FONT_START + i] == #[trigger] FONT@[i]
}

/// Memory as it is when the machine is switched on: the font table at
/// `FONT_START`, zero everywhere else.
pub open spec fn boot_memory() -> Seq<u8> {
    Seq::new(
        MEMORY_SIZE as nat,
        |a: int|
            if FONT_START <= a < FONT_START + FONT_SIZE {
                FONT@[a - FONT_START]
            } else {
                0u8
            },
    )
}

/// `mem` with `bytes` copied in from address `start` on.
pub open spec fn overwritten(mem: Seq<u8>, start: int, bytes: Seq<u8>) -> Seq<u8> {
    Seq::new(
        mem.len(),
        |a: int|
            if start <= a < start + bytes.len() {
                bytes[a - start]
            } else {
                mem[a]
            },
    )
}

/// `mem` with `program` copied to `PROGRAM_START`.
pub open spec fn with_program(mem: Seq<u8>, program: Seq<u8>) -> Seq<u8> {
    overwritten(mem, PROGRAM_START as int, program)
}

/// The machine's memory. Its view is the sequence of its 4096 bytes.
#[derive(Debug)]
pub struct Memory {
    bytes: [u8; 4096],
}

impl View for Memory {
    type V = Seq<u8>;

    closed spec fn view(&self) -> Seq<u8> {
        self.bytes@
    }
}

impl Memory {
    /// What holds of every memory: the font table is in place.
    #[verifier::type_invariant]
    pub closed spec fn inv(self) -> bool {
        font_in_place(self.bytes@)
    }

    /// What the invariant says of the view.
    pub proof fn lemma_inv(self)
        requires
            self.inv(),
        ensures
            self@.len() == MEMORY_SIZE,
            font_in_place(self@),
    {
    }

    /// Memory as it is when the machine is switched on.
    pub fn new() -> (m: Self)
        ensures
            m@ == boot_memory(),
    {
        let mut bytes = [0u8; 4096];
        let mut i: usize = 0;
        while i < FONT_SIZE
            invariant
                i <= FONT_SIZE,
                forall|a: int| 0 <= a < MEMORY_SIZE ==> #[trigger] bytes@[a] == if FONT_START <= a
                    < FONT_START + i {
                    FONT@[a - FONT_START]
                } else {
                    0u8
                },
            decreases FONT_SIZE - i,
        {
            bytes[i + 0x050] = FONT[i];
            i = i + 1;
        }
        assert(bytes@ =~= boot_memory());
        assert(font_in_place(bytes@)) by {
            assert forall|k: int| 0 <= k < FONT_SIZE implies bytes@[FONT_START + k]
                == #[trigger] FONT@[k] by {}
        }
        Memory { bytes }
    }

    /// The byte at `addr`, unless `addr` lies beyond memory.
    pub fn read(&self, addr: usize) -> (r: Result<u8, MemoryError>)
        ensures
            addr < MEMORY_SIZE ==> r == Ok::<u8, MemoryError>(self@[addr as int]),
            addr >= MEMORY_SIZE ==> r == Err::<u8, MemoryError>(MemoryError::OutOfBounds),
    {
        if addr < MEMORY_SIZE {
            Ok(self.bytes[addr])
        } else {
            Err(MemoryError::OutOfBounds)
        }
    }

    /// Whether `len` bytes may be written from `start` on.
    pub fn check_write(&self, start: usize, len: usize) -> (r: Result<(), MemoryError>)
        ensures
            r == match write_error(start as int, len as int) {
                Some(e) => Err::<(), MemoryError>(e),
                None => Ok::<(), MemoryError>(()),
            },
    {
        if start > MEMORY_SIZE || len > MEMORY_SIZE - start {
            Err(MemoryError::OutOfBounds)
        } else if len > 0 && start < 0x050 + FONT_SIZE && start + len > 0x050 {
            Err(MemoryError::ReadOnly)
        } else {
            Ok(())
        }
    }

    /// Copies `bytes` in from `start` on. The caller has made sure that they
    /// fit and stay clear of the font table.
    fn copy_in(&mut self, start: usize, bytes: &[u8])
        requires
            start + bytes@.len() <= MEMORY_SIZE,
            !touches_font(start as int, bytes@.len() as int),
        ensures
            final(self)@ == overwritten(old(self)@, start as int, bytes@),
    {
        proof {
            use_type_invariant(&*self);
        }
        let n = bytes.len();
        let mut i: usize = 0;
        while i < n
            invariant
                i <= n,
                n == bytes@.len(),
                start + n <= MEMORY_SIZE,
                !touches_font(start as int, n as int),
                font_in_place(old(self).bytes@),
                forall|a: int|
                    0 <= a < MEMORY_SIZE ==> #[trigger] self.bytes@[a] == if start <= a < start + i {
                        bytes@[a - start]
                    } else {
                        old(self).bytes@[a]
                    },
            decreases n - i,
        {
            self.bytes[start + i] = bytes[i];
            assert(font_in_place(self.bytes@)) by {
                assert forall|k: int| 0 <= k < FONT_SIZE implies self.bytes@[FONT_START + k]
                    == #[trigger] FONT@[k] by {
                    assert(old(self).bytes@[FONT_START + k] == FONT@[k]);
                }
            }
            i = i + 1;
        }
        assert(self.bytes@ =~= overwritten(old(self).bytes@, start as int, bytes@));
    }

    /// Stores `bytes` from `start` on, all or nothing: if they would reach
    /// beyond memory or into the font table, nothing is written.
    pub fn store(&mut self, start: usize, bytes: &[u8]) -> (r: Result<(), MemoryError>)
        ensures
            r == match write_error(start as int, bytes@.len() as int) {
                Some(e) => Err::<(), MemoryError>(e),
                None => Ok::<(), MemoryError>(()),
            },
            final(self)@ == if r is Ok {
                overwritten(old(self)@, start as int, bytes@)
            } else {
                old(self)@
            },
    {
        match self.check_write(start, bytes.len()) {
            Err(e) => Err(e),
            Ok(()) => {
                self.copy_in(start, bytes);
                Ok(())
            },
        }
    }

    /// The `len` bytes from `start` on, unless they reach beyond memory.
    pub fn span(&self, start: usize, len: usize) -> (r: Result<&[u8], MemoryError>)
        ensures
            match r {
                Ok(s) => start + len <= MEMORY_SIZE && s@ == self@.subrange(
                    start as int,
                    start + len,
                ),
                Err(e) => start + len > MEMORY_SIZE && e == MemoryError::OutOfBounds,
            },
    {
        if start > MEMORY_SIZE || len > MEMORY_SIZE - start {
            Err(MemoryError::OutOfBounds)
        } else {
            Ok(vstd::slice::slice_subrange(self.bytes.as_slice(), start, start + len))
        }
    }

    /// Copies `program` to `PROGRAM_START`, unless it is too long, in which
    /// case nothing changes.
    pub fn load(&mut self, program: &[u8]) -> (r: Result<(), LoadError>)
        ensures
            program@.len() <= MAX_PROGRAM_SIZE ==> r == Ok::<(), LoadError>(()) && final(self)@
                == with_program(old(self)@, program@),
            program@.len() > MAX_PROGRAM_SIZE ==> r == Err::<(), LoadError>(
                LoadError::ProgramTooLarge,
            ) && final(self)@ == old(self)@,
    {
        if program.len() > MAX_PROGRAM_SIZE {
            return Err(LoadError::ProgramTooLarge);
        }
        self.copy_in(0x200, program);
        Ok(())
    }
}

} // verus!
