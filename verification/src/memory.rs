//! The byte-addressable address space: font storage at a fixed low
//! address, a ROM region from `ROM_START` to the end, and single-byte
//! reads during execution.

use vstd::prelude::*;

verus! {

/// Size of the address space in bytes; addresses are 12-bit values.
pub const MEM_SIZE: usize = 4096;

/// First address of the ROM region; everything below it is reserved for
/// the interpreter and the font table.
pub const ROM_START: usize = 0x200;

/// First address of the built-in glyph font table.
pub const FONT_START: usize = 0x50;

/// Sixteen glyphs of five bytes each.
pub const FONT_ARR_SIZE: usize = 80;

/// Bitmaps of the sixteen hexadecimal glyphs. Each glyph is five rows,
/// four pixels wide, stored in the high bits of its bytes.
pub const FONTS: [u8; FONT_ARR_SIZE] = [
    0xF0, 0x90, 0x90, 0x90, 0xF0, // 0
    0x20, 0x60, 0x20, 0x20, 0x70, // 1
    0xF0, 0x10, 0xF0, 0x80, 0xF0, // 2
    0xF0, 0x10, 0xF0, 0x10, 0xF0, // 3
    0x90, 0x90, 0xF0, 0x10, 0x10, // 4
    0xF0, 0x80, 0xF0, 0x10, 0xF0, // 5
    0xF0, 0x80, 0xF0, 0x90, 0xF0, // 6
    0xF0, 0x10, 0x20, 0x40, 0x40, // 7
    0xF0, 0x90, 0xF0, 0x90, 0xF0, // 8
    0xF0, 0x90, 0xF0, 0x10, 0xF0, // 9
    0xF0, 0x90, 0xF0, 0x90, 0x90, // A
    0xE0, 0x90, 0xE0, 0x90, 0xE0, // B
    0xF0, 0x80, 0x80, 0x80, 0xF0, // C
    0xE0, 0x90, 0x90, 0x90, 0xE0, // D
    0xF0, 0x80, 0xF0, 0x80, 0xF0, // E
    0xF0, 0x80, 0xF0, 0x80, 0x80, // F
];

/// The contents of a freshly constructed address space: the font table at
/// its fixed offset, zeros everywhere else.
pub open spec fn mem_init() -> Seq<u8> {
    Seq::new(
        MEM_SIZE as nat,
        |i: int|
            if FONT_START <= i < FONT_START + FONT_ARR_SIZE {
                FONTS@[i - FONT_START]
            } else {
                0u8
            },
    )
}

/// The contents after a ROM image is copied into the ROM region: the
/// image itself starting at `ROM_START`, every other byte unchanged.
pub open spec fn mem_with_rom(mem: Seq<u8>, rom: Seq<u8>) -> Seq<u8> {
    Seq::new(
        mem.len(),
        |i: int|
            if ROM_START <= i < ROM_START + rom.len() {
                rom[i - ROM_START]
            } else {
                mem[i]
            },
    )
}

/// Error reported when a ROM image cannot be loaded.
#[derive(Debug, PartialEq, Eq, Structural)]
pub enum MemError {
    /// The image does not fit between `ROM_START` and the end of the
    /// address space; memory is left unmodified.
    RomTooLarge,
}

/// The address space. Its view is the sequence of all `MEM_SIZE` bytes.
pub struct Memory {
    mem: [u8; MEM_SIZE],
}

impl View for Memory {
    type V = Seq<u8>;

    closed spec fn view(&self) -> Seq<u8> {
        self.mem@
    }
}

impl Memory {
    /// A fresh address space: the font table written once at
    /// construction, all other bytes zero.
    pub fn new() -> (m: Memory)
        ensures
            m@ == mem_init(),
    {
        let mut mem: [u8; MEM_SIZE] = [0; MEM_SIZE];
        for idx in 0..FONT_ARR_SIZE
            invariant
                forall|j: int| 0 <= j < idx ==> mem@[FONT_START + j] == FONTS@[j],
                forall|j: int|
                    0 <= j < MEM_SIZE && !(FONT_START <= j < FONT_START + idx) ==> mem@[j] == 0u8,
        {
            mem[FONT_START + idx] = FONTS[idx];
        }
        let m = Memory { mem };
        proof {
            assert(m@ =~= mem_init());
        }
        m
    }

    /// Copies `data` into the ROM region, rejecting images larger than
    /// the space above `ROM_START`. On failure nothing is written.
    pub fn load_rom(&mut self, data: &Vec<u8>) -> (r: Result<(), MemError>)
        ensures
            data@.len() <= MEM_SIZE - ROM_START ==> r == Ok::<(), MemError>(())
                && final(self)@ == mem_with_rom(old(self)@, data@),
            data@.len() > MEM_SIZE - ROM_START ==> r == Err::<(), MemError>(MemError::RomTooLarge)
                && final(self)@ == old(self)@,
    {
        if data.len() > MEM_SIZE - ROM_START {
            return Err(MemError::RomTooLarge);
        }
        let len = data.len();
        for idx in 0..len
            invariant
                len == data@.len() <= MEM_SIZE - ROM_START,
                forall|j: int| 0 <= j < idx ==> self.mem@[ROM_START + j] == data@[j],
                forall|j: int|
                    0 <= j < MEM_SIZE && !(ROM_START <= j < ROM_START + idx)
                        ==> self.mem@[j] == old(self).mem@[j],
        {
            self.mem[ROM_START + idx] = data[idx];
        }
        proof {
            assert(self@ =~= mem_with_rom(old(self)@, data@));
        }
        Ok(())
    }

    /// Reads the byte at `addr`. Addresses at or above `MEM_SIZE` would
    /// indicate an interpreter bug, so they are ruled out rather than
    /// given a value.
    pub fn fetch_byte(&self, addr: u16) -> (b: u8)
        requires
            addr < MEM_SIZE,
        ensures
            b == self@[addr as int],
    {
        self.mem[addr as usize]
    }
}

/// After loading a ROM image into a fresh address space, the ROM region
/// reads back exactly the image, and everything below `ROM_START` is
/// still zeros up to the font table, the font table itself, and zeros
/// again; the space past the image stays zero.
pub proof fn lemma_load_rom_readback(rom: Seq<u8>)
    requires
        rom.len() <= MEM_SIZE - ROM_START,
    ensures
        forall|i: int|
            0 <= i < rom.len() ==> mem_with_rom(mem_init(), rom)[ROM_START + i] == rom[i],
        forall|i: int| 0 <= i < FONT_START ==> mem_with_rom(mem_init(), rom)[i] == 0u8,
        forall|i: int|
            0 <= i < FONT_ARR_SIZE ==> mem_with_rom(mem_init(), rom)[FONT_START + i] == FONTS@[i],
        forall|i: int|
            FONT_START + FONT_ARR_SIZE <= i < ROM_START ==> mem_with_rom(mem_init(), rom)[i]
                == 0u8,
        forall|i: int|
            ROM_START + rom.len() <= i < MEM_SIZE ==> mem_with_rom(mem_init(), rom)[i] == 0u8,
{
}

} // verus!
