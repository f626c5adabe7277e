//! The interpreter: register file, program counter, index register,
//! timers, framebuffer, and the fetch-decode-execute cycle.

use vstd::prelude::*;

verus! {

use crate::memory::{mem_init, mem_with_rom, MemError, Memory, MEM_SIZE, ROM_START};
use crate::traits::{BASE_HEIGHT, BASE_WIDTH, BUFFER_SIZE};

/// One decoded instruction. The top nibble of the word selects the
/// variant; the remaining twelve bits carry the operands. A top nibble
/// with no defined handler decodes to `Unknown`, never to a failure.
#[derive(Clone, Copy, Debug, PartialEq, Eq, Structural)]
pub enum Instr {
    /// Family 0x0: clear the framebuffer.
    ClearScreen,
    /// Family 0x1: set the program counter to the low twelve bits.
    Jump { addr: u16 },
    /// Family 0x6: set register `x` to the low byte.
    SetVx { x: u8, byte: u8 },
    /// Family 0x7: add the low byte to register `x`, wrapping modulo 256.
    AddVx { x: u8, byte: u8 },
    /// Family 0xA: set the index register to the low twelve bits.
    SetI { addr: u16 },
    /// Family 0xD: draw a sprite of `rows` rows at the position held by
    /// registers `x` and `y`.
    Draw { x: u8, y: u8, rows: u8 },
    /// Any other family: reported, executed as a no-op.
    Unknown { family: u8 },
}

/// The opcode family: the top four bits of the instruction word.
pub open spec fn op_family(w: u16) -> u16 {
    w / 0x1000
}

/// The first operand nibble, bits 8 to 11.
pub open spec fn nib_x(w: u16) -> u16 {
    (w / 0x100) % 0x10
}

/// The second operand nibble, bits 4 to 7.
pub open spec fn nib_y(w: u16) -> u16 {
    (w / 0x10) % 0x10
}

/// The third operand nibble, bits 0 to 3.
pub open spec fn nib_n(w: u16) -> u16 {
    w % 0x10
}

/// The 8-bit immediate: the low byte of the instruction word.
pub open spec fn imm_byte(w: u16) -> u16 {
    w % 0x100
}

/// The 12-bit address immediate: the low three nibbles.
pub open spec fn imm_addr(w: u16) -> u16 {
    w % 0x1000
}

/// The instruction denoted by a 16-bit word.
pub open spec fn spec_decode(w: u16) -> Instr {
    let fam = op_family(w);
    if fam == 0x0 {
        Instr::ClearScreen
    } else if fam == 0x1 {
        Instr::Jump { addr: imm_addr(w) }
    } else if fam == 0x6 {
        Instr::SetVx { x: nib_x(w) as u8, byte: imm_byte(w) as u8 }
    } else if fam == 0x7 {
        Instr::AddVx { x: nib_x(w) as u8, byte: imm_byte(w) as u8 }
    } else if fam == 0xA {
        Instr::SetI { addr: imm_addr(w) }
    } else if fam == 0xD {
        Instr::Draw { x: nib_x(w) as u8, y: nib_y(w) as u8, rows: nib_n(w) as u8 }
    } else {
        Instr::Unknown { family: fam as u8 }
    }
}

/// Splits an instruction word into its family and operand fields.
pub fn decode(w: u16) -> (instr: Instr)
    ensures
        instr == spec_decode(w),
{
    proof {
        assert(w >> 12 == w / 0x1000) by (bit_vector);
        assert((w >> 8) & 0xF == (w / 0x100) % 0x10) by (bit_vector);
        assert((w >> 4) & 0xF == (w / 0x10) % 0x10) by (bit_vector);
        assert(w & 0xFF == w % 0x100) by (bit_vector);
        assert(w & 0xF == w % 0x10) by (bit_vector);
        assert(w & 0xFFF == w % 0x1000) by (bit_vector);
    }
    let fam = w >> 12;
    match fam {
        0x0 => Instr::ClearScreen,
        0x1 => Instr::Jump { addr: w & 0xFFF },
        0x6 => Instr::SetVx { x: ((w >> 8) & 0xF) as u8, byte: (w & 0xFF) as u8 },
        0x7 => Instr::AddVx { x: ((w >> 8) & 0xF) as u8, byte: (w & 0xFF) as u8 },
        0xA => Instr::SetI { addr: w & 0xFFF },
        0xD => Instr::Draw {
            x: ((w >> 8) & 0xF) as u8,
            y: ((w >> 4) & 0xF) as u8,
            rows: (w & 0xF) as u8,
        },
        _ => Instr::Unknown { family: fam as u8 },
    }
}

/// The big-endian instruction word fetched at `pc`: the byte at `pc` is
/// the high byte, the byte at the following address (wrapped into the
/// address space) the low byte.
pub open spec fn word_at(mem: Seq<u8>, pc: u16) -> u16
    recommends
        mem.len() == MEM_SIZE,
        pc < MEM_SIZE,
{
    (mem[pc as int] * 256 + mem[(pc as int + 1) % (MEM_SIZE as int)]) as u16
}

/// The fetch advance: the program counter moves past the two bytes just
/// read, wrapped into the address space.
pub open spec fn pc_plus_2(pc: u16) -> u16 {
    ((pc as int + 2) % (MEM_SIZE as int)) as u16
}

/// Bit `c` of a sprite byte, counted from the most significant bit: the
/// leftmost pixel of a sprite row is the top bit of its byte.
pub open spec fn sprite_bit(b: u8, c: int) -> u8
    recommends
        0 <= c < 8,
{
    (b >> ((7 - c) as u8)) & 1
}

/// The framebuffer part-way through a sprite draw at origin `(x0, y0)`:
/// the first `rows_done` sprite rows applied whole, then the first
/// `cols_done` columns of row `rows_done`. Row `r` comes from the byte at
/// `ireg + r`, wrapped into the address space; a cell at row `yi`, column
/// `xi` of the frame is hit when it lies within the applied part, and is
/// XORed with the sprite bit for its column. Sprite rows below the frame
/// and columns to the right of it fall outside every cell and so are
/// clipped, not wrapped.
pub open spec fn draw_upto(
    fb: Seq<u8>,
    mem: Seq<u8>,
    ireg: u16,
    x0: int,
    y0: int,
    rows_done: int,
    cols_done: int,
) -> Seq<u8> {
    Seq::new(
        fb.len(),
        |i: int|
            {
                let r = i / (BASE_WIDTH as int) - y0;
                let c = i % (BASE_WIDTH as int) - x0;
                if 0 <= c < 8 && 0 <= r && (r < rows_done || (r == rows_done && c < cols_done)) {
                    fb[i] ^ sprite_bit(mem[(ireg + r) % (MEM_SIZE as int)], c)
                } else {
                    fb[i]
                }
            },
    )
}

/// The framebuffer after a whole sprite of `rows` rows is drawn at
/// origin `(x0, y0)`.
pub open spec fn spec_draw(
    fb: Seq<u8>,
    mem: Seq<u8>,
    ireg: u16,
    x0: int,
    y0: int,
    rows: int,
) -> Seq<u8> {
    draw_upto(fb, mem, ireg, x0, y0, rows, 0)
}

/// Error reported by a tick that met an instruction word whose family
/// has no handler. The tick is still consumed: the program counter keeps
/// its fetch advance, everything else is untouched.
#[derive(Clone, Copy, Debug, PartialEq, Eq, Structural)]
pub enum ExecError {
    UnknownOpcode { word: u16 },
}

/// The interpreter state as contracts see it: plain values and byte
/// sequences in place of the executable arrays.
#[verifier::ext_equal]
pub struct Chip8View {
    /// The sixteen general-purpose registers.
    pub vx: Seq<u8>,
    /// The index register, a base address for sprite reads.
    pub mem_reg: u16,
    pub sound_timer: u8,
    pub delay_timer: u8,
    pub pc: u16,
    /// The address space.
    pub mem: Seq<u8>,
    /// The framebuffer, row-major, one byte per cell.
    pub fb: Seq<u8>,
}

impl Chip8View {
    /// Well-formedness: the sizes the data model fixes, program counter
    /// and index register inside the address space, and every
    /// framebuffer cell holding a single bit of display state.
    pub open spec fn wf(self) -> bool {
        &&& self.vx.len() == 16
        &&& self.mem.len() == MEM_SIZE
        &&& self.fb.len() == BUFFER_SIZE
        &&& self.pc < MEM_SIZE
        &&& self.mem_reg < MEM_SIZE
        &&& forall|i: int| 0 <= i < self.fb.len() ==> self.fb[i] <= 1
    }
}

/// The effect of one decoded instruction on a state whose program
/// counter has already taken its fetch advance. `Unknown` leaves the
/// state untouched.
pub open spec fn spec_execute(s: Chip8View, instr: Instr) -> Chip8View
    recommends
        s.wf(),
{
    match instr {
        Instr::ClearScreen => Chip8View { fb: blank_frame(), ..s },
        Instr::Jump { addr } => Chip8View { pc: addr, ..s },
        Instr::SetVx { x, byte } => Chip8View { vx: s.vx.update(x as int, byte), ..s },
        Instr::AddVx { x, byte } => Chip8View {
            vx: s.vx.update(x as int, ((s.vx[x as int] + byte) % 256) as u8),
            ..s
        },
        Instr::SetI { addr } => Chip8View { mem_reg: addr, ..s },
        Instr::Draw { x, y, rows } => Chip8View {
            fb: spec_draw(
                s.fb,
                s.mem,
                s.mem_reg,
                s.vx[x as int] as int % (BASE_WIDTH as int),
                s.vx[y as int] as int % (BASE_HEIGHT as int),
                rows as int,
            ),
            ..s
        },
        Instr::Unknown { .. } => s,
    }
}

/// Whether executing an instruction counts as mutating the framebuffer:
/// exactly the clear and draw families, which is what a tick reports so
/// the host can decide whether to repaint.
pub open spec fn changes_fb(instr: Instr) -> bool {
    instr is ClearScreen || instr is Draw
}

/// The state after one whole tick: fetch the word at `pc`, advance the
/// program counter past it, then execute the decoded instruction.
pub open spec fn spec_tick_state(s: Chip8View) -> Chip8View
    recommends
        s.wf(),
{
    spec_execute(
        Chip8View { pc: pc_plus_2(s.pc), ..s },
        spec_decode(word_at(s.mem, s.pc)),
    )
}

/// What a tick reports for the instruction word it fetched: an unknown
/// family is the one error, every handled family answers whether the
/// framebuffer was mutated.
pub open spec fn spec_tick_result(w: u16) -> Result<bool, ExecError> {
    match spec_decode(w) {
        Instr::Unknown { .. } => Err(ExecError::UnknownOpcode { word: w }),
        instr => Ok(changes_fb(instr)),
    }
}

/// Coordinates of a framebuffer cell: a cell index splits into its row
/// `i / 64` and column `i % 64`, and recombines to the index itself.
proof fn lemma_cell_coords(i: int)
    requires
        0 <= i < BUFFER_SIZE,
    ensures
        0 <= i / (BASE_WIDTH as int) < BASE_HEIGHT,
        0 <= i % (BASE_WIDTH as int) < BASE_WIDTH,
        i == (i / (BASE_WIDTH as int)) * (BASE_WIDTH as int) + i % (BASE_WIDTH as int),
{
    vstd::arithmetic::div_mod::lemma_fundamental_div_mod(i, BASE_WIDTH as int);
    vstd::arithmetic::div_mod::lemma_mod_bound(i, BASE_WIDTH as int);
}

/// The cell index of row `yi`, column `xi`, and its decomposition back
/// into those coordinates.
proof fn lemma_cell_index(yi: int, xi: int)
    requires
        0 <= yi < BASE_HEIGHT,
        0 <= xi < BASE_WIDTH,
    ensures
        0 <= yi * (BASE_WIDTH as int) + xi < BUFFER_SIZE,
        (yi * (BASE_WIDTH as int) + xi) / (BASE_WIDTH as int) == yi,
        (yi * (BASE_WIDTH as int) + xi) % (BASE_WIDTH as int) == xi,
{
    vstd::arithmetic::div_mod::lemma_fundamental_div_mod_converse(
        yi * (BASE_WIDTH as int) + xi,
        BASE_WIDTH as int,
        yi,
        xi,
    );
}

/// A sprite bit is a single bit.
proof fn lemma_sprite_bit_le_one(b: u8, c: int)
    requires
        0 <= c < 8,
    ensures
        sprite_bit(b, c) <= 1,
{
    let k = (7 - c) as u8;
    assert((b >> k) & 1 <= 1) by (bit_vector);
}

/// XOR undoes itself, and XOR of single bits is a single bit.
proof fn lemma_xor_bits(a: u8, b: u8)
    ensures
        (a ^ b) ^ b == a,
        a <= 1 && b <= 1 ==> (a ^ b) <= 1,
{
    assert((a ^ b) ^ b == a) by (bit_vector);
    assert(a <= 1 && b <= 1 ==> (a ^ b) <= 1) by (bit_vector);
}

/// Sprite drawing keeps every framebuffer cell a single bit.
proof fn lemma_draw_keeps_bits(
    fb: Seq<u8>,
    mem: Seq<u8>,
    ireg: u16,
    x0: int,
    y0: int,
    rows_done: int,
    cols_done: int,
)
    requires
        forall|i: int| 0 <= i < fb.len() ==> fb[i] <= 1,
    ensures
        forall|i: int|
            0 <= i < fb.len() ==> draw_upto(fb, mem, ireg, x0, y0, rows_done, cols_done)[i] <= 1,
{
    assert forall|i: int|
        0 <= i < fb.len() implies draw_upto(fb, mem, ireg, x0, y0, rows_done, cols_done)[i]
        <= 1 by {
        let r = i / (BASE_WIDTH as int) - y0;
        let c = i % (BASE_WIDTH as int) - x0;
        if 0 <= c < 8 && 0 <= r && (r < rows_done || (r == rows_done && c < cols_done)) {
            let b = sprite_bit(mem[(ireg + r) % (MEM_SIZE as int)], c);
            lemma_sprite_bit_le_one(mem[(ireg + r) % (MEM_SIZE as int)], c);
            lemma_xor_bits(fb[i], b);
        }
    }
}

/// The register file, index register, timers, program counter, address
/// space, and framebuffer, driven one instruction per tick.
pub struct Chip8 {
    vx: [u8; 16],
    mem_reg: u16,
    sound_timer: u8,
    delay_timer: u8,
    pc: u16,
    mem: Memory,
    display_buffer: [u8; BUFFER_SIZE],
}

impl View for Chip8 {
    type V = Chip8View;

    closed spec fn view(&self) -> Chip8View {
        Chip8View {
            vx: self.vx@,
            mem_reg: self.mem_reg,
            sound_timer: self.sound_timer,
            delay_timer: self.delay_timer,
            pc: self.pc,
            mem: self.mem@,
            fb: self.display_buffer@,
        }
    }
}

/// A framebuffer with every cell dark.
pub open spec fn blank_frame() -> Seq<u8> {
    Seq::new(BUFFER_SIZE as nat, |i: int| 0u8)
}

/// The state of a freshly constructed interpreter: everything zero but
/// for the font table in memory.
pub open spec fn spec_new_state() -> Chip8View {
    Chip8View {
        vx: Seq::new(16, |i: int| 0u8),
        mem_reg: 0,
        sound_timer: 0,
        delay_timer: 0,
        pc: 0,
        mem: mem_init(),
        fb: blank_frame(),
    }
}

impl Chip8 {
    /// A fresh interpreter over a fresh address space.
    pub fn new() -> (c: Chip8)
        ensures
            c@ == spec_new_state(),
            c@.wf(),
    {
        let c = Chip8 {
            vx: [0; 16],
            mem_reg: 0,
            sound_timer: 0,
            delay_timer: 0,
            pc: 0,
            mem: Memory::new(),
            display_buffer: [0; BUFFER_SIZE],
        };
        proof {
            assert(c@ =~= spec_new_state());
        }
        c
    }

    /// Returns registers, timers, and the program counter to their
    /// startup values, the program counter at the start of the ROM
    /// region. Neither memory nor the framebuffer is touched.
    pub fn reset(&mut self)
        ensures
            final(self)@ == (Chip8View {
                vx: Seq::new(16, |i: int| 0u8),
                mem_reg: 0,
                sound_timer: 0,
                delay_timer: 0,
                pc: ROM_START as u16,
                mem: old(self)@.mem,
                fb: old(self)@.fb,
            }),
            old(self)@.wf() ==> final(self)@.wf(),
    {
        self.vx = [0; 16];
        self.mem_reg = 0;
        self.sound_timer = 0;
        self.delay_timer = 0;
        self.pc = ROM_START as u16;
        proof {
            assert(self@ =~= (Chip8View {
                vx: Seq::new(16, |i: int| 0u8),
                mem_reg: 0,
                sound_timer: 0,
                delay_timer: 0,
                pc: ROM_START as u16,
                mem: old(self)@.mem,
                fb: old(self)@.fb,
            }));
        }
    }

    /// Copies a ROM image into the ROM region; rejected images leave the
    /// interpreter exactly as it was.
    pub fn load_rom(&mut self, data: &Vec<u8>) -> (r: Result<(), MemError>)
        ensures
            data@.len() <= MEM_SIZE - ROM_START ==> r == Ok::<(), MemError>(())
                && final(self)@ == (Chip8View {
                mem: mem_with_rom(old(self)@.mem, data@),
                ..old(self)@
            }),
            data@.len() > MEM_SIZE - ROM_START ==> r == Err::<(), MemError>(MemError::RomTooLarge)
                && final(self)@ == old(self)@,
            old(self)@.wf() ==> final(self)@.wf(),
    {
        let r = self.mem.load_rom(data);
        proof {
            if data@.len() <= MEM_SIZE - ROM_START {
                assert(self@ =~= (Chip8View { mem: mem_with_rom(old(self)@.mem, data@), ..old(self)@ }));
            } else {
                assert(self@ =~= old(self)@);
            }
        }
        r
    }

    /// Reads the two bytes at the program counter and composes them into
    /// one big-endian instruction word. The program counter itself is
    /// not moved here.
    fn fetch_next_instruction(&self) -> (w: u16)
        requires
            self@.wf(),
        ensures
            w == word_at(self@.mem, self@.pc),
    {
        let valh = self.mem.fetch_byte(self.pc);
        let vall = self.mem.fetch_byte((self.pc + 1) % (MEM_SIZE as u16));
        let w = ((valh as u16) << 8) | (vall as u16);
        proof {
            let h = valh as u16;
            let l = vall as u16;
            assert(h < 256 && l < 256 ==> ((h << 8) | l) == h * 256 + l) by (bit_vector);
        }
        w
    }

    /// One tick: fetches the word at the program counter, advances past
    /// it, then decodes and executes. Returns whether the framebuffer
    /// was mutated, so the host can decide whether to repaint; a word
    /// with an unhandled family is reported instead, and the tick is
    /// consumed as a no-op rather than a failure.
    pub fn tick(&mut self) -> (r: Result<bool, ExecError>)
        requires
            old(self)@.wf(),
        ensures
            final(self)@ == spec_tick_state(old(self)@),
            r == spec_tick_result(word_at(old(self)@.mem, old(self)@.pc)),
            final(self)@.wf(),
    {
        let instruction = self.fetch_next_instruction();
        self.pc = (self.pc + 2) % (MEM_SIZE as u16);
        proof {
            assert(self@ =~= (Chip8View { pc: pc_plus_2(old(self)@.pc), ..old(self)@ }));
        }
        let op = decode(instruction);
        match op {
            Instr::ClearScreen => {
                self.display_buffer = [0; BUFFER_SIZE];
                proof {
                    assert(self@.fb =~= blank_frame());
                    assert(self@ =~= spec_tick_state(old(self)@));
                }
                Ok(true)
            },
            Instr::Jump { addr } => {
                self.pc = addr;
                proof {
                    assert(self@ =~= spec_tick_state(old(self)@));
                }
                Ok(false)
            },
            Instr::SetVx { x, byte } => {
                self.vx[x as usize] = byte;
                proof {
                    assert(self@ =~= spec_tick_state(old(self)@));
                }
                Ok(false)
            },
            Instr::AddVx { x, byte } => {
                let v = self.vx[x as usize];
                self.vx[x as usize] = ((v as u16 + byte as u16) % 256) as u8;
                proof {
                    assert(self@ =~= spec_tick_state(old(self)@));
                }
                Ok(false)
            },
            Instr::SetI { addr } => {
                self.mem_reg = addr;
                proof {
                    assert(self@ =~= spec_tick_state(old(self)@));
                }
                Ok(false)
            },
            Instr::Draw { x, y, rows } => {
                self.calculate_display_buffer(x, y, rows);
                proof {
                    assert(self@ =~= spec_tick_state(old(self)@));
                }
                Ok(true)
            },
            Instr::Unknown { .. } => {
                proof {
                    assert(self@ =~= spec_tick_state(old(self)@));
                }
                Err(ExecError::UnknownOpcode { word: instruction })
            },
        }
    }

    /// Draws a sprite of `rows` rows, read from memory starting at the
    /// index register, at the origin held in registers `vx_idx` and
    /// `vy_idx`. The origin wraps into the frame; sprite columns past the
    /// right edge and rows past the bottom edge are clipped.
    fn calculate_display_buffer(&mut self, vx_idx: u8, vy_idx: u8, rows: u8)
        requires
            old(self)@.wf(),
            vx_idx < 16,
            vy_idx < 16,
            rows <= 15,
        ensures
            final(self)@ == (Chip8View {
                fb: spec_draw(
                    old(self)@.fb,
                    old(self)@.mem,
                    old(self)@.mem_reg,
                    old(self)@.vx[vx_idx as int] as int % (BASE_WIDTH as int),
                    old(self)@.vx[vy_idx as int] as int % (BASE_HEIGHT as int),
                    rows as int,
                ),
                ..old(self)@
            }),
            final(self)@.wf(),
    {
        let ghost s0 = self@;
        let x: u16 = (self.vx[vx_idx as usize] % 64) as u16;
        let y: u16 = (self.vx[vy_idx as usize] % 32) as u16;
        let mut y_off: u16 = 0;
        while y_off < rows as u16 && y + y_off < BASE_HEIGHT as u16
            invariant
                s0.wf(),
                self@.vx == s0.vx,
                self@.mem == s0.mem,
                self@.mem_reg == s0.mem_reg,
                self@.pc == s0.pc,
                self@.sound_timer == s0.sound_timer,
                self@.delay_timer == s0.delay_timer,
                vx_idx < 16,
                vy_idx < 16,
                x == s0.vx[vx_idx as int] as int % (BASE_WIDTH as int),
                y == s0.vx[vy_idx as int] as int % (BASE_HEIGHT as int),
                y_off <= rows <= 15,
                self@.fb == draw_upto(
                    s0.fb,
                    s0.mem,
                    s0.mem_reg,
                    x as int,
                    y as int,
                    y_off as int,
                    0,
                ),
            decreases rows as int - y_off as int,
        {
            let mem_location: u16 = (self.mem_reg + y_off) % (MEM_SIZE as u16);
            let byte: u8 = self.mem.fetch_byte(mem_location);
            let mut x_off: u16 = 0;
            while x_off < 8 && x + x_off < BASE_WIDTH as u16
                invariant
                    s0.wf(),
                    self@.vx == s0.vx,
                    self@.mem == s0.mem,
                    self@.mem_reg == s0.mem_reg,
                    self@.pc == s0.pc,
                    self@.sound_timer == s0.sound_timer,
                    self@.delay_timer == s0.delay_timer,
                    x < 64,
                    y < 32,
                    y + y_off < 32,
                    y_off < rows <= 15,
                    x_off <= 8,
                    byte == s0.mem[(s0.mem_reg + y_off) as int % (MEM_SIZE as int)],
                    self@.fb == draw_upto(
                        s0.fb,
                        s0.mem,
                        s0.mem_reg,
                        x as int,
                        y as int,
                        y_off as int,
                        x_off as int,
                    ),
                decreases 8 - x_off as int,
            {
                let buffer_index: usize = ((y + y_off) * (BASE_WIDTH as u16) + x + x_off) as usize;
                let bit_val: u8 = (byte >> ((7 - x_off) as u8)) & 1;
                proof {
                    lemma_cell_index(y as int + y_off as int, x as int + x_off as int);
                }
                let cell: u8 = self.display_buffer[buffer_index];
                self.display_buffer[buffer_index] = cell ^ bit_val;
                proof {
                    let w64 = BASE_WIDTH as int;
                    let prev = draw_upto(
                        s0.fb,
                        s0.mem,
                        s0.mem_reg,
                        x as int,
                        y as int,
                        y_off as int,
                        x_off as int,
                    );
                    let next = draw_upto(
                        s0.fb,
                        s0.mem,
                        s0.mem_reg,
                        x as int,
                        y as int,
                        y_off as int,
                        x_off as int + 1,
                    );
                    let idx = buffer_index as int;
                    assert(bit_val == sprite_bit(byte, x_off as int));
                    assert forall|i: int| 0 <= i < s0.fb.len() implies prev.update(
                        idx,
                        (cell ^ bit_val),
                    )[i] == next[i] by {
                        lemma_cell_coords(i);
                        let r = i / w64 - y;
                        let c = i % w64 - x;
                        if i == idx {
                            assert(r == y_off && c == x_off);
                        } else {
                            assert(!(r == y_off && c == x_off));
                        }
                    }
                    assert(self@.fb =~= next);
                }
                x_off += 1;
            }
            proof {
                let prev = draw_upto(
                    s0.fb,
                    s0.mem,
                    s0.mem_reg,
                    x as int,
                    y as int,
                    y_off as int,
                    x_off as int,
                );
                let next = draw_upto(
                    s0.fb,
                    s0.mem,
                    s0.mem_reg,
                    x as int,
                    y as int,
                    y_off as int + 1,
                    0,
                );
                assert forall|i: int| 0 <= i < s0.fb.len() implies prev[i] == next[i] by {
                    lemma_cell_coords(i);
                }
                assert(self@.fb =~= next);
            }
            y_off += 1;
        }
        proof {
            let prev = draw_upto(
                s0.fb,
                s0.mem,
                s0.mem_reg,
                x as int,
                y as int,
                y_off as int,
                0,
            );
            let target = spec_draw(s0.fb, s0.mem, s0.mem_reg, x as int, y as int, rows as int);
            assert forall|i: int| 0 <= i < s0.fb.len() implies prev[i] == target[i] by {
                lemma_cell_coords(i);
            }
            assert(self@.fb =~= target);
            assert(self@ =~= (Chip8View { fb: target, ..s0 }));
            lemma_draw_keeps_bits(s0.fb, s0.mem, s0.mem_reg, x as int, y as int, rows as int, 0);
        }
    }

    /// A copy of the framebuffer for rendering: row-major, the cell at
    /// column `x` of row `y` at index `y * 64 + x`, each cell 0 or 1.
    pub fn framebuffer(&self) -> (fb: [u8; BUFFER_SIZE])
        ensures
            fb@ == self@.fb,
    {
        self.display_buffer
    }

    /// The value of general-purpose register `x`.
    pub fn read_register(&self, x: u8) -> (v: u8)
        requires
            x < 16,
            self@.wf(),
        ensures
            v == self@.vx[x as int],
    {
        self.vx[x as usize]
    }

    /// The current program counter.
    pub fn program_counter(&self) -> (pc: u16)
        ensures
            pc == self@.pc,
    {
        self.pc
    }

    /// The current index register.
    pub fn index_register(&self) -> (i: u16)
        ensures
            i == self@.mem_reg,
    {
        self.mem_reg
    }
}

/// Executing the clear-screen family yields an all-dark framebuffer and
/// reports that the frame changed, whatever the buffer held before.
pub proof fn lemma_clear_screen_blanks_frame(s: Chip8View)
    requires
        s.wf(),
        op_family(word_at(s.mem, s.pc)) == 0x0,
    ensures
        spec_tick_state(s).fb == blank_frame(),
        forall|i: int| 0 <= i < BUFFER_SIZE ==> spec_tick_state(s).fb[i] == 0u8,
        spec_tick_result(word_at(s.mem, s.pc)) == Ok::<bool, ExecError>(true),
{
}

/// Add-immediate wraps modulo 256: with `v` the value of the operand
/// register and `k` the immediate of the word, the register afterwards
/// holds `(v + k) % 256`; every other register keeps its value.
pub proof fn lemma_add_immediate_wraps(s: Chip8View)
    requires
        s.wf(),
        op_family(word_at(s.mem, s.pc)) == 0x7,
    ensures
        ({
            let w = word_at(s.mem, s.pc);
            let x = nib_x(w) as int;
            let v = s.vx[x] as int;
            let k = imm_byte(w) as int;
            spec_tick_state(s).vx == s.vx.update(x, ((v + k) % 256) as u8)
        }),
{
}

/// The jump family sets the program counter to exactly its 12-bit
/// address operand, whatever bytes follow the instruction; nothing else
/// moves.
pub proof fn lemma_jump_sets_pc(s: Chip8View)
    requires
        s.wf(),
        op_family(word_at(s.mem, s.pc)) == 0x1,
    ensures
        spec_tick_state(s).pc == imm_addr(word_at(s.mem, s.pc)),
        spec_tick_state(s) == (Chip8View { pc: imm_addr(word_at(s.mem, s.pc)), ..s }),
{
    assert(spec_tick_state(s) =~= (Chip8View { pc: imm_addr(word_at(s.mem, s.pc)), ..s }));
}

/// Drawing a sprite twice with the same index register, origin, and
/// height restores the framebuffer: XOR is its own inverse cell by cell.
pub proof fn lemma_draw_twice_restores(
    fb: Seq<u8>,
    mem: Seq<u8>,
    ireg: u16,
    x0: int,
    y0: int,
    rows: int,
)
    ensures
        spec_draw(spec_draw(fb, mem, ireg, x0, y0, rows), mem, ireg, x0, y0, rows) == fb,
{
    let once = spec_draw(fb, mem, ireg, x0, y0, rows);
    let twice = spec_draw(once, mem, ireg, x0, y0, rows);
    assert forall|i: int| 0 <= i < fb.len() implies twice[i] == fb[i] by {
        let r = i / (BASE_WIDTH as int) - y0;
        let c = i % (BASE_WIDTH as int) - x0;
        if 0 <= c < 8 && 0 <= r && r < rows {
            lemma_xor_bits(fb[i], sprite_bit(mem[(ireg + r) % (MEM_SIZE as int)], c));
        }
    }
    assert(twice =~= fb);
}

/// Two successive ticks that fetch the same draw instruction restore the
/// framebuffer to what it held before the first, and both report that
/// the frame changed.
pub proof fn lemma_two_draw_ticks_restore_frame(s: Chip8View)
    requires
        s.wf(),
        spec_decode(word_at(s.mem, s.pc)) is Draw,
        spec_decode(word_at(spec_tick_state(s).mem, spec_tick_state(s).pc)) == spec_decode(
            word_at(s.mem, s.pc),
        ),
    ensures
        spec_tick_state(spec_tick_state(s)).fb == s.fb,
        spec_tick_result(word_at(s.mem, s.pc)) == Ok::<bool, ExecError>(true),
        spec_tick_result(word_at(spec_tick_state(s).mem, spec_tick_state(s).pc)) == Ok::<
            bool,
            ExecError,
        >(true),
{
    let s1 = spec_tick_state(s);
    match spec_decode(word_at(s.mem, s.pc)) {
        Instr::Draw { x, y, rows } => {
            lemma_draw_twice_restores(
                s.fb,
                s.mem,
                s.mem_reg,
                s.vx[x as int] as int % (BASE_WIDTH as int),
                s.vx[y as int] as int % (BASE_HEIGHT as int),
                rows as int,
            );
        },
        _ => {},
    }
}

/// A word whose family has no handler alters nothing: every register,
/// the index register, the timers, memory, and the framebuffer keep
/// their values; the program counter shows only the fetch advance.
pub proof fn lemma_unknown_opcode_is_noop(s: Chip8View)
    requires
        s.wf(),
        op_family(word_at(s.mem, s.pc)) != 0x0,
        op_family(word_at(s.mem, s.pc)) != 0x1,
        op_family(word_at(s.mem, s.pc)) != 0x6,
        op_family(word_at(s.mem, s.pc)) != 0x7,
        op_family(word_at(s.mem, s.pc)) != 0xA,
        op_family(word_at(s.mem, s.pc)) != 0xD,
    ensures
        spec_tick_state(s) == (Chip8View { pc: pc_plus_2(s.pc), ..s }),
        spec_tick_result(word_at(s.mem, s.pc)) == Err::<bool, ExecError>(
            ExecError::UnknownOpcode { word: word_at(s.mem, s.pc) },
        ),
{
}

} // verus!
