//! The mathematical model of a CHIP-8 machine and of one interpreter step.
//!
//! `step` is the meaning of fetching, decoding and executing the instruction
//! at the program counter; `exec_safe` describes the states in which doing so
//! stays inside memory, inside the key array and inside 16-bit arithmetic.

use vstd::prelude::*;

use crate::error::EmulatorError;

verus! {

/// Bytes of addressable memory.
pub const MEMORY_SIZE: usize = 4096;

/// Address at which programs are loaded and execution starts.
pub const PROGRAM_START: u16 = 512;

/// Address at which the built-in font is stored.
pub const FONT_START: u16 = 80;

/// Largest program that fits between `PROGRAM_START` and the end of memory.
pub const MAX_PROGRAM_SIZE: usize = 3584;

/// Display width in pixels.
pub const DISPLAY_WIDTH: usize = 64;

/// Display height in pixels.
pub const DISPLAY_HEIGHT: usize = 32;

/// The built-in hexadecimal font: five bytes per glyph, glyphs `0` to `F`.
pub open spec fn font_glyphs() -> Seq<u8> {
    seq![
        0xF0u8, 0x90, 0x90, 0x90, 0xF0, // 0
        0x20, 0x60, 0x20, 0x20, 0x70, // 1
        0xF0, 0x10, 0xF0, 0x80, 0xF0, // 2
        0xF0, 0x10, 0xF0, 0x10, 0xF0, // 3
        0x90, 0x90, 0xF0, 0x10, 0x10, // 4
        0xF0, 0x80, 0xF0, 0x10, 0xF0, // 5
        0xF0, 0x80, 0xF0, 0x90, 0xF0, // 6
        0xF0, 0x10, 0x20, 0x40, 0x40, // 7
        0xF0, 0x90, 0xF0, 0x90, 0xF0, // 8
        0xF0, 0x90, 0xF0, 0x10, 0xF0, // 9
        0xF0, 0x90, 0xF0, 0x90, 0x90, // A
        0xE0, 0x90, 0xE0, 0x90, 0xE0, // B
        0xF0, 0x80, 0x80, 0x80, 0xF0, // C
        0xE0, 0x90, 0x90, 0x90, 0xE0, // D
        0xF0, 0x80, 0xF0, 0x80, 0xF0, // E
        0xF0, 0x80, 0xF0, 0x80, 0x80, // F
    ]
}

/// The abstract state of a machine.
#[verifier::ext_equal]
pub struct MachineState {
    /// 4096 bytes of memory.
    pub mem: Seq<u8>,
    /// 32 rows of 64 pixels; `true` is lit.
    pub display: Seq<Seq<bool>>,
    /// Return addresses of pending subroutine calls, innermost last.
    pub stack: Seq<u16>,
    pub pc: u16,
    /// The index register `I`.
    pub i: u16,
    pub delay_timer: u8,
    pub sound_timer: u8,
    /// `V0` to `VF`.
    pub registers: Seq<u8>,
    /// Which of the 16 keys are held down.
    pub keys: Seq<bool>,
    /// Set when an instruction changed (or cleared) the display.
    pub refresh_display: bool,
}

/// A state whose sequences have the sizes of the machine's arrays.
pub open spec fn well_sized(s: MachineState) -> bool {
    &&& s.mem.len() == 4096
    &&& s.display.len() == 32
    &&& forall|r: int| 0 <= r < 32 ==> (#[trigger] s.display[r]).len() == 64
    &&& s.registers.len() == 16
    &&& s.keys.len() == 16
}

/// The two bytes of an instruction, high byte first.
#[derive(Clone, Copy)]
pub struct Opcode {
    pub hi: u8,
    pub lo: u8,
}

impl Opcode {
    /// The whole 16-bit instruction word.
    pub open spec fn word(self) -> u16 {
        ((self.hi as u16) << 8u16) | (self.lo as u16)
    }

    /// The first nibble, which selects the instruction group.
    pub open spec fn kind(self) -> u8 {
        self.hi >> 4u8
    }

    /// The second nibble, the register `X`.
    pub open spec fn x(self) -> u8 {
        self.hi & 0xFu8
    }

    /// The third nibble, the register `Y`.
    pub open spec fn y(self) -> u8 {
        self.lo >> 4u8
    }

    /// The fourth nibble `N`.
    pub open spec fn n(self) -> u8 {
        self.lo & 0xFu8
    }

    /// The low byte `NN`.
    pub open spec fn nn(self) -> u8 {
        self.lo
    }

    /// The low twelve bits `NNN`.
    pub open spec fn nnn(self) -> u16 {
        (((self.hi & 0xFu8) as u16) << 8u16) | (self.lo as u16)
    }
}

/// The fields of an opcode are nibbles, `NNN` fits in twelve bits, and the
/// word is the high byte followed by the low byte.
pub proof fn lemma_opcode_fields(op: Opcode)
    ensures
        op.kind() < 16,
        op.x() < 16,
        op.y() < 16,
        op.n() < 16,
        op.nnn() < 4096,
        op.word() == op.hi * 256 + op.lo,
        op.nnn() == op.x() * 256 + op.lo,
        op.kind() == op.hi / 16,
        op.x() == op.hi % 16,
        op.y() == op.lo / 16,
        op.n() == op.lo % 16,
{
    let hi = op.hi;
    let lo = op.lo;
    assert(hi >> 4u8 < 16 && hi >> 4u8 == hi / 16) by (bit_vector);
    assert(hi & 0xFu8 < 16 && hi & 0xFu8 == hi % 16) by (bit_vector);
    assert(lo >> 4u8 < 16 && lo >> 4u8 == lo / 16) by (bit_vector);
    assert(lo & 0xFu8 < 16 && lo & 0xFu8 == lo % 16) by (bit_vector);
    assert(((hi as u16) << 8u16) | (lo as u16) == hi * 256 + lo) by (bit_vector);
    assert((((hi & 0xFu8) as u16) << 8u16) | (lo as u16) == (hi & 0xFu8) * 256 + lo) by (bit_vector);
}

/// The instruction at the program counter.
pub open spec fn fetch(s: MachineState) -> Opcode {
    Opcode { hi: s.mem[s.pc as int], lo: s.mem[s.pc + 1] }
}

/// The state with the program counter moved past the fetched instruction.
pub open spec fn advance(s: MachineState) -> MachineState {
    MachineState { pc: (s.pc + 2) as u16, ..s }
}

pub open spec fn with_pc(s: MachineState, pc: u16) -> MachineState {
    MachineState { pc, ..s }
}

pub open spec fn set_register(s: MachineState, x: int, v: u8) -> MachineState {
    MachineState { registers: s.registers.update(x, v), ..s }
}

/// Skips the next instruction when `cond` holds.
pub open spec fn skip_if(s: MachineState, cond: bool) -> MachineState {
    if cond {
        with_pc(s, (s.pc + 2) as u16)
    } else {
        s
    }
}

/// A display with every pixel dark.
pub open spec fn blank_display() -> Seq<Seq<bool>> {
    Seq::new(32, |r: int| Seq::new(64, |c: int| false))
}

/// `0x00E0` (clear), `0x00EE` (return); every other `0x0NNN` is refused.
pub open spec fn execute_system(t: MachineState, op: Opcode) -> (MachineState, Result<(), EmulatorError>) {
    if op.word() == 0x00E0u16 {
        (MachineState { display: blank_display(), refresh_display: true, ..t }, Ok(()))
    } else if op.word() == 0x00EEu16 {
        if t.stack.len() == 0 {
            (t, Err(EmulatorError::EmptyReturnStack))
        } else {
            (MachineState { pc: t.stack.last(), stack: t.stack.drop_last(), ..t }, Ok(()))
        }
    } else {
        (t, Err(EmulatorError::InvalidInstruction(op.word())))
    }
}

/// `8XYN`: register-to-register arithmetic and logic, `VF` as the flag.
/// Each update reads the registers as the previous one left them.
pub open spec fn alu(r: Seq<u8>, x: int, y: int, n: u8) -> Option<Seq<u8>> {
    if n == 0x0 {
        Some(r.update(x, r[y]))
    } else if n == 0x1 {
        Some(r.update(x, r[x] | r[y]))
    } else if n == 0x2 {
        Some(r.update(x, r[x] & r[y]))
    } else if n == 0x3 {
        Some(r.update(x, r[x] ^ r[y]))
    } else if n == 0x4 {
        let r1 = r.update(x, vstd::wrapping::u8_specs::wrapping_add(r[x], r[y]));
        Some(r1.update(15, if r1[x] > r[x] { 1u8 } else { 0u8 }))
    } else if n == 0x5 {
        let r1 = if r[x] > r[y] {
            r.update(15, 1u8)
        } else if r[x] < r[y] {
            r.update(15, 0u8)
        } else {
            r
        };
        Some(r1.update(x, vstd::wrapping::u8_specs::wrapping_sub(r1[x], r1[y])))
    } else if n == 0x6 {
        let r1 = r.update(x, r[y] >> 1u8);
        Some(r1.update(15, r1[x] & 0x80u8))
    } else if n == 0x7 {
        let r1 = if r[x] > r[y] {
            r.update(15, 0u8)
        } else if r[x] < r[y] {
            r.update(15, 1u8)
        } else {
            r
        };
        Some(r1.update(x, vstd::wrapping::u8_specs::wrapping_sub(r1[y], r1[x])))
    } else if n == 0xE {
        let r1 = r.update(x, r[y] << 1u8);
        Some(r1.update(15, r1[x] & 0x1u8))
    } else {
        None
    }
}

pub open spec fn execute_alu(t: MachineState, op: Opcode) -> (MachineState, Result<(), EmulatorError>) {
    match alu(t.registers, op.x() as int, op.y() as int, op.n()) {
        Some(r) => (MachineState { registers: r, ..t }, Ok(())),
        None => (t, Err(EmulatorError::InvalidInstruction(op.word()))),
    }
}

/// How many sprite rows `DXYN` draws from row `y0`: `n`, clipped at the bottom edge.
pub open spec fn sprite_rows(y0: int, n: int) -> int {
    if n < 32 - y0 {
        n
    } else {
        32 - y0
    }
}

/// Bit `k` of a sprite row, counted from the most significant bit.
pub open spec fn sprite_bit(byte: u8, k: int) -> bool {
    ((byte >> ((7 - k) as u8)) & 1u8) == 1u8
}

/// Whether the sprite drawn at `(x0, y0)` from `n` bytes at `I` has a set
/// bit over the pixel at `(row, col)`; the sprite is clipped at the right
/// and bottom edges.
pub open spec fn sprite_covers(s: MachineState, x0: int, y0: int, n: int, row: int, col: int) -> bool {
    &&& y0 <= row < y0 + sprite_rows(y0, n)
    &&& x0 <= col < x0 + 8
    &&& col < 64
    &&& sprite_bit(s.mem[s.i + (row - y0)], col - x0)
}

/// Whether drawing the sprite turns off a lit pixel.
pub open spec fn sprite_collides(s: MachineState, x0: int, y0: int, n: int) -> bool {
    exists|row: int, col: int|
        0 <= row < 32 && 0 <= col < 64 && #[trigger] sprite_covers(s, x0, y0, n, row, col)
            && s.display[row][col]
}

/// `DXYN`: XOR an `n`-byte sprite from `I` onto the display at
/// `(VX mod 64, VY mod 32)`; `VF` becomes 1 iff a lit pixel was turned off.
pub open spec fn draw(s: MachineState, x: int, y: int, n: int) -> MachineState {
    let x0 = (s.registers[x] % 64) as int;
    let y0 = (s.registers[y] % 32) as int;
    MachineState {
        display: Seq::new(
            32,
            |row: int|
                Seq::new(64, |col: int| s.display[row][col] != sprite_covers(s, x0, y0, n, row, col)),
        ),
        registers: s.registers.update(15, if sprite_collides(s, x0, y0, n) { 1u8 } else { 0u8 }),
        refresh_display: true,
        ..s
    }
}

/// `EXNN`: skip on key state.
pub open spec fn execute_key_skip(t: MachineState, op: Opcode) -> (MachineState, Result<(), EmulatorError>) {
    let key = t.registers[op.x() as int] as int;
    if op.n() == 0x1 {
        (skip_if(t, !t.keys[key]), Ok(()))
    } else if op.n() == 0xE {
        (skip_if(t, t.keys[key]), Ok(()))
    } else {
        (t, Err(EmulatorError::InvalidInstruction(op.word())))
    }
}

/// Number of held keys among the first `n`.
pub open spec fn pressed_count(keys: Seq<bool>, n: int) -> int
    decreases n,
{
    if n <= 0 {
        0
    } else {
        pressed_count(keys, n - 1) + if keys[n - 1] { 1int } else { 0int }
    }
}

/// The highest held key among the first `n`, or -1 when none is held.
pub open spec fn last_pressed(keys: Seq<bool>, n: int) -> int
    decreases n,
{
    if n <= 0 {
        -1
    } else if keys[n - 1] {
        n - 1
    } else {
        last_pressed(keys, n - 1)
    }
}

/// `FX0A`: the instruction is repeated until a key is held. `VX` receives
/// the highest held key, and the program counter moves on by one
/// instruction for every held key.
pub open spec fn wait_key(t: MachineState, x: int) -> MachineState {
    let last = last_pressed(t.keys, 16);
    MachineState {
        pc: (t.pc - 2 + 2 * pressed_count(t.keys, 16)) as u16,
        registers: if last >= 0 { t.registers.update(x, last as u8) } else { t.registers },
        ..t
    }
}

/// `FX33`: the decimal digits of `VX` at `I`, `I + 1`, `I + 2`.
pub open spec fn store_bcd(t: MachineState, x: int) -> MachineState {
    let v = t.registers[x];
    let i = t.i as int;
    MachineState {
        mem: t.mem.update(i, v / 100).update(i + 1, (v / 10) % 10).update(i + 2, v % 10),
        ..t
    }
}

/// `FX55`: `V0..=VX` stored at `I..=I+X`; `I` ends one past the last byte.
pub open spec fn store_registers(t: MachineState, x: int) -> MachineState {
    let i = t.i as int;
    MachineState {
        mem: Seq::new(
            t.mem.len(),
            |a: int|
                if i <= a <= i + x {
                    t.registers[a - i]
                } else {
                    t.mem[a]
                },
        ),
        i: (i + x + 1) as u16,
        ..t
    }
}

/// `FX65`: `V0..=VX` loaded from `I..=I+X`; `I` ends one past the last byte.
pub open spec fn load_registers(t: MachineState, x: int) -> MachineState {
    let i = t.i as int;
    MachineState {
        registers: Seq::new(
            t.registers.len(),
            |k: int|
                if k <= x {
                    t.mem[i + k]
                } else {
                    t.registers[k]
                },
        ),
        i: (i + x + 1) as u16,
        ..t
    }
}

/// `FXNN`: timers, keys, `I` and memory transfers.
pub open spec fn execute_misc(t: MachineState, op: Opcode) -> (MachineState, Result<(), EmulatorError>) {
    let x = op.x() as int;
    let vx = t.registers[x];
    let n = op.n();
    if n == 0x7 {
        (set_register(t, x, t.delay_timer), Ok(()))
    } else if n == 0x5 {
        if op.y() == 0x1 {
            (MachineState { delay_timer: vx, ..t }, Ok(()))
        } else if op.y() == 0x5 {
            (store_registers(t, x), Ok(()))
        } else if op.y() == 0x6 {
            (load_registers(t, x), Ok(()))
        } else {
            (t, Err(EmulatorError::InvalidInstruction(op.word())))
        }
    } else if n == 0x8 {
        (MachineState { sound_timer: vx, ..t }, Ok(()))
    } else if n == 0xE {
        (MachineState { i: (t.i + vx) as u16, ..t }, Ok(()))
    } else if n == 0xA {
        (wait_key(t, x), Ok(()))
    } else if n == 0x3 {
        (store_bcd(t, x), Ok(()))
    } else if n == 0x9 {
        (MachineState { i: (vx * 5 + 80) as u16, ..t }, Ok(()))
    } else {
        (t, Err(EmulatorError::InvalidInstruction(op.word())))
    }
}

/// Executes a decoded instruction on a state whose program counter already
/// points past it. `rnd` is the random byte that `CXNN` masks.
pub open spec fn execute(t: MachineState, op: Opcode, rnd: u8) -> (MachineState, Result<(), EmulatorError>) {
    let x = op.x() as int;
    let y = op.y() as int;
    let k = op.kind();
    if k == 0x0 {
        execute_system(t, op)
    } else if k == 0x1 {
        (with_pc(t, op.nnn()), Ok(()))
    } else if k == 0x2 {
        (MachineState { stack: t.stack.push(t.pc), pc: op.nnn(), ..t }, Ok(()))
    } else if k == 0x3 {
        (skip_if(t, t.registers[x] == op.nn()), Ok(()))
    } else if k == 0x4 {
        (skip_if(t, t.registers[x] != op.nn()), Ok(()))
    } else if k == 0x5 {
        (skip_if(t, t.registers[x] == t.registers[y]), Ok(()))
    } else if k == 0x6 {
        (set_register(t, x, op.nn()), Ok(()))
    } else if k == 0x7 {
        (set_register(t, x, vstd::wrapping::u8_specs::wrapping_add(t.registers[x], op.nn())), Ok(()))
    } else if k == 0x8 {
        execute_alu(t, op)
    } else if k == 0x9 {
        (skip_if(t, t.registers[x] != t.registers[y]), Ok(()))
    } else if k == 0xA {
        (MachineState { i: op.nnn(), ..t }, Ok(()))
    } else if k == 0xB {
        (with_pc(t, (op.nnn() + t.registers[0]) as u16), Ok(()))
    } else if k == 0xC {
        (set_register(t, x, rnd & op.nn()), Ok(()))
    } else if k == 0xD {
        (draw(t, x, y, op.n() as int), Ok(()))
    } else if k == 0xE {
        execute_key_skip(t, op)
    } else {
        execute_misc(t, op)
    }
}

/// One interpreter step: fetch the instruction at the program counter,
/// move past it, and execute it. On an error only the program counter has
/// moved.
pub open spec fn step(s: MachineState, rnd: u8) -> (MachineState, Result<(), EmulatorError>) {
    execute(advance(s), fetch(s), rnd)
}

/// Whether the instruction at the program counter is `CXNN`, the only one
/// whose outcome depends on the random byte.
pub open spec fn uses_random(s: MachineState) -> bool {
    fetch(s).kind() == 0xC
}

/// `DXYN` reads its sprite rows inside memory.
pub open spec fn draw_safe(t: MachineState, op: Opcode) -> bool {
    let rows = sprite_rows((t.registers[op.y() as int] % 32) as int, op.n() as int);
    rows > 0 ==> t.i + rows <= 4096
}

/// `EX9E` and `EXA1` name a key that exists.
pub open spec fn key_skip_safe(t: MachineState, op: Opcode) -> bool {
    (op.n() == 0x1 || op.n() == 0xE) ==> t.registers[op.x() as int] < 16
}

/// `FX55`, `FX65` and `FX33` stay inside memory; `FX1E` keeps `I` within 16 bits.
pub open spec fn misc_safe(t: MachineState, op: Opcode) -> bool {
    let x = op.x() as int;
    let n = op.n();
    if n == 0x5 && (op.y() == 0x5 || op.y() == 0x6) {
        t.i + x < 4096
    } else if n == 0xE {
        t.i + t.registers[x] <= 0xFFFF
    } else if n == 0x3 {
        t.i + 2 < 4096
    } else {
        true
    }
}

/// The states in which `step` stays within memory, within the key array and
/// within 16-bit arithmetic for the index register.
pub open spec fn exec_safe(s: MachineState) -> bool {
    &&& s.pc + 1 < 4096
    &&& {
        let op = fetch(s);
        let t = advance(s);
        let k = op.kind();
        if k == 0xD {
            draw_safe(t, op)
        } else if k == 0xE {
            key_skip_safe(t, op)
        } else if k == 0xF {
            misc_safe(t, op)
        } else {
            true
        }
    }
}

/// The state right after loading `program`: font at `FONT_START`, program
/// at `PROGRAM_START`, every other byte, register, timer, key and pixel zero.
pub open spec fn initial_state(program: Seq<u8>) -> MachineState {
    MachineState {
        mem: Seq::new(
            4096,
            |a: int|
                if 80 <= a < 160 {
                    font_glyphs()[a - 80]
                } else if 512 <= a < 512 + program.len() {
                    program[a - 512]
                } else {
                    0u8
                },
        ),
        display: blank_display(),
        stack: Seq::empty(),
        pc: 512,
        i: 0,
        delay_timer: 0,
        sound_timer: 0,
        registers: Seq::new(16, |k: int| 0u8),
        keys: Seq::new(16, |k: int| false),
        refresh_display: false,
    }
}

} // verus!
