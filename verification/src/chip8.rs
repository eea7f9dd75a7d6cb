//! The interpreter: machine state, program loading and instruction execution.

use vstd::prelude::*;

use crate::error::EmulatorError;
use crate::random::random_byte;
use crate::model::{
    advance, draw, exec_safe, execute_alu, execute_key_skip, execute_misc, execute_system,
    fetch, font_glyphs, initial_state, key_skip_safe, last_pressed, lemma_opcode_fields,
    misc_safe, pressed_count, sprite_covers, sprite_rows, step, uses_random, well_sized,
    MAX_PROGRAM_SIZE, MachineState, Opcode,
};

verus! {

/// A CHIP-8 machine.
pub struct Chip8 {
    mem: [u8; 4096],
    /// 64 x 32 pixels, `true` for lit, indexed `display[row][column]`.
    pub display: [[bool; 64]; 32],
    return_stack: Vec<u16>,
    pc: u16,
    i: u16,
    pub delay_timer: u8,
    pub sound_timer: u8,
    registers: [u8; 16],
    /// Which of the 16 keys are held down.
    pub keys: [bool; 16],
    /// Set by instructions that change the display; cleared by whoever redraws it.
    pub refresh_display: bool,
}

impl View for Chip8 {
    type V = MachineState;

    closed spec fn view(&self) -> MachineState {
        MachineState {
            mem: self.mem@,
            display: Seq::new(32, |r: int| self.display@[r]@),
            stack: self.return_stack@,
            pc: self.pc,
            i: self.i,
            delay_timer: self.delay_timer,
            sound_timer: self.sound_timer,
            registers: self.registers@,
            keys: self.keys@,
            refresh_display: self.refresh_display,
        }
    }
}

fn font() -> (f: [u8; 80])
    ensures
        f@ == font_glyphs(),
{
    let f: [u8; 80] = [
        0xF0, 0x90, 0x90, 0x90, 0xF0, // 0
        0x20, 0x60, 0x20, 0x20, 0x70, // 1
        0xF0, 0x10, 0xF0, 0x80, 0xF0, // 2
        0xF0, 0x10, 0xF0, 0x10, 0xF0, // 3
        0x90, 0x90, 0xF0, 0x10, 0x10, // 4
        0xF0, 0x80, 0xF0, 0x10, 0xF0, // 5
        0xF0, 0x80, 0xF0, 0x90, 0xF0, // 6
        0xF0, 0x10, 0x20, 0x40, 0x40, // 7
        0xF0, 0x90, 0xF0, 0x90, 0xF0, // 8
        0xF0, 0x90, 0xF0, 0x10, 0xF0, // 9
        0xF0, 0x90, 0xF0, 0x90, 0x90, // A
        0xE0, 0x90, 0xE0, 0x90, 0xE0, // B
        0xF0, 0x80, 0x80, 0x80, 0xF0, // C
        0xE0, 0x90, 0x90, 0x90, 0xE0, // D
        0xF0, 0x80, 0xF0, 0x80, 0xF0, // E
        0xF0, 0x80, 0xF0, 0x80, 0x80, // F
    ];
    assert(f@ =~= font_glyphs());
    f
}

impl Chip8 {
    /// Every machine's view has the sizes of its arrays.
    pub proof fn lemma_view_well_sized(&self)
        ensures
            well_sized(self@),
    {
    }

    /// Loads `program` at `PROGRAM_START` and the font at `FONT_START` into
    /// otherwise zeroed memory, with a blank display, an empty return stack,
    /// zeroed registers and timers, no keys held, and the program counter
    /// at `PROGRAM_START`. A program longer than `MAX_PROGRAM_SIZE` bytes is
    /// refused with `ProgramTooLarge`.
    pub fn init(program: &[u8]) -> (res: Result<Chip8, EmulatorError>)
        ensures
            res is Err <==> program@.len() > MAX_PROGRAM_SIZE,
            res is Err <==> program@.len() > 3584,
            res matches Err(e) ==> e == EmulatorError::ProgramTooLarge,
            res matches Ok(m) ==> m@ == initial_state(program@),
    {
        let mut mem = [0u8; 4096];
        let display = [[false; 64]; 32];
        let return_stack: Vec<u16> = Vec::new();
        if 4096 - 512 < program.len() {
            return Err(EmulatorError::ProgramTooLarge);
        }
        let len = program.len();
        let mut k: usize = 0;
        while k < len
            invariant
                len == program@.len(),
                len <= 3584,
                k <= len,
                mem@.len() == 4096,
                forall|a: int|
                    0 <= a < 4096 ==> #[trigger] mem@[a] == if 512 <= a < 512 + k {
                        program@[a - 512]
                    } else {
                        0u8
                    },
            decreases len - k,
        {
            mem[k + 512] = program[k];
            k = k + 1;
        }
        let glyphs = font();
        let mut g: usize = 0;
        while g < 80
            invariant
                len == program@.len(),
                len <= 3584,
                g <= 80,
                glyphs@ == font_glyphs(),
                mem@.len() == 4096,
                forall|a: int|
                    0 <= a < 4096 ==> #[trigger] mem@[a] == if 80 <= a < 80 + g {
                        font_glyphs()[a - 80]
                    } else if 512 <= a < 512 + len {
                        program@[a - 512]
                    } else {
                        0u8
                    },
            decreases 80 - g,
        {
            mem[g + 80] = glyphs[g];
            g = g + 1;
        }
        let machine = Chip8 {
            mem,
            display,
            return_stack,
            pc: 512,
            i: 0,
            delay_timer: 0,
            sound_timer: 0,
            registers: [0u8; 16],
            keys: [false; 16],
            refresh_display: false,
        };
        proof {
            let init = initial_state(program@);
            assert(machine@.mem =~= init.mem);
            assert(machine@.display =~~= init.display);
            assert(machine@.registers =~= init.registers);
            assert(machine@.keys =~= init.keys);
            assert(machine@.stack =~= init.stack);
        }
        Ok(machine)
    }
}


/// The pixel at `(row, col)` of a display array.
spec fn pixel(d: [[bool; 64]; 32], row: int, col: int) -> bool {
    d@[row]@[col]
}

impl Chip8 {
    /// `DXYN`.
    fn exec_draw(&mut self, x: usize, y: usize, n: u8)
        requires
            x < 16,
            y < 16,
            n < 16,
            ({
                let s = old(self)@;
                let rows = sprite_rows((s.registers[y as int] % 32) as int, n as int);
                rows > 0 ==> s.i + rows <= 4096
            }),
        ensures
            final(self)@ == draw(old(self)@, x as int, y as int, n as int),
    {
        let ghost s = self@;
        let x_start: u8 = self.registers[x] % 64;
        let y_start: u8 = self.registers[y] % 32;
        let ghost x0 = x_start as int;
        let ghost y0 = y_start as int;
        self.registers[15] = 0;
        self.refresh_display = true;
        let rows: u8 = if n < 32 - y_start { n } else { 32 - y_start };
        let cols: u8 = if 8 < 64 - x_start { 8 } else { 64 - x_start };
        let ghost mut collided = false;
        let mut j: u8 = 0;
        while j < rows
            invariant
                0 <= j <= rows,
                rows as int == sprite_rows(y0, n as int),
                cols as int == if 8 < 64 - x0 { 8 } else { 64 - x0 },
                x0 < 64,
                y0 < 32,
                x_start as int == x0,
                y_start as int == y0,
                y0 + rows <= 32,
                x0 + cols <= 64,
                x0 == s.registers[x as int] % 64,
                y0 == s.registers[y as int] % 32,
                rows > 0 ==> s.i + rows <= 4096,
                self.mem@ == s.mem,
                self.i == s.i,
                self.pc == s.pc,
                self.return_stack@ == s.stack,
                self.delay_timer == s.delay_timer,
                self.sound_timer == s.sound_timer,
                self.keys@ == s.keys,
                self.refresh_display,
                s == old(self)@,
                self.registers@ == s.registers.update(15, if collided { 1u8 } else { 0u8 }),
                collided == exists|r: int, c: int|
                    y0 <= r < y0 + j && 0 <= c < 64 && #[trigger] sprite_covers(s, x0, y0, n as int, r, c)
                        && s.display[r][c],
                forall|r: int, c: int|
                    0 <= r < 32 && 0 <= c < 64 ==> #[trigger] pixel(self.display, r, c) == if y0 <= r < y0 + j {
                        s.display[r][c] != sprite_covers(s, x0, y0, n as int, r, c)
                    } else {
                        s.display[r][c]
                    },
            decreases rows - j,
        {
            let byte = self.mem[(self.i + j as u16) as usize];
            let row = (y_start + j) as usize;
            let mut col: u8 = x_start;
            let mut k: u8 = 0;
            while k < cols
                invariant
                    0 <= k <= cols,
                    col == x0 + k,
                    0 <= j < rows,
                    row == y0 + j,
                    rows as int == sprite_rows(y0, n as int),
                    cols as int == if 8 < 64 - x0 { 8 } else { 64 - x0 },
                    x0 < 64,
                    y0 < 32,
                    x_start as int == x0,
                    y_start as int == y0,
                    y0 + rows <= 32,
                    x0 + cols <= 64,
                    byte == s.mem[s.i + j],
                    self.mem@ == s.mem,
                    self.i == s.i,
                    self.pc == s.pc,
                    self.return_stack@ == s.stack,
                    self.delay_timer == s.delay_timer,
                    self.sound_timer == s.sound_timer,
                    self.keys@ == s.keys,
                    self.refresh_display,
                    s == old(self)@,
                    self.registers@ == s.registers.update(15, if collided { 1u8 } else { 0u8 }),
                    collided == exists|r: int, c: int|
                        ((y0 <= r < y0 + j && 0 <= c < 64) || (r == row && x0 <= c < x0 + k))
                            && #[trigger] sprite_covers(s, x0, y0, n as int, r, c) && s.display[r][c],
                    forall|r: int, c: int|
                        0 <= r < 32 && 0 <= c < 64 ==> #[trigger] pixel(self.display, r, c) == if (y0 <= r
                            < y0 + j) || (r == row && x0 <= c < x0 + k) {
                            s.display[r][c] != sprite_covers(s, x0, y0, n as int, r, c)
                        } else {
                            s.display[r][c]
                        },
                decreases cols - k,
            {
                let ghost c = col as int;
                let pixel_on = (byte >> (7 - k)) & 0x1;
                assert(pixel_on == 1 <==> sprite_covers(s, x0, y0, n as int, row as int, c));
                let colu = col as usize;
                let ghost before = self.display;
                assert(pixel(self.display, row as int, c) == s.display[row as int][c]);
                if pixel_on == 1 && self.display[row][colu] {
                    self.display[row][colu] = false;
                    self.registers[15] = 1;
                    proof {
                        assert(sprite_covers(s, x0, y0, n as int, row as int, c) && s.display[row as int][c]);
                        collided = true;
                    }
                } else if pixel_on == 1 && !self.display[row][colu] {
                    self.display[row][colu] = true;
                }
                assert forall|r: int, cc: int| 0 <= r < 32 && 0 <= cc < 64 && !(r == row && cc == c) implies
                    #[trigger] pixel(self.display, r, cc) == pixel(before, r, cc) by {
                    if r == row {
                        assert(self.display@[r]@[cc] == before@[r]@[cc]);
                    } else {
                        assert(self.display@[r] == before@[r]);
                    }
                }
                col = col + 1;
                k = k + 1;
            }
            j = j + 1;
        }
        proof {
            let goal = draw(s, x as int, y as int, n as int);
            assert forall|r: int, c: int| 0 <= r < 32 && 0 <= c < 64 implies
                self@.display[r][c] == goal.display[r][c] by {
                assert(pixel(self.display, r, c) == goal.display[r][c]);
            }
            assert(self@.display =~~= goal.display);
            assert(self@.registers =~= goal.registers);
        }
    }
}


impl Chip8 {
    /// `00E0` and `00EE`.
    fn exec_system(&mut self, op: Opcode) -> (r: Result<(), EmulatorError>)
        ensures
            final(self)@ == execute_system(old(self)@, op).0,
            r == execute_system(old(self)@, op).1,
    {
        let word: u16 = ((op.hi as u16) << 8) | (op.lo as u16);
        if word == 0x00E0 {
            self.display = [[false; 64]; 32];
            self.refresh_display = true;
            proof {
                assert(self@.display =~~= execute_system(old(self)@, op).0.display);
            }
            Ok(())
        } else if word == 0x00EE {
            match self.return_stack.pop() {
                Some(addr) => {
                    self.pc = addr;
                    Ok(())
                },
                None => Err(EmulatorError::EmptyReturnStack),
            }
        } else {
            Err(EmulatorError::InvalidInstruction(word))
        }
    }

    /// `8XYN`.
    fn exec_alu(&mut self, op: Opcode, x: usize, y: usize) -> (r: Result<(), EmulatorError>)
        requires
            x == op.x(),
            y == op.y(),
            x < 16,
            y < 16,
        ensures
            final(self)@ == execute_alu(old(self)@, op).0,
            r == execute_alu(old(self)@, op).1,
    {
        let n = op.lo & 0xF;
        if n == 0x0 {
            self.registers[x] = self.registers[y];
        } else if n == 0x1 {
            self.registers[x] = self.registers[x] | self.registers[y];
        } else if n == 0x2 {
            self.registers[x] = self.registers[x] & self.registers[y];
        } else if n == 0x3 {
            self.registers[x] = self.registers[x] ^ self.registers[y];
        } else if n == 0x4 {
            let old_x = self.registers[x];
            self.registers[x] = self.registers[x].wrapping_add(self.registers[y]);
            if self.registers[x] > old_x {
                self.registers[15] = 1;
            } else {
                self.registers[15] = 0;
            }
        } else if n == 0x5 {
            if self.registers[x] > self.registers[y] {
                self.registers[15] = 1;
            } else if self.registers[x] < self.registers[y] {
                self.registers[15] = 0;
            }
            self.registers[x] = self.registers[x].wrapping_sub(self.registers[y]);
        } else if n == 0x6 {
            self.registers[x] = self.registers[y] >> 1;
            self.registers[15] = self.registers[x] & 0x80;
        } else if n == 0x7 {
            if self.registers[x] > self.registers[y] {
                self.registers[15] = 0;
            } else if self.registers[x] < self.registers[y] {
                self.registers[15] = 1;
            }
            self.registers[x] = self.registers[y].wrapping_sub(self.registers[x]);
        } else if n == 0xE {
            self.registers[x] = self.registers[y] << 1;
            self.registers[15] = self.registers[x] & 0x1;
        } else {
            let word: u16 = ((op.hi as u16) << 8) | (op.lo as u16);
            return Err(EmulatorError::InvalidInstruction(word));
        }
        proof {
            assert(self@.registers =~= execute_alu(old(self)@, op).0.registers);
        }
        Ok(())
    }

    /// `EX9E` and `EXA1`.
    fn exec_key_skip(&mut self, op: Opcode, x: usize) -> (r: Result<(), EmulatorError>)
        requires
            x == op.x(),
            x < 16,
            old(self).pc <= 4096,
            key_skip_safe(old(self)@, op),
        ensures
            final(self)@ == execute_key_skip(old(self)@, op).0,
            r == execute_key_skip(old(self)@, op).1,
    {
        let n = op.lo & 0xF;
        if n == 0x1 {
            if !self.keys[self.registers[x] as usize] {
                self.pc = self.pc + 2;
            }
            Ok(())
        } else if n == 0xE {
            if self.keys[self.registers[x] as usize] {
                self.pc = self.pc + 2;
            }
            Ok(())
        } else {
            let word: u16 = ((op.hi as u16) << 8) | (op.lo as u16);
            Err(EmulatorError::InvalidInstruction(word))
        }
    }

    /// `FX0A`.
    fn exec_wait_key(&mut self, x: usize)
        requires
            x < 16,
            2 <= old(self).pc <= 4096,
        ensures
            final(self)@ == crate::model::wait_key(old(self)@, x as int),
    {
        let ghost t = self@;
        self.pc = self.pc - 2;
        let mut k: usize = 0;
        while k < 16
            invariant
                k <= 16,
                x < 16,
                t == old(self)@,
                2 <= t.pc <= 4096,
                0 <= pressed_count(t.keys, k as int) <= k,
                self.pc == t.pc - 2 + 2 * pressed_count(t.keys, k as int),
                self.registers@ == if last_pressed(t.keys, k as int) >= 0 {
                    t.registers.update(x as int, last_pressed(t.keys, k as int) as u8)
                } else {
                    t.registers
                },
                -1 <= last_pressed(t.keys, k as int) < k,
                self@ == (MachineState { pc: self.pc, registers: self.registers@, ..t }),
            decreases 16 - k,
        {
            if self.keys[k] {
                self.registers[x] = k as u8;
                self.pc = self.pc + 2;
            }
            k = k + 1;
        }
    }

    /// `FX55`.
    fn exec_store_registers(&mut self, x: usize)
        requires
            x < 16,
            old(self).i + x < 4096,
        ensures
            final(self)@ == crate::model::store_registers(old(self)@, x as int),
    {
        let ghost t = self@;
        let mut k: usize = 0;
        while k <= x
            invariant
                k <= x + 1,
                x < 16,
                t == old(self)@,
                t.i + x < 4096,
                self.i == t.i + k,
                self.mem@ == Seq::new(
                    4096,
                    |a: int|
                        if t.i <= a < t.i + k {
                            t.registers[a - t.i]
                        } else {
                            t.mem[a]
                        },
                ),
                self@ == (MachineState { mem: self.mem@, i: self.i, ..t }),
            decreases x + 1 - k,
        {
            self.mem[self.i as usize] = self.registers[k];
            self.i = self.i + 1;
            k = k + 1;
            proof {
                assert(self.mem@ =~= Seq::new(
                    4096,
                    |a: int|
                        if t.i <= a < t.i + k {
                            t.registers[a - t.i]
                        } else {
                            t.mem[a]
                        },
                ));
            }
        }
        proof {
            assert(self@.mem =~= crate::model::store_registers(t, x as int).mem);
        }
    }

    /// `FX65`.
    fn exec_load_registers(&mut self, x: usize)
        requires
            x < 16,
            old(self).i + x < 4096,
        ensures
            final(self)@ == crate::model::load_registers(old(self)@, x as int),
    {
        let ghost t = self@;
        let mut k: usize = 0;
        while k <= x
            invariant
                k <= x + 1,
                x < 16,
                t == old(self)@,
                t.i + x < 4096,
                self.i == t.i + k,
                self.registers@ == Seq::new(
                    16,
                    |q: int|
                        if q < k {
                            t.mem[t.i + q]
                        } else {
                            t.registers[q]
                        },
                ),
                self@ == (MachineState { registers: self.registers@, i: self.i, ..t }),
            decreases x + 1 - k,
        {
            self.registers[k] = self.mem[self.i as usize];
            self.i = self.i + 1;
            k = k + 1;
            proof {
                assert(self.registers@ =~= Seq::new(
                    16,
                    |q: int|
                        if q < k {
                            t.mem[t.i + q]
                        } else {
                            t.registers[q]
                        },
                ));
            }
        }
        proof {
            assert(self@.registers =~= crate::model::load_registers(t, x as int).registers);
        }
    }

    /// `FX33`.
    fn exec_store_bcd(&mut self, x: usize)
        requires
            x < 16,
            old(self).i + 2 < 4096,
        ensures
            final(self)@ == crate::model::store_bcd(old(self)@, x as int),
    {
        let v = self.registers[x];
        let i = self.i as usize;
        self.mem[i] = v / 100;
        self.mem[i + 1] = (v / 10) % 10;
        self.mem[i + 2] = v % 10;
        proof {
            assert(self@.mem =~= crate::model::store_bcd(old(self)@, x as int).mem);
        }
    }

    /// `FXNN`.
    fn exec_misc(&mut self, op: Opcode, x: usize) -> (r: Result<(), EmulatorError>)
        requires
            x == op.x(),
            x < 16,
            2 <= old(self).pc <= 4096,
            misc_safe(old(self)@, op),
        ensures
            final(self)@ == execute_misc(old(self)@, op).0,
            r == execute_misc(old(self)@, op).1,
    {
        proof {
            lemma_opcode_fields(op);
        }
        let n = op.lo & 0xF;
        let y = op.lo >> 4;
        if n == 0x7 {
            self.registers[x] = self.delay_timer;
        } else if n == 0x5 {
            if y == 0x1 {
                self.delay_timer = self.registers[x];
            } else if y == 0x5 {
                self.exec_store_registers(x);
            } else if y == 0x6 {
                self.exec_load_registers(x);
            } else {
                let word: u16 = ((op.hi as u16) << 8) | (op.lo as u16);
                return Err(EmulatorError::InvalidInstruction(word));
            }
        } else if n == 0x8 {
            self.sound_timer = self.registers[x];
        } else if n == 0xE {
            self.i = self.i + self.registers[x] as u16;
        } else if n == 0xA {
            self.exec_wait_key(x);
        } else if n == 0x3 {
            self.exec_store_bcd(x);
        } else if n == 0x9 {
            self.i = self.registers[x] as u16 * 5 + 80;
        } else {
            let word: u16 = ((op.hi as u16) << 8) | (op.lo as u16);
            return Err(EmulatorError::InvalidInstruction(word));
        }
        Ok(())
    }

    /// Fetches, decodes and executes the instruction at the program counter,
    /// with `random_byte` as the random byte that `CXNN` masks with `NN`.
    /// The result is the model's `step`: on an error only the program counter
    /// has moved past the instruction.
    pub fn exec_with(&mut self, random_byte: u8) -> (r: Result<(), EmulatorError>)
        requires
            exec_safe(old(self)@),
        ensures
            final(self)@ == step(old(self)@, random_byte).0,
            r == step(old(self)@, random_byte).1,
    {
        let ghost s = self@;
        let pc = self.pc as usize;
        let op = Opcode { hi: self.mem[pc], lo: self.mem[pc + 1] };
        assert(op == fetch(s));
        self.pc = self.pc + 2;
        assert(self@ == advance(s));
        proof {
            lemma_opcode_fields(op);
        }
        let kind = op.hi >> 4;
        let x = (op.hi & 0xF) as usize;
        let y = (op.lo >> 4) as usize;
        let n = op.lo & 0xF;
        let nn = op.lo;
        let nnn: u16 = (((op.hi & 0xF) as u16) << 8) | (op.lo as u16);
        if kind == 0x0 {
            self.exec_system(op)
        } else if kind == 0x1 {
            self.pc = nnn;
            Ok(())
        } else if kind == 0x2 {
            self.return_stack.push(self.pc);
            self.pc = nnn;
            Ok(())
        } else if kind == 0x3 {
            if self.registers[x] == nn {
                self.pc = self.pc + 2;
            }
            Ok(())
        } else if kind == 0x4 {
            if self.registers[x] != nn {
                self.pc = self.pc + 2;
            }
            Ok(())
        } else if kind == 0x5 {
            if self.registers[x] == self.registers[y] {
                self.pc = self.pc + 2;
            }
            Ok(())
        } else if kind == 0x6 {
            self.registers[x] = nn;
            Ok(())
        } else if kind == 0x7 {
            self.registers[x] = self.registers[x].wrapping_add(nn);
            Ok(())
        } else if kind == 0x8 {
            self.exec_alu(op, x, y)
        } else if kind == 0x9 {
            if self.registers[x] != self.registers[y] {
                self.pc = self.pc + 2;
            }
            Ok(())
        } else if kind == 0xA {
            self.i = nnn;
            Ok(())
        } else if kind == 0xB {
            self.pc = nnn + self.registers[0] as u16;
            Ok(())
        } else if kind == 0xC {
            self.registers[x] = random_byte & nn;
            Ok(())
        } else if kind == 0xD {
            self.exec_draw(x, y, n);
            Ok(())
        } else if kind == 0xE {
            self.exec_key_skip(op, x)
        } else {
            self.exec_misc(op, x)
        }
    }
}


impl Chip8 {
    /// Executes the instruction at the program counter, drawing a random byte
    /// for `CXNN` (and only for it). The new state and the result are those
    /// of the model's `step` for some random byte; for every other
    /// instruction they are those of `step` with any byte, such as 0.
    pub fn exec(&mut self) -> (r: Result<(), EmulatorError>)
        requires
            exec_safe(old(self)@),
        ensures
            exists|rnd: u8| #[trigger] step(old(self)@, rnd) == (final(self)@, r),
            !uses_random(old(self)@) ==> final(self)@ == step(old(self)@, 0).0 && r == step(
                old(self)@,
                0,
            ).1,
    {
        let pc = self.pc as usize;
        let rnd = if (self.mem[pc] >> 4) == 0xC {
            random_byte()
        } else {
            0
        };
        let ghost s = self@;
        let r = self.exec_with(rnd);
        assert(step(s, rnd) == (self@, r));
        r
    }

    /// Whether `exec` may be called: the instruction at the program counter
    /// and everything it reads or writes lie inside memory, a key it tests
    /// exists, and `I` stays within 16 bits.
    pub fn can_exec(&self) -> (b: bool)
        ensures
            b == exec_safe(self@),
    {
        if self.pc >= 4095 {
            return false;
        }
        let pc = self.pc as usize;
        let op = Opcode { hi: self.mem[pc], lo: self.mem[pc + 1] };
        proof {
            lemma_opcode_fields(op);
        }
        let kind = op.hi >> 4;
        let x = (op.hi & 0xF) as usize;
        let y = (op.lo >> 4) as usize;
        let n = op.lo & 0xF;
        let i = self.i as u32;
        if kind == 0xD {
            let y0 = self.registers[y] % 32;
            let rows = if n < 32 - y0 { n } else { 32 - y0 };
            rows == 0 || i + rows as u32 <= 4096
        } else if kind == 0xE {
            !(n == 0x1 || n == 0xE) || self.registers[x] < 16
        } else if kind == 0xF {
            if n == 0x5 && (y == 0x5 || y == 0x6) {
                i + (x as u32) < 4096
            } else if n == 0xE {
                i + self.registers[x] as u32 <= 0xFFFF
            } else if n == 0x3 {
                i + 2 < 4096
            } else {
                true
            }
        } else {
            true
        }
    }
}


/// A timer after one tick: one less, but not below zero.
pub open spec fn timer_tick(t: u8) -> u8 {
    if t > 0 {
        (t - 1) as u8
    } else {
        0
    }
}

impl Chip8 {
    /// One tick of the 60 Hz timers: the delay and sound timers each count
    /// down by one, stopping at zero; nothing else changes.
    pub fn tick_timers(&mut self)
        ensures
            final(self)@ == (MachineState {
                delay_timer: if old(self)@.delay_timer > 0 {
                    (old(self)@.delay_timer - 1) as u8
                } else {
                    0u8
                },
                sound_timer: if old(self)@.sound_timer > 0 {
                    (old(self)@.sound_timer - 1) as u8
                } else {
                    0u8
                },
                ..old(self)@
            }),
            final(self)@.delay_timer == timer_tick(old(self)@.delay_timer),
            final(self)@.sound_timer == timer_tick(old(self)@.sound_timer),
            final(self)@.delay_timer <= old(self)@.delay_timer,
            final(self)@.sound_timer <= old(self)@.sound_timer,
            old(self)@.delay_timer > 0 ==> final(self)@.delay_timer == old(self)@.delay_timer - 1,
            old(self)@.sound_timer > 0 ==> final(self)@.sound_timer == old(self)@.sound_timer - 1,
    {
        self.delay_timer = self.delay_timer.saturating_sub(1);
        self.sound_timer = self.sound_timer.saturating_sub(1);
    }

    /// The program counter.
    pub fn pc(&self) -> (r: u16)
        ensures
            r == self@.pc,
    {
        self.pc
    }

    /// The index register `I`.
    pub fn index(&self) -> (r: u16)
        ensures
            r == self@.i,
    {
        self.i
    }

    /// Register `Vk`.
    pub fn register(&self, k: usize) -> (r: u8)
        requires
            k < 16,
        ensures
            r == self@.registers[k as int],
    {
        self.registers[k]
    }

    /// The byte at `addr`.
    pub fn memory(&self, addr: usize) -> (r: u8)
        requires
            addr < 4096,
        ensures
            r == self@.mem[addr as int],
    {
        self.mem[addr]
    }

    /// The number of pending subroutine calls.
    pub fn stack_len(&self) -> (r: usize)
        ensures
            r == self@.stack.len(),
    {
        self.return_stack.len()
    }
}

} // verus!
