//! What each instruction does, stated directly over the machine state before
//! it: the registers, keys, memory, timers, stack and display it reads, and
//! every field it changes. Everything not mentioned stays as it was.

use vstd::prelude::*;

use crate::error::EmulatorError;
use crate::model::{
    exec_safe, fetch, initial_state, lemma_opcode_fields, step, uses_random, well_sized, MachineState,
};

verus! {

/// The high byte of the instruction at the program counter.
pub open spec fn hi(s: MachineState) -> u8 {
    s.mem[s.pc as int]
}

/// The low byte of the instruction at the program counter.
pub open spec fn lo(s: MachineState) -> u8 {
    s.mem[s.pc + 1]
}

/// The register number in the second nibble.
pub open spec fn reg_x(s: MachineState) -> int {
    (hi(s) % 16) as int
}

/// The register number in the third nibble.
pub open spec fn reg_y(s: MachineState) -> int {
    (lo(s) / 16) as int
}

/// The value of register `X`.
pub open spec fn vx(s: MachineState) -> u8 {
    s.registers[reg_x(s)]
}

/// The value of register `Y`.
pub open spec fn vy(s: MachineState) -> u8 {
    s.registers[reg_y(s)]
}

/// The twelve-bit address in the low three nibbles.
pub open spec fn addr(s: MachineState) -> int {
    (hi(s) % 16) * 256 + lo(s)
}

/// The sixteen-bit instruction word.
pub open spec fn word(s: MachineState) -> u16 {
    (hi(s) * 256 + lo(s)) as u16
}

/// The address of the next instruction.
pub open spec fn next_pc(s: MachineState) -> u16 {
    (s.pc + 2) as u16
}

/// The address after the next instruction when `skip` holds, else the next one.
pub open spec fn skip_pc(s: MachineState, skip: bool) -> u16 {
    if skip {
        (s.pc + 4) as u16
    } else {
        (s.pc + 2) as u16
    }
}

/// An instruction can be fetched.
pub open spec fn fetchable(s: MachineState) -> bool {
    well_sized(s) && s.pc + 1 < 4096
}

pub open spec fn done() -> Result<(), EmulatorError> {
    Ok(())
}

/// `00E0` darkens every pixel and asks for a redraw.
pub proof fn law_clear_screen(s: MachineState, rnd: u8)
    requires
        fetchable(s),
        hi(s) == 0x00,
        lo(s) == 0xE0,
    ensures
        step(s, rnd).1 == done(),
        step(s, rnd).0 == (MachineState {
            pc: next_pc(s),
            display: Seq::new(32, |r: int| Seq::new(64, |c: int| false)),
            refresh_display: true,
            ..s
        }),
{
    lemma_opcode_fields(fetch(s));
}

/// `00EE` returns to the innermost pending call, or fails when there is none.
pub proof fn law_return(s: MachineState, rnd: u8)
    requires
        fetchable(s),
        hi(s) == 0x00,
        lo(s) == 0xEE,
    ensures
        s.stack.len() > 0 ==> step(s, rnd) == (MachineState {
            pc: s.stack[s.stack.len() - 1],
            stack: s.stack.subrange(0, s.stack.len() - 1),
            ..s
        }, done()),
        s.stack.len() == 0 ==> step(s, rnd) == (MachineState { pc: next_pc(s), ..s }, Err::<
            (),
            EmulatorError,
        >(EmulatorError::EmptyReturnStack)),
{
    lemma_opcode_fields(fetch(s));
}

/// Any other `0NNN` is refused; only the program counter moves on.
pub proof fn law_system_refused(s: MachineState, rnd: u8)
    requires
        fetchable(s),
        hi(s) / 16 == 0x0,
        !(hi(s) == 0 && (lo(s) == 0xE0 || lo(s) == 0xEE)),
    ensures
        step(s, rnd) == (MachineState { pc: next_pc(s), ..s }, Err::<(), EmulatorError>(
            EmulatorError::InvalidInstruction(word(s)),
        )),
{
    lemma_opcode_fields(fetch(s));
}

/// `1NNN` jumps to `NNN`.
pub proof fn law_jump(s: MachineState, rnd: u8)
    requires
        fetchable(s),
        hi(s) / 16 == 0x1,
    ensures
        step(s, rnd) == (MachineState { pc: addr(s) as u16, ..s }, done()),
{
    lemma_opcode_fields(fetch(s));
}

/// `2NNN` pushes the address of the next instruction and jumps to `NNN`.
pub proof fn law_call(s: MachineState, rnd: u8)
    requires
        fetchable(s),
        hi(s) / 16 == 0x2,
    ensures
        step(s, rnd) == (MachineState {
            pc: addr(s) as u16,
            stack: s.stack + seq![next_pc(s)],
            ..s
        }, done()),
{
    lemma_opcode_fields(fetch(s));
    assert(s.stack.push(next_pc(s)) =~= s.stack + seq![next_pc(s)]);
}

/// `3XNN` skips the next instruction exactly when `VX == NN`.
pub proof fn law_skip_if_equal_immediate(s: MachineState, rnd: u8)
    requires
        fetchable(s),
        hi(s) / 16 == 0x3,
    ensures
        step(s, rnd) == (MachineState { pc: skip_pc(s, vx(s) == lo(s)), ..s }, done()),
{
    lemma_opcode_fields(fetch(s));
}

/// `4XNN` skips the next instruction exactly when `VX != NN`.
pub proof fn law_skip_if_not_equal_immediate(s: MachineState, rnd: u8)
    requires
        fetchable(s),
        hi(s) / 16 == 0x4,
    ensures
        step(s, rnd) == (MachineState { pc: skip_pc(s, vx(s) != lo(s)), ..s }, done()),
{
    lemma_opcode_fields(fetch(s));
}

/// `5XYN` skips the next instruction exactly when `VX == VY` (any `N`).
pub proof fn law_skip_if_registers_equal(s: MachineState, rnd: u8)
    requires
        fetchable(s),
        hi(s) / 16 == 0x5,
    ensures
        step(s, rnd) == (MachineState { pc: skip_pc(s, vx(s) == vy(s)), ..s }, done()),
{
    lemma_opcode_fields(fetch(s));
}

/// `9XYN` skips the next instruction exactly when `VX != VY` (any `N`).
pub proof fn law_skip_if_registers_differ(s: MachineState, rnd: u8)
    requires
        fetchable(s),
        hi(s) / 16 == 0x9,
    ensures
        step(s, rnd) == (MachineState { pc: skip_pc(s, vx(s) != vy(s)), ..s }, done()),
{
    lemma_opcode_fields(fetch(s));
}

/// `6XNN` sets `VX` to `NN`.
pub proof fn law_set_register(s: MachineState, rnd: u8)
    requires
        fetchable(s),
        hi(s) / 16 == 0x6,
    ensures
        step(s, rnd) == (MachineState {
            pc: next_pc(s),
            registers: s.registers.update(reg_x(s), lo(s)),
            ..s
        }, done()),
{
    lemma_opcode_fields(fetch(s));
}

/// `7XNN` adds `NN` to `VX` modulo 256; `VF` is not touched (unless it is `VX`).
pub proof fn law_add_immediate(s: MachineState, rnd: u8)
    requires
        fetchable(s),
        hi(s) / 16 == 0x7,
    ensures
        step(s, rnd) == (MachineState {
            pc: next_pc(s),
            registers: s.registers.update(reg_x(s), ((vx(s) + lo(s)) % 256) as u8),
            ..s
        }, done()),
{
    lemma_opcode_fields(fetch(s));
    let a = vx(s);
    let b = lo(s);
    assert(vstd::wrapping::u8_specs::wrapping_add(a, b) == ((a + b) % 256) as u8);
}

/// `ANNN` sets `I` to `NNN`.
pub proof fn law_set_index(s: MachineState, rnd: u8)
    requires
        fetchable(s),
        hi(s) / 16 == 0xA,
    ensures
        step(s, rnd) == (MachineState { pc: next_pc(s), i: addr(s) as u16, ..s }, done()),
{
    lemma_opcode_fields(fetch(s));
}

/// `BNNN` jumps to `NNN + V0`.
pub proof fn law_jump_with_offset(s: MachineState, rnd: u8)
    requires
        fetchable(s),
        hi(s) / 16 == 0xB,
    ensures
        step(s, rnd) == (MachineState { pc: (addr(s) + s.registers[0]) as u16, ..s }, done()),
{
    lemma_opcode_fields(fetch(s));
}

/// `CXNN` sets `VX` to the random byte masked with `NN`: no bit outside `NN`
/// is ever set, and every bit of `NN` comes from the random byte.
pub proof fn law_random(s: MachineState, rnd: u8)
    requires
        fetchable(s),
        hi(s) / 16 == 0xC,
    ensures
        step(s, rnd) == (MachineState {
            pc: next_pc(s),
            registers: s.registers.update(reg_x(s), rnd & lo(s)),
            ..s
        }, done()),
        step(s, rnd).0.registers[reg_x(s)] & !lo(s) == 0,
        step(s, rnd).0.registers[reg_x(s)] <= lo(s),
{
    lemma_opcode_fields(fetch(s));
    let nn = lo(s);
    assert((rnd & nn) & !nn == 0 && rnd & nn <= nn) by (bit_vector);
}


/// The instruction is `8XYN` with the given last nibble.
pub open spec fn is_alu(s: MachineState, n: u8) -> bool {
    hi(s) / 16 == 0x8 && lo(s) % 16 == n
}

/// The state after an `8XYN` that leaves `regs` in the registers.
pub open spec fn with_registers(s: MachineState, regs: Seq<u8>) -> MachineState {
    MachineState { pc: next_pc(s), registers: regs, ..s }
}

/// `8XY0` copies `VY` into `VX`.
pub proof fn law_copy_register(s: MachineState, rnd: u8)
    requires
        fetchable(s),
        is_alu(s, 0x0),
    ensures
        step(s, rnd) == (with_registers(s, s.registers.update(reg_x(s), vy(s))), done()),
{
    lemma_opcode_fields(fetch(s));
}

/// `8XY1` makes `VX` the bitwise OR of `VX` and `VY`: every bit set in either
/// is set, and no other bit.
pub proof fn law_or(s: MachineState, rnd: u8)
    requires
        fetchable(s),
        is_alu(s, 0x1),
    ensures
        step(s, rnd) == (with_registers(s, s.registers.update(reg_x(s), vx(s) | vy(s))), done()),
        step(s, rnd).0.registers[reg_x(s)] & vx(s) == vx(s),
        step(s, rnd).0.registers[reg_x(s)] & vy(s) == vy(s),
        step(s, rnd).0.registers[reg_x(s)] & !(vx(s) | vy(s)) == 0,
{
    lemma_opcode_fields(fetch(s));
    let a = vx(s);
    let b = vy(s);
    assert((a | b) & a == a && (a | b) & b == b && (a | b) & !(a | b) == 0) by (bit_vector);
}

/// `8XY2` makes `VX` the bitwise AND of `VX` and `VY`: exactly the bits set in both.
pub proof fn law_and(s: MachineState, rnd: u8)
    requires
        fetchable(s),
        is_alu(s, 0x2),
    ensures
        step(s, rnd) == (with_registers(s, s.registers.update(reg_x(s), vx(s) & vy(s))), done()),
        step(s, rnd).0.registers[reg_x(s)] | vx(s) == vx(s),
        step(s, rnd).0.registers[reg_x(s)] | vy(s) == vy(s),
{
    lemma_opcode_fields(fetch(s));
    let a = vx(s);
    let b = vy(s);
    assert((a & b) | a == a && (a & b) | b == b) by (bit_vector);
}

/// `8XY3` makes `VX` the bitwise XOR of `VX` and `VY`: XOR-ing it with `VY`
/// again gives back the old `VX`.
pub proof fn law_xor(s: MachineState, rnd: u8)
    requires
        fetchable(s),
        is_alu(s, 0x3),
    ensures
        step(s, rnd) == (with_registers(s, s.registers.update(reg_x(s), vx(s) ^ vy(s))), done()),
        step(s, rnd).0.registers[reg_x(s)] ^ vy(s) == vx(s),
{
    lemma_opcode_fields(fetch(s));
    let a = vx(s);
    let b = vy(s);
    assert((a ^ b) ^ b == a) by (bit_vector);
}

/// `8XY4` adds `VY` to `VX` modulo 256; `VF` then becomes 1 when the sum
/// grew `VX` (VY is not zero and the sum did not wrap) and 0 otherwise.
pub proof fn law_add_registers(s: MachineState, rnd: u8)
    requires
        fetchable(s),
        is_alu(s, 0x4),
    ensures
        step(s, rnd) == (with_registers(
            s,
            s.registers.update(reg_x(s), ((vx(s) + vy(s)) % 256) as u8).update(
                15,
                if vy(s) > 0 && vx(s) + vy(s) < 256 { 1u8 } else { 0u8 },
            ),
        ), done()),
{
    lemma_opcode_fields(fetch(s));
    let a = vx(s);
    let b = vy(s);
    assert(vstd::wrapping::u8_specs::wrapping_add(a, b) == ((a + b) % 256) as u8);
}

/// The flag that `8XY5` writes to `VF`: 1 when `VX > VY`, 0 when `VX < VY`,
/// unchanged when they are equal.
pub open spec fn sub_flag(s: MachineState) -> u8 {
    if vx(s) > vy(s) {
        1
    } else if vx(s) < vy(s) {
        0
    } else {
        s.registers[15]
    }
}

/// The flag that `8XY7` writes to `VF`: 1 when `VY > VX`, 0 when `VY < VX`,
/// unchanged when they are equal.
pub open spec fn rsub_flag(s: MachineState) -> u8 {
    if vx(s) > vy(s) {
        0
    } else if vx(s) < vy(s) {
        1
    } else {
        s.registers[15]
    }
}

/// A register operand as read after `VF` received `flag`.
pub open spec fn after_flag(s: MachineState, reg: int, flag: u8) -> int {
    if reg == 15 {
        flag as int
    } else {
        s.registers[reg] as int
    }
}

/// `8XY5` sets the flag first, then `VX = VX - VY` modulo 256, both operands
/// read after the flag was written. When neither operand is `VF` this is
/// simply `VX - VY` with the borrow flag.
pub proof fn law_subtract(s: MachineState, rnd: u8)
    requires
        fetchable(s),
        is_alu(s, 0x5),
    ensures
        ({
            let f = sub_flag(s);
            let a = after_flag(s, reg_x(s), f);
            let b = after_flag(s, reg_y(s), f);
            step(s, rnd) == (with_registers(
                s,
                s.registers.update(15, f).update(reg_x(s), ((a - b + 256) % 256) as u8),
            ), done())
        }),
        reg_x(s) != 15 && reg_y(s) != 15 ==> step(s, rnd).0.registers[reg_x(s)] == (vx(s) - vy(s)
            + 256) % 256,
{
    lemma_opcode_fields(fetch(s));
    let f = sub_flag(s);
    let r1 = s.registers.update(15, f);
    assert(r1[reg_x(s)] == after_flag(s, reg_x(s), f));
    assert(r1[reg_y(s)] == after_flag(s, reg_y(s), f));
    let p = r1[reg_x(s)];
    let q = r1[reg_y(s)];
    assert(vstd::wrapping::u8_specs::wrapping_sub(p, q) == ((p - q + 256) % 256) as u8);
    if vx(s) == vy(s) {
        assert(r1 =~= s.registers);
    }
}

/// `8XY7` sets the flag first, then `VX = VY - VX` modulo 256, both operands
/// read after the flag was written.
pub proof fn law_reverse_subtract(s: MachineState, rnd: u8)
    requires
        fetchable(s),
        is_alu(s, 0x7),
    ensures
        ({
            let f = rsub_flag(s);
            let a = after_flag(s, reg_x(s), f);
            let b = after_flag(s, reg_y(s), f);
            step(s, rnd) == (with_registers(
                s,
                s.registers.update(15, f).update(reg_x(s), ((b - a + 256) % 256) as u8),
            ), done())
        }),
        reg_x(s) != 15 && reg_y(s) != 15 ==> step(s, rnd).0.registers[reg_x(s)] == (vy(s) - vx(s)
            + 256) % 256,
{
    lemma_opcode_fields(fetch(s));
    let f = rsub_flag(s);
    let r1 = s.registers.update(15, f);
    assert(r1[reg_x(s)] == after_flag(s, reg_x(s), f));
    assert(r1[reg_y(s)] == after_flag(s, reg_y(s), f));
    let p = r1[reg_x(s)];
    let q = r1[reg_y(s)];
    assert(vstd::wrapping::u8_specs::wrapping_sub(q, p) == ((q - p + 256) % 256) as u8);
    if vx(s) == vy(s) {
        assert(r1 =~= s.registers);
    }
}

/// `8XY6` sets `VX` to `VY` halved (rounded down), then `VF` to the top bit
/// of that, which is always 0.
pub proof fn law_shift_right(s: MachineState, rnd: u8)
    requires
        fetchable(s),
        is_alu(s, 0x6),
    ensures
        step(s, rnd) == (with_registers(
            s,
            s.registers.update(reg_x(s), vy(s) / 2).update(15, 0u8),
        ), done()),
{
    lemma_opcode_fields(fetch(s));
    let b = vy(s);
    assert(b >> 1u8 == b / 2 && (b >> 1u8) & 0x80u8 == 0) by (bit_vector);
}

/// `8XYE` sets `VX` to `VY` doubled modulo 256, then `VF` to the low bit of
/// that, which is always 0.
pub proof fn law_shift_left(s: MachineState, rnd: u8)
    requires
        fetchable(s),
        is_alu(s, 0xE),
    ensures
        step(s, rnd) == (with_registers(
            s,
            s.registers.update(reg_x(s), ((2 * vy(s)) % 256) as u8).update(15, 0u8),
        ), done()),
{
    lemma_opcode_fields(fetch(s));
    let b = vy(s);
    assert(b << 1u8 == (2 * b) % 256 && (b << 1u8) & 1u8 == 0) by (bit_vector);
}

/// Every other `8XYN` is refused; only the program counter moves on.
pub proof fn law_alu_refused(s: MachineState, rnd: u8)
    requires
        fetchable(s),
        hi(s) / 16 == 0x8,
        lo(s) % 16 > 0x7,
        lo(s) % 16 != 0xE,
    ensures
        step(s, rnd) == (MachineState { pc: next_pc(s), ..s }, Err::<(), EmulatorError>(
            EmulatorError::InvalidInstruction(word(s)),
        )),
{
    lemma_opcode_fields(fetch(s));
}


/// Whether the sprite of a `DXYN` at the program counter has a set bit over
/// the pixel at `(row, col)`. The sprite's rows are the `N` bytes from `I`,
/// its top-left corner is `(VX mod 64, VY mod 32)`, each byte's most
/// significant bit is leftmost, and whatever would fall past the right or
/// bottom edge is not drawn.
pub open spec fn sprite_at(s: MachineState, row: int, col: int) -> bool {
    let left = (vx(s) % 64) as int;
    let top = (vy(s) % 32) as int;
    let height = (lo(s) % 16) as int;
    &&& top <= row < top + height
    &&& row < 32
    &&& left <= col < left + 8
    &&& col < 64
    &&& (s.mem[s.i + (row - top)] >> ((7 - (col - left)) as u8)) & 1u8 == 1u8
}

/// `DXYN` flips every pixel under a set sprite bit and leaves the others; `VF`
/// becomes 1 if some lit pixel was turned off and 0 otherwise, whatever it
/// held before; a redraw is requested.
pub proof fn law_draw(s: MachineState, rnd: u8)
    requires
        fetchable(s),
        hi(s) / 16 == 0xD,
    ensures
        step(s, rnd).1 == done(),
        ({
            let t = step(s, rnd).0;
            &&& t == (MachineState {
                pc: next_pc(s),
                display: t.display,
                registers: s.registers.update(
                    15,
                    if exists|r: int, c: int|
                        0 <= r < 32 && 0 <= c < 64 && #[trigger] sprite_at(s, r, c)
                            && s.display[r][c] { 1u8 } else { 0u8 },
                ),
                refresh_display: true,
                ..s
            })
            &&& t.display.len() == 32
            &&& forall|r: int| 0 <= r < 32 ==> (#[trigger] t.display[r]).len() == 64
            &&& forall|r: int, c: int|
                0 <= r < 32 && 0 <= c < 64 ==> #[trigger] t.display[r][c] == (s.display[r][c]
                    != sprite_at(s, r, c))
        }),
{
    let op = fetch(s);
    lemma_opcode_fields(op);
    let t0 = crate::model::advance(s);
    let x0 = (t0.registers[op.x() as int] % 64) as int;
    let y0 = (t0.registers[op.y() as int] % 32) as int;
    let n = op.n() as int;
    assert forall|r: int, c: int| 0 <= r < 32 && 0 <= c < 64 implies
        #[trigger] crate::model::sprite_covers(t0, x0, y0, n, r, c) == sprite_at(s, r, c) by {}
    let t = step(s, rnd).0;
    assert forall|r: int| 0 <= r < 32 implies (#[trigger] t.display[r]).len() == 64 by {}
    if crate::model::sprite_collides(t0, x0, y0, n) {
        let (r, c) = choose|r: int, c: int|
            0 <= r < 32 && 0 <= c < 64 && #[trigger] crate::model::sprite_covers(t0, x0, y0, n, r, c)
                && t0.display[r][c];
        assert(sprite_at(s, r, c) && s.display[r][c]);
    }
    if exists|r: int, c: int| 0 <= r < 32 && 0 <= c < 64 && #[trigger] sprite_at(s, r, c) && s.display[r][c] {
        let (r, c) = choose|r: int, c: int|
            0 <= r < 32 && 0 <= c < 64 && #[trigger] sprite_at(s, r, c) && s.display[r][c];
        assert(crate::model::sprite_covers(t0, x0, y0, n, r, c) && t0.display[r][c]);
    }
}

/// `EX9E` skips the next instruction exactly when the key numbered `VX` is held.
pub proof fn law_skip_if_key_held(s: MachineState, rnd: u8)
    requires
        fetchable(s),
        hi(s) / 16 == 0xE,
        lo(s) % 16 == 0xE,
        vx(s) < 16,
    ensures
        step(s, rnd) == (MachineState { pc: skip_pc(s, s.keys[vx(s) as int]), ..s }, done()),
{
    lemma_opcode_fields(fetch(s));
}

/// `EXA1` skips the next instruction exactly when the key numbered `VX` is not held.
pub proof fn law_skip_if_key_not_held(s: MachineState, rnd: u8)
    requires
        fetchable(s),
        hi(s) / 16 == 0xE,
        lo(s) % 16 == 0x1,
        vx(s) < 16,
    ensures
        step(s, rnd) == (MachineState { pc: skip_pc(s, !s.keys[vx(s) as int]), ..s }, done()),
{
    lemma_opcode_fields(fetch(s));
}

/// Every other `EXNN` is refused; only the program counter moves on.
pub proof fn law_key_skip_refused(s: MachineState, rnd: u8)
    requires
        fetchable(s),
        hi(s) / 16 == 0xE,
        lo(s) % 16 != 0x1,
        lo(s) % 16 != 0xE,
    ensures
        step(s, rnd) == (MachineState { pc: next_pc(s), ..s }, Err::<(), EmulatorError>(
            EmulatorError::InvalidInstruction(word(s)),
        )),
{
    lemma_opcode_fields(fetch(s));
}


/// The instruction is `FXNN` with the given low byte pattern `?N` / `MN`.
pub open spec fn is_misc(s: MachineState, n: u8) -> bool {
    hi(s) / 16 == 0xF && lo(s) % 16 == n
}

/// `FX07` puts the delay timer in `VX`.
pub proof fn law_read_delay_timer(s: MachineState, rnd: u8)
    requires
        fetchable(s),
        is_misc(s, 0x7),
    ensures
        step(s, rnd) == (with_registers(s, s.registers.update(reg_x(s), s.delay_timer)), done()),
{
    lemma_opcode_fields(fetch(s));
}

/// `FX15` sets the delay timer to `VX`.
pub proof fn law_set_delay_timer(s: MachineState, rnd: u8)
    requires
        fetchable(s),
        is_misc(s, 0x5),
        lo(s) / 16 == 0x1,
    ensures
        step(s, rnd) == (MachineState { pc: next_pc(s), delay_timer: vx(s), ..s }, done()),
{
    lemma_opcode_fields(fetch(s));
}

/// `FX18` sets the sound timer to `VX`.
pub proof fn law_set_sound_timer(s: MachineState, rnd: u8)
    requires
        fetchable(s),
        is_misc(s, 0x8),
    ensures
        step(s, rnd) == (MachineState { pc: next_pc(s), sound_timer: vx(s), ..s }, done()),
{
    lemma_opcode_fields(fetch(s));
}

/// `FX1E` adds `VX` to `I`.
pub proof fn law_add_to_index(s: MachineState, rnd: u8)
    requires
        fetchable(s),
        is_misc(s, 0xE),
        s.i + vx(s) <= 0xFFFF,
    ensures
        step(s, rnd) == (MachineState { pc: next_pc(s), i: (s.i + vx(s)) as u16, ..s }, done()),
        step(s, rnd).0.i == s.i + vx(s),
{
    lemma_opcode_fields(fetch(s));
}

/// `FX29` points `I` at the five-byte font glyph for `VX`: glyph `d` starts
/// at `80 + 5 * d`.
pub proof fn law_font_address(s: MachineState, rnd: u8)
    requires
        fetchable(s),
        is_misc(s, 0x9),
    ensures
        step(s, rnd) == (MachineState { pc: next_pc(s), i: (80 + 5 * vx(s)) as u16, ..s }, done()),
        step(s, rnd).0.i == 80 + 5 * vx(s),
{
    lemma_opcode_fields(fetch(s));
}

/// `FX33` writes the hundreds, tens and units digits of `VX` to `I`, `I + 1`
/// and `I + 2`; nothing else changes, `I` included.
pub proof fn law_store_decimal(s: MachineState, rnd: u8)
    requires
        fetchable(s),
        is_misc(s, 0x3),
        s.i + 2 < 4096,
    ensures
        step(s, rnd).1 == done(),
        ({
            let t = step(s, rnd).0;
            let v = vx(s) as int;
            &&& t == (MachineState { pc: next_pc(s), mem: t.mem, ..s })
            &&& t.mem.len() == 4096
            &&& forall|a: int|
                0 <= a < 4096 && a != s.i && a != s.i + 1 && a != s.i + 2 ==> #[trigger] t.mem[a]
                    == s.mem[a]
            &&& t.mem[s.i as int] < 10 && t.mem[s.i + 1] < 10 && t.mem[s.i + 2] < 10
            &&& 100 * t.mem[s.i as int] + 10 * t.mem[s.i + 1] + t.mem[s.i + 2] == v
        }),
{
    lemma_opcode_fields(fetch(s));
    let v = vx(s);
    assert(100 * (v / 100) + 10 * ((v / 10) % 10) + v % 10 == v) by (nonlinear_arith)
        requires
            v < 256,
    ;
}

/// `FX55` copies `V0..=VX` to memory from `I` on and leaves `I` one past the
/// last byte written; the rest of memory and the registers are unchanged.
pub proof fn law_store_registers(s: MachineState, rnd: u8)
    requires
        fetchable(s),
        is_misc(s, 0x5),
        lo(s) / 16 == 0x5,
        s.i + reg_x(s) < 4096,
    ensures
        step(s, rnd).1 == done(),
        ({
            let t = step(s, rnd).0;
            &&& t == (MachineState { pc: next_pc(s), mem: t.mem, i: (s.i + reg_x(s) + 1) as u16, ..s })
            &&& t.i == s.i + reg_x(s) + 1
            &&& t.mem.len() == 4096
            &&& forall|k: int| 0 <= k <= reg_x(s) ==> #[trigger] t.mem[s.i + k] == s.registers[k]
            &&& forall|a: int|
                0 <= a < 4096 && !(s.i <= a <= s.i + reg_x(s)) ==> #[trigger] t.mem[a] == s.mem[a]
        }),
{
    lemma_opcode_fields(fetch(s));
}

/// `FX65` loads `V0..=VX` from memory from `I` on and leaves `I` one past the
/// last byte read; the other registers and memory are unchanged.
pub proof fn law_load_registers(s: MachineState, rnd: u8)
    requires
        fetchable(s),
        is_misc(s, 0x5),
        lo(s) / 16 == 0x6,
        s.i + reg_x(s) < 4096,
    ensures
        step(s, rnd).1 == done(),
        ({
            let t = step(s, rnd).0;
            &&& t == (MachineState {
                pc: next_pc(s),
                registers: t.registers,
                i: (s.i + reg_x(s) + 1) as u16,
                ..s
            })
            &&& t.i == s.i + reg_x(s) + 1
            &&& t.registers.len() == 16
            &&& forall|k: int| 0 <= k <= reg_x(s) ==> #[trigger] t.registers[k] == s.mem[s.i + k]
            &&& forall|k: int| reg_x(s) < k < 16 ==> #[trigger] t.registers[k] == s.registers[k]
        }),
{
    lemma_opcode_fields(fetch(s));
}

/// Selects the held keys.
pub open spec fn is_held() -> spec_fn(bool) -> bool {
    |b: bool| b
}

/// The number of held keys.
pub open spec fn held_count(keys: Seq<bool>) -> nat {
    keys.filter(is_held()).len()
}

proof fn lemma_held_count(keys: Seq<bool>, n: int)
    requires
        0 <= n <= keys.len(),
    ensures
        keys.take(n).filter(is_held()).len() == crate::model::pressed_count(keys, n),
    decreases n,
{
    reveal(Seq::filter);
    if n > 0 {
        lemma_held_count(keys, n - 1);
        assert(keys.take(n).drop_last() =~= keys.take(n - 1));
        assert(keys.take(n).last() == keys[n - 1]);
        assert(is_held()(keys[n - 1]) == keys[n - 1]);
    }
}

proof fn lemma_last_held(keys: Seq<bool>, n: int)
    requires
        0 <= n <= keys.len(),
    ensures
        ({
            let l = crate::model::last_pressed(keys, n);
            &&& -1 <= l < n
            &&& l >= 0 ==> keys[l]
            &&& forall|k: int| l < k < n ==> !keys[k]
            &&& (forall|k: int| 0 <= k < n ==> !keys[k]) ==> crate::model::pressed_count(keys, n) == 0
        }),
    decreases n,
{
    if n > 0 {
        lemma_last_held(keys, n - 1);
    }
}

/// `FX0A` waits for a key: with no key held nothing changes and the same
/// instruction runs again; otherwise `VX` receives the highest held key. The
/// program counter ends `2 * (number of held keys)` past the instruction.
pub proof fn law_wait_for_key(s: MachineState, rnd: u8)
    requires
        fetchable(s),
        is_misc(s, 0xA),
    ensures
        step(s, rnd).1 == done(),
        step(s, rnd).0.pc == s.pc + 2 * held_count(s.keys),
        (forall|k: int| 0 <= k < 16 ==> !s.keys[k]) ==> step(s, rnd).0 == s,
        forall|h: int|
            0 <= h < 16 && s.keys[h] && (forall|k: int| h < k < 16 ==> !s.keys[k]) ==> step(s, rnd).0
                == (MachineState {
                pc: step(s, rnd).0.pc,
                registers: s.registers.update(reg_x(s), h as u8),
                ..s
            }),
{
    lemma_opcode_fields(fetch(s));
    lemma_held_count(s.keys, 16);
    assert(s.keys.take(16) =~= s.keys);
    lemma_last_held(s.keys, 16);
    let l = crate::model::last_pressed(s.keys, 16);
    if forall|k: int| 0 <= k < 16 ==> !s.keys[k] {
        assert(l == -1);
    }
    assert forall|h: int|
        0 <= h < 16 && s.keys[h] && (forall|k: int| h < k < 16 ==> !s.keys[k]) implies step(s, rnd).0
            == (MachineState {
            pc: step(s, rnd).0.pc,
            registers: s.registers.update(reg_x(s), h as u8),
            ..s
        }) by {
        assert(l == h);
    }
}

/// Every other `FXNN` is refused; only the program counter moves on.
pub proof fn law_misc_refused(s: MachineState, rnd: u8)
    requires
        fetchable(s),
        hi(s) / 16 == 0xF,
        ({
            let n = lo(s) % 16;
            let m = lo(s) / 16;
            !(n == 0x7 || n == 0x8 || n == 0xE || n == 0xA || n == 0x3 || n == 0x9 || (n == 0x5 && (
            m == 0x1 || m == 0x5 || m == 0x6)))
        }),
    ensures
        step(s, rnd) == (MachineState { pc: next_pc(s), ..s }, Err::<(), EmulatorError>(
            EmulatorError::InvalidInstruction(word(s)),
        )),
{
    lemma_opcode_fields(fetch(s));
}


/// A freshly loaded machine: the program's bytes from address 512, the font's
/// 80 bytes from address 80, zeros everywhere else in memory and in every
/// register, timer and key, a dark display, no pending calls, and execution
/// starting at 512.
pub proof fn law_loaded_machine(program: Seq<u8>)
    requires
        program.len() <= 3584,
    ensures
        ({
            let s = initial_state(program);
            &&& well_sized(s)
            &&& s.pc == 512
            &&& s.i == 0
            &&& s.stack.len() == 0
            &&& s.delay_timer == 0
            &&& s.sound_timer == 0
            &&& !s.refresh_display
            &&& forall|k: int| 0 <= k < program.len() ==> #[trigger] s.mem[512 + k] == program[k]
            &&& forall|a: int|
                0 <= a < 4096 && !(80 <= a < 160) && !(512 <= a < 512 + program.len()) ==> #[trigger] s.mem[a]
                    == 0
            &&& s.mem.subrange(80, 160) == seq![
                0xF0u8, 0x90, 0x90, 0x90, 0xF0,
                0x20, 0x60, 0x20, 0x20, 0x70,
                0xF0, 0x10, 0xF0, 0x80, 0xF0,
                0xF0, 0x10, 0xF0, 0x10, 0xF0,
                0x90, 0x90, 0xF0, 0x10, 0x10,
                0xF0, 0x80, 0xF0, 0x10, 0xF0,
                0xF0, 0x80, 0xF0, 0x90, 0xF0,
                0xF0, 0x10, 0x20, 0x40, 0x40,
                0xF0, 0x90, 0xF0, 0x90, 0xF0,
                0xF0, 0x90, 0xF0, 0x10, 0xF0,
                0xF0, 0x90, 0xF0, 0x90, 0x90,
                0xE0, 0x90, 0xE0, 0x90, 0xE0,
                0xF0, 0x80, 0x80, 0x80, 0xF0,
                0xE0, 0x90, 0x90, 0x90, 0xE0,
                0xF0, 0x80, 0xF0, 0x80, 0xF0,
                0xF0, 0x80, 0xF0, 0x80, 0x80,
            ]
            &&& forall|k: int| 0 <= k < 16 ==> #[trigger] s.registers[k] == 0 && !s.keys[k]
            &&& forall|r: int, c: int| 0 <= r < 32 && 0 <= c < 64 ==> !#[trigger] s.display[r][c]
        }),
{
    let s = initial_state(program);
    assert forall|r: int| 0 <= r < 32 implies (#[trigger] s.display[r]).len() == 64 by {}
    assert forall|k: int| 0 <= k < program.len() implies #[trigger] s.mem[512 + k] == program[k] by {}
    assert(s.mem.subrange(80, 160) =~= seq![
        0xF0u8, 0x90, 0x90, 0x90, 0xF0,
        0x20, 0x60, 0x20, 0x20, 0x70,
        0xF0, 0x10, 0xF0, 0x80, 0xF0,
        0xF0, 0x10, 0xF0, 0x10, 0xF0,
        0x90, 0x90, 0xF0, 0x10, 0x10,
        0xF0, 0x80, 0xF0, 0x10, 0xF0,
        0xF0, 0x80, 0xF0, 0x90, 0xF0,
        0xF0, 0x10, 0x20, 0x40, 0x40,
        0xF0, 0x90, 0xF0, 0x90, 0xF0,
        0xF0, 0x90, 0xF0, 0x10, 0xF0,
        0xF0, 0x90, 0xF0, 0x90, 0x90,
        0xE0, 0x90, 0xE0, 0x90, 0xE0,
        0xF0, 0x80, 0x80, 0x80, 0xF0,
        0xE0, 0x90, 0x90, 0x90, 0xE0,
        0xF0, 0x80, 0xF0, 0x80, 0xF0,
        0xF0, 0x80, 0xF0, 0x80, 0x80,
    ]);
}

/// `exec` may run the instruction at the program counter exactly when both
/// of its bytes are in memory and: a `DXYN` reads its clipped sprite rows
/// inside memory; an `EX9E`/`EXA1` names one of the 16 keys; an `FX55`/`FX65`
/// transfers inside memory; an `FX33` writes inside memory; an `FX1E` keeps
/// `I` within 16 bits. Every other instruction may always run.
pub proof fn law_when_exec_may_run(s: MachineState)
    requires
        well_sized(s),
    ensures
        exec_safe(s) <==> (s.pc + 1 < 4096 && {
            let kind = hi(s) / 16;
            let n = lo(s) % 16;
            let m = lo(s) / 16;
            if kind == 0xD {
                let top = (vy(s) % 32) as int;
                let rows = if n < 32 - top { n as int } else { 32 - top };
                rows == 0 || s.i + rows <= 4096
            } else if kind == 0xE {
                (n == 0x1 || n == 0xE) ==> vx(s) < 16
            } else if kind == 0xF {
                if n == 0x5 && (m == 0x5 || m == 0x6) {
                    s.i + reg_x(s) < 4096
                } else if n == 0xE {
                    s.i + vx(s) <= 0xFFFF
                } else if n == 0x3 {
                    s.i + 2 < 4096
                } else {
                    true
                }
            } else {
                true
            }
        }),
{
    lemma_opcode_fields(fetch(s));
}


/// The random byte is drawn for exactly the `CXNN` instructions.
pub proof fn law_random_only_for_cxnn(s: MachineState)
    requires
        fetchable(s),
    ensures
        uses_random(s) <==> hi(s) / 16 == 0xC,
{
    lemma_opcode_fields(fetch(s));
}

} // verus!
