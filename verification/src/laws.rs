//! Properties of the interpreter that span instructions or hold of every step.

use vstd::prelude::*;

use crate::error::EmulatorError;
use crate::model::{
    advance, blank_display, draw, exec_safe, execute_misc, fetch, font_glyphs, initial_state,
    last_pressed, lemma_opcode_fields, load_registers, pressed_count, sprite_covers, step,
    store_bcd, store_registers, uses_random, wait_key, well_sized, with_pc, MachineState,
    Opcode,
};

verus! {

/// Every step that `exec` may take keeps the sizes of memory, display,
/// registers and keys.
pub proof fn law_step_keeps_sizes(s: MachineState, rnd: u8)
    requires
        well_sized(s),
        exec_safe(s),
    ensures
        well_sized(step(s, rnd).0),
{
    let op = fetch(s);
    lemma_opcode_fields(op);
    let t0 = advance(s);
    assert(well_sized(t0));
    let t = step(s, rnd).0;
    let k = op.kind();
    if k == 0x0 {
        assert(blank_display().len() == 32);
        assert forall|r: int| 0 <= r < 32 implies (#[trigger] blank_display()[r]).len() == 64 by {}
    } else if k == 0x8 {
        assert(t.registers.len() == 16);
    } else if k == 0xD {
        let d = draw(t0, op.x() as int, op.y() as int, op.n() as int);
        assert forall|r: int| 0 <= r < 32 implies (#[trigger] d.display[r]).len() == 64 by {}
    } else if k == 0xF {
        assert(t == execute_misc(t0, op).0);
        let x = op.x() as int;
        if op.n() == 0x5 && op.y() == 0x5 {
            assert(store_registers(t0, x).mem.len() == 4096);
        } else if op.n() == 0x5 && op.y() == 0x6 {
            assert(load_registers(t0, x).registers.len() == 16);
        } else if op.n() == 0x3 {
            assert(store_bcd(t0, x).mem.len() == 4096);
        } else if op.n() == 0xA {
            assert(wait_key(t0, x).registers.len() == 16);
        }
    }
}

/// A refused instruction changes nothing but the program counter, which
/// moves past it.
pub proof fn law_refused_instruction_only_advances(s: MachineState, rnd: u8)
    requires
        step(s, rnd).1 is Err,
    ensures
        step(s, rnd).0 == advance(s),
{
    lemma_opcode_fields(fetch(s));
}

/// Only `CXNN` depends on the random byte.
pub proof fn law_random_byte_only_affects_cxnn(s: MachineState, r1: u8, r2: u8)
    requires
        !uses_random(s),
    ensures
        step(s, r1) == step(s, r2),
{
}

/// A call `2NNN` followed by the return `00EE` at `NNN` comes back to the
/// instruction after the call, with the machine otherwise as it was.
pub proof fn law_call_then_return(s: MachineState, r1: u8, r2: u8)
    requires
        s.pc + 1 < 4096,
        fetch(s).kind() == 0x2,
        fetch(s).nnn() + 1 < 4096,
        s.mem[fetch(s).nnn() as int] == 0x00,
        s.mem[fetch(s).nnn() + 1] == 0xEE,
    ensures
        step(s, r1).1 == Ok::<(), EmulatorError>(()),
        step(step(s, r1).0, r2).1 == Ok::<(), EmulatorError>(()),
        step(step(s, r1).0, r2).0 == advance(s),
{
    let op = fetch(s);
    lemma_opcode_fields(op);
    let s1 = step(s, r1).0;
    assert(s1.mem == s.mem);
    let op2 = fetch(s1);
    lemma_opcode_fields(op2);
    assert(op2.word() == 0x00EE);
    assert(s1.stack.drop_last() =~= s.stack);
}

/// Drawing the same sprite at the same place twice restores the display,
/// provided neither coordinate register is `VF` (which the first draw
/// overwrites with the collision flag).
pub proof fn law_draw_twice_restores_display(s: MachineState, x: int, y: int, n: int)
    requires
        well_sized(s),
        0 <= x < 15,
        0 <= y < 15,
    ensures
        draw(draw(s, x, y, n), x, y, n).display == s.display,
{
    let s1 = draw(s, x, y, n);
    let s2 = draw(s1, x, y, n);
    let x0 = (s.registers[x] % 64) as int;
    let y0 = (s.registers[y] % 32) as int;
    assert(s1.registers[x] == s.registers[x]);
    assert(s1.registers[y] == s.registers[y]);
    assert forall|r: int, c: int| 0 <= r < 32 && 0 <= c < 64 implies s2.display[r][c] == s.display[r][c] by {
        assert(sprite_covers(s1, x0, y0, n, r, c) == sprite_covers(s, x0, y0, n, r, c));
    }
    assert forall|r: int| 0 <= r < 32 implies #[trigger] s2.display[r] =~= s.display[r] by {}
    assert(s2.display =~= s.display);
}

/// Executing one `DXYN` twice (the program coming back to it) restores
/// the display, provided neither coordinate register is `VF`.
pub proof fn law_redraw_erases_sprite(s: MachineState, r1: u8, r2: u8)
    requires
        well_sized(s),
        s.pc + 1 < 4096,
        fetch(s).kind() == 0xD,
        fetch(s).x() < 15,
        fetch(s).y() < 15,
    ensures
        step(with_pc(step(s, r1).0, s.pc), r2).0.display == s.display,
{
    let op = fetch(s);
    lemma_opcode_fields(op);
    let s1 = step(s, r1).0;
    assert(s1 == draw(advance(s), op.x() as int, op.y() as int, op.n() as int));
    let t = with_pc(s1, s.pc);
    assert(fetch(t) == op);
    assert(draw(advance(t), op.x() as int, op.y() as int, op.n() as int).display == draw(
        s1,
        op.x() as int,
        op.y() as int,
        op.n() as int,
    ).display);
    law_draw_twice_restores_display(advance(s), op.x() as int, op.y() as int, op.n() as int);
}

/// Loading registers (`FX65`) from where `FX55` stored them gives back
/// `V0..=VX`, whatever came between, as long as memory and `I` were put
/// back as `FX55` found and left them.
pub proof fn law_load_returns_stored_registers(s: MachineState, t: MachineState, r1: u8, r2: u8)
    requires
        well_sized(s),
        well_sized(t),
        s.pc + 1 < 4096,
        t.pc + 1 < 4096,
        fetch(s).kind() == 0xF,
        fetch(s).y() == 0x5,
        fetch(s).n() == 0x5,
        fetch(t).kind() == 0xF,
        fetch(t).y() == 0x6,
        fetch(t).n() == 0x5,
        fetch(t).x() == fetch(s).x(),
        s.i + fetch(s).x() < 4096,
        t.mem == step(s, r1).0.mem,
        t.i == s.i,
    ensures
        forall|k: int| 0 <= k <= fetch(s).x() ==> #[trigger] step(t, r2).0.registers[k] == s.registers[k],
        step(t, r2).0.i == step(s, r1).0.i,
{
    lemma_opcode_fields(fetch(s));
    lemma_opcode_fields(fetch(t));
}

/// `FX33` writes three decimal digits whose value is `VX`.
pub proof fn law_bcd_digits(s: MachineState, rnd: u8)
    requires
        well_sized(s),
        s.pc + 1 < 4096,
        fetch(s).kind() == 0xF,
        fetch(s).n() == 0x3,
        s.i + 2 < 4096,
    ensures
        ({
            let m = step(s, rnd).0.mem;
            let v = s.registers[fetch(s).x() as int];
            &&& m[s.i as int] < 10
            &&& m[s.i + 1] < 10
            &&& m[s.i + 2] < 10
            &&& 100 * m[s.i as int] + 10 * m[s.i + 1] + m[s.i + 2] == v
        }),
{
    lemma_opcode_fields(fetch(s));
    let v = s.registers[fetch(s).x() as int];
    assert(100 * (v / 100) + 10 * ((v / 10) % 10) + v % 10 == v) by (nonlinear_arith)
        requires
            v < 256,
    ;
}

/// After `FX29`, `I` addresses the five-byte glyph of the digit in `VX`,
/// when the font is where loading put it.
pub proof fn law_font_sprite_address(s: MachineState, rnd: u8)
    requires
        well_sized(s),
        s.pc + 1 < 4096,
        fetch(s).kind() == 0xF,
        fetch(s).n() == 0x9,
        s.registers[fetch(s).x() as int] < 16,
        s.mem.subrange(80, 160) == font_glyphs(),
    ensures
        ({
            let t = step(s, rnd).0;
            let d = s.registers[fetch(s).x() as int] as int;
            forall|k: int| 0 <= k < 5 ==> #[trigger] t.mem[t.i + k] == font_glyphs()[5 * d + k]
        }),
{
    lemma_opcode_fields(fetch(s));
    let t = step(s, rnd).0;
    let d = s.registers[fetch(s).x() as int] as int;
    assert(t.i == 5 * d + 80);
    assert forall|k: int| 0 <= k < 5 implies #[trigger] t.mem[t.i + k] == font_glyphs()[5 * d + k] by {
        assert(t.mem[t.i + k] == s.mem.subrange(80, 160)[5 * d + k]);
    }
}

proof fn lemma_no_key_held(keys: Seq<bool>, n: int)
    requires
        0 <= n <= keys.len(),
        forall|k: int| 0 <= k < n ==> !keys[k],
    ensures
        pressed_count(keys, n) == 0,
        last_pressed(keys, n) == -1,
    decreases n,
{
    if n > 0 {
        lemma_no_key_held(keys, n - 1);
    }
}

proof fn lemma_one_key_held(keys: Seq<bool>, n: int, held: int)
    requires
        0 <= n <= keys.len(),
        0 <= held < keys.len(),
        forall|k: int| 0 <= k < keys.len() ==> (keys[k] <==> k == held),
    ensures
        pressed_count(keys, n) == if held < n { 1int } else { 0int },
        last_pressed(keys, n) == if held < n { held } else { -1 },
    decreases n,
{
    if n > 0 {
        lemma_one_key_held(keys, n - 1, held);
    }
}

/// `FX0A` with no key held leaves the machine exactly as it was, so the
/// same instruction runs again: the program waits.
pub proof fn law_wait_key_blocks(s: MachineState, rnd: u8)
    requires
        well_sized(s),
        s.pc + 1 < 4096,
        fetch(s).kind() == 0xF,
        fetch(s).n() == 0xA,
        forall|k: int| 0 <= k < 16 ==> !s.keys[k],
    ensures
        step(s, rnd) == (s, Ok::<(), EmulatorError>(())),
{
    lemma_opcode_fields(fetch(s));
    lemma_no_key_held(s.keys, 16);
}

/// `FX0A` with exactly one key held puts that key in `VX` and moves on to
/// the next instruction.
pub proof fn law_wait_key_takes_held_key(s: MachineState, rnd: u8, held: int)
    requires
        well_sized(s),
        s.pc + 1 < 4096,
        fetch(s).kind() == 0xF,
        fetch(s).n() == 0xA,
        0 <= held < 16,
        forall|k: int| 0 <= k < 16 ==> (s.keys[k] <==> k == held),
    ensures
        step(s, rnd).1 == Ok::<(), EmulatorError>(()),
        step(s, rnd).0.pc == s.pc + 2,
        step(s, rnd).0.registers[fetch(s).x() as int] == held,
{
    lemma_opcode_fields(fetch(s));
    lemma_one_key_held(s.keys, 16, held);
}

/// A loaded machine holds the font at `FONT_START`, where `FX29` looks for it.
pub proof fn law_loaded_machine_has_font(program: Seq<u8>)
    requires
        program.len() <= 3584,
    ensures
        initial_state(program).mem.subrange(80, 160) == font_glyphs(),
        well_sized(initial_state(program)),
{
    assert(initial_state(program).mem.subrange(80, 160) =~= font_glyphs());
    let s = initial_state(program);
    assert forall|r: int| 0 <= r < 32 implies (#[trigger] s.display[r]).len() == 64 by {}
}

/// A loaded machine's first instruction is the program's first two bytes.
pub proof fn law_loaded_program_runs_first(program: Seq<u8>)
    requires
        2 <= program.len() <= 3584,
    ensures
        fetch(initial_state(program)) == (Opcode { hi: program[0], lo: program[1] }),
{
}

} // verus!
