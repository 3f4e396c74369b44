use vstd::prelude::*;
use crate::cpu::{
    collides, reg, rows_read, span_ok, sprite_hit, step, ticked_times, CpuView, FLAG_REGISTER,
};
use crate::vram::cell;
use crate::instruction::Instruction;

verus! {

/// Adding an immediate wraps modulo 256 and, aimed at any register but the flag
/// register, leaves the flag register alone.
pub proof fn lemma_add_immediate(s: CpuView, register: u8, value: u8)
    requires
        s.registers.len() == 16,
        register < 16,
    ensures
        step(s, Instruction::AddVX { register, value }) matches Ok(t) && {
            &&& reg(t, register) == (reg(s, register) + value) % 256
            &&& register != FLAG_REGISTER ==> reg(t, FLAG_REGISTER) == reg(s, FLAG_REGISTER)
        },
{
}

/// Register addition raises the flag register exactly when the sum exceeds 255.
pub proof fn lemma_add_carry(s: CpuView, register_x: u8, register_y: u8)
    requires
        s.registers.len() == 16,
        register_x < 16,
        register_y < 16,
    ensures
        step(s, Instruction::ArithmeticAdd { register_x, register_y }) matches Ok(t) && (reg(
            t,
            FLAG_REGISTER,
        ) == 1 <==> reg(s, register_x) + reg(s, register_y) > 255) && (reg(t, FLAG_REGISTER)
            == 0 <==> reg(s, register_x) + reg(s, register_y) <= 255),
{
}

/// Subtracting VY from VX raises the flag register exactly when VX >= VY, equal values
/// included (no borrow).
pub proof fn lemma_subtract_no_borrow(s: CpuView, register_x: u8, register_y: u8)
    requires
        s.registers.len() == 16,
        register_x < 16,
        register_y < 16,
    ensures
        step(s, Instruction::ArithmeticSubtractXY { register_x, register_y }) matches Ok(t) && (
        reg(t, FLAG_REGISTER) == 1 <==> reg(s, register_x) >= reg(s, register_y)) && (reg(
            t,
            FLAG_REGISTER,
        ) == 0 <==> reg(s, register_x) < reg(s, register_y)),
{
}

/// Storing registers 0 to `x` and loading them back from the same index register gives
/// every register its value again, and leaves the state as the store left it.
pub proof fn lemma_store_then_load(s: CpuView, x: u8)
    requires
        s.registers.len() == 16,
        s.memory.len() == 4096,
        x < 16,
        s.index + x + 1 <= 4096,
    ensures
        step(s, Instruction::Store(x)) matches Ok(t) && step(t, Instruction::Load(x)) matches Ok(
            u,
        ) && u.registers == s.registers && u == t,
{
    let t = step(s, Instruction::Store(x))->Ok_0;
    let u = step(t, Instruction::Load(x))->Ok_0;
    assert(u.registers =~= s.registers);
    assert(t.registers =~= s.registers);
    assert(u == t);
}

/// After `k` ticks each timer has gone down by `k` but stops at zero, and nothing else
/// has changed.
pub proof fn lemma_timers_count_down(s: CpuView, k: nat)
    ensures
        ticked_times(s, k).sound_timer == if s.sound_timer >= k {
            s.sound_timer - k
        } else {
            0
        },
        ticked_times(s, k).delay_timer == if s.delay_timer >= k {
            s.delay_timer - k
        } else {
            0
        },
        ticked_times(s, k) == (CpuView {
            sound_timer: ticked_times(s, k).sound_timer,
            delay_timer: ticked_times(s, k).delay_timer,
            ..s
        }),
    decreases k,
{
    if k > 0 {
        lemma_timers_count_down(s, (k - 1) as nat);
    }
}

/// Setting the sound timer from a register makes it run exactly when that register is
/// above zero, and `sound_timer` ticks bring it to zero.
pub proof fn lemma_sound_runs_out(s: CpuView, x: u8)
    requires
        s.registers.len() == 16,
        x < 16,
    ensures
        step(s, Instruction::SetSoundTimerFromVX(x)) matches Ok(t) && (t.sound_timer > 0
            <==> reg(s, x) > 0) && ticked_times(t, t.sound_timer as nat).sound_timer == 0,
{
    let t = step(s, Instruction::SetSoundTimerFromVX(x))->Ok_0;
    lemma_timers_count_down(t, t.sound_timer as nat);
}

/// Drawing a sprite twice at the same place (its coordinates held in registers other
/// than the flag register) restores the display. On a clear display the first draw
/// reports no collision, and the second reports one exactly when the first lit a cell.
pub proof fn lemma_draw_twice(s: CpuView, register_x: u8, register_y: u8, n: u8)
    requires
        s.registers.len() == 16,
        s.memory.len() == 4096,
        s.display.len() == 2048,
        register_x < FLAG_REGISTER,
        register_y < FLAG_REGISTER,
        span_ok(s.index, rows_read(reg(s, register_y) as int % 32, n as int)),
    ensures
        ({
            let ins = Instruction::DisplayDraw { register_x, register_y, n };
            step(s, ins) matches Ok(t) && step(t, ins) matches Ok(u) && u.display == s.display
                && (s.display == Seq::new(2048, |i: int| false) ==> reg(t, FLAG_REGISTER) == 0
                && (reg(u, FLAG_REGISTER) == 1 <==> t.display != s.display))
        }),
{
    let ins = Instruction::DisplayDraw { register_x, register_y, n };
    let x0 = reg(s, register_x) as int % 64;
    let y0 = reg(s, register_y) as int % 32;
    let t = step(s, ins)->Ok_0;
    assert(reg(t, register_x) == reg(s, register_x));
    assert(reg(t, register_y) == reg(s, register_y));
    let u = step(t, ins)->Ok_0;
    assert(u.display =~= s.display);
    if s.display == Seq::new(2048, |i: int| false) {
        if collides(s, x0, y0, n as int) {
            let (cx, cy) = choose|cx: int, cy: int|
                0 <= cx < 64 && 0 <= cy < 32 && #[trigger] sprite_hit(
                    s.memory,
                    s.index,
                    x0,
                    y0,
                    n as int,
                    cx,
                    cy,
                ) && s.display[cell(cx, cy)];
            assert(s.display[cell(cx, cy)] == false);
        }
        if collides(t, x0, y0, n as int) {
            let (cx, cy) = choose|cx: int, cy: int|
                0 <= cx < 64 && 0 <= cy < 32 && #[trigger] sprite_hit(
                    t.memory,
                    t.index,
                    x0,
                    y0,
                    n as int,
                    cx,
                    cy,
                ) && t.display[cell(cx, cy)];
            let k = cell(cx, cy);
            assert(k % 64 == cx && k / 64 == cy);
            assert(t.display[k] != s.display[k]);
        }
        if t.display != s.display {
            assert(!(t.display =~= s.display));
            let k = choose|k: int| 0 <= k < 2048 && t.display[k] != s.display[k];
            let cx = k % 64;
            let cy = k / 64;
            assert(cell(cx, cy) == k);
            assert(sprite_hit(t.memory, t.index, x0, y0, n as int, cx, cy) && t.display[cell(cx, cy)]);
        }
    }
}

} // verus!
