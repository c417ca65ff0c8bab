//! Properties of the machine that relate several steps or hold of every state.

use vstd::prelude::*;

use crate::instruction::Instruction;
use crate::semantics::{
    draw_collides, exec_spec, lemma_pixel_position, row_bit, sprite_hit, step_spec, timers_spec,
    CpuState,
};

verus! {

/// `LD Vx, kk` stored at PC sets register `x` to `kk`, moves PC on by two
/// and changes nothing else, whatever the register.
pub proof fn law_load_immediate(s: CpuState, x: u8, kk: u8, rnd: u8)
    requires
        s.wf(),
        x < 16,
        s.pc + 1 < 4096,
        s.ram[s.pc as int] == 0x60 + x,
        s.ram[s.pc + 1] == kk,
    ensures
        step_spec(s, rnd) == Ok::<CpuState, crate::error::CpuError>(
            CpuState { v: s.v.update(x as int, kk), pc: (s.pc + 2) as u16, ..s },
        ),
{
    let op = ((0x60 + x) * 256 + kk) as u16;
    assert(op / 4096 == 6 && (op / 256) % 16 == x && op % 256 == kk);
}

/// A call to `a` followed by the return stored at `a` brings PC back to the
/// instruction after the call, with the stack as deep as before.
pub proof fn law_call_return(s: CpuState, a: u16, rnd1: u8, rnd2: u8)
    requires
        s.wf(),
        s.sp < 16,
        s.pc + 1 < 4096,
        a + 1 < 4096,
        s.ram[s.pc as int] == 0x20 + a / 256,
        s.ram[s.pc + 1] == a % 256,
        s.ram[a as int] == 0x00,
        s.ram[a + 1] == 0xEE,
    ensures
        step_spec(s, rnd1) is Ok,
        step_spec(step_spec(s, rnd1)->Ok_0, rnd2) is Ok,
        step_spec(step_spec(s, rnd1)->Ok_0, rnd2)->Ok_0.pc == s.pc + 2,
        step_spec(step_spec(s, rnd1)->Ok_0, rnd2)->Ok_0.sp == s.sp,
{
    let op = ((0x20 + a / 256) * 256 + a % 256) as u16;
    assert(op == 0x2000 + a);
    assert(op / 4096 == 2 && op % 4096 == a);
}

/// Whether some row of the `n`-row sprite at `i` has a set bit.
pub open spec fn sprite_nonempty(ram: Seq<u8>, i: u16, n: u8) -> bool {
    exists|r: int, c: int| 0 <= r < n && 0 <= c < 8 && #[trigger] row_bit(ram[i + r], c)
}

/// Drawing a sprite twice at the same place leaves the display as it was.
/// On a blank display the first draw reports no collision and, where the
/// sprite has a set bit, the second reports one.
pub proof fn law_double_draw(s: CpuState, x: u8, y: u8, n: u8, rnd: u8)
    requires
        s.wf(),
        x < 16,
        y < 16,
        n < 16,
        x != 15,
        y != 15,
        s.i + n <= 4096,
    ensures
        ({
            let ins = Instruction::Draw { x, y, n };
            let s1 = exec_spec(s, ins, rnd)->Ok_0;
            let s2 = exec_spec(s1, ins, rnd)->Ok_0;
            &&& exec_spec(s, ins, rnd) is Ok
            &&& exec_spec(s1, ins, rnd) is Ok
            &&& s2.screen == s.screen
            &&& (forall|p: int| 0 <= p < 2048 ==> !s.screen[p]) ==> {
                &&& s1.v[15] == 0
                &&& sprite_nonempty(s.ram, s.i, n) ==> s2.v[15] == 1
            }
        }),
{
    let ins = Instruction::Draw { x, y, n };
    let s1 = exec_spec(s, ins, rnd)->Ok_0;
    let s2 = exec_spec(s1, ins, rnd)->Ok_0;
    let (vx, vy) = (s.v[x as int], s.v[y as int]);
    assert(s1.v[x as int] == vx && s1.v[y as int] == vy);
    assert(s2.screen =~= s.screen);
    if forall|p: int| 0 <= p < 2048 ==> !s.screen[p] {
        assert(!draw_collides(s, n, vx, vy));
        if sprite_nonempty(s.ram, s.i, n) {
            let (r, c) = choose|r: int, c: int| 0 <= r < n && 0 <= c < 8 && #[trigger] row_bit(s.ram[s.i + r], c);
            lemma_pixel_position(vx, vy, r, c);
            let p = (vx + c) % 64 + 64 * ((vy + r) % 32);
            assert(sprite_hit(s1.ram, s1.i, n, vx, vy, p) && s1.screen[p]);
            assert(draw_collides(s1, n, vx, vy));
        }
    }
}

/// The state after `k` timer ticks.
pub open spec fn timers_after(s: CpuState, k: nat) -> CpuState
    decreases k,
{
    if k == 0 { s } else { timers_spec(timers_after(s, (k - 1) as nat)) }
}

/// After `k` timer ticks each timer has counted down by `k` but not below
/// zero.
pub proof fn law_timers_saturate(s: CpuState, k: nat)
    ensures
        timers_after(s, k).dt == if s.dt >= k { s.dt - k } else { 0 },
        timers_after(s, k).st == if s.st >= k { s.st - k } else { 0 },
    decreases k,
{
    if k > 0 {
        law_timers_saturate(s, (k - 1) as nat);
    }
}

/// A sound timer at one beeps for the next tick only.
pub proof fn law_beep_edge(s: CpuState)
    requires
        s.st == 1,
    ensures
        timers_spec(s).st == 0,
        timers_spec(s).beep,
        !timers_spec(timers_spec(s)).beep,
{
}

} // verus!
