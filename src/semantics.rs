use vstd::prelude::*;

use crate::error::CpuError;
use crate::instruction::Instruction;

verus! {

/// Width of the display in pixels.
pub const SCREEN_WIDTH: usize = 64;

/// Height of the display in pixels.
pub const SCREEN_HEIGHT: usize = 32;

/// Number of pixels; the display is stored row-major, pixel `(x, y)` at `x + SCREEN_WIDTH * y`.
pub const SCREEN_SIZE: usize = SCREEN_WIDTH * SCREEN_HEIGHT;

/// Number of addressable bytes.
pub const RAM_SIZE: usize = 4096;

/// Number of general registers; the last one doubles as the flag register.
pub const NUM_REGS: usize = 16;

/// Number of keys on the keypad.
pub const NUM_KEYS: usize = 16;

/// Number of return addresses the call stack holds.
pub const STACK_SIZE: usize = 16;

/// Size of the built-in font: sixteen glyphs of five bytes.
pub const FONTSET_SIZE: usize = 80;

/// Where programs are loaded and where execution starts.
pub const START_ADDR: u16 = 0x200;

/// Index of the flag register VF.
pub const FLAG_REG: usize = 15;

/// The built-in hexadecimal font, one five-byte glyph per digit 0 to F.
pub const FONTSET: [u8; FONTSET_SIZE] = [
    0xF0, 0x90, 0x90, 0x90, 0xF0, // 0
    0x20, 0x60, 0x20, 0x20, 0x70, // 1
    0xF0, 0x10, 0xF0, 0x80, 0xF0, // 2
    0xF0, 0x10, 0xF0, 0x10, 0xF0, // 3
    0x90, 0x90, 0xF0, 0x10, 0x10, // 4
    0xF0, 0x80, 0xF0, 0x10, 0xF0, // 5
    0xF0, 0x80, 0xF0, 0x90, 0xF0, // 6
    0xF0, 0x10, 0x20, 0x40, 0x40, // 7
    0xF0, 0x90, 0xF0, 0x90, 0xF0, // 8
    0xF0, 0x90, 0xF0, 0x10, 0xF0, // 9
    0xF0, 0x90, 0xF0, 0x90, 0x90, // A
    0xE0, 0x90, 0xE0, 0x90, 0xE0, // B
    0xF0, 0x80, 0x80, 0x80, 0xF0, // C
    0xE0, 0x90, 0x90, 0x90, 0xE0, // D
    0xF0, 0x80, 0xF0, 0x80, 0xF0, // E
    0xF0, 0x80, 0xF0, 0x80, 0x80, // F
];

/// The abstract machine: every part of the state as mathematical values.
pub ghost struct CpuState {
    pub pc: u16,
    pub ram: Seq<u8>,
    pub screen: Seq<bool>,
    pub v: Seq<u8>,
    pub i: u16,
    pub sp: u16,
    pub stack: Seq<u16>,
    pub keys: Seq<bool>,
    pub dt: u8,
    pub st: u8,
    pub beep: bool,
}

impl CpuState {
    /// Every component has its fixed size and the stack pointer is in `0..=16`.
    pub open spec fn wf(self) -> bool {
        &&& self.ram.len() == 4096
        &&& self.screen.len() == 2048
        &&& self.v.len() == 16
        &&& self.stack.len() == 16
        &&& self.keys.len() == 16
        &&& self.sp <= 16
    }

    /// The state right after construction or reset: the font in the first
    /// 80 bytes, PC at 0x200, everything else zero, blank and released.
    pub open spec fn initial() -> CpuState {
        CpuState {
            pc: 0x200,
            ram: Seq::new(4096, |a: int| if a < 80 { FONTSET@[a] } else { 0u8 }),
            screen: Seq::new(2048, |p: int| false),
            v: Seq::new(16, |k: int| 0u8),
            i: 0,
            sp: 0,
            stack: Seq::new(16, |k: int| 0u16),
            keys: Seq::new(16, |k: int| false),
            dt: 0,
            st: 0,
            beep: false,
        }
    }

    /// The program counter moved on by one instruction.
    pub open spec fn skip(self) -> CpuState {
        CpuState { pc: (self.pc + 2) as u16, ..self }
    }

    /// `self.skip()` when `cond` holds, else `self`.
    pub open spec fn skip_if(self, cond: bool) -> CpuState {
        if cond { self.skip() } else { self }
    }

    /// Register `x` set to `val`.
    pub open spec fn set_reg(self, x: int, val: u8) -> CpuState {
        CpuState { v: self.v.update(x, val), ..self }
    }

    /// Register `x` set to `val`, then the flag register set to `flag`.
    pub open spec fn set_reg_flag(self, x: int, val: u8, flag: u8) -> CpuState {
        CpuState { v: self.v.update(x, val).update(15, flag), ..self }
    }
}

/// One timer tick: both timers count down to zero and stop there; the beep
/// signal is on exactly when the sound timer was running before the tick.
pub open spec fn timers_spec(s: CpuState) -> CpuState {
    CpuState {
        dt: if s.dt > 0 { (s.dt - 1) as u8 } else { 0 },
        st: if s.st > 0 { (s.st - 1) as u8 } else { 0 },
        beep: s.st > 0,
        ..s
    }
}

/// The instruction word at `pc`, big-endian, or an error where its second
/// byte lies past the end of memory.
pub open spec fn fetch_spec(s: CpuState) -> Result<u16, CpuError> {
    if s.pc + 1 < 4096 {
        Ok((s.ram[s.pc as int] as int * 256 + s.ram[s.pc + 1] as int) as u16)
    } else {
        Err(CpuError::OutOfBoundsAddress)
    }
}

/// Whether bit `col` of a sprite row is set, counting from the most
/// significant bit.
pub open spec fn row_bit(row: u8, col: int) -> bool {
    row & (0x80u8 >> (col as u8)) != 0
}

/// Column of pixel `p` relative to a sprite whose left edge is at `x`,
/// counted modulo the width.
pub open spec fn sprite_col(x: u8, p: int) -> int {
    (p % 64 - x as int % 64 + 64) % 64
}

/// Row of pixel `p` relative to a sprite whose top edge is at `y`,
/// counted modulo the height.
pub open spec fn sprite_row(y: u8, p: int) -> int {
    (p / 64 - y as int % 32 + 32) % 32
}

/// Whether pixel `p` is covered by a set bit of the `n`-row sprite at
/// memory `i`, drawn at `(x, y)` with wrap-around at the edges.
pub open spec fn sprite_hit(ram: Seq<u8>, i: u16, n: u8, x: u8, y: u8, p: int) -> bool {
    let row = sprite_row(y, p);
    let col = sprite_col(x, p);
    row < n && col < 8 && row_bit(ram[i + row], col)
}

/// The display after XOR-drawing the sprite: every covered pixel flips.
pub open spec fn drawn_screen(s: CpuState, n: u8, x: u8, y: u8) -> Seq<bool> {
    Seq::new(2048, |p: int| s.screen[p] != sprite_hit(s.ram, s.i, n, x, y, p))
}

/// Whether the draw turns off some pixel that was on.
pub open spec fn draw_collides(s: CpuState, n: u8, x: u8, y: u8) -> bool {
    exists|p: int| 0 <= p < 2048 && #[trigger] sprite_hit(s.ram, s.i, n, x, y, p) && s.screen[p]
}

/// Whether key `k` is the lowest-numbered key held down.
pub open spec fn is_first_pressed(keys: Seq<bool>, k: int) -> bool {
    &&& 0 <= k < 16
    &&& keys[k]
    &&& forall|j: int| 0 <= j < k ==> !keys[j]
}

/// The effect of one decoded instruction on a state whose program counter
/// already points past it. `rnd` is the random byte that `Rnd` masks.
pub open spec fn exec_spec(s: CpuState, ins: Instruction, rnd: u8) -> Result<CpuState, CpuError> {
    match ins {
        Instruction::Nop => Ok(s),
        Instruction::Cls => Ok(CpuState { screen: Seq::new(2048, |p: int| false), ..s }),
        Instruction::Ret => if s.sp == 0 {
            Err(CpuError::StackUnderflow)
        } else {
            Ok(CpuState { sp: (s.sp - 1) as u16, pc: s.stack[s.sp - 1], ..s })
        },
        Instruction::Jmp { addr } => Ok(CpuState { pc: addr, ..s }),
        Instruction::Call { addr } => if s.sp >= 16 {
            Err(CpuError::StackOverflow)
        } else {
            Ok(CpuState { stack: s.stack.update(s.sp as int, s.pc), sp: (s.sp + 1) as u16, pc: addr, ..s })
        },
        Instruction::SeImm { x, kk } => Ok(s.skip_if(s.v[x as int] == kk)),
        Instruction::SneImm { x, kk } => Ok(s.skip_if(s.v[x as int] != kk)),
        Instruction::SeReg { x, y } => Ok(s.skip_if(s.v[x as int] == s.v[y as int])),
        Instruction::LdImm { x, kk } => Ok(s.set_reg(x as int, kk)),
        Instruction::AddImm { x, kk } => Ok(s.set_reg(x as int, ((s.v[x as int] + kk) % 256) as u8)),
        Instruction::LdReg { x, y } => Ok(s.set_reg(x as int, s.v[y as int])),
        Instruction::Or { x, y } => Ok(s.set_reg(x as int, s.v[x as int] | s.v[y as int])),
        Instruction::And { x, y } => Ok(s.set_reg(x as int, s.v[x as int] & s.v[y as int])),
        Instruction::Xor { x, y } => Ok(s.set_reg(x as int, s.v[x as int] ^ s.v[y as int])),
        Instruction::AddReg { x, y } => {
            let sum = s.v[x as int] + s.v[y as int];
            Ok(s.set_reg_flag(x as int, (sum % 256) as u8, if sum >= 256 { 1 } else { 0 }))
        },
        Instruction::Sub { x, y } => {
            let (a, b) = (s.v[x as int], s.v[y as int]);
            Ok(s.set_reg_flag(x as int, ((a - b + 256) % 256) as u8, if a >= b { 1 } else { 0 }))
        },
        Instruction::Shr { x } => Ok(s.set_reg_flag(x as int, s.v[x as int] / 2, s.v[x as int] % 2)),
        Instruction::Subn { x, y } => {
            let (a, b) = (s.v[x as int], s.v[y as int]);
            Ok(s.set_reg_flag(x as int, ((b - a + 256) % 256) as u8, if b >= a { 1 } else { 0 }))
        },
        Instruction::Shl { x } => Ok(
            s.set_reg_flag(x as int, ((s.v[x as int] * 2) % 256) as u8, s.v[x as int] / 128),
        ),
        Instruction::SneReg { x, y } => Ok(s.skip_if(s.v[x as int] != s.v[y as int])),
        Instruction::LdI { addr } => Ok(CpuState { i: addr, ..s }),
        Instruction::JmpV0 { addr } => Ok(CpuState { pc: (s.v[0] + addr) as u16, ..s }),
        Instruction::Rnd { x, kk } => Ok(s.set_reg(x as int, rnd & kk)),
        Instruction::Draw { x, y, n } => if s.i + n > 4096 {
            Err(CpuError::OutOfBoundsAddress)
        } else {
            let (vx, vy) = (s.v[x as int], s.v[y as int]);
            Ok(
                CpuState {
                    screen: drawn_screen(s, n, vx, vy),
                    v: s.v.update(15, if draw_collides(s, n, vx, vy) { 1 } else { 0 }),
                    ..s
                },
            )
        },
        Instruction::Skp { x } => if s.v[x as int] >= 16 {
            Err(CpuError::InvalidKeyIndex)
        } else {
            Ok(s.skip_if(s.keys[s.v[x as int] as int]))
        },
        Instruction::Sknp { x } => if s.v[x as int] >= 16 {
            Err(CpuError::InvalidKeyIndex)
        } else {
            Ok(s.skip_if(!s.keys[s.v[x as int] as int]))
        },
        Instruction::LdVxDt { x } => Ok(s.set_reg(x as int, s.dt)),
        Instruction::LdKey { x } => if exists|k: int| is_first_pressed(s.keys, k) {
            let k = choose|k: int| is_first_pressed(s.keys, k);
            Ok(s.set_reg(x as int, k as u8))
        } else {
            Ok(CpuState { pc: (s.pc - 2) as u16, ..s })
        },
        Instruction::LdDtVx { x } => Ok(CpuState { dt: s.v[x as int], ..s }),
        Instruction::LdStVx { x } => Ok(CpuState { st: s.v[x as int], ..s }),
        Instruction::AddI { x } => Ok(CpuState { i: ((s.i + s.v[x as int]) % 65536) as u16, ..s }),
        Instruction::LdFont { x } => Ok(CpuState { i: (s.v[x as int] * 5) as u16, ..s }),
        Instruction::Bcd { x } => if s.i + 3 > 4096 {
            Err(CpuError::OutOfBoundsAddress)
        } else {
            let vx = s.v[x as int];
            Ok(
                CpuState {
                    ram: s.ram.update(s.i as int, vx / 100).update(s.i + 1, (vx / 10) % 10).update(
                        s.i + 2,
                        vx % 10,
                    ),
                    ..s
                },
            )
        },
        Instruction::Store { x } => if s.i + x + 1 > 4096 {
            Err(CpuError::OutOfBoundsAddress)
        } else {
            Ok(
                CpuState {
                    ram: Seq::new(
                        4096,
                        |a: int| if s.i <= a <= s.i + x { s.v[a - s.i] } else { s.ram[a] },
                    ),
                    i: (s.i + x + 1) as u16,
                    ..s
                },
            )
        },
        Instruction::Load { x } => if s.i + x + 1 > 4096 {
            Err(CpuError::OutOfBoundsAddress)
        } else {
            Ok(
                CpuState {
                    v: Seq::new(16, |k: int| if k <= x { s.ram[s.i + k] } else { s.v[k] }),
                    i: (s.i + x + 1) as u16,
                    ..s
                },
            )
        },
    }
}

/// One full step: fetch the word at PC, move PC past it, decode it and run it.
pub open spec fn step_spec(s: CpuState, rnd: u8) -> Result<CpuState, CpuError> {
    match fetch_spec(s) {
        Err(e) => Err(e),
        Ok(op) => match crate::instruction::decode_spec(op) {
            Err(e) => Err(e),
            Ok(ins) => exec_spec(s.skip(), ins, rnd),
        },
    }
}

/// `r` and `t` are the result and the final state of a step from `s` with
/// random byte `rnd`: the stepped state on success, `s` itself on an error.
pub open spec fn step_outcome(s: CpuState, rnd: u8, r: Result<(), CpuError>, t: CpuState) -> bool {
    match step_spec(s, rnd) {
        Ok(n) => r is Ok && t == n,
        Err(e) => r == Err::<(), CpuError>(e) && t == s,
    }
}

/// The memory after copying `data` to the program area.
pub open spec fn loaded_ram(ram: Seq<u8>, data: Seq<u8>) -> Seq<u8> {
    Seq::new(
        4096,
        |a: int| if 0x200 <= a < 0x200 + data.len() { data[a - 0x200] } else { ram[a] },
    )
}


/// The pixel that sprite row `r`, column `c` lands on has that row and
/// column, and is the only one that does.
pub(crate) proof fn lemma_pixel_position(vx: u8, vy: u8, r: int, c: int)
    requires
        0 <= r < 32,
        0 <= c < 64,
    ensures
        ({
            let idx = (vx + c) % 64 + 64 * ((vy + r) % 32);
            &&& 0 <= idx < 2048
            &&& sprite_row(vy, idx) == r
            &&& sprite_col(vx, idx) == c
            &&& forall|p: int| 0 <= p < 2048 && sprite_row(vy, p) == r && sprite_col(vx, p) == c ==> p == idx
        }),
{
    let px = (vx + c) % 64;
    let py = (vy + r) % 32;
    let idx = px + 64 * py;
    lemma_offset_mod(vx as int, c, 64);
    lemma_offset_mod(vy as int, r, 32);
    assert(idx % 64 == px && idx / 64 == py) by (nonlinear_arith)
        requires idx == px + 64 * py, 0 <= px < 64, 0 <= py < 32;
    assert forall|p: int| 0 <= p < 2048 && sprite_row(vy, p) == r && sprite_col(vx, p) == c implies p == idx by {
        lemma_offset_mod(vx as int, c, 64);
        lemma_offset_mod(vy as int, r, 32);
        lemma_offset_unique(vx as int, c, p % 64, 64);
        lemma_offset_unique(vy as int, r, p / 64, 32);
        assert(p == p % 64 + 64 * (p / 64)) by (nonlinear_arith)
            requires 0 <= p;
    }
}

/// Going `c` steps on from `a` on a circle of `m` positions and then
/// measuring the distance back to `a` gives `c`.
proof fn lemma_offset_mod(a: int, c: int, m: int)
    requires
        0 <= a,
        0 <= c < m,
        m > 0,
    ensures
        ((a + c) % m - a % m + m) % m == c,
{
    let (qa, ra) = (a / m, a % m);
    let (qs, rs) = ((a + c) / m, (a + c) % m);
    vstd::arithmetic::div_mod::lemma_fundamental_div_mod(a, m);
    vstd::arithmetic::div_mod::lemma_fundamental_div_mod(a + c, m);
    let d = rs - ra + m;
    assert(d == (1 - (qs - qa)) * m + c) by (nonlinear_arith)
        requires
            a + c == m * qs + rs,
            a == m * qa + ra,
            d == rs - ra + m,
    ;
    vstd::arithmetic::div_mod::lemma_fundamental_div_mod_converse(d, m, 1 - (qs - qa), c);
}

/// A position on a circle of `m` is determined by its distance from `a`.
proof fn lemma_offset_unique(a: int, c: int, q: int, m: int)
    requires
        0 <= a,
        0 <= c < m,
        0 <= q < m,
        m > 0,
        (q - a % m + m) % m == c,
    ensures
        q == (a + c) % m,
{
    vstd::arithmetic::div_mod::lemma_mod_pos_bound(a, m);
    vstd::arithmetic::div_mod::lemma_mod_pos_bound(a + c, m);
    lemma_offset_mod(a, c, m);
    lemma_wrap_once(q - a % m + m, m);
    lemma_wrap_once((a + c) % m - a % m + m, m);
}

/// A value in `0..2m` reduced modulo `m` is itself or itself less `m`.
proof fn lemma_wrap_once(d: int, m: int)
    requires
        0 <= d < 2 * m,
        m > 0,
    ensures
        d % m == if d < m { d } else { d - m },
{
    if d < m {
        vstd::arithmetic::div_mod::lemma_small_mod(d as nat, m as nat);
    } else {
        vstd::arithmetic::div_mod::lemma_fundamental_div_mod_converse(d, m, 1, d - m);
    }
}

} // verus!
