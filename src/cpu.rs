use vstd::prelude::*;

use crate::error::CpuError;
use crate::instruction::{decode, Instruction};
use crate::rng::random_byte;
use crate::semantics::{
    draw_collides, drawn_screen, exec_spec, fetch_spec, is_first_pressed, lemma_pixel_position,
    loaded_ram, sprite_col, sprite_hit, sprite_row, step_outcome, timers_spec, CpuState, FLAG_REG,
    FONTSET, FONTSET_SIZE, NUM_KEYS, NUM_REGS, RAM_SIZE, SCREEN_HEIGHT, SCREEN_SIZE, SCREEN_WIDTH,
    STACK_SIZE, START_ADDR,
};

verus! {

/// The machine: memory, registers, stack, timers, display and keypad.
pub struct Cpu {
    pc: u16,
    ram: [u8; RAM_SIZE],
    screen: [bool; SCREEN_SIZE],
    v_reg: [u8; NUM_REGS],
    i_reg: u16,
    sp: u16,
    stack: [u16; STACK_SIZE],
    keys: [bool; NUM_KEYS],
    dt: u8,
    st: u8,
    need_beep: bool,
}

impl View for Cpu {
    type V = CpuState;

    closed spec fn view(&self) -> CpuState {
        CpuState {
            pc: self.pc,
            ram: self.ram@,
            screen: self.screen@,
            v: self.v_reg@,
            i: self.i_reg,
            sp: self.sp,
            stack: self.stack@,
            keys: self.keys@,
            dt: self.dt,
            st: self.st,
            beep: self.need_beep,
        }
    }
}

impl Cpu {
    /// A fresh machine: font loaded, PC at 0x200, all else zero.
    pub fn new() -> (r: Cpu)
        ensures
            r@ == CpuState::initial(),
            r@.wf(),
    {
        let mut cpu = Cpu {
            pc: START_ADDR,
            ram: [0u8; RAM_SIZE],
            screen: [false; SCREEN_SIZE],
            v_reg: [0u8; NUM_REGS],
            i_reg: 0,
            sp: 0,
            stack: [0u16; STACK_SIZE],
            keys: [false; NUM_KEYS],
            dt: 0,
            st: 0,
            need_beep: false,
        };
        proof {
            let init = CpuState::initial();
            assert(cpu.screen@ =~= init.screen);
            assert(cpu.v_reg@ =~= init.v);
            assert(cpu.stack@ =~= init.stack);
            assert(cpu.keys@ =~= init.keys);
        }
        cpu.load_font();
        cpu
    }

    /// Reinitialises every part of the machine as `new` does. A program that
    /// was loaded is gone and must be loaded again.
    pub fn reest(&mut self)
        ensures
            final(self)@ == CpuState::initial(),
            final(self)@.wf(),
    {
        *self = Cpu::new();
    }

    /// Fetches, decodes and executes one instruction, using `rnd` as the
    /// random byte should the instruction ask for one. On an error the
    /// machine is left as it was.
    pub fn tick_with(&mut self, rnd: u8) -> (r: Result<(), CpuError>)
        requires
            old(self)@.wf(),
        ensures
            final(self)@.wf(),
            step_outcome(old(self)@, rnd, r, final(self)@),
    {
        let start = self.pc;
        let op = match self.fetch() {
            Ok(op) => op,
            Err(e) => return Err(e),
        };
        let ins = match decode(op) {
            Ok(ins) => ins,
            Err(e) => {
                self.pc = start;
                return Err(e);
            },
        };
        match self.execute(ins, rnd) {
            Ok(()) => Ok(()),
            Err(e) => {
                self.pc = start;
                Err(e)
            },
        }
    }

    /// Fetches, decodes and executes one instruction, drawing a fresh random
    /// byte for it. The outcome is that of `tick_with` for some byte.
    pub fn tick(&mut self) -> (r: Result<(), CpuError>)
        requires
            old(self)@.wf(),
        ensures
            final(self)@.wf(),
            exists|rnd: u8| step_outcome(old(self)@, rnd, r, final(self)@),
    {
        let rnd = random_byte();
        self.tick_with(rnd)
    }

    /// One tick of the 60 Hz timers: both count down and stop at zero; the
    /// beep signal says whether the sound timer was running.
    pub fn tick_timers(&mut self)
        requires
            old(self)@.wf(),
        ensures
            final(self)@ == timers_spec(old(self)@),
            final(self)@.wf(),
    {
        if self.dt > 0 {
            self.dt = self.dt - 1;
        }
        if self.st > 0 {
            self.st = self.st - 1;
            self.need_beep = true;
        } else {
            self.need_beep = false;
        }
    }

    /// Whether the sound timer was running at the last timer tick.
    pub fn get_beep_status(&self) -> (r: bool)
        ensures
            r == self@.beep,
    {
        self.need_beep
    }

    /// The display, row-major: pixel `(x, y)` at `x + SCREEN_WIDTH * y`.
    pub fn get_display(&self) -> (r: &[bool])
        ensures
            r@ == self@.screen,
    {
        self.screen.as_slice()
    }

    /// The program counter.
    pub fn pc(&self) -> (r: u16)
        ensures
            r == self@.pc,
    {
        self.pc
    }

    /// The value of register `k`; VF is register 15.
    pub fn register(&self, k: usize) -> (r: u8)
        requires
            self@.wf(),
            k < 16,
        ensures
            r == self@.v[k as int],
    {
        self.v_reg[k]
    }

    /// The index register I.
    pub fn index_register(&self) -> (r: u16)
        ensures
            r == self@.i,
    {
        self.i_reg
    }

    /// The delay timer.
    pub fn delay_timer(&self) -> (r: u8)
        ensures
            r == self@.dt,
    {
        self.dt
    }

    /// The sound timer.
    pub fn sound_timer(&self) -> (r: u8)
        ensures
            r == self@.st,
    {
        self.st
    }

    /// The byte at memory address `addr`.
    pub fn memory(&self, addr: usize) -> (r: u8)
        requires
            self@.wf(),
            addr < 4096,
        ensures
            r == self@.ram[addr as int],
    {
        self.ram[addr]
    }

    /// How many return addresses the call stack holds.
    pub fn stack_depth(&self) -> (r: u16)
        ensures
            r == self@.sp,
    {
        self.sp
    }

    /// Records whether key `idx` is held down; refuses an index outside `0..16`.
    pub fn keypress(&mut self, idx: usize, pressed: bool) -> (r: Result<(), CpuError>)
        requires
            old(self)@.wf(),
        ensures
            final(self)@.wf(),
            idx < 16 ==> r is Ok && final(self)@ == (CpuState {
                keys: old(self)@.keys.update(idx as int, pressed),
                ..old(self)@
            }),
            idx >= 16 ==> r == Err::<(), CpuError>(CpuError::InvalidKeyIndex) && final(self)@ == old(self)@,
    {
        if idx >= NUM_KEYS {
            return Err(CpuError::InvalidKeyIndex);
        }
        self.keys[idx] = pressed;
        Ok(())
    }

    /// Copies a program image to memory from 0x200 on; refuses one that does
    /// not fit below 4096.
    pub fn load(&mut self, data: &[u8]) -> (r: Result<(), CpuError>)
        requires
            old(self)@.wf(),
        ensures
            final(self)@.wf(),
            data@.len() <= 4096 - 0x200 ==> r is Ok && final(self)@ == (CpuState {
                ram: loaded_ram(old(self)@.ram, data@),
                ..old(self)@
            }),
            data@.len() > 4096 - 0x200 ==> r == Err::<(), CpuError>(CpuError::ProgramTooLarge)
                && final(self)@ == old(self)@,
    {
        let start = START_ADDR as usize;
        if data.len() > RAM_SIZE - start {
            return Err(CpuError::ProgramTooLarge);
        }
        let ghost s0 = self@;
        let mut k: usize = 0;
        while k < data.len()
            invariant
                s0 == old(self)@,
                s0.wf(),
                start == 0x200,
                data@.len() <= 4096 - 0x200,
                k <= data@.len(),
                self@ == (CpuState { ram: self@.ram, ..s0 }),
                self@.ram.len() == 4096,
                forall|a: int| 0 <= a < 4096 ==> #[trigger] self@.ram[a] == if 0x200 <= a < 0x200 + k {
                    data@[a - 0x200]
                } else {
                    s0.ram[a]
                },
            decreases data@.len() - k,
        {
            self.ram[start + k] = data[k];
            k += 1;
        }
        assert(self@.ram =~= loaded_ram(s0.ram, data@));
        Ok(())
    }

    /// Reads the big-endian instruction word at PC and moves PC past it.
    fn fetch(&mut self) -> (r: Result<u16, CpuError>)
        requires
            old(self)@.wf(),
        ensures
            match fetch_spec(old(self)@) {
                Ok(op) => r == Ok::<u16, CpuError>(op) && final(self)@ == old(self)@.skip(),
                Err(e) => r == Err::<u16, CpuError>(e) && final(self)@ == old(self)@,
            },
    {
        if self.pc as usize + 1 >= RAM_SIZE {
            return Err(CpuError::OutOfBoundsAddress);
        }
        let hi = self.ram[self.pc as usize] as u16;
        let lo = self.ram[self.pc as usize + 1] as u16;
        self.pc = self.pc + 2;
        Ok(hi * 256 + lo)
    }

    /// Copies the font into the first bytes of an otherwise zeroed memory.
    fn load_font(&mut self)
        requires
            forall|a: int| 0 <= a < 4096 ==> old(self).ram@[a] == 0,
        ensures
            final(self)@ == (CpuState { ram: CpuState::initial().ram, ..old(self)@ }),
    {
        let mut k: usize = 0;
        while k < FONTSET_SIZE
            invariant
                k <= FONTSET_SIZE,
                self@ == (CpuState { ram: self.ram@, ..old(self)@ }),
                self.ram@.len() == 4096,
                forall|a: int| 0 <= a < k ==> self.ram@[a] == FONTSET@[a],
                forall|a: int| k <= a < 4096 ==> self.ram@[a] == 0,
            decreases FONTSET_SIZE - k,
        {
            self.ram[k] = FONTSET[k];
            k += 1;
        }
        assert(self.ram@ =~= CpuState::initial().ram);
    }

    /// Runs one decoded instruction; PC already points past it. On an error
    /// nothing changes.
    fn execute(&mut self, ins: Instruction, rnd: u8) -> (r: Result<(), CpuError>)
        requires
            old(self)@.wf(),
            ins.wf(),
            2 <= old(self)@.pc <= 4096,
        ensures
            final(self)@.wf(),
            match exec_spec(old(self)@, ins, rnd) {
                Ok(t) => r is Ok && final(self)@ == t,
                Err(e) => r == Err::<(), CpuError>(e) && final(self)@ == old(self)@,
            },
    {
        match ins {
            Instruction::Nop | Instruction::Cls | Instruction::Ret | Instruction::Jmp { .. }
            | Instruction::Call { .. } | Instruction::JmpV0 { .. } | Instruction::SeImm { .. }
            | Instruction::SneImm { .. } | Instruction::SeReg { .. } | Instruction::SneReg { .. }
            | Instruction::Skp { .. } | Instruction::Sknp { .. } | Instruction::LdKey { .. } => {
                self.execute_control(ins, rnd)
            },
            Instruction::LdImm { .. } | Instruction::AddImm { .. } | Instruction::LdReg { .. }
            | Instruction::Or { .. } | Instruction::And { .. } | Instruction::Xor { .. }
            | Instruction::AddReg { .. } | Instruction::Sub { .. } | Instruction::Shr { .. }
            | Instruction::Subn { .. } | Instruction::Shl { .. } | Instruction::Rnd { .. } => {
                self.execute_alu(ins, rnd)
            },
            _ => self.execute_memory(ins, rnd),
        }
    }

    /// Control flow, conditional skips and key waits.
    fn execute_control(&mut self, ins: Instruction, rnd: u8) -> (r: Result<(), CpuError>)
        requires
            old(self)@.wf(),
            ins.wf(),
            2 <= old(self)@.pc <= 4096,
            is_control(ins),
        ensures
            final(self)@.wf(),
            match exec_spec(old(self)@, ins, rnd) {
                Ok(t) => r is Ok && final(self)@ == t,
                Err(e) => r == Err::<(), CpuError>(e) && final(self)@ == old(self)@,
            },
    {
        match ins {
            Instruction::Nop => {},
            Instruction::Cls => {
                self.screen = [false; SCREEN_SIZE];
                assert(self.screen@ =~= Seq::new(2048, |p: int| false));
            },
            Instruction::Ret => {
                if self.sp == 0 {
                    return Err(CpuError::StackUnderflow);
                }
                self.sp = self.sp - 1;
                self.pc = self.stack[self.sp as usize];
            },
            Instruction::Jmp { addr } => {
                self.pc = addr;
            },
            Instruction::Call { addr } => {
                if self.sp as usize >= STACK_SIZE {
                    return Err(CpuError::StackOverflow);
                }
                self.stack[self.sp as usize] = self.pc;
                self.sp = self.sp + 1;
                self.pc = addr;
            },
            Instruction::JmpV0 { addr } => {
                self.pc = self.v_reg[0] as u16 + addr;
            },
            Instruction::SeImm { x, kk } => {
                if self.v_reg[x as usize] == kk {
                    self.pc = self.pc + 2;
                }
            },
            Instruction::SneImm { x, kk } => {
                if self.v_reg[x as usize] != kk {
                    self.pc = self.pc + 2;
                }
            },
            Instruction::SeReg { x, y } => {
                if self.v_reg[x as usize] == self.v_reg[y as usize] {
                    self.pc = self.pc + 2;
                }
            },
            Instruction::SneReg { x, y } => {
                if self.v_reg[x as usize] != self.v_reg[y as usize] {
                    self.pc = self.pc + 2;
                }
            },
            Instruction::Skp { x } => {
                let k = self.v_reg[x as usize];
                if k as usize >= NUM_KEYS {
                    return Err(CpuError::InvalidKeyIndex);
                }
                if self.keys[k as usize] {
                    self.pc = self.pc + 2;
                }
            },
            Instruction::Sknp { x } => {
                let k = self.v_reg[x as usize];
                if k as usize >= NUM_KEYS {
                    return Err(CpuError::InvalidKeyIndex);
                }
                if !self.keys[k as usize] {
                    self.pc = self.pc + 2;
                }
            },
            Instruction::LdKey { x } => {
                match self.first_pressed() {
                    Some(k) => {
                        self.v_reg[x as usize] = k;
                    },
                    None => {
                        self.pc = self.pc - 2;
                    },
                }
            },
            _ => {},
        }
        Ok(())
    }

    /// Register loads and arithmetic.
    fn execute_alu(&mut self, ins: Instruction, rnd: u8) -> (r: Result<(), CpuError>)
        requires
            old(self)@.wf(),
            ins.wf(),
            2 <= old(self)@.pc <= 4096,
            is_alu(ins),
        ensures
            final(self)@.wf(),
            match exec_spec(old(self)@, ins, rnd) {
                Ok(t) => r is Ok && final(self)@ == t,
                Err(e) => r == Err::<(), CpuError>(e) && final(self)@ == old(self)@,
            },
    {
        match ins {
            Instruction::LdImm { x, kk } => {
                self.v_reg[x as usize] = kk;
            },
            Instruction::AddImm { x, kk } => {
                let vx = self.v_reg[x as usize];
                self.v_reg[x as usize] = vx.wrapping_add(kk);
            },
            Instruction::LdReg { x, y } => {
                let vy = self.v_reg[y as usize];
                self.v_reg[x as usize] = vy;
            },
            Instruction::Or { x, y } => {
                let (vx, vy) = (self.v_reg[x as usize], self.v_reg[y as usize]);
                self.v_reg[x as usize] = vx | vy;
            },
            Instruction::And { x, y } => {
                let (vx, vy) = (self.v_reg[x as usize], self.v_reg[y as usize]);
                self.v_reg[x as usize] = vx & vy;
            },
            Instruction::Xor { x, y } => {
                let (vx, vy) = (self.v_reg[x as usize], self.v_reg[y as usize]);
                self.v_reg[x as usize] = vx ^ vy;
            },
            Instruction::AddReg { x, y } => {
                let (vx, vy) = (self.v_reg[x as usize], self.v_reg[y as usize]);
                let carry = vx as u16 + vy as u16 > 0xFF;
                self.v_reg[x as usize] = vx.wrapping_add(vy);
                self.v_reg[FLAG_REG] = if carry { 1 } else { 0 };
            },
            Instruction::Sub { x, y } => {
                let (vx, vy) = (self.v_reg[x as usize], self.v_reg[y as usize]);
                let borrow = vx < vy;
                self.v_reg[x as usize] = vx.wrapping_sub(vy);
                self.v_reg[FLAG_REG] = if borrow { 0 } else { 1 };
            },
            Instruction::Shr { x } => {
                let vx = self.v_reg[x as usize];
                self.v_reg[x as usize] = vx / 2;
                self.v_reg[FLAG_REG] = vx % 2;
            },
            Instruction::Subn { x, y } => {
                let (vx, vy) = (self.v_reg[x as usize], self.v_reg[y as usize]);
                let borrow = vy < vx;
                self.v_reg[x as usize] = vy.wrapping_sub(vx);
                self.v_reg[FLAG_REG] = if borrow { 0 } else { 1 };
            },
            Instruction::Shl { x } => {
                let vx = self.v_reg[x as usize];
                self.v_reg[x as usize] = ((vx as u16 * 2) % 256) as u8;
                self.v_reg[FLAG_REG] = vx / 128;
            },
            Instruction::Rnd { x, kk } => {
                self.v_reg[x as usize] = rnd & kk;
            },
            _ => {},
        }
        Ok(())
    }

    /// The index register, timers, drawing and memory blocks.
    fn execute_memory(&mut self, ins: Instruction, rnd: u8) -> (r: Result<(), CpuError>)
        requires
            old(self)@.wf(),
            ins.wf(),
            2 <= old(self)@.pc <= 4096,
            !is_control(ins) && !is_alu(ins),
        ensures
            final(self)@.wf(),
            match exec_spec(old(self)@, ins, rnd) {
                Ok(t) => r is Ok && final(self)@ == t,
                Err(e) => r == Err::<(), CpuError>(e) && final(self)@ == old(self)@,
            },
    {
        match ins {
            Instruction::LdI { addr } => {
                self.i_reg = addr;
            },
            Instruction::Draw { x, y, n } => {
                if self.i_reg as usize + n as usize > RAM_SIZE {
                    return Err(CpuError::OutOfBoundsAddress);
                }
                let (vx, vy) = (self.v_reg[x as usize], self.v_reg[y as usize]);
                self.draw(vx, vy, n);
            },
            Instruction::LdVxDt { x } => {
                self.v_reg[x as usize] = self.dt;
            },
            Instruction::LdDtVx { x } => {
                self.dt = self.v_reg[x as usize];
            },
            Instruction::LdStVx { x } => {
                self.st = self.v_reg[x as usize];
            },
            Instruction::AddI { x } => {
                self.i_reg = self.i_reg.wrapping_add(self.v_reg[x as usize] as u16);
            },
            Instruction::LdFont { x } => {
                self.i_reg = self.v_reg[x as usize] as u16 * 5;
            },
            Instruction::Bcd { x } => {
                if self.i_reg as usize + 3 > RAM_SIZE {
                    return Err(CpuError::OutOfBoundsAddress);
                }
                let vx = self.v_reg[x as usize];
                let i = self.i_reg as usize;
                self.ram[i] = vx / 100;
                self.ram[i + 1] = (vx / 10) % 10;
                self.ram[i + 2] = vx % 10;
            },
            Instruction::Store { x } => {
                if self.i_reg as usize + x as usize + 1 > RAM_SIZE {
                    return Err(CpuError::OutOfBoundsAddress);
                }
                self.store_registers(x);
            },
            Instruction::Load { x } => {
                if self.i_reg as usize + x as usize + 1 > RAM_SIZE {
                    return Err(CpuError::OutOfBoundsAddress);
                }
                self.load_registers(x);
            },
            _ => {},
        }
        Ok(())
    }

    /// XOR-draws the `n`-row sprite at memory I with its top-left corner at
    /// `(vx, vy)`, wrapping at the edges, and sets VF to the collision flag.
    fn draw(&mut self, vx: u8, vy: u8, n: u8)
        requires
            old(self)@.wf(),
            n < 16,
            old(self)@.i + n <= 4096,
        ensures
            final(self)@ == (CpuState {
                screen: drawn_screen(old(self)@, n, vx, vy),
                v: old(self)@.v.update(15, if draw_collides(old(self)@, n, vx, vy) { 1 } else { 0 }),
                ..old(self)@
            }),
    {
        let ghost s0 = self@;
        let i = self.i_reg as usize;
        let mut flipped = false;
        let mut r: u8 = 0;
        while r < n
            invariant
                s0 == old(self)@,
                s0.wf(),
                n < 16,
                i == s0.i,
                s0.i + n <= 4096,
                r <= n,
                self@ == (CpuState { screen: self@.screen, ..s0 }),
                self@.screen.len() == 2048,
                forall|p: int| 0 <= p < 2048 ==> #[trigger] self@.screen[p] == (s0.screen[p] != (
                    sprite_hit(s0.ram, s0.i, n, vx, vy, p) && sprite_row(vy, p) < r)),
                flipped == exists|p: int| 0 <= p < 2048 && #[trigger] sprite_hit(s0.ram, s0.i, n, vx, vy, p)
                    && sprite_row(vy, p) < r && s0.screen[p],
            decreases n - r,
        {
            let pixels = self.ram[i + r as usize];
            let mut c: u8 = 0;
            while c < 8
                invariant
                    s0 == old(self)@,
                    s0.wf(),
                    n < 16,
                    i == s0.i,
                    s0.i + n <= 4096,
                    r < n,
                    c <= 8,
                    pixels == s0.ram[i + r],
                    self@ == (CpuState { screen: self@.screen, ..s0 }),
                    self@.screen.len() == 2048,
                    forall|p: int| 0 <= p < 2048 ==> #[trigger] self@.screen[p] == (s0.screen[p] != (
                        sprite_hit(s0.ram, s0.i, n, vx, vy, p) && pixel_done(vx, vy, r as int, c as int, p))),
                    flipped == exists|p: int| 0 <= p < 2048 && #[trigger] sprite_hit(s0.ram, s0.i, n, vx, vy, p)
                        && pixel_done(vx, vy, r as int, c as int, p) && s0.screen[p],
                decreases 8 - c,
            {
                let px = (vx as usize + c as usize) % SCREEN_WIDTH;
                let py = (vy as usize + r as usize) % SCREEN_HEIGHT;
                let idx = px + SCREEN_WIDTH * py;
                proof {
                    lemma_pixel_position(vx, vy, r as int, c as int);
                }
                let ghost before = self@.screen;
                let ghost was_flipped = flipped;
                if pixels & (0x80u8 >> c) != 0 {
                    assert(sprite_hit(s0.ram, s0.i, n, vx, vy, idx as int));
                    flipped = flipped || self.screen[idx];
                    self.screen[idx] = !self.screen[idx];
                } else {
                    assert(!sprite_hit(s0.ram, s0.i, n, vx, vy, idx as int));
                }
                proof {
                    assert forall|p: int| 0 <= p < 2048 implies #[trigger] self@.screen[p] == (s0.screen[p] != (
                        sprite_hit(s0.ram, s0.i, n, vx, vy, p) && pixel_done(vx, vy, r as int, c + 1, p))) by {
                        if p != idx {
                            assert(pixel_done(vx, vy, r as int, c + 1, p) == pixel_done(vx, vy, r as int, c as int, p));
                        }
                    }
                    if flipped && !was_flipped {
                        assert(sprite_hit(s0.ram, s0.i, n, vx, vy, idx as int)
                            && pixel_done(vx, vy, r as int, c + 1, idx as int) && s0.screen[idx as int]);
                    }
                    if was_flipped {
                        let q = choose|p: int| 0 <= p < 2048 && #[trigger] sprite_hit(s0.ram, s0.i, n, vx, vy, p)
                            && pixel_done(vx, vy, r as int, c as int, p) && s0.screen[p];
                        assert(pixel_done(vx, vy, r as int, c + 1, q));
                    }
                    if !flipped {
                        assert forall|p: int| 0 <= p < 2048 && #[trigger] sprite_hit(s0.ram, s0.i, n, vx, vy, p)
                            && pixel_done(vx, vy, r as int, c + 1, p) implies !s0.screen[p] by {
                            if p != idx {
                                assert(pixel_done(vx, vy, r as int, c as int, p));
                            }
                        }
                    }
                }
                c += 1;
            }
            proof {
                assert forall|p: int| 0 <= p < 2048 implies (sprite_hit(s0.ram, s0.i, n, vx, vy, p)
                    && pixel_done(vx, vy, r as int, 8, p)) == (sprite_hit(s0.ram, s0.i, n, vx, vy, p)
                    && sprite_row(vy, p) < r + 1) by {}
                if flipped {
                    let q = choose|p: int| 0 <= p < 2048 && #[trigger] sprite_hit(s0.ram, s0.i, n, vx, vy, p)
                        && pixel_done(vx, vy, r as int, 8, p) && s0.screen[p];
                    assert(sprite_row(vy, q) < r + 1);
                }
            }
            r += 1;
        }
        proof {
            assert forall|p: int| 0 <= p < 2048 implies #[trigger] self@.screen[p] == drawn_screen(s0, n, vx, vy)[p] by {}
            assert(self@.screen =~= drawn_screen(s0, n, vx, vy));
        }
        self.v_reg[FLAG_REG] = if flipped { 1 } else { 0 };
    }

    /// The lowest-numbered key held down, if any.
    fn first_pressed(&self) -> (r: Option<u8>)
        requires
            self@.wf(),
        ensures
            match r {
                Some(k) => is_first_pressed(self@.keys, k as int),
                None => forall|k: int| 0 <= k < 16 ==> !self@.keys[k],
            },
    {
        let mut k: usize = 0;
        while k < NUM_KEYS
            invariant
                self@.wf(),
                k <= 16,
                forall|j: int| 0 <= j < k ==> !self@.keys[j],
            decreases NUM_KEYS - k,
        {
            if self.keys[k] {
                return Some(k as u8);
            }
            k += 1;
        }
        None
    }

    /// Copies V0 through Vx to memory at I and moves I past them.
    fn store_registers(&mut self, x: u8)
        requires
            old(self)@.wf(),
            x < 16,
            old(self)@.i + x + 1 <= 4096,
        ensures
            final(self)@ == (CpuState {
                ram: Seq::new(4096, |a: int| if old(self)@.i <= a <= old(self)@.i + x {
                    old(self)@.v[a - old(self)@.i]
                } else {
                    old(self)@.ram[a]
                }),
                i: (old(self)@.i + x + 1) as u16,
                ..old(self)@
            }),
    {
        let ghost s0 = self@;
        let i = self.i_reg as usize;
        let mut k: usize = 0;
        while k <= x as usize
            invariant
                s0 == old(self)@,
                s0.wf(),
                x < 16,
                i == s0.i,
                i + x + 1 <= 4096,
                k <= x + 1,
                self@ == (CpuState { ram: self@.ram, ..s0 }),
                self@.ram.len() == 4096,
                forall|a: int| 0 <= a < 4096 ==> #[trigger] self@.ram[a] == if i <= a < i + k {
                    s0.v[a - i]
                } else {
                    s0.ram[a]
                },
            decreases x + 1 - k,
        {
            self.ram[i + k] = self.v_reg[k];
            k += 1;
        }
        proof {
            assert(self@.ram =~= Seq::new(4096, |a: int| if s0.i <= a <= s0.i + x {
                s0.v[a - s0.i]
            } else {
                s0.ram[a]
            }));
        }
        self.i_reg = self.i_reg + x as u16 + 1;
    }

    /// Copies memory at I into V0 through Vx and moves I past them.
    fn load_registers(&mut self, x: u8)
        requires
            old(self)@.wf(),
            x < 16,
            old(self)@.i + x + 1 <= 4096,
        ensures
            final(self)@ == (CpuState {
                v: Seq::new(16, |k: int| if k <= x { old(self)@.ram[old(self)@.i + k] } else { old(self)@.v[k] }),
                i: (old(self)@.i + x + 1) as u16,
                ..old(self)@
            }),
    {
        let ghost s0 = self@;
        let i = self.i_reg as usize;
        let mut k: usize = 0;
        while k <= x as usize
            invariant
                s0 == old(self)@,
                s0.wf(),
                x < 16,
                i == s0.i,
                i + x + 1 <= 4096,
                k <= x + 1,
                self@ == (CpuState { v: self@.v, ..s0 }),
                self@.v.len() == 16,
                forall|j: int| 0 <= j < 16 ==> #[trigger] self@.v[j] == if j < k { s0.ram[i + j] } else { s0.v[j] },
            decreases x + 1 - k,
        {
            self.v_reg[k] = self.ram[i + k];
            k += 1;
        }
        proof {
            assert(self@.v =~= Seq::new(16, |j: int| if j <= x { s0.ram[s0.i + j] } else { s0.v[j] }));
        }
        self.i_reg = self.i_reg + x as u16 + 1;
    }
}

/// The instructions that change control flow or wait on keys.
spec fn is_control(ins: Instruction) -> bool {
    ||| ins is Nop
    ||| ins is Cls
    ||| ins is Ret
    ||| ins is Jmp
    ||| ins is Call
    ||| ins is JmpV0
    ||| ins is SeImm
    ||| ins is SneImm
    ||| ins is SeReg
    ||| ins is SneReg
    ||| ins is Skp
    ||| ins is Sknp
    ||| ins is LdKey
}

/// The instructions that compute into registers.
spec fn is_alu(ins: Instruction) -> bool {
    ||| ins is LdImm
    ||| ins is AddImm
    ||| ins is LdReg
    ||| ins is Or
    ||| ins is And
    ||| ins is Xor
    ||| ins is AddReg
    ||| ins is Sub
    ||| ins is Shr
    ||| ins is Subn
    ||| ins is Shl
    ||| ins is Rnd
}

/// Whether pixel `p` was handled by the time the draw loop reaches sprite
/// row `r`, column `c`.
spec fn pixel_done(vx: u8, vy: u8, r: int, c: int, p: int) -> bool {
    sprite_row(vy, p) < r || (sprite_row(vy, p) == r && sprite_col(vx, p) < c)
}

} // verus!
