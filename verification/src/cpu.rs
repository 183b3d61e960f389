//! The executable machine: memory, register file, timers and the instruction
//! engine, each operation proved against the model in [`crate::semantics`].

use vstd::prelude::*;

use crate::display::Chip8Display;
use crate::semantics::{
    after_fetch, bit_of, block_load, block_store, collision_upto, cycles_per_tick, decode,
    draw_upto, fault_result, fetch_word, first_key, font_ram, fresh_state, glyph,
    lemma_first_key_from_skip, lemma_wrap_unique, load_state, spec_adc, spec_add,
    spec_bump_cycle, spec_call, spec_cls, spec_drw, spec_jpv0, spec_ldbcd, spec_ldsi,
    spec_ret, spec_se, spec_sexy, spec_shl, spec_shr, spec_sne, spec_snexy, spec_sub, spec_subn,
    spec_sys, spec_tick_timers, sprite_bit_upto, step, wf_state, with_v, Fault, Instr, LoadError,
    State,
};
use rand::Rng;

verus! {

/// The 4096-byte flat memory, seeded with the digit sprite table.
pub struct Ram {
    data: [u8; 4096],
}

impl View for Ram {
    type V = Seq<u8>;

    closed spec fn view(&self) -> Seq<u8> {
        self.data@
    }
}

/// The five rows of the sprite for digit `d`, top row first.
fn glyph_rows(d: usize) -> (g: (u8, u8, u8, u8, u8))
    requires
        d < 16,
    ensures
        glyph(d as int) =~= seq![g.0, g.1, g.2, g.3, g.4],
{
    match d {
        0x0 => (0xF0, 0x90, 0x90, 0x90, 0xF0),
        0x1 => (0x20, 0x60, 0x20, 0x20, 0x70),
        0x2 => (0xF0, 0x10, 0xF0, 0x80, 0xF0),
        0x3 => (0xF0, 0x10, 0xF0, 0x10, 0xF0),
        0x4 => (0x90, 0x90, 0xF0, 0x10, 0x10),
        0x5 => (0xF0, 0x80, 0xF0, 0x10, 0xF0),
        0x6 => (0xF0, 0x80, 0xF0, 0x90, 0xF0),
        0x7 => (0xF0, 0x10, 0x20, 0x40, 0x40),
        0x8 => (0xF0, 0x90, 0xF0, 0x90, 0xF0),
        0x9 => (0xF0, 0x90, 0xF0, 0x10, 0xF0),
        0xA => (0xF0, 0x90, 0xF0, 0x90, 0x90),
        0xB => (0xE0, 0x90, 0xE0, 0x90, 0xE0),
        0xC => (0xF0, 0x80, 0x80, 0x80, 0xF0),
        0xD => (0xE0, 0x90, 0x90, 0x90, 0xE0),
        0xE => (0xF0, 0x80, 0xF0, 0x80, 0xF0),
        _ => (0xF0, 0x80, 0xF0, 0x80, 0x80),
    }
}

impl Ram {
    /// Fresh memory: all zero except the sixteen five-byte digit sprites at
    /// addresses 0 through 79.
    pub fn new() -> (r: Ram)
        ensures
            r@ == font_ram(),
    {
        let mut data = [0u8; 4096];
        let mut d: usize = 0;
        while d < 16
            invariant
                d <= 16,
                forall|a: int| 0 <= a < 5 * d ==> data@[a] == font_ram()[a],
                forall|a: int| 5 * d <= a < 4096 ==> data@[a] == 0u8,
            decreases 16 - d,
        {
            let (b0, b1, b2, b3, b4) = glyph_rows(d);
            data[5 * d] = b0;
            data[5 * d + 1] = b1;
            data[5 * d + 2] = b2;
            data[5 * d + 3] = b3;
            data[5 * d + 4] = b4;
            proof {
                assert forall|a: int| 5 * d <= a < 5 * (d + 1) implies data@[a] == font_ram()[a] by {
                    assert(a / 5 == d && a % 5 == a - 5 * d) by (nonlinear_arith)
                        requires 5 * d <= a < 5 * d + 5, 0 <= d;
                }
            }
            d += 1;
        }
        proof {
            assert(data@ =~= font_ram());
        }
        Ram { data }
    }

    /// Reads one byte of memory.
    pub fn byte(&self, addr: usize) -> (b: u8)
        requires
            addr < 4096,
        ensures
            b == self@[addr as int],
    {
        self.data[addr]
    }
}

/// The CHIP-8 virtual machine.
pub struct Cpu {
    /// General purpose, 8-bit registers V0..VF.
    v: [u8; 16],
    /// Sixteen-slot return-address stack.
    stack: [u16; 16],
    /// Delay timer register, decremented at 60 Hz while nonzero.
    dt: u8,
    /// Sound timer register, decremented at 60 Hz while nonzero.
    st: u8,
    /// 4 kB of RAM.
    ram: Ram,
    /// Display connected to the CPU.
    pub display: Chip8Display,
    /// Program counter: address of the next instruction to fetch.
    pc: u16,
    /// Stack pointer: number of stack slots in use.
    sp: u8,
    /// Index register.
    i: u16,
    /// Number of cycles executed so far.
    pub cycle: u64,
    /// The instruction clock rate of the device in Hz.
    clock_hz: u32,
    /// Currently held keys; written by the host, only read here.
    pub pressed_keys: [bool; 16],
    /// Manual pause: while set, `tick` does nothing.
    hold: bool,
    /// While waiting for a key press, the destination register of the
    /// stalled instruction.
    awaiting_key: Option<u8>,
    /// The fault the machine stopped on, if any.
    fault: Option<Fault>,
    /// The instruction word loaded by the latest fetch.
    inst: u16,
}

impl View for Cpu {
    type V = State;

    closed spec fn view(&self) -> State {
        State {
            v: self.v@,
            stack: self.stack@,
            dt: self.dt,
            st: self.st,
            ram: self.ram@,
            screen: self.display@,
            pc: self.pc,
            sp: self.sp,
            i: self.i,
            cycle: self.cycle,
            clock_hz: self.clock_hz,
            keys: self.pressed_keys@,
            hold: self.hold,
            awaiting: self.awaiting_key,
            fault: self.fault,
            inst: self.inst,
        }
    }
}

impl Cpu {
    /// The machine's structural invariant; established by `new` and kept by
    /// every operation.
    pub open spec fn wf(&self) -> bool {
        wf_state(self@)
    }

    /// A fresh machine running at `clock_hz` instructions per second.
    pub fn new(clock_hz: u32) -> (c: Cpu)
        requires
            clock_hz >= 1,
        ensures
            c.wf(),
            c@ == fresh_state(clock_hz),
    {
        let c = Cpu {
            v: [0u8; 16],
            stack: [0u16; 16],
            dt: 0,
            st: 0,
            ram: Ram::new(),
            display: Chip8Display::new(),
            pc: 0x200,
            sp: 0,
            i: 0,
            cycle: 0,
            clock_hz,
            pressed_keys: [false; 16],
            hold: false,
            awaiting_key: None,
            fault: None,
            inst: 0,
        };
        proof {
            assert(c@ =~= fresh_state(clock_hz));
        }
        c
    }

    /// Resets the entire machine to its initial state, keeping only the
    /// configured clock rate.
    pub fn reset(&mut self)
        requires
            old(self).wf(),
        ensures
            final(self).wf(),
            final(self)@ == fresh_state(old(self)@.clock_hz),
    {
        self.v = [0u8; 16];
        self.stack = [0u16; 16];
        self.dt = 0;
        self.st = 0;
        self.ram = Ram::new();
        self.display = Chip8Display::new();
        self.pc = 0x200;
        self.sp = 0;
        self.i = 0;
        self.cycle = 0;
        self.pressed_keys = [false; 16];
        self.hold = false;
        self.awaiting_key = None;
        self.fault = None;
        self.inst = 0;
        proof {
            assert(self@ =~= fresh_state(self@.clock_hz));
        }
    }

    /// Resets the machine and copies the program into memory starting at
    /// address 0x200. A program over 3584 bytes does not fit: it is rejected
    /// and the machine is left exactly as it was.
    pub fn load_rom(&mut self, rom: &Vec<u8>) -> (r: Result<(), LoadError>)
        requires
            old(self).wf(),
        ensures
            rom@.len() <= 3584 ==> {
                &&& r == Ok::<(), LoadError>(())
                &&& final(self)@ == load_state(old(self)@, rom@)
                &&& final(self).wf()
            },
            rom@.len() > 3584 ==> {
                &&& r == Err::<(), LoadError>(LoadError::OutOfSpace)
                &&& final(self)@ == old(self)@
            },
    {
        if rom.len() > 3584 {
            return Err(LoadError::OutOfSpace);
        }
        self.reset();
        let ghost reset_ram = self.ram@;
        let mut k: usize = 0;
        while k < rom.len()
            invariant
                k <= rom@.len(),
                rom@.len() <= 3584,
                self.ram@.len() == 4096,
                self@ == (State { ram: self@.ram, ..fresh_state(old(self)@.clock_hz) }),
                forall|a: int| 0x200 <= a < 0x200 + k ==> self.ram@[a] == rom@[a - 0x200],
                forall|a: int|
                    (0 <= a < 0x200 || 0x200 + k <= a < 4096) ==> self.ram@[a] == reset_ram[a],
            decreases rom@.len() - k,
        {
            self.ram.data[0x200 + k] = rom[k];
            k += 1;
        }
        proof {
            assert(self@ =~= load_state(old(self)@, rom@));
        }
        Ok(())
    }

    /// Sets the instruction clock rate; all other state is untouched, and the
    /// cycles-per-timer-tick ratio follows the new rate from the next cycle.
    pub fn set_clock_rate(&mut self, clock_hz: u32)
        requires
            clock_hz >= 1,
        ensures
            final(self)@ == (State { clock_hz, ..old(self)@ }),
    {
        self.clock_hz = clock_hz;
    }

    /// Manual pause switch, distinct from the wait-for-key stall: while set,
    /// `tick` does nothing at all.
    pub fn set_hold_mode(&mut self, hold: bool)
        ensures
            final(self)@ == (State { hold, ..old(self)@ }),
    {
        self.hold = hold;
    }

    /// One 60 Hz timer tick: each timer decrements when nonzero, saturating
    /// at zero.
    pub fn update_timers(&mut self)
        ensures
            final(self)@ == spec_tick_timers(old(self)@),
    {
        if self.dt > 0 {
            self.dt -= 1;
        }
        if self.st > 0 {
            self.st -= 1;
        }
    }

    /// End-of-cycle bookkeeping: the timers tick whenever the running cycle
    /// count crosses a 60 Hz boundary, then the counter advances.
    fn bump_cycle(&mut self)
        requires
            old(self)@.clock_hz >= 1,
        ensures
            final(self)@ == spec_bump_cycle(old(self)@),
    {
        let per_tick: u64 = if self.clock_hz / 60 == 0 {
            1
        } else {
            (self.clock_hz / 60) as u64
        };
        proof {
            assert(per_tick == cycles_per_tick(self@.clock_hz));
        }
        if self.cycle % per_tick == 0 {
            self.update_timers();
        }
        self.cycle = if self.cycle == u64::MAX {
            0
        } else {
            self.cycle + 1
        };
    }

    /// The lowest-numbered currently held key, if any key is held.
    fn get_pressed_key(&self) -> (r: Option<usize>)
        ensures
            match r {
                Some(k) => k < 16 && first_key(self@.keys) == Some(k as u8),
                None => first_key(self@.keys) == None::<u8>,
            },
    {
        let mut k: usize = 0;
        while k < 16
            invariant
                k <= 16,
                forall|j: int| 0 <= j < k ==> !self.pressed_keys@[j],
            decreases 16 - k,
        {
            if self.pressed_keys[k] {
                proof {
                    lemma_first_key_from_skip(self@.keys, 0, k as int);
                }
                return Some(k);
            }
            k += 1;
        }
        proof {
            lemma_first_key_from_skip(self@.keys, 0, 16);
        }
        None
    }

    /// Pushes a return address; the caller has ruled out overflow.
    fn stack_push(&mut self, val: u16)
        requires
            old(self).wf(),
            old(self)@.sp < 16,
            val < 4096,
        ensures
            final(self).wf(),
            final(self)@ == (State {
                stack: old(self)@.stack.update(old(self)@.sp as int, val),
                sp: (old(self)@.sp + 1) as u8,
                ..old(self)@
            }),
    {
        self.stack[self.sp as usize] = val;
        self.sp += 1;
    }

    /// Pops the return address on top of the stack; the caller has ruled out
    /// underflow.
    fn stack_pop(&mut self) -> (val: u16)
        requires
            old(self).wf(),
            old(self)@.sp > 0,
        ensures
            final(self).wf(),
            val == old(self)@.stack[old(self)@.sp - 1],
            val < 4096,
            final(self)@ == (State { sp: (old(self)@.sp - 1) as u8, ..old(self)@ }),
    {
        self.sp -= 1;
        self.stack[self.sp as usize]
    }

    /// Reads register Vx.
    pub fn reg(&self, x: u8) -> (val: u8)
        requires
            x < 16,
        ensures
            val == self@.v[x as int],
    {
        self.v[x as usize]
    }

    /// The program counter.
    pub fn pc(&self) -> (pc: u16)
        ensures
            pc == self@.pc,
    {
        self.pc
    }

    /// The stack pointer: how many call frames are live.
    pub fn sp(&self) -> (sp: u8)
        ensures
            sp == self@.sp,
    {
        self.sp
    }

    /// The index register I.
    pub fn index_reg(&self) -> (i: u16)
        ensures
            i == self@.i,
    {
        self.i
    }

    /// The delay timer's current value.
    pub fn delay_timer(&self) -> (dt: u8)
        ensures
            dt == self@.dt,
    {
        self.dt
    }

    /// The sound timer's current value.
    pub fn sound_timer(&self) -> (st: u8)
        ensures
            st == self@.st,
    {
        self.st
    }

    /// The configured clock rate in Hz.
    pub fn clock_rate(&self) -> (hz: u32)
        ensures
            hz == self@.clock_hz,
    {
        self.clock_hz
    }

    /// One byte of memory.
    pub fn ram_byte(&self, addr: usize) -> (b: u8)
        requires
            addr < 4096,
        ensures
            b == self@.ram[addr as int],
    {
        self.ram.data[addr]
    }

    /// One slot of the return-address stack.
    pub fn stack_slot(&self, k: usize) -> (val: u16)
        requires
            k < 16,
        ensures
            val == self@.stack[k as int],
    {
        self.stack[k]
    }

    /// Whether the machine is stalled waiting for a key press.
    pub fn is_awaiting_key(&self) -> (w: bool)
        ensures
            w == (self@.awaiting is Some),
    {
        self.awaiting_key.is_some()
    }

    /// Whether the manual pause switch is on.
    pub fn hold_mode(&self) -> (h: bool)
        ensures
            h == self@.hold,
    {
        self.hold
    }

    /// The fault the machine stopped on, if any.
    pub fn current_fault(&self) -> (f: Option<Fault>)
        ensures
            f == self@.fault,
    {
        self.fault
    }
}

impl Cpu {
    /// One host clock cycle: exactly [`crate::semantics::step`] for some
    /// random byte. A faulted machine stays put and reports its fault; a
    /// manually paused machine stays put; a machine awaiting a key resolves
    /// the stall or keeps waiting while its timers run; otherwise one
    /// instruction is fetched, decoded and executed, and on anything but a
    /// fresh fault the 60 Hz timer bookkeeping runs. The result is `Err`
    /// exactly when the machine is (now or already) in a fault state.
    pub fn tick(&mut self) -> (r: Result<(), Fault>)
        requires
            old(self).wf(),
        ensures
            final(self).wf(),
            exists|rb: u8| final(self)@ == step(old(self)@, rb),
            r == fault_result(final(self)@),
    {
        let ghost s0 = old(self)@;
        if let Some(f) = self.fault {
            proof {
                assert(self@ == step(s0, 0u8));
            }
            return Err(f);
        }
        if self.hold {
            proof {
                assert(self@ == step(s0, 0u8));
            }
            return Ok(());
        }
        if let Some(xreg) = self.awaiting_key {
            match self.get_pressed_key() {
                Some(key) => {
                    self.ldk(xreg, key as u8);
                    self.awaiting_key = None;
                }
                None => {}
            }
            self.bump_cycle();
            proof {
                assert(self@ == step(s0, 0u8));
            }
            return Ok(());
        }
        // Fetch the two instruction bytes, high byte first.
        let hi = self.ram.data[self.pc as usize];
        let lo = self.ram.data[(self.pc as usize + 1) % 4096];
        let w: u16 = (hi as u16) * 256 + lo as u16;
        self.inst = w;
        self.pc = (self.pc + 2) % 4096;
        proof {
            assert(w == fetch_word(s0));
            assert(self@ == after_fetch(s0));
        }
        let ghost s1 = self@;
        let ghost mut rbw: u8 = 0;
        let instr = decode_instr(w);
        match instr {
            Instr::Sys(nnn) => self.sys(nnn),
            Instr::Cls => self.cls(),
            Instr::Ret => {
                if self.sp == 0 {
                    self.fault = Some(Fault::StackUnderflow);
                    proof {
                        assert(self@ == step(s0, 0u8));
                    }
                    return Err(Fault::StackUnderflow);
                }
                self.ret();
            }
            Instr::Jmp(nnn) => self.jmp(nnn),
            Instr::Call(nnn) => {
                if self.sp == 16 {
                    self.fault = Some(Fault::StackOverflow);
                    proof {
                        assert(self@ == step(s0, 0u8));
                    }
                    return Err(Fault::StackOverflow);
                }
                self.call(nnn);
            }
            Instr::Se(x, kk) => self.se(x, kk),
            Instr::Sne(x, kk) => self.sne(x, kk),
            Instr::SeXy(x, y) => self.sexy(x, y),
            Instr::Ld(x, kk) => self.ld(x, kk),
            Instr::Add(x, kk) => self.add(x, kk),
            Instr::LdXy(x, y) => self.ldxy(x, y),
            Instr::Or(x, y) => self.or(x, y),
            Instr::And(x, y) => self.and(x, y),
            Instr::Xor(x, y) => self.xor(x, y),
            Instr::Adc(x, y) => self.adc(x, y),
            Instr::Sub(x, y) => self.sub(x, y),
            Instr::Shr(x) => self.shr(x),
            Instr::Subn(x, y) => self.subn(x, y),
            Instr::Shl(x) => self.shl(x),
            Instr::SneXy(x, y) => self.snexy(x, y),
            Instr::Ldi(nnn) => self.ldi(nnn),
            Instr::JpV0(nnn) => self.jpv0(nnn),
            Instr::Rnd(x, kk) => {
                let rb = random_byte();
                self.rnd(x, kk, rb);
                proof {
                    rbw = rb;
                }
            }
            Instr::Drw(x, y, n) => {
                // The height field is a nibble, so an oversized sprite cannot
                // be encoded; this records the defensive bound.
                proof {
                    assert(n <= 15);
                }
                self.drw(x, y, n);
            }
            Instr::Skp(x) => self.skp(x),
            Instr::Sknp(x) => self.sknp(x),
            Instr::LdVDt(x) => self.ldvdt(x),
            Instr::LdK(x) => {
                match self.get_pressed_key() {
                    Some(key) => self.ldk(x, key as u8),
                    None => {
                        self.awaiting_key = Some(x);
                    }
                }
            }
            Instr::LdDt(x) => self.lddt(x),
            Instr::LdSt(x) => self.ldst(x),
            Instr::AddI(x) => self.addi(x),
            Instr::LdBcd(x) => self.ldbcd(x),
            Instr::CpVI(x) => self.cpvi(x),
            Instr::LdIV(x) => self.ldiv(x),
            Instr::LdSi(x) => {
                if self.v[x as usize] > 0xF {
                    self.fault = Some(Fault::InvalidDigit);
                    proof {
                        assert(self@ == step(s0, 0u8));
                    }
                    return Err(Fault::InvalidDigit);
                }
                self.ldsi(x);
            }
            Instr::Ill => {
                self.fault = Some(Fault::IllegalInstruction);
                proof {
                    assert(self@ == step(s0, 0u8));
                }
                return Err(Fault::IllegalInstruction);
            }
        }
        proof {
            assert(self@ == crate::semantics::exec_instr(s1, decode(w), rbw));
        }
        self.bump_cycle();
        proof {
            assert(self@ == step(s0, rbw));
        }
        Ok(())
    }

    /// 0nnn: jump to a machine routine address.
    fn sys(&mut self, addr: u16)
        requires
            addr < 4096,
        ensures
            final(self)@ == spec_sys(old(self)@, addr),
    {
        self.pc = addr;
    }

    /// 00E0: clears the display.
    fn cls(&mut self)
        ensures
            final(self)@ == spec_cls(old(self)@),
    {
        self.display.clear();
        proof {
            assert(self@ =~= spec_cls(old(self)@));
        }
    }

    /// 00EE: pops the return address into the program counter. The engine has
    /// already ruled out underflow.
    fn ret(&mut self)
        requires
            old(self).wf(),
            old(self)@.sp > 0,
        ensures
            final(self).wf(),
            final(self)@ == spec_ret(old(self)@),
    {
        let addr = self.stack_pop();
        self.pc = addr;
    }

    /// 1nnn: sets the program counter to the given address.
    fn jmp(&mut self, addr: u16)
        requires
            addr < 4096,
        ensures
            final(self)@ == (State { pc: addr, ..old(self)@ }),
    {
        self.pc = addr;
    }

    /// 2nnn: pushes the return address and jumps. The engine has already
    /// ruled out overflow.
    fn call(&mut self, addr: u16)
        requires
            old(self).wf(),
            old(self)@.sp < 16,
            addr < 4096,
        ensures
            final(self).wf(),
            final(self)@ == spec_call(old(self)@, addr),
    {
        let pc = self.pc;
        self.stack_push(pc);
        self.pc = addr;
    }

    /// 3xkk: skips the next instruction if Vx == kk.
    fn se(&mut self, x: u8, kk: u8)
        requires
            old(self).wf(),
            x < 16,
        ensures
            final(self).wf(),
            final(self)@ == spec_se(old(self)@, x, kk),
    {
        if self.v[x as usize] == kk {
            self.pc = (self.pc + 2) % 4096;
        }
    }

    /// 4xkk: skips the next instruction if Vx != kk.
    fn sne(&mut self, x: u8, kk: u8)
        requires
            old(self).wf(),
            x < 16,
        ensures
            final(self).wf(),
            final(self)@ == spec_sne(old(self)@, x, kk),
    {
        if self.v[x as usize] != kk {
            self.pc = (self.pc + 2) % 4096;
        }
    }

    /// 5xy0: skips the next instruction if Vx == Vy.
    fn sexy(&mut self, x: u8, y: u8)
        requires
            old(self).wf(),
            x < 16,
            y < 16,
        ensures
            final(self).wf(),
            final(self)@ == spec_sexy(old(self)@, x, y),
    {
        if self.v[x as usize] == self.v[y as usize] {
            self.pc = (self.pc + 2) % 4096;
        }
    }

    /// 9xy0: skips the next instruction if Vx != Vy.
    fn snexy(&mut self, x: u8, y: u8)
        requires
            old(self).wf(),
            x < 16,
            y < 16,
        ensures
            final(self).wf(),
            final(self)@ == spec_snexy(old(self)@, x, y),
    {
        if self.v[x as usize] != self.v[y as usize] {
            self.pc = (self.pc + 2) % 4096;
        }
    }

    /// 6xkk: puts the literal into register Vx.
    fn ld(&mut self, x: u8, kk: u8)
        requires
            x < 16,
        ensures
            final(self)@ == with_v(old(self)@, x, kk),
    {
        self.v[x as usize] = kk;
    }

    /// 7xkk: adds the literal to Vx, wrapping, without touching the flag.
    fn add(&mut self, x: u8, kk: u8)
        requires
            x < 16,
        ensures
            final(self)@ == spec_add(old(self)@, x, kk),
    {
        let sum: u16 = self.v[x as usize] as u16 + kk as u16;
        self.v[x as usize] = (sum % 256) as u8;
    }

    /// 8xy0: sets Vx = Vy.
    fn ldxy(&mut self, x: u8, y: u8)
        requires
            x < 16,
            y < 16,
        ensures
            final(self)@ == with_v(old(self)@, x, old(self)@.v[y as int]),
    {
        self.v[x as usize] = self.v[y as usize];
    }

    /// 8xy1: sets Vx = Vx OR Vy.
    fn or(&mut self, x: u8, y: u8)
        requires
            x < 16,
            y < 16,
        ensures
            final(self)@ == with_v(
                old(self)@,
                x,
                old(self)@.v[x as int] | old(self)@.v[y as int],
            ),
    {
        self.v[x as usize] = self.v[x as usize] | self.v[y as usize];
    }

    /// 8xy2: sets Vx = Vx AND Vy.
    fn and(&mut self, x: u8, y: u8)
        requires
            x < 16,
            y < 16,
        ensures
            final(self)@ == with_v(
                old(self)@,
                x,
                old(self)@.v[x as int] & old(self)@.v[y as int],
            ),
    {
        self.v[x as usize] = self.v[x as usize] & self.v[y as usize];
    }

    /// 8xy3: sets Vx = Vx XOR Vy.
    fn xor(&mut self, x: u8, y: u8)
        requires
            x < 16,
            y < 16,
        ensures
            final(self)@ == with_v(
                old(self)@,
                x,
                old(self)@.v[x as int] ^ old(self)@.v[y as int],
            ),
    {
        self.v[x as usize] = self.v[x as usize] ^ self.v[y as usize];
    }

    /// 8xy4: adds Vy to Vx; VF becomes 1 exactly when the sum overflows a
    /// byte.
    fn adc(&mut self, x: u8, y: u8)
        requires
            x < 16,
            y < 16,
        ensures
            final(self)@ == spec_adc(old(self)@, x, y),
    {
        let sum: u16 = self.v[x as usize] as u16 + self.v[y as usize] as u16;
        self.v[x as usize] = (sum % 256) as u8;
        self.v[0xF] = if sum >= 256 {
            1
        } else {
            0
        };
    }

    /// 8xy5: subtracts Vy from Vx; VF becomes 1 exactly when no borrow
    /// occurs.
    fn sub(&mut self, x: u8, y: u8)
        requires
            x < 16,
            y < 16,
        ensures
            final(self)@ == spec_sub(old(self)@, x, y),
    {
        let vx = self.v[x as usize];
        let vy = self.v[y as usize];
        proof {
            vstd::arithmetic::div_mod::lemma_mod_add_multiples_vanish(vx - vy, 256);
        }
        self.v[x as usize] = (((vx as u16 + 256) - vy as u16) % 256) as u8;
        self.v[0xF] = if vx >= vy {
            1
        } else {
            0
        };
    }

    /// 8xy7: sets Vx = Vy - Vx; VF becomes 1 exactly when no borrow occurs.
    fn subn(&mut self, x: u8, y: u8)
        requires
            x < 16,
            y < 16,
        ensures
            final(self)@ == spec_subn(old(self)@, x, y),
    {
        let vx = self.v[x as usize];
        let vy = self.v[y as usize];
        proof {
            vstd::arithmetic::div_mod::lemma_mod_add_multiples_vanish(vy - vx, 256);
        }
        self.v[x as usize] = (((vy as u16 + 256) - vx as u16) % 256) as u8;
        self.v[0xF] = if vy >= vx {
            1
        } else {
            0
        };
    }

    /// 8xy6: stores the least significant bit of Vx in VF, then halves Vx.
    fn shr(&mut self, x: u8)
        requires
            x < 16,
        ensures
            final(self)@ == spec_shr(old(self)@, x),
    {
        self.v[0xF] = self.v[x as usize] % 2;
        self.v[x as usize] = self.v[x as usize] / 2;
    }

    /// 8xyE: stores the most significant bit of Vx in VF, then doubles Vx.
    fn shl(&mut self, x: u8)
        requires
            x < 16,
        ensures
            final(self)@ == spec_shl(old(self)@, x),
    {
        self.v[0xF] = self.v[x as usize] / 128;
        self.v[x as usize] = ((self.v[x as usize] as u16 * 2) % 256) as u8;
    }

    /// Annn: loads the address into the index register.
    fn ldi(&mut self, addr: u16)
        ensures
            final(self)@ == (State { i: addr, ..old(self)@ }),
    {
        self.i = addr;
    }

    /// Bnnn: jumps to the address plus V0, within the 12-bit address space.
    fn jpv0(&mut self, addr: u16)
        requires
            addr < 4096,
        ensures
            final(self)@ == spec_jpv0(old(self)@, addr),
    {
        self.pc = (addr + self.v[0] as u16) % 4096;
    }

    /// Cxkk: sets Vx to the given random byte masked with kk. The engine
    /// draws the byte; this instruction's effect is exact for whatever byte
    /// came out.
    fn rnd(&mut self, x: u8, kk: u8, rb: u8)
        requires
            x < 16,
        ensures
            final(self)@ == with_v(old(self)@, x, rb & kk),
    {
        self.v[x as usize] = rb & kk;
    }

    /// Ex9E: skips the next instruction if the named key is held.
    fn skp(&mut self, key: u8)
        requires
            old(self).wf(),
            key < 16,
        ensures
            final(self).wf(),
            final(self)@ == (if old(self)@.keys[key as int] {
                State { pc: crate::semantics::skipped_pc(old(self)@.pc), ..old(self)@ }
            } else {
                old(self)@
            }),
    {
        if self.pressed_keys[key as usize] {
            self.pc = (self.pc + 2) % 4096;
        }
    }

    /// ExA1: skips the next instruction if the named key is not held.
    fn sknp(&mut self, key: u8)
        requires
            old(self).wf(),
            key < 16,
        ensures
            final(self).wf(),
            final(self)@ == (if !old(self)@.keys[key as int] {
                State { pc: crate::semantics::skipped_pc(old(self)@.pc), ..old(self)@ }
            } else {
                old(self)@
            }),
    {
        if !self.pressed_keys[key as usize] {
            self.pc = (self.pc + 2) % 4096;
        }
    }

    /// Fx07: loads the delay timer into Vx.
    fn ldvdt(&mut self, x: u8)
        requires
            x < 16,
        ensures
            final(self)@ == with_v(old(self)@, x, old(self)@.dt),
    {
        self.v[x as usize] = self.dt;
    }

    /// Fx0A, resolved: stores the pressed key's value in Vx.
    fn ldk(&mut self, x: u8, key: u8)
        requires
            x < 16,
        ensures
            final(self)@ == with_v(old(self)@, x, key),
    {
        self.v[x as usize] = key;
    }

    /// Fx15: loads Vx into the delay timer.
    fn lddt(&mut self, x: u8)
        requires
            x < 16,
        ensures
            final(self)@ == (State { dt: old(self)@.v[x as int], ..old(self)@ }),
    {
        self.dt = self.v[x as usize];
    }

    /// Fx18: loads Vx into the sound timer.
    fn ldst(&mut self, x: u8)
        requires
            x < 16,
        ensures
            final(self)@ == (State { st: old(self)@.v[x as int], ..old(self)@ }),
    {
        self.st = self.v[x as usize];
    }

    /// Fx1E: adds Vx to the index register, wrapping as 16 bits.
    fn addi(&mut self, x: u8)
        requires
            x < 16,
        ensures
            final(self)@ == crate::semantics::spec_addi(old(self)@, x),
    {
        let sum: u32 = self.i as u32 + self.v[x as usize] as u32;
        self.i = (sum % 65536) as u16;
    }

    /// Fx29: loads the address of the digit sprite for Vx into the index
    /// register. The engine has already ruled out values above 0xF.
    fn ldsi(&mut self, x: u8)
        requires
            x < 16,
            old(self)@.v[x as int] <= 0xF,
        ensures
            final(self)@ == spec_ldsi(old(self)@, x),
    {
        self.i = 5 * self.v[x as usize] as u16;
    }

    /// Fx33: stores the BCD digits of Vx at addresses I, I+1, I+2.
    fn ldbcd(&mut self, x: u8)
        requires
            x < 16,
        ensures
            final(self)@ == spec_ldbcd(old(self)@, x),
    {
        let val = self.v[x as usize];
        let base = self.i as usize;
        self.ram.data[base % 4096] = val / 100;
        self.ram.data[(base + 1) % 4096] = (val / 10) % 10;
        self.ram.data[(base + 2) % 4096] = val % 10;
    }

    /// Fx55: copies registers V0 through Vx into memory starting at the
    /// address in I, wrapping within memory.
    fn cpvi(&mut self, x: u8)
        requires
            x < 16,
        ensures
            final(self)@ == (State {
                ram: block_store(old(self)@.ram, old(self)@.v, old(self)@.i, x + 1),
                ..old(self)@
            }),
    {
        let ghost s0 = old(self)@;
        let mut k: usize = 0;
        while k < x as usize + 1
            invariant
                k <= x as usize + 1,
                x < 16,
                self@ == (State { ram: self@.ram, ..s0 }),
                self@.ram == block_store(s0.ram, s0.v, s0.i, k as int),
            decreases x as int + 1 - k,
        {
            let addr = (self.i as usize + k) % 4096;
            self.ram.data[addr] = self.v[k];
            proof {
                assert forall|a: int| 0 <= a < 4096 implies
                    self@.ram[a] == block_store(s0.ram, s0.v, s0.i, k + 1)[a] by {
                    lemma_wrap_unique(s0.i as int, k as int, a, 4096);
                }
                assert(self@.ram =~= block_store(s0.ram, s0.v, s0.i, k + 1));
            }
            k += 1;
        }
    }

    /// Fx65: loads registers V0 through Vx from memory starting at the
    /// address in I, wrapping within memory.
    fn ldiv(&mut self, x: u8)
        requires
            x < 16,
        ensures
            final(self)@ == (State {
                v: block_load(old(self)@.v, old(self)@.ram, old(self)@.i, x + 1),
                ..old(self)@
            }),
    {
        let ghost s0 = old(self)@;
        let mut k: usize = 0;
        while k < x as usize + 1
            invariant
                k <= x as usize + 1,
                x < 16,
                self@ == (State { v: self@.v, ..s0 }),
                self@.v == block_load(s0.v, s0.ram, s0.i, k as int),
            decreases x as int + 1 - k,
        {
            let addr = (self.i as usize + k) % 4096;
            self.v[k] = self.ram.data[addr];
            proof {
                assert(self@.v =~= block_load(s0.v, s0.ram, s0.i, k + 1));
            }
            k += 1;
        }
    }

    /// Dxyn: reads an n-row sprite from memory at I and XORs it onto the
    /// screen at (Vx, Vy), wrapping coordinates modulo the screen size; VF
    /// reports whether any set sprite bit landed on an already lit pixel.
    fn drw(&mut self, x: u8, y: u8, n: u8)
        requires
            old(self).wf(),
            x < 16,
            y < 16,
            n < 16,
        ensures
            final(self).wf(),
            final(self)@ == spec_drw(old(self)@, x, y, n),
    {
        let ghost s0 = old(self)@;
        let x0 = self.v[x as usize];
        let y0 = self.v[y as usize];
        let mut collided = false;
        let mut r: usize = 0;
        while r < n as usize
            invariant
                r <= n as usize,
                n < 16,
                wf_state(s0),
                x0 == s0.v[x as int],
                y0 == s0.v[y as int],
                self@ == (State { screen: self@.screen, ..s0 }),
                self@.screen == draw_upto(s0.screen, s0.ram, s0.i, x0, y0, 8 * (r as int)),
                collided == collision_upto(s0.screen, s0.ram, s0.i, x0, y0, 8 * (r as int)),
            decreases n as int - r,
        {
            let byte = self.ram.data[(self.i as usize + r) % 4096];
            let bits = byte_to_bools(byte);
            let mut j: usize = 0;
            while j < 8
                invariant
                    j <= 8,
                    r < n as usize,
                    n < 16,
                    wf_state(s0),
                    x0 == s0.v[x as int],
                    y0 == s0.v[y as int],
                    byte == s0.ram[(s0.i + r as int) % 4096],
                    forall|jj: int| 0 <= jj < 8 ==> bits@[jj] == bit_of(byte, jj),
                    self@ == (State { screen: self@.screen, ..s0 }),
                    self@.screen == draw_upto(
                        s0.screen,
                        s0.ram,
                        s0.i,
                        x0,
                        y0,
                        8 * (r as int) + (j as int),
                    ),
                    collided == collision_upto(
                        s0.screen,
                        s0.ram,
                        s0.i,
                        x0,
                        y0,
                        8 * (r as int) + (j as int),
                    ),
                decreases 8 - j,
            {
                let yy = (y0 as usize + r) % 32;
                let xx = (x0 as usize + j) % 64;
                let p = yy * 64 + xx;
                let bit = bits[j];
                let ghost done = 8 * (r as int) + (j as int);
                let ghost scr_before = self.display@;
                let hit = self.display.xor_pixel(p, bit);
                if hit {
                    collided = true;
                }
                proof {
                    let p0 = p as int;
                    let px0 = p0 % 64;
                    let py0 = p0 / 64;
                    assert(px0 == xx as int && py0 == yy as int);
                    lemma_wrap_unique(y0 as int, r as int, py0, 32);
                    lemma_wrap_unique(x0 as int, j as int, px0, 64);
                    assert((py0 - y0 as int) % 32 == r as int);
                    assert((px0 - x0 as int) % 64 == j as int);
                    assert(sprite_bit_upto(s0.ram, s0.i, x0, y0, done + 1, p0) == bit_of(
                        byte,
                        j as int,
                    ));
                    assert(!sprite_bit_upto(s0.ram, s0.i, x0, y0, done, p0));
                    assert forall|p2: int|
                        0 <= p2 < 2048 && p2 != p0 implies sprite_bit_upto(
                        s0.ram,
                        s0.i,
                        x0,
                        y0,
                        done + 1,
                        p2,
                    ) == sprite_bit_upto(s0.ram, s0.i, x0, y0, done, p2) by {
                        let px2 = p2 % 64;
                        let py2 = p2 / 64;
                        lemma_wrap_unique(y0 as int, r as int, py2, 32);
                        lemma_wrap_unique(x0 as int, j as int, px2, 64);
                        vstd::arithmetic::div_mod::lemma_fundamental_div_mod(p2, 64);
                    }
                    assert(scr_before[p0] == s0.screen[p0]);
                    assert(self.display@ =~= draw_upto(s0.screen, s0.ram, s0.i, x0, y0, done + 1));
                    // the collision flag accounts for exactly the bits XORed so far
                    if collision_upto(s0.screen, s0.ram, s0.i, x0, y0, done) {
                        let pw = choose|pw: int|
                            0 <= pw < 2048 && s0.screen[pw] && sprite_bit_upto(
                                s0.ram,
                                s0.i,
                                x0,
                                y0,
                                done,
                                pw,
                            );
                        assert(sprite_bit_upto(s0.ram, s0.i, x0, y0, done + 1, pw));
                        assert(collision_upto(s0.screen, s0.ram, s0.i, x0, y0, done + 1));
                    }
                    if s0.screen[p0] && bit_of(byte, j as int) {
                        assert(sprite_bit_upto(s0.ram, s0.i, x0, y0, done + 1, p0));
                        assert(collision_upto(s0.screen, s0.ram, s0.i, x0, y0, done + 1));
                    }
                    if collision_upto(s0.screen, s0.ram, s0.i, x0, y0, done + 1) {
                        let pw = choose|pw: int|
                            0 <= pw < 2048 && s0.screen[pw] && sprite_bit_upto(
                                s0.ram,
                                s0.i,
                                x0,
                                y0,
                                done + 1,
                                pw,
                            );
                        if pw == p0 {
                            assert(s0.screen[p0] && bit_of(byte, j as int));
                        } else {
                            assert(sprite_bit_upto(s0.ram, s0.i, x0, y0, done, pw));
                            assert(collision_upto(s0.screen, s0.ram, s0.i, x0, y0, done));
                        }
                    }
                }
                j += 1;
            }
            r += 1;
        }
        self.v[0xF] = if collided {
            1
        } else {
            0
        };
        proof {
            assert(self@ =~= spec_drw(s0, x, y, n));
        }
    }
}

/// Converts a byte into its eight bits, most significant first.
pub fn byte_to_bools(b: u8) -> (bits: [bool; 8])
    ensures
        forall|j: int| 0 <= j < 8 ==> bits@[j] == bit_of(b, j),
{
    let mut bits = [false; 8];
    bits[0] = (b / 128) % 2 == 1;
    bits[1] = (b / 64) % 2 == 1;
    bits[2] = (b / 32) % 2 == 1;
    bits[3] = (b / 16) % 2 == 1;
    bits[4] = (b / 8) % 2 == 1;
    bits[5] = (b / 4) % 2 == 1;
    bits[6] = (b / 2) % 2 == 1;
    bits[7] = b % 2 == 1;
    bits
}

/// Decodes one instruction word by nibble into an instruction with typed
/// operands.
pub fn decode_instr(w: u16) -> (instr: Instr)
    ensures
        instr == decode(w),
{
    let op = w / 4096;
    let x = ((w / 256) % 16) as u8;
    let y = ((w / 16) % 16) as u8;
    let kk = (w % 256) as u8;
    let nnn = w % 4096;
    let n = (w % 16) as u8;
    if op == 0x0 {
        if kk == 0xE0 {
            Instr::Cls
        } else if kk == 0xEE {
            Instr::Ret
        } else {
            Instr::Sys(nnn)
        }
    } else if op == 0x1 {
        Instr::Jmp(nnn)
    } else if op == 0x2 {
        Instr::Call(nnn)
    } else if op == 0x3 {
        Instr::Se(x, kk)
    } else if op == 0x4 {
        Instr::Sne(x, kk)
    } else if op == 0x5 {
        Instr::SeXy(x, y)
    } else if op == 0x6 {
        Instr::Ld(x, kk)
    } else if op == 0x7 {
        Instr::Add(x, kk)
    } else if op == 0x8 {
        if n == 0x0 {
            Instr::LdXy(x, y)
        } else if n == 0x1 {
            Instr::Or(x, y)
        } else if n == 0x2 {
            Instr::And(x, y)
        } else if n == 0x3 {
            Instr::Xor(x, y)
        } else if n == 0x4 {
            Instr::Adc(x, y)
        } else if n == 0x5 {
            Instr::Sub(x, y)
        } else if n == 0x6 {
            Instr::Shr(x)
        } else if n == 0x7 {
            Instr::Subn(x, y)
        } else if n == 0xE {
            Instr::Shl(x)
        } else {
            Instr::Ill
        }
    } else if op == 0x9 {
        Instr::SneXy(x, y)
    } else if op == 0xA {
        Instr::Ldi(nnn)
    } else if op == 0xB {
        Instr::JpV0(nnn)
    } else if op == 0xC {
        Instr::Rnd(x, kk)
    } else if op == 0xD {
        Instr::Drw(x, y, n)
    } else if op == 0xE {
        if kk == 0x9E {
            Instr::Skp(x)
        } else if kk == 0xA1 {
            Instr::Sknp(x)
        } else {
            Instr::Ill
        }
    } else {
        if kk == 0x07 {
            Instr::LdVDt(x)
        } else if kk == 0x0A {
            Instr::LdK(x)
        } else if kk == 0x15 {
            Instr::LdDt(x)
        } else if kk == 0x18 {
            Instr::LdSt(x)
        } else if kk == 0x1E {
            Instr::AddI(x)
        } else if kk == 0x29 {
            Instr::LdSi(x)
        } else if kk == 0x33 {
            Instr::LdBcd(x)
        } else if kk == 0x55 {
            Instr::CpVI(x)
        } else if kk == 0x65 {
            Instr::LdIV(x)
        } else {
            Instr::Ill
        }
    }
}

/// Relies on `rand::thread_rng` and `rand::Rng::gen`: one byte drawn from the
/// thread-local generator. The value depends on the generator's state, so
/// nothing is assumed about it.
#[verifier::external_body]
fn random_byte() -> u8 {
    let mut rng = rand::thread_rng();
    rng.gen::<u8>()
}

} // verus!

