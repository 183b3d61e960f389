//! The mathematical model of the machine.
//!
//! [`State`] mirrors every field of the executable [`crate::cpu::Cpu`], and
//! [`step`] gives the exact meaning of one host clock cycle: fetch, decode,
//! execute, and the 60 Hz timer bookkeeping. `Cpu::tick` is proved to realise
//! `step`; every instruction's effect is a small specification function here.

use vstd::prelude::*;

verus! {

/// An unrecoverable execution fault. The architecture defines no recovery for
/// a malformed program: once a fault is raised the machine stops executing.
#[derive(Clone, Copy, Debug, PartialEq, Eq, Structural)]
pub enum Fault {
    /// The fetched word matches no instruction of the opcode set.
    IllegalInstruction,
    /// A `CALL` was issued with all sixteen stack slots in use.
    StackOverflow,
    /// A `RET` was issued with an empty call stack.
    StackUnderflow,
    /// The digit-sprite-address instruction was given a value above 0xF.
    InvalidDigit,
}

/// A recoverable failure of `load_rom`.
#[derive(Clone, Copy, Debug, PartialEq, Eq, Structural)]
pub enum LoadError {
    /// The program does not fit in the 3584 bytes above the reserved region.
    OutOfSpace,
}

/// One decoded instruction. Register operands are 4-bit indices (< 16),
/// addresses are 12 bits, literals 8 bits, sprite heights 4 bits.
#[derive(Clone, Copy, Debug, PartialEq, Eq, Structural)]
pub enum Instr {
    /// 0nnn: jump to a machine routine address.
    Sys(u16),
    /// 00E0: clear the screen.
    Cls,
    /// 00EE: return from a subroutine.
    Ret,
    /// 1nnn: jump.
    Jmp(u16),
    /// 2nnn: call a subroutine.
    Call(u16),
    /// 3xkk: skip next instruction if Vx == kk.
    Se(u8, u8),
    /// 4xkk: skip next instruction if Vx != kk.
    Sne(u8, u8),
    /// 5xy0: skip next instruction if Vx == Vy.
    SeXy(u8, u8),
    /// 6xkk: Vx = kk.
    Ld(u8, u8),
    /// 7xkk: Vx += kk, no carry flag.
    Add(u8, u8),
    /// 8xy0: Vx = Vy.
    LdXy(u8, u8),
    /// 8xy1: Vx |= Vy.
    Or(u8, u8),
    /// 8xy2: Vx &= Vy.
    And(u8, u8),
    /// 8xy3: Vx ^= Vy.
    Xor(u8, u8),
    /// 8xy4: Vx += Vy, VF = carry.
    Adc(u8, u8),
    /// 8xy5: Vx -= Vy, VF = 1 when no borrow.
    Sub(u8, u8),
    /// 8xy6: VF = low bit of Vx, then Vx >>= 1.
    Shr(u8),
    /// 8xy7: Vx = Vy - Vx, VF = 1 when no borrow.
    Subn(u8, u8),
    /// 8xyE: VF = high bit of Vx, then Vx <<= 1.
    Shl(u8),
    /// 9xy0: skip next instruction if Vx != Vy.
    SneXy(u8, u8),
    /// Annn: I = nnn.
    Ldi(u16),
    /// Bnnn: jump to nnn + V0.
    JpV0(u16),
    /// Cxkk: Vx = random byte AND kk.
    Rnd(u8, u8),
    /// Dxyn: draw an n-row sprite from memory at I at (Vx, Vy), VF = collision.
    Drw(u8, u8, u8),
    /// Ex9E: skip next instruction if the key named by the opcode is held.
    Skp(u8),
    /// ExA1: skip next instruction if the key named by the opcode is not held.
    Sknp(u8),
    /// Fx07: Vx = delay timer.
    LdVDt(u8),
    /// Fx0A: wait for a key press, then store its value in Vx.
    LdK(u8),
    /// Fx15: delay timer = Vx.
    LdDt(u8),
    /// Fx18: sound timer = Vx.
    LdSt(u8),
    /// Fx1E: I += Vx.
    AddI(u8),
    /// Fx29: I = address of the digit sprite for Vx.
    LdSi(u8),
    /// Fx33: store the BCD digits of Vx at I, I+1, I+2.
    LdBcd(u8),
    /// Fx55: copy V0..=Vx to memory starting at I.
    CpVI(u8),
    /// Fx65: load V0..=Vx from memory starting at I.
    LdIV(u8),
    /// An opcode outside the instruction set.
    Ill,
}

/// The whole machine state, one ghost field per field of `Cpu`.
#[verifier::ext_equal]
pub ghost struct State {
    /// General-purpose registers V0..VF. VF doubles as the flag register.
    pub v: Seq<u8>,
    /// The sixteen-slot return-address stack.
    pub stack: Seq<u16>,
    /// Delay timer.
    pub dt: u8,
    /// Sound timer.
    pub st: u8,
    /// The 4096-byte memory.
    pub ram: Seq<u8>,
    /// The 2048-pixel framebuffer, row-major.
    pub screen: Seq<bool>,
    /// Program counter; always within the 12-bit address space.
    pub pc: u16,
    /// Stack pointer: number of stack slots in use.
    pub sp: u8,
    /// Index register.
    pub i: u16,
    /// Running cycle counter.
    pub cycle: u64,
    /// Instruction clock rate in Hz.
    pub clock_hz: u32,
    /// Currently held keys, one flag per key value 0..=0xF.
    pub keys: Seq<bool>,
    /// Manual pause: while set, a cycle does nothing at all.
    pub hold: bool,
    /// When waiting for a key press, the destination register of the stalled
    /// instruction.
    pub awaiting: Option<u8>,
    /// The fault the machine stopped on, if any.
    pub fault: Option<Fault>,
    /// The last fetched instruction word.
    pub inst: u16,
}

/// Structural well-formedness: the invariants that construction establishes
/// and every cycle preserves.
pub open spec fn wf_state(s: State) -> bool {
    &&& s.v.len() == 16
    &&& s.stack.len() == 16
    &&& s.ram.len() == 4096
    &&& s.screen.len() == 2048
    &&& s.keys.len() == 16
    &&& s.sp <= 16
    &&& s.pc < 4096
    &&& s.clock_hz >= 1
    &&& forall|k: int| 0 <= k < 16 ==> s.stack[k] < 4096
    &&& match s.awaiting {
        Option::Some(x) => x < 16,
        Option::None => true,
    }
}

/// The five-byte sprite for hexadecimal digit `d`.
pub open spec fn glyph(d: int) -> Seq<u8> {
    if d == 0x0 {
        seq![0xF0u8, 0x90, 0x90, 0x90, 0xF0]
    } else if d == 0x1 {
        seq![0x20u8, 0x60, 0x20, 0x20, 0x70]
    } else if d == 0x2 {
        seq![0xF0u8, 0x10, 0xF0, 0x80, 0xF0]
    } else if d == 0x3 {
        seq![0xF0u8, 0x10, 0xF0, 0x10, 0xF0]
    } else if d == 0x4 {
        seq![0x90u8, 0x90, 0xF0, 0x10, 0x10]
    } else if d == 0x5 {
        seq![0xF0u8, 0x80, 0xF0, 0x10, 0xF0]
    } else if d == 0x6 {
        seq![0xF0u8, 0x80, 0xF0, 0x90, 0xF0]
    } else if d == 0x7 {
        seq![0xF0u8, 0x10, 0x20, 0x40, 0x40]
    } else if d == 0x8 {
        seq![0xF0u8, 0x90, 0xF0, 0x90, 0xF0]
    } else if d == 0x9 {
        seq![0xF0u8, 0x90, 0xF0, 0x10, 0xF0]
    } else if d == 0xA {
        seq![0xF0u8, 0x90, 0xF0, 0x90, 0x90]
    } else if d == 0xB {
        seq![0xE0u8, 0x90, 0xE0, 0x90, 0xE0]
    } else if d == 0xC {
        seq![0xF0u8, 0x80, 0x80, 0x80, 0xF0]
    } else if d == 0xD {
        seq![0xE0u8, 0x90, 0x90, 0x90, 0xE0]
    } else if d == 0xE {
        seq![0xF0u8, 0x80, 0xF0, 0x80, 0xF0]
    } else {
        seq![0xF0u8, 0x80, 0xF0, 0x80, 0x80]
    }
}

/// Memory at construction and after reset: the sixteen digit sprites, five
/// bytes each, at addresses 0, 5, 10, ..., 75; zero everywhere else.
pub open spec fn font_ram() -> Seq<u8> {
    Seq::new(4096, |a: int| if 0 <= a < 80 { glyph(a / 5)[a % 5] } else { 0u8 })
}

/// The state of a freshly constructed machine with clock rate `hz`.
pub open spec fn fresh_state(hz: u32) -> State {
    State {
        v: Seq::new(16, |k: int| 0u8),
        stack: Seq::new(16, |k: int| 0u16),
        dt: 0u8,
        st: 0u8,
        ram: font_ram(),
        screen: Seq::new(2048, |p: int| false),
        pc: 0x200u16,
        sp: 0u8,
        i: 0u16,
        cycle: 0u64,
        clock_hz: hz,
        keys: Seq::new(16, |k: int| false),
        hold: false,
        awaiting: Option::None,
        fault: Option::None,
        inst: 0u16,
    }
}

/// The state after loading a program: a fresh machine (same clock rate) whose
/// memory holds the program at 0x200. Defined for programs of at most 3584
/// bytes, the space above the reserved region.
pub open spec fn load_state(s: State, rom: Seq<u8>) -> State {
    let f = fresh_state(s.clock_hz);
    State {
        ram: Seq::new(
            4096,
            |a: int|
                if 0x200 <= a < 0x200 + rom.len() {
                    rom[a - 0x200]
                } else {
                    f.ram[a]
                },
        ),
        ..f
    }
}

/// Decodes one 16-bit instruction word by nibble.
pub open spec fn decode(w: u16) -> Instr {
    let op = w / 4096;
    let x = ((w / 256) % 16) as u8;
    let y = ((w / 16) % 16) as u8;
    let kk = (w % 256) as u8;
    let nnn = w % 4096;
    let n = (w % 16) as u8;
    if op == 0x0 {
        if kk == 0xE0 {
            Instr::Cls
        } else if kk == 0xEE {
            Instr::Ret
        } else {
            Instr::Sys(nnn)
        }
    } else if op == 0x1 {
        Instr::Jmp(nnn)
    } else if op == 0x2 {
        Instr::Call(nnn)
    } else if op == 0x3 {
        Instr::Se(x, kk)
    } else if op == 0x4 {
        Instr::Sne(x, kk)
    } else if op == 0x5 {
        Instr::SeXy(x, y)
    } else if op == 0x6 {
        Instr::Ld(x, kk)
    } else if op == 0x7 {
        Instr::Add(x, kk)
    } else if op == 0x8 {
        if n == 0x0 {
            Instr::LdXy(x, y)
        } else if n == 0x1 {
            Instr::Or(x, y)
        } else if n == 0x2 {
            Instr::And(x, y)
        } else if n == 0x3 {
            Instr::Xor(x, y)
        } else if n == 0x4 {
            Instr::Adc(x, y)
        } else if n == 0x5 {
            Instr::Sub(x, y)
        } else if n == 0x6 {
            Instr::Shr(x)
        } else if n == 0x7 {
            Instr::Subn(x, y)
        } else if n == 0xE {
            Instr::Shl(x)
        } else {
            Instr::Ill
        }
    } else if op == 0x9 {
        Instr::SneXy(x, y)
    } else if op == 0xA {
        Instr::Ldi(nnn)
    } else if op == 0xB {
        Instr::JpV0(nnn)
    } else if op == 0xC {
        Instr::Rnd(x, kk)
    } else if op == 0xD {
        Instr::Drw(x, y, n)
    } else if op == 0xE {
        if kk == 0x9E {
            Instr::Skp(x)
        } else if kk == 0xA1 {
            Instr::Sknp(x)
        } else {
            Instr::Ill
        }
    } else {
        if kk == 0x07 {
            Instr::LdVDt(x)
        } else if kk == 0x0A {
            Instr::LdK(x)
        } else if kk == 0x15 {
            Instr::LdDt(x)
        } else if kk == 0x18 {
            Instr::LdSt(x)
        } else if kk == 0x1E {
            Instr::AddI(x)
        } else if kk == 0x29 {
            Instr::LdSi(x)
        } else if kk == 0x33 {
            Instr::LdBcd(x)
        } else if kk == 0x55 {
            Instr::CpVI(x)
        } else if kk == 0x65 {
            Instr::LdIV(x)
        } else {
            Instr::Ill
        }
    }
}

/// The lowest-numbered held key at or above index `k`, if any.
pub open spec fn first_key_from(keys: Seq<bool>, k: int) -> Option<u8>
    decreases 16 - k,
{
    if k < 0 || k >= 16 {
        Option::None
    } else if keys[k] {
        Option::Some(k as u8)
    } else {
        first_key_from(keys, k + 1)
    }
}

/// The lowest-numbered held key, if any key is held.
pub open spec fn first_key(keys: Seq<bool>) -> Option<u8> {
    first_key_from(keys, 0)
}

/// Scanning past unheld keys does not change which key is found first.
pub proof fn lemma_first_key_from_skip(keys: Seq<bool>, a: int, k: int)
    requires
        0 <= a <= k <= 16,
        forall|j: int| a <= j < k ==> !keys[j],
    ensures
        first_key_from(keys, a) == first_key_from(keys, k),
    decreases k - a,
{
    if a < k {
        lemma_first_key_from_skip(keys, a + 1, k);
    }
}

/// The program counter after a satisfied skip: two bytes further on, within
/// the 12-bit address space.
pub open spec fn skipped_pc(pc: u16) -> u16 {
    ((pc + 2) % 4096) as u16
}

/// Bit `j` of byte `b`, most significant bit first (`j` in 0..8).
pub open spec fn bit_of(b: u8, j: int) -> bool {
    (b as int / msb_weight(j)) % 2 == 1
}

/// The place value of bit `j` counted from the most significant bit of a byte.
pub open spec fn msb_weight(j: int) -> int {
    if j == 0 {
        128
    } else if j == 1 {
        64
    } else if j == 2 {
        32
    } else if j == 3 {
        16
    } else if j == 4 {
        8
    } else if j == 5 {
        4
    } else if j == 6 {
        2
    } else {
        1
    }
}

/// Whether the sprite of height `n` rooted at (`x0`, `y0`) writes a set bit to
/// pixel index `p`, counting only the first `done` of its `8 * n` bits (row
/// by row, left to right). Coordinates wrap modulo the screen dimensions, so
/// each pixel is hit by at most one sprite bit.
pub open spec fn sprite_bit_upto(
    ram: Seq<u8>,
    i: u16,
    x0: u8,
    y0: u8,
    done: int,
    p: int,
) -> bool {
    let px = p % 64;
    let py = p / 64;
    let r = (py - y0) % 32;
    let c = (px - x0) % 64;
    c < 8 && 8 * r + c < done && bit_of(ram[(i + r) % 4096], c)
}

/// The screen after XORing in the first `done` bits of the sprite.
pub open spec fn draw_upto(
    screen: Seq<bool>,
    ram: Seq<u8>,
    i: u16,
    x0: u8,
    y0: u8,
    done: int,
) -> Seq<bool> {
    Seq::new(2048, |p: int| screen[p] != sprite_bit_upto(ram, i, x0, y0, done, p))
}

/// Whether any of the first `done` sprite bits lands set on an already lit
/// pixel.
pub open spec fn collision_upto(
    screen: Seq<bool>,
    ram: Seq<u8>,
    i: u16,
    x0: u8,
    y0: u8,
    done: int,
) -> bool {
    exists|p: int| 0 <= p < 2048 && screen[p] && sprite_bit_upto(ram, i, x0, y0, done, p)
}

/// Memory after the first `cnt` writes of the block-store instruction:
/// registers V0..=V(cnt-1) written to `cnt` consecutive addresses starting at
/// I, wrapping within memory.
pub open spec fn block_store(ram: Seq<u8>, v: Seq<u8>, i: u16, cnt: int) -> Seq<u8> {
    Seq::new(
        4096,
        |a: int|
            {
                let k = (a - i) % 4096;
                if k < cnt {
                    v[k]
                } else {
                    ram[a]
                }
            },
    )
}

/// Registers after the first `cnt` reads of the block-load instruction:
/// V0..=V(cnt-1) read from `cnt` consecutive addresses starting at I,
/// wrapping within memory.
pub open spec fn block_load(v: Seq<u8>, ram: Seq<u8>, i: u16, cnt: int) -> Seq<u8> {
    Seq::new(16, |k: int| if k < cnt { ram[(i + k) % 4096] } else { v[k] })
}

/// A coordinate confined to one period of a wrap is determined by its wrapped
/// offset from the base, and conversely.
pub proof fn lemma_wrap_unique(base: int, k: int, coord: int, m: int)
    requires
        0 < m,
        0 <= k < m,
        0 <= coord < m,
        0 <= base,
    ensures
        ((coord - base) % m == k) <==> (coord == (base + k) % m),
{
    vstd::arithmetic::div_mod::lemma_fundamental_div_mod(coord - base, m);
    let q = (coord - base) / m;
    if (coord - base) % m == k {
        assert(base + k == m * (-q) + coord) by (nonlinear_arith)
            requires coord - base == m * q + k;
        vstd::arithmetic::div_mod::lemma_mod_multiples_vanish(-q, coord, m);
        vstd::arithmetic::div_mod::lemma_small_mod(coord as nat, m as nat);
    }
    if coord == (base + k) % m {
        vstd::arithmetic::div_mod::lemma_fundamental_div_mod(base + k, m);
        let p = (base + k) / m;
        assert(coord - base == m * (-p) + k) by (nonlinear_arith)
            requires base + k == m * p + coord;
        vstd::arithmetic::div_mod::lemma_mod_multiples_vanish(-p, k, m);
        vstd::arithmetic::div_mod::lemma_small_mod(k as nat, m as nat);
    }
}

/// Updates one general-purpose register.
pub open spec fn with_v(s: State, x: u8, val: u8) -> State {
    State { v: s.v.update(x as int, val), ..s }
}

/// 0nnn: jump to a machine routine address.
pub open spec fn spec_sys(s: State, nnn: u16) -> State {
    State { pc: nnn, ..s }
}

/// 00E0: clear the screen.
pub open spec fn spec_cls(s: State) -> State {
    State { screen: Seq::new(2048, |p: int| false), ..s }
}

/// 00EE: pop the return address into the program counter; a pop of an empty
/// stack is a fatal underflow.
pub open spec fn spec_ret(s: State) -> State {
    if s.sp == 0 {
        State { fault: Option::Some(Fault::StackUnderflow), ..s }
    } else {
        State { sp: (s.sp - 1) as u8, pc: s.stack[s.sp - 1], ..s }
    }
}

/// 2nnn: push the return address and jump; a push at depth sixteen is a fatal
/// overflow.
pub open spec fn spec_call(s: State, nnn: u16) -> State {
    if s.sp == 16 {
        State { fault: Option::Some(Fault::StackOverflow), ..s }
    } else {
        State {
            stack: s.stack.update(s.sp as int, s.pc),
            sp: (s.sp + 1) as u8,
            pc: nnn,
            ..s
        }
    }
}

/// 3xkk: skip when Vx == kk.
pub open spec fn spec_se(s: State, x: u8, kk: u8) -> State {
    if s.v[x as int] == kk {
        State { pc: skipped_pc(s.pc), ..s }
    } else {
        s
    }
}

/// 4xkk: skip when Vx != kk.
pub open spec fn spec_sne(s: State, x: u8, kk: u8) -> State {
    if s.v[x as int] != kk {
        State { pc: skipped_pc(s.pc), ..s }
    } else {
        s
    }
}

/// 5xy0: skip when Vx == Vy.
pub open spec fn spec_sexy(s: State, x: u8, y: u8) -> State {
    if s.v[x as int] == s.v[y as int] {
        State { pc: skipped_pc(s.pc), ..s }
    } else {
        s
    }
}

/// 9xy0: skip when Vx != Vy.
pub open spec fn spec_snexy(s: State, x: u8, y: u8) -> State {
    if s.v[x as int] != s.v[y as int] {
        State { pc: skipped_pc(s.pc), ..s }
    } else {
        s
    }
}

/// 7xkk: add without a carry flag, wrapping modulo 256.
pub open spec fn spec_add(s: State, x: u8, kk: u8) -> State {
    with_v(s, x, ((s.v[x as int] + kk) % 256) as u8)
}

/// 8xy4: add with carry: VF is 1 exactly when the unsigned sum overflows a
/// byte. The flag write comes second, so it wins when x is 0xF.
pub open spec fn spec_adc(s: State, x: u8, y: u8) -> State {
    let sum = s.v[x as int] + s.v[y as int];
    let flag: u8 = if sum >= 256 { 1 } else { 0 };
    State { v: s.v.update(x as int, (sum % 256) as u8).update(15, flag), ..s }
}

/// 8xy5: subtract: VF is 1 exactly when no borrow occurs (Vx >= Vy).
pub open spec fn spec_sub(s: State, x: u8, y: u8) -> State {
    let flag: u8 = if s.v[x as int] >= s.v[y as int] { 1 } else { 0 };
    State {
        v: s.v.update(x as int, ((s.v[x as int] - s.v[y as int]) % 256) as u8).update(15, flag),
        ..s
    }
}

/// 8xy7: reversed subtract: Vx = Vy - Vx, VF is 1 exactly when no borrow
/// occurs (Vy >= Vx).
pub open spec fn spec_subn(s: State, x: u8, y: u8) -> State {
    let flag: u8 = if s.v[y as int] >= s.v[x as int] { 1 } else { 0 };
    State {
        v: s.v.update(x as int, ((s.v[y as int] - s.v[x as int]) % 256) as u8).update(15, flag),
        ..s
    }
}

/// 8xy6: VF takes the pre-shift least-significant bit, then Vx is halved.
/// The flag is written first, as the hardware convention has it, so for
/// x = 0xF the shift reads the just-written flag.
pub open spec fn spec_shr(s: State, x: u8) -> State {
    let v1 = s.v.update(15, (s.v[x as int] % 2) as u8);
    State { v: v1.update(x as int, (v1[x as int] / 2) as u8), ..s }
}

/// 8xyE: VF takes the pre-shift most-significant bit, then Vx is doubled
/// modulo 256. The flag is written first, as in [`spec_shr`].
pub open spec fn spec_shl(s: State, x: u8) -> State {
    let v1 = s.v.update(15, (s.v[x as int] / 128) as u8);
    State { v: v1.update(x as int, ((v1[x as int] * 2) % 256) as u8), ..s }
}

/// Bnnn: jump to nnn plus V0, within the 12-bit address space.
pub open spec fn spec_jpv0(s: State, nnn: u16) -> State {
    State { pc: (((nnn + s.v[0]) as int % 4096) as u16), ..s }
}

/// Fx1E: I += Vx, wrapping as a 16-bit register.
pub open spec fn spec_addi(s: State, x: u8) -> State {
    State { i: (((s.i + s.v[x as int]) as int % 65536) as u16), ..s }
}

/// Fx29: I = 5 * digit, the address of the digit's sprite; a value above 0xF
/// is a fatal invalid operand.
pub open spec fn spec_ldsi(s: State, x: u8) -> State {
    if s.v[x as int] <= 0xF {
        State { i: (5 * s.v[x as int]) as u16, ..s }
    } else {
        State { fault: Option::Some(Fault::InvalidDigit), ..s }
    }
}

/// Fx33: the hundreds, tens and ones digits of Vx written to I, I+1, I+2.
pub open spec fn spec_ldbcd(s: State, x: u8) -> State {
    let val = s.v[x as int];
    State {
        ram: s.ram.update((s.i as int) % 4096, (val / 100) as u8).update(
            (s.i + 1) % 4096,
            ((val / 10) % 10) as u8,
        ).update((s.i + 2) % 4096, (val % 10) as u8),
        ..s
    }
}

/// Dxyn: XOR the sprite into the screen; VF is 1 exactly when a set sprite
/// bit lands on an already lit pixel.
pub open spec fn spec_drw(s: State, x: u8, y: u8, n: u8) -> State {
    let x0 = s.v[x as int];
    let y0 = s.v[y as int];
    let flag: u8 = if collision_upto(s.screen, s.ram, s.i, x0, y0, 8 * n) { 1 } else { 0 };
    State {
        screen: draw_upto(s.screen, s.ram, s.i, x0, y0, 8 * n),
        v: s.v.update(15, flag),
        ..s
    }
}

/// Fx0A: take the lowest held key into Vx, or stall awaiting one.
pub open spec fn spec_ldk(s: State, x: u8) -> State {
    match first_key(s.keys) {
        Option::Some(k) => with_v(s, x, k),
        Option::None => State { awaiting: Option::Some(x), ..s },
    }
}

/// The effect of one decoded instruction on the post-fetch state (`s.pc`
/// already advanced past the instruction). `rb` is the random byte the RND
/// instruction consumes; every other instruction ignores it.
pub open spec fn exec_instr(s: State, instr: Instr, rb: u8) -> State {
    match instr {
        Instr::Sys(nnn) => spec_sys(s, nnn),
        Instr::Cls => spec_cls(s),
        Instr::Ret => spec_ret(s),
        Instr::Jmp(nnn) => State { pc: nnn, ..s },
        Instr::Call(nnn) => spec_call(s, nnn),
        Instr::Se(x, kk) => spec_se(s, x, kk),
        Instr::Sne(x, kk) => spec_sne(s, x, kk),
        Instr::SeXy(x, y) => spec_sexy(s, x, y),
        Instr::Ld(x, kk) => with_v(s, x, kk),
        Instr::Add(x, kk) => spec_add(s, x, kk),
        Instr::LdXy(x, y) => with_v(s, x, s.v[y as int]),
        Instr::Or(x, y) => with_v(s, x, s.v[x as int] | s.v[y as int]),
        Instr::And(x, y) => with_v(s, x, s.v[x as int] & s.v[y as int]),
        Instr::Xor(x, y) => with_v(s, x, s.v[x as int] ^ s.v[y as int]),
        Instr::Adc(x, y) => spec_adc(s, x, y),
        Instr::Sub(x, y) => spec_sub(s, x, y),
        Instr::Shr(x) => spec_shr(s, x),
        Instr::Subn(x, y) => spec_subn(s, x, y),
        Instr::Shl(x) => spec_shl(s, x),
        Instr::SneXy(x, y) => spec_snexy(s, x, y),
        Instr::Ldi(nnn) => State { i: nnn, ..s },
        Instr::JpV0(nnn) => spec_jpv0(s, nnn),
        Instr::Rnd(x, kk) => with_v(s, x, rb & kk),
        Instr::Drw(x, y, n) => spec_drw(s, x, y, n),
        Instr::Skp(x) => if s.keys[x as int] {
            State { pc: skipped_pc(s.pc), ..s }
        } else {
            s
        },
        Instr::Sknp(x) => if !s.keys[x as int] {
            State { pc: skipped_pc(s.pc), ..s }
        } else {
            s
        },
        Instr::LdVDt(x) => with_v(s, x, s.dt),
        Instr::LdK(x) => spec_ldk(s, x),
        Instr::LdDt(x) => State { dt: s.v[x as int], ..s },
        Instr::LdSt(x) => State { st: s.v[x as int], ..s },
        Instr::AddI(x) => spec_addi(s, x),
        Instr::LdSi(x) => spec_ldsi(s, x),
        Instr::LdBcd(x) => spec_ldbcd(s, x),
        Instr::CpVI(x) => State { ram: block_store(s.ram, s.v, s.i, x + 1), ..s },
        Instr::LdIV(x) => State { v: block_load(s.v, s.ram, s.i, x + 1), ..s },
        Instr::Ill => State { fault: Option::Some(Fault::IllegalInstruction), ..s },
    }
}

/// How many instruction cycles make one 60 Hz timer tick: the clock rate
/// divided by 60, and never less than one.
pub open spec fn cycles_per_tick(hz: u32) -> u64 {
    if hz / 60 == 0 {
        1u64
    } else {
        (hz / 60) as u64
    }
}

/// One 60 Hz tick: each timer decrements when nonzero, saturating at zero.
pub open spec fn spec_tick_timers(s: State) -> State {
    State {
        dt: if s.dt > 0 { (s.dt - 1) as u8 } else { 0u8 },
        st: if s.st > 0 { (s.st - 1) as u8 } else { 0u8 },
        ..s
    }
}

/// End-of-cycle bookkeeping: the timers tick whenever the running cycle count
/// crosses a 60 Hz boundary, then the counter advances (wrapping).
pub open spec fn spec_bump_cycle(s: State) -> State {
    let s1 = if s.cycle % cycles_per_tick(s.clock_hz) == 0 {
        spec_tick_timers(s)
    } else {
        s
    };
    State { cycle: if s1.cycle == u64::MAX { 0u64 } else { (s1.cycle + 1) as u64 }, ..s1 }
}

/// The instruction word at the program counter: two bytes, high byte first.
pub open spec fn fetch_word(s: State) -> u16 {
    (s.ram[s.pc as int] * 256 + s.ram[(s.pc + 1) % 4096]) as u16
}

/// The state right after a fetch: the program counter two bytes on (within
/// the 12-bit address space) and the instruction latch filled.
pub open spec fn after_fetch(s: State) -> State {
    State { pc: ((s.pc + 2) % 4096) as u16, inst: fetch_word(s), ..s }
}

/// One whole host clock cycle. A faulted machine does nothing; a manually
/// paused machine does nothing; a machine awaiting a key resolves or re-enters
/// the stall, and its timers keep running; otherwise one instruction is
/// fetched, decoded and executed, and on anything but a fresh fault the cycle
/// and timer bookkeeping runs.
pub open spec fn step(s: State, rb: u8) -> State {
    if s.fault is Some {
        s
    } else if s.hold {
        s
    } else {
        match s.awaiting {
            Option::Some(x) => {
                match first_key(s.keys) {
                    Option::Some(k) => spec_bump_cycle(
                        State { v: s.v.update(x as int, k), awaiting: Option::None, ..s },
                    ),
                    Option::None => spec_bump_cycle(s),
                }
            },
            Option::None => {
                let s1 = after_fetch(s);
                let s2 = exec_instr(s1, decode(s1.inst), rb);
                if s2.fault is Some {
                    s2
                } else {
                    spec_bump_cycle(s2)
                }
            },
        }
    }
}

/// The result `tick` reports: the machine's fault if it has one, else success.
pub open spec fn fault_result(s: State) -> Result<(), Fault> {
    match s.fault {
        Option::Some(f) => Result::Err(f),
        Option::None => Result::Ok(()),
    }
}

} // verus!
