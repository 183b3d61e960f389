//! Machine-wide laws: properties relating several operations, proved once and
//! for all over the model in [`crate::semantics`].

use vstd::prelude::*;

use crate::semantics::{
    collision_upto, cycles_per_tick, decode, draw_upto, fetch_word, first_key, fresh_state,
    load_state, spec_bump_cycle, spec_call, spec_drw, spec_ret, sprite_bit_upto, step, wf_state,
    Fault, Instr, State,
};

verus! {

/// Loading a program changes nothing but the memory's program region: the
/// registers, stack, timers, counters, framebuffer and input latch of the
/// loaded machine all equal those of a fresh machine, and so does every
/// memory byte outside the `rom.len()` bytes starting at 0x200.
pub proof fn lemma_load_touches_only_program_region(hz: u32, rom: Seq<u8>)
    requires
        hz >= 1,
        rom.len() <= 3584,
    ensures
        ({
            let fresh = fresh_state(hz);
            let loaded = load_state(fresh, rom);
            &&& loaded.v == fresh.v
            &&& loaded.stack == fresh.stack
            &&& loaded.dt == fresh.dt
            &&& loaded.st == fresh.st
            &&& loaded.pc == fresh.pc
            &&& loaded.sp == fresh.sp
            &&& loaded.i == fresh.i
            &&& loaded.cycle == fresh.cycle
            &&& loaded.clock_hz == fresh.clock_hz
            &&& loaded.screen == fresh.screen
            &&& loaded.keys == fresh.keys
            &&& loaded.hold == fresh.hold
            &&& loaded.awaiting == fresh.awaiting
            &&& loaded.fault == fresh.fault
            &&& forall|a: int|
                0 <= a < 4096 && !(0x200 <= a < 0x200 + rom.len()) ==> loaded.ram[a]
                    == fresh.ram[a]
        }),
{
}

/// `load_rom` followed by `reset` reproduces a fresh machine exactly: `reset`
/// yields `fresh_state` of the loaded machine's clock rate, and that clock
/// rate is the one the machine was built with.
pub proof fn lemma_reset_after_load_is_fresh(hz: u32, rom: Seq<u8>)
    requires
        hz >= 1,
        rom.len() <= 3584,
    ensures
        fresh_state(load_state(fresh_state(hz), rom).clock_hz) == fresh_state(hz),
{
}

/// Double-XOR idempotence: drawing the same sprite at the same coordinates a
/// second time restores the screen exactly, and the second draw collides
/// precisely when the first draw turned some pixel on.
pub proof fn lemma_draw_twice_restores(
    screen: Seq<bool>,
    ram: Seq<u8>,
    i: u16,
    x0: u8,
    y0: u8,
    n: u8,
)
    requires
        screen.len() == 2048,
    ensures
        draw_upto(draw_upto(screen, ram, i, x0, y0, 8 * n), ram, i, x0, y0, 8 * n) == screen,
        collision_upto(draw_upto(screen, ram, i, x0, y0, 8 * n), ram, i, x0, y0, 8 * n) == (
        exists|p: int|
            0 <= p < 2048 && !screen[p] && sprite_bit_upto(ram, i, x0, y0, 8 * n, p)),
{
    let once = draw_upto(screen, ram, i, x0, y0, 8 * n);
    assert(draw_upto(once, ram, i, x0, y0, 8 * n) =~= screen);
    if collision_upto(once, ram, i, x0, y0, 8 * n) {
        let pw = choose|p: int|
            0 <= p < 2048 && once[p] && sprite_bit_upto(ram, i, x0, y0, 8 * n, p);
        assert(!screen[pw] && sprite_bit_upto(ram, i, x0, y0, 8 * n, pw));
    }
    if exists|p: int| 0 <= p < 2048 && !screen[p] && sprite_bit_upto(ram, i, x0, y0, 8 * n, p) {
        let pw = choose|p: int|
            0 <= p < 2048 && !screen[p] && sprite_bit_upto(ram, i, x0, y0, 8 * n, p);
        assert(once[pw] && sprite_bit_upto(ram, i, x0, y0, 8 * n, pw));
        assert(collision_upto(once, ram, i, x0, y0, 8 * n));
    }
}

/// Double-XOR idempotence at the instruction level: executing the draw
/// instruction twice in a row (same registers, any register pair other than
/// the flag itself) leaves the screen exactly as it began, and the second
/// draw's flag is 1 precisely when the first draw turned some pixel on.
pub proof fn lemma_drw_twice_is_identity_on_screen(s: State, x: u8, y: u8, n: u8)
    requires
        wf_state(s),
        x < 15,
        y < 15,
    ensures
        spec_drw(spec_drw(s, x, y, n), x, y, n).screen == s.screen,
        spec_drw(spec_drw(s, x, y, n), x, y, n).v[15] == (
        if exists|p: int|
            0 <= p < 2048 && !s.screen[p] && sprite_bit_upto(
                s.ram,
                s.i,
                s.v[x as int],
                s.v[y as int],
                8 * n,
                p,
            ) {
            1u8
        } else {
            0u8
        }),
{
    lemma_draw_twice_restores(s.screen, s.ram, s.i, s.v[x as int], s.v[y as int], n);
}

/// Sprite coordinates wrap: a draw rooted beyond the screen bounds is the
/// same draw rooted at the coordinates reduced modulo the screen size.
pub proof fn lemma_draw_coordinates_wrap(
    screen: Seq<bool>,
    ram: Seq<u8>,
    i: u16,
    x0: u8,
    y0: u8,
    n: u8,
)
    ensures
        draw_upto(screen, ram, i, x0, y0, 8 * n) == draw_upto(
            screen,
            ram,
            i,
            (x0 % 64) as u8,
            (y0 % 32) as u8,
            8 * n,
        ),
        collision_upto(screen, ram, i, x0, y0, 8 * n) == collision_upto(
            screen,
            ram,
            i,
            (x0 % 64) as u8,
            (y0 % 32) as u8,
            8 * n,
        ),
{
    assert forall|p: int| 0 <= p < 2048 implies #[trigger] sprite_bit_upto(
        ram,
        i,
        x0,
        y0,
        8 * n,
        p,
    ) == sprite_bit_upto(ram, i, (x0 % 64) as u8, (y0 % 32) as u8, 8 * n, p) by {
        let px = p % 64;
        let py = p / 64;
        vstd::arithmetic::div_mod::lemma_sub_mod_noop(px, x0 as int, 64);
        vstd::arithmetic::div_mod::lemma_sub_mod_noop(px, (x0 % 64) as int, 64);
        vstd::arithmetic::div_mod::lemma_mod_twice(x0 as int, 64);
        vstd::arithmetic::div_mod::lemma_sub_mod_noop(py, y0 as int, 32);
        vstd::arithmetic::div_mod::lemma_sub_mod_noop(py, (y0 % 32) as int, 32);
        vstd::arithmetic::div_mod::lemma_mod_twice(y0 as int, 32);
    }
    assert(draw_upto(screen, ram, i, x0, y0, 8 * n) =~= draw_upto(
        screen,
        ram,
        i,
        (x0 % 64) as u8,
        (y0 % 32) as u8,
        8 * n,
    ));
    if collision_upto(screen, ram, i, x0, y0, 8 * n) {
        let pw = choose|p: int|
            0 <= p < 2048 && screen[p] && sprite_bit_upto(ram, i, x0, y0, 8 * n, p);
        assert(sprite_bit_upto(ram, i, (x0 % 64) as u8, (y0 % 32) as u8, 8 * n, pw));
    }
    if collision_upto(screen, ram, i, (x0 % 64) as u8, (y0 % 32) as u8, 8 * n) {
        let pw = choose|p: int|
            0 <= p < 2048 && screen[p] && sprite_bit_upto(
                ram,
                i,
                (x0 % 64) as u8,
                (y0 % 32) as u8,
                8 * n,
                p,
            );
        assert(sprite_bit_upto(ram, i, x0, y0, 8 * n, pw));
    }
}

/// Stack discipline, the succeeding side: below sixteen live frames a call
/// pushes and a matching return pops, restoring the program counter and the
/// stack pointer exactly and faulting on neither.
pub proof fn lemma_call_then_ret_restores(s: State, nnn: u16)
    requires
        wf_state(s),
        s.fault is None,
        s.sp < 16,
    ensures
        ({
            let after = spec_ret(spec_call(s, nnn));
            &&& after.fault is None
            &&& after.pc == s.pc
            &&& after.sp == s.sp
            &&& after.v == s.v
            &&& after.ram == s.ram
            &&& spec_call(s, nnn).pc == nnn
        }),
{
}

/// Stack discipline, overflow: a call with all sixteen slots in use is a
/// fatal stack overflow and changes nothing else.
pub proof fn lemma_call_overflow_faults(s: State, nnn: u16)
    requires
        s.sp == 16,
    ensures
        spec_call(s, nnn).fault == Some(Fault::StackOverflow),
        spec_call(s, nnn).pc == s.pc,
        spec_call(s, nnn).sp == s.sp,
        spec_call(s, nnn).stack == s.stack,
{
}

/// Stack discipline, underflow: a return with an empty stack is a fatal
/// stack underflow and changes nothing else.
pub proof fn lemma_ret_underflow_faults(s: State)
    requires
        s.sp == 0,
    ensures
        spec_ret(s).fault == Some(Fault::StackUnderflow),
        spec_ret(s).pc == s.pc,
        spec_ret(s).sp == s.sp,
        spec_ret(s).stack == s.stack,
{
}

/// Key-wait stall, entering: fetching the wait-for-key instruction with no
/// key held parks its destination register and leaves the registers alone;
/// the program counter already points past the stalled instruction.
pub proof fn lemma_key_wait_enters(s: State, rb: u8, x: u8)
    requires
        wf_state(s),
        s.fault is None,
        !s.hold,
        s.awaiting is None,
        decode(fetch_word(s)) == Instr::LdK(x),
        first_key(s.keys) is None,
    ensures
        step(s, rb).awaiting == Some(x),
        step(s, rb).pc == ((s.pc + 2) % 4096) as u16,
        step(s, rb).v == s.v,
        step(s, rb).fault is None,
{
}

/// Key-wait stall, waiting: while no key is held, every further cycle leaves
/// the program counter, the registers and the stall itself unchanged; only
/// the cycle counter and timers move.
pub proof fn lemma_key_wait_stalls(s: State, rb: u8)
    requires
        wf_state(s),
        s.fault is None,
        !s.hold,
        s.awaiting is Some,
        first_key(s.keys) is None,
    ensures
        step(s, rb).pc == s.pc,
        step(s, rb).awaiting == s.awaiting,
        step(s, rb).v == s.v,
        step(s, rb).fault is None,
{
}

/// Key-wait stall, resuming: on the first cycle where a key is held, the
/// lowest held key's value lands in the parked register, the stall ends, and
/// the program counter is untouched, so fetching resumes at the instruction
/// after the stalled one.
pub proof fn lemma_key_wait_resumes(s: State, rb: u8, x: u8, k: u8)
    requires
        wf_state(s),
        s.fault is None,
        !s.hold,
        s.awaiting == Some(x),
        first_key(s.keys) == Some(k),
    ensures
        step(s, rb).v == s.v.update(x as int, k),
        step(s, rb).awaiting is None,
        step(s, rb).pc == s.pc,
        step(s, rb).fault is None,
{
}

/// Timer decoupling: however the clock rate is set, at least one instruction
/// cycle passes between 60 Hz timer ticks, so the cycle bookkeeping is always
/// well defined.
pub proof fn lemma_cycles_per_tick_is_positive(hz: u32)
    ensures
        cycles_per_tick(hz) >= 1,
{
}

/// Timer decoupling: a cycle's bookkeeping decrements each timer by one
/// exactly when the running cycle count sits on a 60 Hz boundary and the
/// timer is nonzero; a zero timer saturates, and the cycle count advances by
/// one either way.
pub proof fn lemma_timers_follow_cycle_boundaries(s: State)
    requires
        s.cycle < u64::MAX,
    ensures
        ({
            let after = spec_bump_cycle(s);
            let boundary = s.cycle % cycles_per_tick(s.clock_hz) == 0;
            &&& after.cycle == s.cycle + 1
            &&& after.dt == (if boundary && s.dt > 0 { (s.dt - 1) as u8 } else { s.dt })
            &&& after.st == (if boundary && s.st > 0 { (s.st - 1) as u8 } else { s.st })
        }),
{
}

/// Every instruction but RND ignores the random byte, so for any cycle whose
/// fetched word is not a RND opcode the machine's step is one deterministic
/// function of its state.
pub proof fn lemma_step_deterministic_without_rnd(s: State, rb1: u8, rb2: u8)
    requires
        !(decode(fetch_word(s)) is Rnd),
    ensures
        step(s, rb1) == step(s, rb2),
{
}

} // verus!
