//! Machine-level behaviour: construction, loading, reset, timers, pausing,
//! the key-wait stall and the call stack.

use chip8::cpu::Cpu;
use chip8::semantics::{Fault, LoadError};

/// Builds a ROM from 16-bit instruction words, high byte first.
fn rom(words: &[u16]) -> Vec<u8> {
    let mut bytes = Vec::new();
    for w in words {
        bytes.push((w >> 8) as u8);
        bytes.push((w & 0xFF) as u8);
    }
    bytes
}

/// A machine with the given program loaded, clocked at `hz`.
fn boot(hz: u32, words: &[u16]) -> Cpu {
    let mut cpu = Cpu::new(hz);
    cpu.load_rom(&rom(words)).expect("program fits in memory");
    cpu
}

#[test]
fn fresh_machine_state() {
    let cpu = Cpu::new(500);
    assert_eq!(cpu.pc(), 0x200);
    assert_eq!(cpu.sp(), 0);
    assert_eq!(cpu.index_reg(), 0);
    assert_eq!(cpu.delay_timer(), 0);
    assert_eq!(cpu.sound_timer(), 0);
    assert_eq!(cpu.cycle, 0);
    assert_eq!(cpu.clock_rate(), 500);
    assert!(!cpu.is_awaiting_key());
    assert!(!cpu.hold_mode());
    assert_eq!(cpu.current_fault(), None);
    for x in 0..16 {
        assert_eq!(cpu.reg(x), 0);
        assert_eq!(cpu.stack_slot(x as usize), 0);
        assert!(!cpu.pressed_keys[x as usize]);
    }
    for y in 0..32 {
        for x in 0..64 {
            assert!(!cpu.display.pixel(x, y));
        }
    }
}

#[test]
fn font_table_seeded() {
    let table: [[u8; 5]; 16] = [
        [0xF0, 0x90, 0x90, 0x90, 0xF0],
        [0x20, 0x60, 0x20, 0x20, 0x70],
        [0xF0, 0x10, 0xF0, 0x80, 0xF0],
        [0xF0, 0x10, 0xF0, 0x10, 0xF0],
        [0x90, 0x90, 0xF0, 0x10, 0x10],
        [0xF0, 0x80, 0xF0, 0x10, 0xF0],
        [0xF0, 0x80, 0xF0, 0x90, 0xF0],
        [0xF0, 0x10, 0x20, 0x40, 0x40],
        [0xF0, 0x90, 0xF0, 0x90, 0xF0],
        [0xF0, 0x90, 0xF0, 0x10, 0xF0],
        [0xF0, 0x90, 0xF0, 0x90, 0x90],
        [0xE0, 0x90, 0xE0, 0x90, 0xE0],
        [0xF0, 0x80, 0x80, 0x80, 0xF0],
        [0xE0, 0x90, 0x90, 0x90, 0xE0],
        [0xF0, 0x80, 0xF0, 0x80, 0xF0],
        [0xF0, 0x80, 0xF0, 0x80, 0x80],
    ];
    let cpu = Cpu::new(500);
    for d in 0..16 {
        for r in 0..5 {
            assert_eq!(cpu.ram_byte(5 * d + r), table[d][r], "digit {d} row {r}");
        }
    }
    for a in 80..0x200 {
        assert_eq!(cpu.ram_byte(a), 0);
    }
}

#[test]
fn ram_new_holds_fonts() {
    let ram = chip8::cpu::Ram::new();
    assert_eq!(ram.byte(0), 0xF0);
    assert_eq!(ram.byte(4), 0xF0);
    assert_eq!(ram.byte(5), 0x20);
    assert_eq!(ram.byte(75), 0xF0);
    assert_eq!(ram.byte(79), 0x80);
    assert_eq!(ram.byte(80), 0);
    assert_eq!(ram.byte(4095), 0);
}

#[test]
fn load_rom_copies_program() {
    let mut cpu = Cpu::new(500);
    let program = vec![1u8, 2, 3];
    assert_eq!(cpu.load_rom(&program), Ok(()));
    assert_eq!(cpu.ram_byte(0x200), 1);
    assert_eq!(cpu.ram_byte(0x201), 2);
    assert_eq!(cpu.ram_byte(0x202), 3);
    assert_eq!(cpu.ram_byte(0x203), 0);
    assert_eq!(cpu.pc(), 0x200);
}

#[test]
fn load_rom_max_size_fits() {
    let mut cpu = Cpu::new(500);
    let program = vec![0xABu8; 3584];
    assert_eq!(cpu.load_rom(&program), Ok(()));
    assert_eq!(cpu.ram_byte(0xFFF), 0xAB);
}

#[test]
fn load_rom_too_large_is_rejected() {
    let mut cpu = Cpu::new(500);
    assert_eq!(cpu.load_rom(&vec![9u8]), Ok(()));
    let oversized = vec![0u8; 3585];
    assert_eq!(cpu.load_rom(&oversized), Err(LoadError::OutOfSpace));
    // The failed load corrupted nothing: the earlier program is still there.
    assert_eq!(cpu.ram_byte(0x200), 9);
    assert_eq!(cpu.pc(), 0x200);
}

#[test]
fn load_then_reset_matches_fresh() {
    // LD V0,7; ADD V0,1; JMP 0x204
    let mut cpu = boot(500, &[0x6007, 0x7001, 0x1204]);
    for _ in 0..5 {
        cpu.tick().unwrap();
    }
    cpu.pressed_keys[3] = true;
    cpu.reset();
    let fresh = Cpu::new(500);
    assert_eq!(cpu.pc(), fresh.pc());
    assert_eq!(cpu.sp(), fresh.sp());
    assert_eq!(cpu.index_reg(), fresh.index_reg());
    assert_eq!(cpu.delay_timer(), fresh.delay_timer());
    assert_eq!(cpu.sound_timer(), fresh.sound_timer());
    assert_eq!(cpu.cycle, fresh.cycle);
    assert_eq!(cpu.clock_rate(), fresh.clock_rate());
    assert_eq!(cpu.is_awaiting_key(), fresh.is_awaiting_key());
    assert_eq!(cpu.current_fault(), fresh.current_fault());
    for x in 0..16 {
        assert_eq!(cpu.reg(x), fresh.reg(x));
        assert_eq!(cpu.stack_slot(x as usize), fresh.stack_slot(x as usize));
        assert_eq!(cpu.pressed_keys[x as usize], fresh.pressed_keys[x as usize]);
    }
    for a in 0..4096 {
        assert_eq!(cpu.ram_byte(a), fresh.ram_byte(a));
    }
    for y in 0..32 {
        for x in 0..64 {
            assert_eq!(cpu.display.pixel(x, y), fresh.display.pixel(x, y));
        }
    }
}

#[test]
fn timer_decoupling_at_1000hz() {
    // LD V0,60; LD DT,V0; JMP 0x204 (spin)
    let mut cpu = boot(1000, &[0x603C, 0xF015, 0x1204]);
    for _ in 0..960 {
        cpu.tick().unwrap();
    }
    // 1000 Hz gives 16 cycles per 60 Hz tick; 59 decrements have landed.
    assert_eq!(cpu.delay_timer(), 1);
    cpu.tick().unwrap();
    assert_eq!(cpu.delay_timer(), 0);
    for _ in 0..39 {
        cpu.tick().unwrap();
    }
    // After exactly 1000 ticks the timer reads 0 and saturates there.
    assert_eq!(cpu.cycle, 1000);
    assert_eq!(cpu.delay_timer(), 0);
    assert_eq!(cpu.sound_timer(), 0);
}

#[test]
fn timers_tick_every_cycle_at_60hz() {
    // LD V0,60; LD DT,V0; JMP 0x204
    let mut cpu = boot(60, &[0x603C, 0xF015, 0x1204]);
    cpu.tick().unwrap();
    cpu.tick().unwrap();
    // The timer was set this very cycle and the 60 Hz boundary then hit.
    assert_eq!(cpu.delay_timer(), 59);
    cpu.tick().unwrap();
    assert_eq!(cpu.delay_timer(), 58);
}

#[test]
fn set_clock_rate_changes_timer_cadence() {
    // LD V0,9; LD DT,V0; JMP 0x204
    let mut cpu = boot(6000, &[0x6009, 0xF015, 0x1204]);
    for _ in 0..3 {
        cpu.tick().unwrap();
    }
    // At 6000 Hz only the boundary at cycle 0 has passed; nothing decremented
    // the freshly set timer.
    assert_eq!(cpu.delay_timer(), 9);
    cpu.set_clock_rate(60);
    assert_eq!(cpu.clock_rate(), 60);
    cpu.tick().unwrap();
    cpu.tick().unwrap();
    assert_eq!(cpu.delay_timer(), 7);
}

#[test]
fn hold_mode_freezes_the_machine() {
    let mut cpu = boot(500, &[0x1200]);
    cpu.set_hold_mode(true);
    assert!(cpu.hold_mode());
    for _ in 0..10 {
        assert_eq!(cpu.tick(), Ok(()));
    }
    assert_eq!(cpu.cycle, 0);
    assert_eq!(cpu.pc(), 0x200);
    cpu.set_hold_mode(false);
    cpu.tick().unwrap();
    assert_eq!(cpu.cycle, 1);
    assert_eq!(cpu.pc(), 0x200);
}

#[test]
fn key_wait_stalls_until_key_held() {
    // LD K into V5; then LD V1,7
    let mut cpu = boot(500, &[0xF50A, 0x6107]);
    for _ in 0..3 {
        cpu.tick().unwrap();
        assert!(cpu.is_awaiting_key());
        assert_eq!(cpu.pc(), 0x202);
        assert_eq!(cpu.reg(5), 0);
    }
    // The lowest held key is the one consumed.
    cpu.pressed_keys[0xB] = true;
    cpu.pressed_keys[0x3] = true;
    cpu.tick().unwrap();
    assert!(!cpu.is_awaiting_key());
    assert_eq!(cpu.reg(5), 0x3);
    assert_eq!(cpu.pc(), 0x202);
    // Normal fetch resumes at the following instruction.
    cpu.tick().unwrap();
    assert_eq!(cpu.reg(1), 7);
    assert_eq!(cpu.pc(), 0x204);
}

#[test]
fn key_wait_with_key_already_held_does_not_stall() {
    let mut cpu = boot(500, &[0xF50A]);
    cpu.pressed_keys[0xC] = true;
    cpu.tick().unwrap();
    assert!(!cpu.is_awaiting_key());
    assert_eq!(cpu.reg(5), 0xC);
    assert_eq!(cpu.pc(), 0x202);
}

#[test]
fn timers_keep_running_while_awaiting_key() {
    // LD V0,9; LD DT,V0; wait for a key
    let mut cpu = boot(60, &[0x6009, 0xF015, 0xF20A]);
    for _ in 0..3 {
        cpu.tick().unwrap();
    }
    assert!(cpu.is_awaiting_key());
    let before = cpu.delay_timer();
    cpu.tick().unwrap();
    cpu.tick().unwrap();
    assert!(cpu.is_awaiting_key());
    assert_eq!(cpu.delay_timer(), before - 2);
}

#[test]
fn sixteen_calls_succeed_and_a_seventeenth_overflows() {
    // Seventeen CALL instructions, each targeting the next address.
    let mut words = Vec::new();
    for k in 0..17u16 {
        words.push(0x2000 | (0x202 + 2 * k));
    }
    let mut cpu = boot(500, &words);
    for k in 0..16u16 {
        assert_eq!(cpu.tick(), Ok(()), "call {k} must succeed");
    }
    assert_eq!(cpu.sp(), 16);
    assert_eq!(cpu.tick(), Err(Fault::StackOverflow));
    assert_eq!(cpu.current_fault(), Some(Fault::StackOverflow));
    assert_eq!(cpu.sp(), 16);
    // The faulted machine never executes again.
    let cycle = cpu.cycle;
    assert_eq!(cpu.tick(), Err(Fault::StackOverflow));
    assert_eq!(cpu.cycle, cycle);
}

#[test]
fn sixteen_rets_restore_pc_in_reverse_and_a_seventeenth_underflows() {
    // Sixteen CALLs at 0x200, 0x204, ..., 0x23C, each targeting the next
    // CALL four bytes on; a RET sits between and after them, so each pop
    // lands on a RET.
    let mut words = Vec::new();
    for k in 0..16u16 {
        words.push(0x2000 | (0x204 + 4 * k)); // CALL at 0x200 + 4k
        words.push(0x00EE); // RET at 0x202 + 4k
    }
    words.push(0x00EE); // RET at 0x240, the last call's target
    let mut cpu = boot(500, &words);
    for _ in 0..16 {
        cpu.tick().unwrap();
    }
    assert_eq!(cpu.sp(), 16);
    assert_eq!(cpu.pc(), 0x240);
    // The return addresses come back in exact reverse push order.
    for k in (0..16u16).rev() {
        cpu.tick().unwrap();
        assert_eq!(cpu.pc(), 0x202 + 4 * k);
        assert_eq!(cpu.sp(), k as u8);
    }
    assert_eq!(cpu.tick(), Err(Fault::StackUnderflow));
    assert_eq!(cpu.current_fault(), Some(Fault::StackUnderflow));
}

#[test]
fn illegal_instruction_is_fatal() {
    let mut cpu = boot(500, &[0x8018]);
    assert_eq!(cpu.tick(), Err(Fault::IllegalInstruction));
    assert_eq!(cpu.current_fault(), Some(Fault::IllegalInstruction));
    let cycle = cpu.cycle;
    let pc = cpu.pc();
    assert_eq!(cpu.tick(), Err(Fault::IllegalInstruction));
    assert_eq!(cpu.cycle, cycle);
    assert_eq!(cpu.pc(), pc);
}

#[test]
fn invalid_digit_is_fatal() {
    // LD V0,0x10; LD I, sprite of V0
    let mut cpu = boot(500, &[0x6010, 0xF029]);
    cpu.tick().unwrap();
    assert_eq!(cpu.tick(), Err(Fault::InvalidDigit));
    assert_eq!(cpu.current_fault(), Some(Fault::InvalidDigit));
}

#[test]
fn reset_clears_a_fault() {
    let mut cpu = boot(500, &[0x8018]);
    assert_eq!(cpu.tick(), Err(Fault::IllegalInstruction));
    cpu.reset();
    assert_eq!(cpu.current_fault(), None);
    assert_eq!(cpu.pc(), 0x200);
}

#[test]
fn update_timers_saturates_at_zero() {
    let mut cpu = Cpu::new(500);
    cpu.update_timers();
    assert_eq!(cpu.delay_timer(), 0);
    assert_eq!(cpu.sound_timer(), 0);
}
