use gioco_ragazzo::cpu::Cpu;
use gioco_ragazzo::mmu::{Cartridge, Mmu};

/// A CPU at power-on with `code` in ROM at 0x0100.
fn cpu_with(code: &[u8]) -> Cpu {
    let mut rom = vec![0u8; 0x8000];
    rom[0x0100..0x0100 + code.len()].copy_from_slice(code);
    Cpu::new(Mmu::new(Cartridge::load(rom).unwrap()))
}

fn run(cpu: &mut Cpu, steps: usize) -> Vec<u8> {
    let mut cycles = Vec::new();
    for _ in 0..steps {
        assert!(cpu.can_step());
        cycles.push(cpu.step());
    }
    cycles
}

#[test]
fn power_on_state() {
    let cpu = cpu_with(&[]);
    assert_eq!(cpu.pc, 0x0100);
    assert_eq!(cpu.sp, 0xFFFE);
    assert!(!cpu.halted);
    assert!(!cpu.ime);
    assert_eq!(cpu.registers.get_af(), 0x01B0);
}

#[test]
fn nop_takes_four_cycles() {
    let mut cpu = cpu_with(&[0x00]);
    assert_eq!(run(&mut cpu, 1), vec![4]);
    assert_eq!(cpu.pc, 0x0101);
}

#[test]
fn add_immediate_sets_flags() {
    // LD A,0x05; ADD A,0x03; LD A,0xFF; ADD A,0x01
    let mut cpu = cpu_with(&[0x3E, 0x05, 0xC6, 0x03, 0x3E, 0xFF, 0xC6, 0x01]);
    assert_eq!(run(&mut cpu, 2), vec![8, 8]);
    assert_eq!(cpu.registers.a, 0x08);
    assert_eq!(cpu.registers.f, 0x00);
    run(&mut cpu, 2);
    assert_eq!(cpu.registers.a, 0x00);
    // Z, H and C set.
    assert_eq!(cpu.registers.f, 0xB0);
}

#[test]
fn adc_and_sbc_use_the_carry() {
    // SCF; LD A,0x0E; ADC A,0x01 -> 0x10 (H); SCF; SBC A,0x0F -> 0x00
    let mut cpu = cpu_with(&[0x37, 0x3E, 0x0E, 0xCE, 0x01, 0x37, 0xDE, 0x0F]);
    run(&mut cpu, 3);
    assert_eq!(cpu.registers.a, 0x10);
    assert_eq!(cpu.registers.f, 0x20);
    run(&mut cpu, 2);
    assert_eq!(cpu.registers.a, 0x00);
    // Z, N and H (borrow from bit 4) set, no carry.
    assert_eq!(cpu.registers.f, 0xE0);
}

#[test]
fn sub_and_compare() {
    // LD A,0x10; SUB 0x01; LD A,0x42; CP 0x42; CP 0x43
    let mut cpu = cpu_with(&[0x3E, 0x10, 0xD6, 0x01, 0x3E, 0x42, 0xFE, 0x42, 0xFE, 0x43]);
    run(&mut cpu, 2);
    assert_eq!(cpu.registers.a, 0x0F);
    assert_eq!(cpu.registers.f, 0x60);
    run(&mut cpu, 2);
    assert_eq!(cpu.registers.a, 0x42);
    assert_eq!(cpu.registers.f, 0xC0);
    run(&mut cpu, 1);
    assert_eq!(cpu.registers.a, 0x42);
    assert_eq!(cpu.registers.f, 0x70);
}

#[test]
fn logic_operations() {
    // LD A,0xF0; AND 0x3C; OR 0x01; XOR A
    let mut cpu = cpu_with(&[0x3E, 0xF0, 0xE6, 0x3C, 0xF6, 0x01, 0xAF]);
    run(&mut cpu, 2);
    assert_eq!(cpu.registers.a, 0x30);
    assert_eq!(cpu.registers.f, 0x20);
    run(&mut cpu, 1);
    assert_eq!(cpu.registers.a, 0x31);
    assert_eq!(cpu.registers.f, 0x00);
    assert_eq!(run(&mut cpu, 1), vec![4]);
    assert_eq!(cpu.registers.a, 0x00);
    assert_eq!(cpu.registers.f, 0x80);
}

#[test]
fn alu_with_memory_operand() {
    // LD HL,0xC000; LD (HL),0x07; LD A,0x01; ADD A,(HL)
    let mut cpu = cpu_with(&[0x21, 0x00, 0xC0, 0x36, 0x07, 0x3E, 0x01, 0x86]);
    assert_eq!(run(&mut cpu, 4), vec![12, 12, 8, 8]);
    assert_eq!(cpu.registers.a, 0x08);
}

#[test]
fn daa_gives_decimal_sums() {
    // LD A,0x19; ADD A,0x28; DAA
    let mut cpu = cpu_with(&[0x3E, 0x19, 0xC6, 0x28, 0x27]);
    run(&mut cpu, 3);
    assert_eq!(cpu.registers.a, 0x47);
    assert_eq!(cpu.registers.f, 0x00);
    // LD A,0x99; ADD A,0x01; DAA: 99 + 1 = 100
    let mut cpu = cpu_with(&[0x3E, 0x99, 0xC6, 0x01, 0x27]);
    run(&mut cpu, 3);
    assert_eq!(cpu.registers.a, 0x00);
    assert_eq!(cpu.registers.f, 0x90);
    // LD A,0x45; ADD A,0x55; DAA: 45 + 55 = 100
    let mut cpu = cpu_with(&[0x3E, 0x45, 0xC6, 0x55, 0x27]);
    run(&mut cpu, 3);
    assert_eq!(cpu.registers.a, 0x00);
    assert!(cpu.registers.get_carry_flag());
    // LD A,0x42; SUB 0x05; DAA: 42 - 5 = 37
    let mut cpu = cpu_with(&[0x3E, 0x42, 0xD6, 0x05, 0x27]);
    run(&mut cpu, 3);
    assert_eq!(cpu.registers.a, 0x37);
    assert!(!cpu.registers.get_carry_flag());
}

#[test]
fn daa_gives_decimal_differences() {
    // LD A,0x10; SUB 0x01; DAA: 10 - 1 = 9
    let mut cpu = cpu_with(&[0x3E, 0x10, 0xD6, 0x01, 0x27]);
    run(&mut cpu, 3);
    assert_eq!(cpu.registers.a, 0x09);
    assert_eq!(cpu.registers.f, 0x40);
    // LD A,0x00; SUB 0x01; DAA: 0 - 1 = 99 with a borrow
    let mut cpu = cpu_with(&[0x3E, 0x00, 0xD6, 0x01, 0x27]);
    run(&mut cpu, 3);
    assert_eq!(cpu.registers.a, 0x99);
    assert_eq!(cpu.registers.f, 0x50);
    // LD A,0x25; SUB 0x25; DAA: zero
    let mut cpu = cpu_with(&[0x3E, 0x25, 0xD6, 0x25, 0x27]);
    run(&mut cpu, 3);
    assert_eq!(cpu.registers.a, 0x00);
    assert_eq!(cpu.registers.f, 0xC0);
}

#[test]
fn rotates_of_a_undo_each_other() {
    // LD A,0x85; RLCA; RRCA
    let mut cpu = cpu_with(&[0x3E, 0x85, 0x07, 0x0F]);
    run(&mut cpu, 2);
    assert_eq!(cpu.registers.a, 0x0B);
    assert_eq!(cpu.registers.f, 0x10);
    run(&mut cpu, 1);
    assert_eq!(cpu.registers.a, 0x85);
    assert_eq!(cpu.registers.f, 0x10);
    // LD A,0x80; AND A (clears C); RLA; RRA
    let mut cpu = cpu_with(&[0x3E, 0x80, 0xA7, 0x17, 0x1F]);
    run(&mut cpu, 3);
    assert_eq!(cpu.registers.a, 0x00);
    // RLA clears Z even on a zero result.
    assert_eq!(cpu.registers.f, 0x10);
    run(&mut cpu, 1);
    assert_eq!(cpu.registers.a, 0x80);
    assert_eq!(cpu.registers.f, 0x00);
}

#[test]
fn complement_and_carry_flag_operations() {
    // LD A,0x35; CPL; CPL; SCF; CCF; CCF
    let mut cpu = cpu_with(&[0x3E, 0x35, 0x2F, 0x2F, 0x37, 0x3F, 0x3F]);
    run(&mut cpu, 2);
    assert_eq!(cpu.registers.a, 0xCA);
    assert!(cpu.registers.get_sub_flag() && cpu.registers.get_half_carry_flag());
    run(&mut cpu, 1);
    assert_eq!(cpu.registers.a, 0x35);
    run(&mut cpu, 1);
    assert!(cpu.registers.get_carry_flag());
    run(&mut cpu, 1);
    assert!(!cpu.registers.get_carry_flag());
    run(&mut cpu, 1);
    assert!(cpu.registers.get_carry_flag());
}

#[test]
fn inc_and_dec() {
    // INC B; DEC B; DEC B; INC BC; DEC DE
    let mut cpu = cpu_with(&[0x04, 0x05, 0x05, 0x03, 0x1B]);
    assert_eq!(run(&mut cpu, 1), vec![4]);
    assert_eq!(cpu.registers.b, 0x01);
    // Z, N, H cleared; C kept.
    assert_eq!(cpu.registers.f, 0x10);
    run(&mut cpu, 1);
    assert_eq!(cpu.registers.b, 0x00);
    assert_eq!(cpu.registers.f, 0xD0);
    run(&mut cpu, 1);
    assert_eq!(cpu.registers.b, 0xFF);
    // Borrow from bit 4.
    assert_eq!(cpu.registers.f, 0x70);
    let f = cpu.registers.f;
    assert_eq!(run(&mut cpu, 2), vec![8, 8]);
    assert_eq!(cpu.registers.get_bc(), 0xFF14);
    assert_eq!(cpu.registers.get_de(), 0x00D7);
    // 16-bit INC/DEC change no flag.
    assert_eq!(cpu.registers.f, f);
}

#[test]
fn inc_memory_operand() {
    // LD HL,0xC000; INC (HL); DEC (HL); DEC (HL)
    let mut cpu = cpu_with(&[0x21, 0x00, 0xC0, 0x34, 0x35, 0x35]);
    assert_eq!(run(&mut cpu, 2), vec![12, 12]);
    assert_eq!(cpu.mmu.read_byte(0xC000), 0x01);
    run(&mut cpu, 2);
    assert_eq!(cpu.mmu.read_byte(0xC000), 0xFF);
}

#[test]
fn add_hl_carries_from_bit_11_and_15() {
    // LD HL,0x0FFF; LD BC,0x0001; ADD HL,BC; LD HL,0xFFFF; ADD HL,BC
    let mut cpu = cpu_with(&[0x21, 0xFF, 0x0F, 0x01, 0x01, 0x00, 0x09, 0x21, 0xFF, 0xFF, 0x09]);
    run(&mut cpu, 2);
    assert_eq!(run(&mut cpu, 1), vec![8]);
    assert_eq!(cpu.registers.get_hl(), 0x1000);
    // Z kept, N cleared, H set, C cleared.
    assert_eq!(cpu.registers.f, 0xA0);
    run(&mut cpu, 2);
    assert_eq!(cpu.registers.get_hl(), 0x0000);
    assert_eq!(cpu.registers.f, 0xB0);
}

#[test]
fn loads_through_register_pairs() {
    // LD HL,0xC000; LD A,0x77; LD (HL+),A; LD (HL-),A; LD A,(HL-); LD BC,0xC001; LD A,(BC)
    let mut cpu = cpu_with(&[0x21, 0x00, 0xC0, 0x3E, 0x77, 0x22, 0x32, 0x3A, 0x01, 0x01, 0xC0, 0x0A]);
    run(&mut cpu, 3);
    assert_eq!(cpu.mmu.read_byte(0xC000), 0x77);
    assert_eq!(cpu.registers.get_hl(), 0xC001);
    run(&mut cpu, 1);
    assert_eq!(cpu.mmu.read_byte(0xC001), 0x77);
    assert_eq!(cpu.registers.get_hl(), 0xC000);
    run(&mut cpu, 1);
    assert_eq!(cpu.registers.get_hl(), 0xBFFF);
    cpu.registers.a = 0;
    run(&mut cpu, 2);
    assert_eq!(cpu.registers.a, 0x77);
}

#[test]
fn register_to_register_loads() {
    // LD B,0x12; LD C,B; LD HL,0xC000; LD (HL),C; LD A,(HL)
    let mut cpu = cpu_with(&[0x06, 0x12, 0x48, 0x21, 0x00, 0xC0, 0x71, 0x7E]);
    assert_eq!(run(&mut cpu, 5), vec![8, 4, 12, 8, 8]);
    assert_eq!(cpu.registers.c, 0x12);
    assert_eq!(cpu.registers.a, 0x12);
}

#[test]
fn store_stack_pointer() {
    // LD (0xC000),SP
    let mut cpu = cpu_with(&[0x08, 0x00, 0xC0]);
    assert_eq!(run(&mut cpu, 1), vec![20]);
    assert_eq!(cpu.mmu.read_word(0xC000), 0xFFFE);
    assert_eq!(cpu.pc, 0x0103);
}

#[test]
fn push_then_pop() {
    // LD BC,0x1234; PUSH BC; POP DE
    let mut cpu = cpu_with(&[0x01, 0x34, 0x12, 0xC5, 0xD1]);
    assert_eq!(run(&mut cpu, 3), vec![12, 16, 12]);
    assert_eq!(cpu.registers.get_de(), 0x1234);
    assert_eq!(cpu.sp, 0xFFFE);
    // High byte first, at SP - 1.
    assert_eq!(cpu.mmu.read_byte(0xFFFD), 0x12);
    assert_eq!(cpu.mmu.read_byte(0xFFFC), 0x34);
}

#[test]
fn push_then_pop_each_pair() {
    // LD BC,0x1234; LD DE,0x5678; LD HL,0x9ABC; then PUSH rr; POP rr for
    // BC, DE, HL and AF in turn.
    let mut cpu = cpu_with(&[
        0x01, 0x34, 0x12, 0x11, 0x78, 0x56, 0x21, 0xBC, 0x9A, 0xC5, 0xC1, 0xD5, 0xD1, 0xE5, 0xE1,
        0xF5, 0xF1,
    ]);
    run(&mut cpu, 3);
    let af = cpu.registers.get_af();
    assert_eq!(run(&mut cpu, 8), vec![16, 12, 16, 12, 16, 12, 16, 12]);
    assert_eq!(cpu.registers.get_bc(), 0x1234);
    assert_eq!(cpu.registers.get_de(), 0x5678);
    assert_eq!(cpu.registers.get_hl(), 0x9ABC);
    assert_eq!(cpu.registers.get_af(), af & 0xFFF0);
    assert_eq!(cpu.sp, 0xFFFE);
}

#[test]
fn cp_sets_the_flags_of_sub() {
    for &(a, b) in &[(0x42u8, 0x42u8), (0x10, 0x01), (0x01, 0x10), (0x00, 0xFF)] {
        // LD A,a; LD B,b; CP B  and  LD A,a; LD B,b; SUB B
        let mut cp = cpu_with(&[0x3E, a, 0x06, b, 0xB8, 0xFE, b]);
        let mut sub = cpu_with(&[0x3E, a, 0x06, b, 0x90]);
        assert_eq!(run(&mut cp, 3)[2], run(&mut sub, 3)[2]);
        assert_eq!(cp.registers.f, sub.registers.f);
        assert_eq!(cp.registers.a, a);
        // CP d8 as well.
        run(&mut cp, 1);
        assert_eq!(cp.registers.f, sub.registers.f);
        assert_eq!(cp.registers.a, a);
    }
}

#[test]
fn pop_af_clears_low_flag_bits() {
    // LD BC,0x12FF; PUSH BC; POP AF; PUSH AF; POP HL
    let mut cpu = cpu_with(&[0x01, 0xFF, 0x12, 0xC5, 0xF1, 0xF5, 0xE1]);
    run(&mut cpu, 3);
    assert_eq!(cpu.registers.a, 0x12);
    assert_eq!(cpu.registers.f, 0xF0);
    run(&mut cpu, 2);
    assert_eq!(cpu.registers.get_hl(), 0x12F0);
}

#[test]
fn call_then_ret_comes_back() {
    let mut code = vec![0u8; 0x20];
    code[0x00..0x03].copy_from_slice(&[0xCD, 0x10, 0x01]); // CALL 0x0110
    code[0x10] = 0xC9; // RET
    let mut cpu = cpu_with(&code);
    assert_eq!(run(&mut cpu, 1), vec![24]);
    assert_eq!(cpu.pc, 0x0110);
    assert_eq!(cpu.sp, 0xFFFC);
    assert_eq!(cpu.mmu.read_word(0xFFFC), 0x0103);
    assert_eq!(run(&mut cpu, 1), vec![16]);
    assert_eq!(cpu.pc, 0x0103);
    assert_eq!(cpu.sp, 0xFFFE);
}

#[test]
fn conditional_calls_returns_and_jumps() {
    let mut code = vec![0u8; 0x20];
    // Z is set at power-on.
    code[0x00..0x03].copy_from_slice(&[0xC4, 0x10, 0x01]); // CALL NZ (not taken)
    code[0x03..0x06].copy_from_slice(&[0xCC, 0x10, 0x01]); // CALL Z (taken)
    code[0x10] = 0xC0; // RET NZ (not taken)
    code[0x11] = 0xC8; // RET Z (taken)
    code[0x06..0x09].copy_from_slice(&[0xD2, 0x00, 0x02]); // JP NC (not taken: C set)
    code[0x09..0x0C].copy_from_slice(&[0xDA, 0x00, 0x02]); // JP C (taken)
    let mut cpu = cpu_with(&code);
    assert_eq!(run(&mut cpu, 2), vec![12, 24]);
    assert_eq!(cpu.pc, 0x0110);
    assert_eq!(run(&mut cpu, 2), vec![8, 20]);
    assert_eq!(cpu.pc, 0x0106);
    assert_eq!(run(&mut cpu, 2), vec![12, 16]);
    assert_eq!(cpu.pc, 0x0200);
}

#[test]
fn relative_jumps() {
    // JR NZ,+5 (not taken); JR -4
    let mut cpu = cpu_with(&[0x20, 0x05, 0x18, 0xFC]);
    assert_eq!(run(&mut cpu, 1), vec![8]);
    assert_eq!(cpu.pc, 0x0102);
    assert_eq!(run(&mut cpu, 1), vec![12]);
    assert_eq!(cpu.pc, 0x0100);
    // JR Z,+0x10 (taken)
    let mut cpu = cpu_with(&[0x28, 0x10]);
    assert_eq!(run(&mut cpu, 1), vec![12]);
    assert_eq!(cpu.pc, 0x0112);
}

#[test]
fn jumps_through_hl_and_restarts() {
    // LD HL,0x0150; JP HL
    let mut cpu = cpu_with(&[0x21, 0x50, 0x01, 0xE9]);
    assert_eq!(run(&mut cpu, 2), vec![12, 4]);
    assert_eq!(cpu.pc, 0x0150);
    // RST 0x38
    let mut cpu = cpu_with(&[0xFF]);
    assert_eq!(run(&mut cpu, 1), vec![16]);
    assert_eq!(cpu.pc, 0x0038);
    assert_eq!(cpu.mmu.read_word(0xFFFC), 0x0101);
    // JP 0x1234; LD SP,HL
    let mut cpu = cpu_with(&[0xC3, 0x34, 0x12]);
    assert_eq!(run(&mut cpu, 1), vec![16]);
    assert_eq!(cpu.pc, 0x1234);
    let mut cpu = cpu_with(&[0xF9]);
    assert_eq!(run(&mut cpu, 1), vec![8]);
    assert_eq!(cpu.sp, 0x014D);
}

#[test]
fn interrupt_enable_instructions() {
    // EI; DI; EI
    let mut cpu = cpu_with(&[0xFB, 0xF3, 0xFB]);
    run(&mut cpu, 1);
    assert!(cpu.ime);
    run(&mut cpu, 1);
    assert!(!cpu.ime);
    // RETI enables interrupts.
    let mut code = vec![0u8; 0x20];
    code[0x00..0x03].copy_from_slice(&[0xCD, 0x10, 0x01]);
    code[0x10] = 0xD9;
    let mut cpu = cpu_with(&code);
    assert_eq!(run(&mut cpu, 2), vec![24, 16]);
    assert!(cpu.ime);
    assert_eq!(cpu.pc, 0x0103);
}

#[test]
fn halt_and_stop() {
    let mut cpu = cpu_with(&[0x76]);
    assert_eq!(run(&mut cpu, 1), vec![4]);
    assert!(cpu.halted);
    let mut cpu = cpu_with(&[0x10, 0x00, 0x00]);
    assert_eq!(run(&mut cpu, 1), vec![4]);
    assert_eq!(cpu.pc, 0x0102);
}

#[test]
fn cb_bit_set_and_reset() {
    // BIT 7,A (A = 0x01); SET 0,B; RES 0,C; BIT 0,B
    let mut cpu = cpu_with(&[0xCB, 0x7F, 0xCB, 0xC0, 0xCB, 0x81, 0xCB, 0x40]);
    assert_eq!(run(&mut cpu, 1), vec![8]);
    assert_eq!(cpu.registers.f, 0xB0);
    assert_eq!(run(&mut cpu, 2), vec![8, 8]);
    assert_eq!(cpu.registers.b, 0x01);
    assert_eq!(cpu.registers.c, 0x12);
    run(&mut cpu, 1);
    assert!(!cpu.registers.get_zero_flag());
    // LD HL,0xC000; SET 3,(HL); BIT 3,(HL); RES 3,(HL)
    let mut cpu = cpu_with(&[0x21, 0x00, 0xC0, 0xCB, 0xDE, 0xCB, 0x5E, 0xCB, 0x9E]);
    assert_eq!(run(&mut cpu, 3), vec![12, 16, 12]);
    assert!(!cpu.registers.get_zero_flag());
    assert_eq!(run(&mut cpu, 1), vec![16]);
    assert_eq!(cpu.mmu.read_byte(0xC000), 0x00);
}

/// Runs the CB-prefixed `op` on register B holding `b`, with the carry flag
/// `carry`; returns B, F and the cycles of the CB instruction.
fn cb_on_b(op: u8, b: u8, carry: bool) -> (u8, u8, u8) {
    // SCF (then CCF to clear it); LD B,b; CB op
    let code: Vec<u8> = if carry {
        vec![0x37, 0x06, b, 0xCB, op]
    } else {
        vec![0x37, 0x3F, 0x06, b, 0xCB, op]
    };
    let mut cpu = cpu_with(&code);
    let setup = if carry { 2 } else { 3 };
    run(&mut cpu, setup);
    let cycles = run(&mut cpu, 1)[0];
    (cpu.registers.b, cpu.registers.f, cycles)
}

#[test]
fn cb_rotate_left_circular() {
    assert_eq!(cb_on_b(0x00, 0x01, true), (0x02, 0x00, 8));
    assert_eq!(cb_on_b(0x00, 0x80, false), (0x01, 0x10, 8));
    assert_eq!(cb_on_b(0x00, 0x00, true), (0x00, 0x80, 8));
}

#[test]
fn cb_rotate_right_circular() {
    assert_eq!(cb_on_b(0x08, 0x01, false), (0x80, 0x10, 8));
    assert_eq!(cb_on_b(0x08, 0x02, true), (0x01, 0x00, 8));
}

#[test]
fn cb_rotate_through_carry() {
    // RL B
    assert_eq!(cb_on_b(0x10, 0x80, true), (0x01, 0x10, 8));
    assert_eq!(cb_on_b(0x10, 0x80, false), (0x00, 0x90, 8));
    // RR B
    assert_eq!(cb_on_b(0x18, 0x01, true), (0x80, 0x10, 8));
    assert_eq!(cb_on_b(0x18, 0x02, false), (0x01, 0x00, 8));
}

#[test]
fn cb_shifts() {
    // SLA B
    assert_eq!(cb_on_b(0x20, 0xC1, false), (0x82, 0x10, 8));
    // SRA B keeps bit 7
    assert_eq!(cb_on_b(0x28, 0x81, false), (0xC0, 0x10, 8));
    // SRL B
    assert_eq!(cb_on_b(0x38, 0x81, true), (0x40, 0x10, 8));
    assert_eq!(cb_on_b(0x38, 0x01, false), (0x00, 0x90, 8));
}

#[test]
fn cb_swap_clears_carry() {
    assert_eq!(cb_on_b(0x30, 0xF1, true), (0x1F, 0x00, 8));
    assert_eq!(cb_on_b(0x30, 0x00, true), (0x00, 0x80, 8));
}

#[test]
fn cb_rotate_memory_operand() {
    // LD HL,0xC000; LD (HL),0x85; RLC (HL); SWAP A
    let mut cpu = cpu_with(&[0x21, 0x00, 0xC0, 0x36, 0x85, 0xCB, 0x06, 0xCB, 0x37]);
    assert_eq!(run(&mut cpu, 3), vec![12, 12, 16]);
    assert_eq!(cpu.mmu.read_byte(0xC000), 0x0B);
    assert_eq!(cpu.registers.f, 0x10);
    // A = 0x01 at power-on
    assert_eq!(run(&mut cpu, 1), vec![8]);
    assert_eq!(cpu.registers.a, 0x10);
    assert_eq!(cpu.registers.f, 0x00);
}

#[test]
fn flag_low_bits_stay_zero() {
    let code = [0x3E, 0xFF, 0xC6, 0x01, 0x27, 0x2F, 0x37, 0x3F, 0x17, 0xCB, 0x7F, 0xD6, 0x03, 0x05];
    let mut cpu = cpu_with(&code);
    for _ in 0..11 {
        run(&mut cpu, 1);
        assert_eq!(cpu.registers.f & 0x0F, 0);
    }
}

#[test]
fn illegal_opcodes_cannot_step() {
    for &op in &[0xD3u8, 0xDB, 0xDD, 0xE3, 0xE4, 0xEB, 0xEC, 0xED, 0xF4, 0xFC, 0xFD, 0xE0, 0xE2, 0xEA, 0xF0, 0xF2, 0xFA] {
        let cpu = cpu_with(&[op]);
        assert!(!cpu.can_step(), "opcode {:02X}", op);
    }
    for &op in &[0x00u8, 0xC3, 0xCB, 0xC9, 0xFB, 0x76] {
        let cpu = cpu_with(&[op]);
        assert!(cpu.can_step(), "opcode {:02X}", op);
    }
}

#[test]
fn word_operand_at_the_end_of_memory_cannot_step() {
    let mut cpu = cpu_with(&[]);
    // LD BC,d16 at 0xFFFE: its operand would start at 0xFFFF.
    cpu.mmu.write_byte(0xFFFE, 0x01);
    cpu.pc = 0xFFFE;
    assert!(!cpu.can_step());
    // LD B,d8 at 0xFFFE is fine.
    cpu.mmu.write_byte(0xFFFE, 0x06);
    assert!(cpu.can_step());
    // LD (0xFFFF),SP writes a word past the end.
    let mut cpu = cpu_with(&[0x08, 0xFF, 0xFF]);
    assert!(!cpu.can_step());
    cpu.mmu.rom_bank = usize::MAX;
    assert!(!cpu.can_step());
}

#[test]
fn a_huge_rom_bank_stops_only_what_reads_it() {
    // LD HL,0x4000; NOP; LD A,(HL)
    let mut cpu = cpu_with(&[0x21, 0x00, 0x40, 0x00, 0x7E]);
    cpu.mmu.rom_bank = usize::MAX;
    assert_eq!(run(&mut cpu, 2), vec![12, 4]);
    // Reading 0x4000 would overflow the ROM offset.
    assert!(!cpu.can_step());
    // Code outside the switchable bank runs; a jump into it cannot fetch.
    let mut cpu = cpu_with(&[0xC3, 0x00, 0x40]);
    cpu.mmu.rom_bank = usize::MAX;
    assert_eq!(run(&mut cpu, 1), vec![16]);
    assert_eq!(cpu.pc, 0x4000);
    assert!(!cpu.can_step());
    // A DMA from the switchable bank through LD (HL),A cannot run either.
    // LD HL,0xFF46; LD A,0x40; LD (HL),A
    let mut cpu = cpu_with(&[0x21, 0x46, 0xFF, 0x3E, 0x40, 0x77]);
    cpu.mmu.rom_bank = usize::MAX;
    run(&mut cpu, 2);
    assert!(!cpu.can_step());
}

#[test]
fn a_frame_runs_70224_cycles() {
    // JR -2: a 12-cycle loop; 70224 = 5852 * 12.
    let mut cpu = cpu_with(&[0x18, 0xFE]);
    assert_eq!(cpu.run_frame(), Some(70224));
    assert_eq!(cpu.pc, 0x0100);
    // NOPs: 17556 of them.
    let mut cpu = cpu_with(&[]);
    assert_eq!(cpu.run_frame(), Some(70224));
    assert_eq!(cpu.pc, 0x0100 + 17556);
    // It stops before an illegal opcode.
    let mut cpu = cpu_with(&[0x00, 0xD3]);
    assert_eq!(cpu.run_frame(), None);
    assert_eq!(cpu.pc, 0x0101);
}
