use hack::cpu::Cpu;

#[test]
fn test_cpu_new() {
    let cpu = Cpu::new();

    assert_eq!(cpu.get_a(), 0);
    assert_eq!(cpu.get_d(), 0);
    assert_eq!(cpu.get_pc(), 0);
}

#[test]
fn test_cpu_pc() {
    let mut cpu = Cpu::new();
    let value: u16 = 0xFF00;

    cpu.set_pc(value);
    cpu.tick();
    assert_eq!(cpu.get_pc(), value);

    cpu.inc_pc();
    cpu.tick();
    assert_eq!(cpu.get_pc(), value.wrapping_add(1));

    cpu.reset_pc();
    cpu.tick();
    assert_eq!(cpu.get_pc(), 0);
}

#[test]
fn test_cpu_setting() {
    let mut cpu = Cpu::new();
    let new_value: u16 = 0xFFFF;

    cpu.set_a(new_value);
    cpu.set_d(new_value);
    cpu.set_pc(new_value);

    assert_eq!(cpu.get_a(), 0);
    assert_eq!(cpu.get_d(), 0);
    assert_eq!(cpu.get_pc(), 0);

    cpu.tick();

    assert_eq!(cpu.get_a(), new_value);
    assert_eq!(cpu.get_d(), new_value);
    assert_eq!(cpu.get_pc(), new_value);
}

#[test]
fn test_cpu_a_instruction() {
    let mut cpu = Cpu::new();
    let instruction: u16 = 0x7FFF;

    cpu.execute(instruction);
    cpu.tick();
    assert_eq!(cpu.get_a(), instruction);
}

#[test]
fn test_cpu_zero_a() {
    let mut cpu = Cpu::new();
    // a: 0
    // c: 101010
    // d: 010
    let instruction: u16 = 0b1110_1010_1001_0000;

    cpu.set_d(10);
    cpu.tick();
    assert_eq!(cpu.get_d(), 10);
    cpu.execute(instruction);
    cpu.tick();
    assert_eq!(cpu.get_d(), 0);
}

#[test]
fn test_cpu_one() {
    let mut cpu = Cpu::new();
    // a: 0
    // c: 111111
    // d: 010
    let instruction: u16 = 0b1110_1111_1101_0000;

    cpu.set_d(10);
    cpu.tick();
    assert_eq!(cpu.get_d(), 10);
    cpu.execute(instruction);
    cpu.tick();
    assert_eq!(cpu.get_d(), 1);
}

#[test]
fn test_cpu_neg_one() {
    let mut cpu = Cpu::new();
    // a: 0
    // c: 111010
    // d: 010
    let instruction: u16 = 0b1110_1110_1001_0000;

    cpu.set_d(10);
    cpu.tick();
    assert_eq!(cpu.get_d(), 10);
    cpu.execute(instruction);
    cpu.tick();
    assert_eq!(cpu.get_d(), (!0x0001u16).wrapping_add(1));
}

#[test]
fn test_cpu_out_d() {
    let mut cpu = Cpu::new();
    // a: 0
    // c: 001100
    // d: 010
    let instruction: u16 = 0b1110_0011_0001_0000;

    cpu.set_a(10);
    cpu.set_d(15);
    cpu.tick();
    assert_eq!(cpu.get_a(), 10);
    assert_eq!(cpu.get_d(), 15);
    cpu.execute(instruction);
    cpu.tick();
    assert_eq!(cpu.get_d(), 15);
}

#[test]
fn test_cpu_out_a() {
    let mut cpu = Cpu::new();
    // a: 0
    // c: 110000
    // d: 010
    let instruction: u16 = 0b1110_1100_0001_0000;

    cpu.set_a(10);
    cpu.set_d(15);
    cpu.tick();
    assert_eq!(cpu.get_a(), 10);
    assert_eq!(cpu.get_d(), 15);
    cpu.execute(instruction);
    cpu.tick();
    assert_eq!(cpu.get_d(), 10);
}

#[test]
fn test_cpu_jump_a_instruction() {
    let mut cpu = Cpu::new();
    let instruction: u16 = 0x0001;

    assert_eq!(cpu.get_pc(), 0);
    cpu.execute(instruction);
    cpu.tick();
    assert_eq!(cpu.get_pc(), 1);
}

#[test]
fn test_cpu_jump_c_instruction_null() {
    let mut cpu = Cpu::new();
    let instruction: u16 = 0b1111_0000_0000_0000;
    let memory_loc: u16 = 0x2FFF;

    cpu.execute(memory_loc);
    cpu.tick();
    assert_eq!(cpu.get_a(), memory_loc);

    assert_eq!(cpu.get_pc(), 1);
    cpu.execute(instruction);
    cpu.tick();
    assert_eq!(cpu.get_pc(), 2);
}

#[test]
fn test_cpu_jump_c_instruction_jgt() {
    let mut cpu = Cpu::new();
    // a: 0
    // c: 111111
    // d: 010
    // j: 001
    let instruction: u16 = 0b111_0_111111_010_001;
    let memory_loc: u16 = 0x7FFF;

    assert_eq!(cpu.get_pc(), 0);
    cpu.execute(memory_loc);
    cpu.tick();
    assert_eq!(cpu.get_a(), memory_loc);
    assert_eq!(cpu.get_pc(), 1);

    cpu.execute(instruction);
    cpu.tick();
    assert_eq!(cpu.get_d(), 1);
    assert_eq!(cpu.get_pc(), memory_loc);
}

#[test]
fn test_cpu_jump_c_instruction_jeq() {
    let mut cpu = Cpu::new();
    // a: 0
    // c: 101010 (zero)
    // d: 010
    // j: 010
    let instruction: u16 = 0b111_0_101010_010_010;
    let memory_loc: u16 = 0x7FFF;

    assert_eq!(cpu.get_pc(), 0);
    cpu.execute(memory_loc);
    cpu.tick();
    assert_eq!(cpu.get_a(), memory_loc);
    assert_eq!(cpu.get_pc(), 1);

    cpu.execute(instruction);
    cpu.tick();
    assert_eq!(cpu.get_d(), 0);
    assert_eq!(cpu.get_pc(), memory_loc);
}

#[test]
fn test_cpu_jump_c_instruction_jge() {
    let mut cpu = Cpu::new();
    // c: 101010 (0)
    // d: 010
    // j: 011
    let instruction: u16 = 0b111_0_101010_010_011;
    let memory_loc: u16 = 0x7FFF;

    assert_eq!(cpu.get_pc(), 0);
    cpu.execute(memory_loc);
    cpu.tick();
    assert_eq!(cpu.get_a(), memory_loc);
    assert_eq!(cpu.get_pc(), 1);

    cpu.execute(instruction);
    cpu.tick();
    assert_eq!(cpu.get_d(), 0);
    assert_eq!(cpu.get_pc(), memory_loc);
}

#[test]
fn test_cpu_jump_c_instruction_jlt() {
    let mut cpu = Cpu::new();
    // c: 111010 (-1)
    // d: 010
    // j: 100
    let instruction: u16 = 0b111_0_111010_010_100;
    let memory_loc: u16 = 0x7FFF;

    assert_eq!(cpu.get_pc(), 0);
    cpu.execute(memory_loc);
    cpu.tick();
    assert_eq!(cpu.get_a(), memory_loc);
    assert_eq!(cpu.get_pc(), 1);

    cpu.execute(instruction);
    cpu.tick();
    assert_eq!(cpu.get_d(), 0xFFFF);
    assert_eq!(cpu.get_pc(), memory_loc);
}

#[test]
fn test_cpu_jump_c_instruction_jne() {
    let mut cpu = Cpu::new();
    // c: 111111 (1)
    // d: 010
    // j: 101
    let instruction: u16 = 0b111_0_111111_010_101;
    let memory_loc: u16 = 0x7FFF;

    assert_eq!(cpu.get_pc(), 0);
    cpu.execute(memory_loc);
    cpu.tick();
    assert_eq!(cpu.get_a(), memory_loc);
    assert_eq!(cpu.get_pc(), 1);

    cpu.execute(instruction);
    cpu.tick();
    assert_eq!(cpu.get_d(), 1);
    assert_eq!(cpu.get_pc(), memory_loc);
}

#[test]
fn test_cpu_jump_c_instruction_jle() {
    let mut cpu = Cpu::new();
    // c: 111010 (-1)
    // d: 010
    // j: 110
    let instruction: u16 = 0b111_0_111010_010_110;
    let memory_loc: u16 = 0x7FFF;

    assert_eq!(cpu.get_pc(), 0);
    cpu.execute(memory_loc);
    cpu.tick();
    assert_eq!(cpu.get_a(), memory_loc);
    assert_eq!(cpu.get_pc(), 1);

    cpu.execute(instruction);
    cpu.tick();
    assert_eq!(cpu.get_d(), 0xFFFF);
    assert_eq!(cpu.get_pc(), memory_loc);
}

#[test]
fn test_cpu_jump_c_instruction_jmp() {
    let mut cpu = Cpu::new();
    // c: 101010 (0)
    // d: 010
    // j: 111
    let instruction: u16 = 0b111_0_101010_010_111;
    let memory_loc: u16 = 0x7FFF;

    assert_eq!(cpu.get_pc(), 0);
    cpu.execute(memory_loc);
    cpu.tick();
    assert_eq!(cpu.get_a(), memory_loc);
    assert_eq!(cpu.get_pc(), 1);

    cpu.execute(instruction);
    cpu.tick();
    assert_eq!(cpu.get_d(), 0);
    assert_eq!(cpu.get_pc(), memory_loc);
}

#[test]
fn test_cpu_d_minus_a() {
    let mut cpu = Cpu::new();
    // D=D-A with D=5, A=3: D becomes 2, the counter advances.
    let instruction: u16 = 0b111_0_010011_010_000;

    cpu.set_a(3);
    cpu.set_d(5);
    cpu.tick();
    let pc = cpu.get_pc();
    cpu.execute(instruction);
    assert_eq!(cpu.get_d(), 5);
    cpu.tick();
    assert_eq!(cpu.get_d(), 2);
    assert_eq!(cpu.get_pc(), pc.wrapping_add(1));
}

#[test]
fn test_cpu_amd_simultaneous() {
    let mut cpu = Cpu::new();
    // AMD=D+1 stages A, D and M[old A] all to D + 1.
    let instruction: u16 = 0b111_0_011111_111_000;

    cpu.set_a(100);
    cpu.set_d(7);
    cpu.tick();
    cpu.execute(instruction);

    // Nothing is visible before the commit.
    assert_eq!(cpu.get_a(), 100);
    assert_eq!(cpu.get_d(), 7);
    assert_eq!(cpu.get_data(100), 0);

    cpu.tick();
    assert_eq!(cpu.get_a(), 8);
    assert_eq!(cpu.get_d(), 8);
    assert_eq!(cpu.get_data(100), 8);
}

#[test]
fn test_cpu_load_and_run() {
    let mut cpu = Cpu::new();
    // @21 / D=A, then the halt sentinel.
    cpu.load_from_string("0000000000010101\n1110110000010000\n1111111111111111\n");
    assert_eq!(cpu.get_data(0), 256);
    cpu.run(10);
    assert_eq!(cpu.get_a(), 21);
    assert_eq!(cpu.get_d(), 21);
    assert_eq!(cpu.get_pc(), 2);
}
