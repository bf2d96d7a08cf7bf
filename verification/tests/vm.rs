use hack::cpu::Cpu;
use hack::parser::assembly::Assembler;
use hack::vm::Stack;

/// Assembles the translator's buffer, loads it, and clocks the CPU once per
/// emitted word.
fn assemble_and_run(stack: &Stack) -> Cpu {
    let mut cpu = Cpu::new();
    let mut assembler = Assembler::new();
    assembler.assemble_all(&stack.assembly.join("\n"));
    let no_of_instructions = assembler.binaries.len();

    cpu.load_from_string(&assembler.binaries.join("\n"));
    for _ in 0..no_of_instructions {
        cpu.clock();
    }
    cpu
}

#[test]
fn test_stack_push_value_string() {
    let mut stack = Stack::new();
    stack.push_value(7);
    let expected = vec!["@7", "D=A", "@SP", "A=M", "M=D", "@SP", "M=M+1"]
        .into_iter()
        .map(String::from)
        .collect::<Vec<String>>();

    assert_eq!(expected, stack.assembly);
}

#[test]
fn test_stack_push_value_cpu() {
    let mut cpu = Cpu::new();
    let mut assembler = Assembler::new();
    let mut stack = Stack::new();
    stack.push_value(7);

    assembler.assemble_all(&stack.assembly.join("\n"));
    let no_of_instructions = assembler.binaries.len();

    cpu.load_from_string(&assembler.binaries.join("\n"));

    assert_eq!(256, cpu.get_data(0));
    for _ in 0..no_of_instructions {
        cpu.clock();
    }

    assert_eq!(257, cpu.get_data(0));
    assert_eq!(7, cpu.get_data(256));
}

#[test]
fn test_stack_pop_address() {
    let mut stack = Stack::new();
    let address: usize = 20;

    stack.push_value(7);
    stack.pop_address(address);
    let cpu = assemble_and_run(&stack);

    assert_eq!(256, cpu.get_data(0));
    assert_eq!(7, cpu.get_data(address));
}

#[test]
fn test_stack_add() {
    let mut stack = Stack::new();

    let val1 = 8;
    let val2 = 20;

    stack.push_value(val1);
    stack.push_value(val2);
    stack.add();
    let cpu = assemble_and_run(&stack);

    assert_eq!(257, cpu.get_data(0));
    assert_eq!(val1 + val2, cpu.get_data(256));
}

#[test]
fn test_stack_sub() {
    let mut stack = Stack::new();

    let val1 = 25;
    let val2 = 20;

    stack.push_value(val1);
    stack.push_value(val2);
    stack.sub();
    let cpu = assemble_and_run(&stack);

    assert_eq!(257, cpu.get_data(0));
    assert_eq!(val1 - val2, cpu.get_data(256));
}

#[test]
fn test_stack_and() {
    let mut stack = Stack::new();

    let val1 = 0b1010;
    let val2 = 0b1100;

    stack.push_value(val1);
    stack.push_value(val2);
    stack.and();
    let cpu = assemble_and_run(&stack);

    assert_eq!(257, cpu.get_data(0));
    assert_eq!(0b1000, cpu.get_data(256));
}

#[test]
fn test_stack_or() {
    let mut stack = Stack::new();

    let val1 = 0b1010;
    let val2 = 0b1100;

    stack.push_value(val1);
    stack.push_value(val2);
    stack.or();
    let cpu = assemble_and_run(&stack);

    assert_eq!(257, cpu.get_data(0));
    assert_eq!(0b1110, cpu.get_data(256));
}

#[test]
fn test_stack_not() {
    let mut stack = Stack::new();

    let val = 0x0000;

    stack.push_value(val);
    stack.not();
    let cpu = assemble_and_run(&stack);

    assert_eq!(257, cpu.get_data(0));
    assert_eq!(0xFFFF, cpu.get_data(256));
}

#[test]
fn test_stack_neg() {
    let mut stack = Stack::new();

    let val = 0b1;

    stack.push_value(val);
    stack.neg();
    let cpu = assemble_and_run(&stack);

    assert_eq!(257, cpu.get_data(0));
    assert_eq!(0xFFFF, cpu.get_data(256));
}

#[test]
fn test_stack_eq_true() {
    let mut stack = Stack::new();

    let val1 = 10;

    stack.push_value(val1);
    stack.push_value(val1);
    stack.eq();
    let cpu = assemble_and_run(&stack);

    assert_eq!(257, cpu.get_data(0));
    assert_eq!(0xFFFF, cpu.get_data(256));
}

#[test]
fn test_stack_eq_false() {
    let mut stack = Stack::new();

    let val1 = 10;
    let val2 = 11;

    stack.push_value(val1);
    stack.push_value(val2);
    stack.eq();
    let cpu = assemble_and_run(&stack);

    assert_eq!(257, cpu.get_data(0));
    assert_eq!(0x0, cpu.get_data(256));
}

#[test]
fn test_stack_eq_twice() {
    let mut stack = Stack::new();

    let val = 10;

    stack.push_value(val);
    stack.push_value(val);
    stack.eq();
    stack.push_value(val);
    stack.push_value(val);
    stack.eq();
    let cpu = assemble_and_run(&stack);

    assert_eq!(258, cpu.get_data(0));
    assert_eq!(0xFFFF, cpu.get_data(256));
    assert_eq!(0xFFFF, cpu.get_data(257));
}

#[test]
fn test_stack_gt_true() {
    let mut stack = Stack::new();

    let val1 = 10;

    stack.push_value(val1 + 1);
    stack.push_value(val1);
    stack.gt();
    let cpu = assemble_and_run(&stack);

    assert_eq!(257, cpu.get_data(0));
    assert_eq!(0xFFFF, cpu.get_data(256));
}

#[test]
fn test_stack_gt_false() {
    let mut stack = Stack::new();

    let val1 = 10;
    let val2 = 11;

    stack.push_value(val1);
    stack.push_value(val2);
    stack.gt();
    let cpu = assemble_and_run(&stack);

    assert_eq!(257, cpu.get_data(0));
    assert_eq!(0x0, cpu.get_data(256));
}

#[test]
fn test_stack_gt_twice() {
    let mut stack = Stack::new();

    let val = 10;

    stack.push_value(val + 1);
    stack.push_value(val);
    stack.gt();
    stack.push_value(val);
    stack.push_value(val);
    stack.gt();
    let cpu = assemble_and_run(&stack);

    assert_eq!(258, cpu.get_data(0));
    assert_eq!(0xFFFF, cpu.get_data(256));
    assert_eq!(0x0000, cpu.get_data(257));
}

#[test]
fn test_stack_lt_true() {
    let mut stack = Stack::new();

    let val1 = 10;

    stack.push_value(val1 - 1);
    stack.push_value(val1);
    stack.lt();
    let cpu = assemble_and_run(&stack);

    assert_eq!(257, cpu.get_data(0));
    assert_eq!(0xFFFF, cpu.get_data(256));
}

#[test]
fn test_stack_lt_false() {
    let mut stack = Stack::new();

    let val1 = 10;

    stack.push_value(val1 + 1);
    stack.push_value(val1);
    stack.lt();
    let cpu = assemble_and_run(&stack);

    assert_eq!(257, cpu.get_data(0));
    assert_eq!(0x0, cpu.get_data(256));
}

#[test]
fn test_stack_lt_twice() {
    let mut stack = Stack::new();

    let val = 10;

    stack.push_value(val - 1);
    stack.push_value(val);
    stack.lt();
    stack.push_value(val);
    stack.push_value(val);
    stack.lt();
    let cpu = assemble_and_run(&stack);

    assert_eq!(258, cpu.get_data(0));
    assert_eq!(0xFFFF, cpu.get_data(256));
    assert_eq!(0x0000, cpu.get_data(257));
}

#[test]
fn test_push_constant_assembly() {
    let mut stack = Stack::new();
    stack.push_command("constant", "7");

    let expected = ["@7", "D=A", "@SP", "A=M", "M=D", "@SP", "M=M+1"];

    assert_eq!(stack.assembly, expected.iter().map(|s| s.to_string()).collect::<Vec<_>>());
}

#[test]
fn test_push_constant_once() {
    let mut stack = Stack::new();

    stack.push_command("constant", "7");
    let cpu = assemble_and_run(&stack);

    assert_eq!(257, cpu.get_data(0));
    assert_eq!(7, cpu.get_data(256));
}

#[test]
fn test_push_constant_twice() {
    let mut stack = Stack::new();

    stack.push_command("constant", "7");
    stack.push_command("constant", "15");
    let cpu = assemble_and_run(&stack);

    assert_eq!(258, cpu.get_data(0));
    assert_eq!(7, cpu.get_data(256));
    assert_eq!(15, cpu.get_data(257));
}

#[test]
fn test_pop_local() {
    let mut stack = Stack::new();

    stack.push_command("constant", "25");
    stack.pop_command("local", "0");
    let cpu = assemble_and_run(&stack);

    assert_eq!(256, cpu.get_data(0));
    assert_eq!(25, cpu.get_data(300));
}

#[test]
fn test_pop_local_index() {
    let mut stack = Stack::new();

    stack.push_command("constant", "25");
    stack.push_command("constant", "18");
    stack.pop_command("local", "1");
    stack.pop_command("local", "10");
    let cpu = assemble_and_run(&stack);

    assert_eq!(256, cpu.get_data(0));
    assert_eq!(18, cpu.get_data(300 + 1));
    assert_eq!(25, cpu.get_data(300 + 10));
}

#[test]
fn test_pop_argument() {
    let mut stack = Stack::new();

    stack.push_command("constant", "25");
    stack.pop_command("argument", "0");
    let cpu = assemble_and_run(&stack);

    assert_eq!(256, cpu.get_data(0));
    assert_eq!(25, cpu.get_data(400));
}

#[test]
fn test_pop_argument_index() {
    let mut stack = Stack::new();

    stack.push_command("constant", "25");
    stack.push_command("constant", "18");
    stack.pop_command("argument", "1");
    stack.pop_command("argument", "10");
    let cpu = assemble_and_run(&stack);

    assert_eq!(256, cpu.get_data(0));
    assert_eq!(18, cpu.get_data(400 + 1));
    assert_eq!(25, cpu.get_data(400 + 10));
}

#[test]
fn test_pop_this() {
    let mut stack = Stack::new();

    stack.push_command("constant", "25");
    stack.pop_command("this", "0");
    let cpu = assemble_and_run(&stack);

    assert_eq!(256, cpu.get_data(0));
    assert_eq!(25, cpu.get_data(3000));
}

#[test]
fn test_pop_this_index() {
    let mut stack = Stack::new();

    stack.push_command("constant", "25");
    stack.push_command("constant", "18");
    stack.pop_command("this", "1");
    stack.pop_command("this", "10");
    let cpu = assemble_and_run(&stack);

    assert_eq!(256, cpu.get_data(0));
    assert_eq!(18, cpu.get_data(3000 + 1));
    assert_eq!(25, cpu.get_data(3000 + 10));
}

#[test]
fn test_pop_that() {
    let mut stack = Stack::new();

    stack.push_command("constant", "25");
    stack.pop_command("that", "0");
    let cpu = assemble_and_run(&stack);

    assert_eq!(256, cpu.get_data(0));
    assert_eq!(25, cpu.get_data(3010));
}

#[test]
fn test_pop_that_index() {
    let mut stack = Stack::new();

    stack.push_command("constant", "25");
    stack.push_command("constant", "18");
    stack.pop_command("that", "1");
    stack.pop_command("that", "10");
    let cpu = assemble_and_run(&stack);

    assert_eq!(256, cpu.get_data(0));
    assert_eq!(18, cpu.get_data(3010 + 1));
    assert_eq!(25, cpu.get_data(3010 + 10));
}

#[test]
fn test_pop_temp() {
    let mut stack = Stack::new();

    stack.push_command("constant", "25");
    stack.pop_command("temp", "0");
    let cpu = assemble_and_run(&stack);

    assert_eq!(256, cpu.get_data(0));
    assert_eq!(25, cpu.get_data(5));
}

#[test]
fn test_pop_temp_index() {
    let mut stack = Stack::new();

    stack.push_command("constant", "25");
    stack.push_command("constant", "18");
    stack.pop_command("temp", "1");
    stack.pop_command("temp", "3");
    let cpu = assemble_and_run(&stack);

    assert_eq!(256, cpu.get_data(0));
    assert_eq!(18, cpu.get_data(5 + 1));
    assert_eq!(25, cpu.get_data(5 + 3));
}

#[test]
fn test_pop_pointer() {
    let mut stack = Stack::new();

    stack.push_command("constant", "25");
    stack.push_command("constant", "15");
    stack.pop_command("pointer", "0");
    stack.pop_command("pointer", "1");
    let cpu = assemble_and_run(&stack);

    assert_eq!(256, cpu.get_data(0));
    assert_eq!(15, cpu.get_data(3));
    assert_eq!(25, cpu.get_data(4));
}

#[test]
fn test_pop_static_segment() {
    let mut assembler = Assembler::new();
    let mut cpu = Cpu::new();
    let mut stack = Stack::new();

    // Push 42 and 99 onto the stack, then pop into Static.0 and Static.2
    stack.push_command("constant", "42");
    stack.push_command("constant", "99");
    stack.pop_command("static", "0"); // Static.0 = 99
    stack.pop_command("static", "2"); // Static.2 = 42

    assembler.assemble_all(&stack.assembly.join("\n"));
    let no_of_instructions = assembler.binaries.len();
    cpu.load_from_string(&assembler.binaries.join("\n"));
    for _ in 0..no_of_instructions {
        cpu.clock();
    }

    let addr1 = assembler.symbol_table.get_address("Static.0").unwrap() as usize;
    let addr2 = assembler.symbol_table.get_address("Static.2").unwrap() as usize;
    assert_eq!(256, cpu.get_data(0)); // SP back to base
    assert_eq!(99, cpu.get_data(addr1));
    assert_eq!(42, cpu.get_data(addr2));
}

#[test]
fn test_push_segement_all() {
    let mut stack = Stack::new();

    stack.push_command("constant", "1");
    stack.pop_command("local", "0");
    stack.push_command("local", "0");

    stack.push_command("constant", "2");
    stack.pop_command("argument", "0");
    stack.push_command("argument", "0");

    stack.push_command("constant", "3");
    stack.pop_command("this", "0");
    stack.push_command("this", "0");

    stack.push_command("constant", "4");
    stack.pop_command("that", "0");
    stack.push_command("that", "0");

    stack.push_command("constant", "5");
    stack.pop_command("temp", "0");
    stack.push_command("temp", "0");

    stack.push_command("constant", "6");
    stack.pop_command("pointer", "0");
    stack.push_command("pointer", "0");

    stack.push_command("constant", "7");
    stack.pop_command("static", "7");
    stack.push_command("static", "7");

    let cpu = assemble_and_run(&stack);

    assert_eq!(256 + 7, cpu.get_data(0));
    assert_eq!(1, cpu.get_data(256));
    assert_eq!(2, cpu.get_data(257));
    assert_eq!(3, cpu.get_data(258));
    assert_eq!(4, cpu.get_data(259));
    assert_eq!(5, cpu.get_data(260));
    assert_eq!(6, cpu.get_data(261));
    assert_eq!(7, cpu.get_data(262));
    assert_eq!(0, cpu.get_data(263));
}
