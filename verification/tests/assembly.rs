use hack::parser::assembly::{Assembler, AssemblyCommand};
use hack::parser::table::{
    comp_bits, comp_table, decode_instruction, dest_bits, dest_table, jump_bits, jump_table,
    SymbolTable,
};

#[test]
fn test_parse_assembly_valid_input() {
    let mut assembler = Assembler::new();
    let source = "\n            // This is a comment\n            @15\n            D=A\n            @LOOP\n            (LOOP)\n            0;JMP\n\n            // empty line below\n            \n        ";

    assembler.parse_source(source);

    let expected = vec![
        AssemblyCommand::AInstruction("15".to_string()),
        AssemblyCommand::CInstruction("D=A".to_string()),
        AssemblyCommand::AInstruction("LOOP".to_string()),
        AssemblyCommand::Label("LOOP".to_string()),
        AssemblyCommand::CInstruction("0;JMP".to_string()),
    ];

    assert_eq!(assembler.commands, expected);
}

#[test]
fn test_assemble_a_instruction() {
    let assembler = Assembler::new();
    let bin = assembler.assemble_a_instruction("21");

    assert_eq!(bin, format!("{}{}{}{}", "0000", "0000", "0001", "0101"));
}

#[test]
fn test_dest_equals_comp() {
    let assembler = Assembler::new();
    let result = assembler.assemble_c_instruction("D=A");
    assert_eq!(result, "1110110000010000"); // a=0, comp=A, dest=D, jump=null
}

#[test]
fn test_comp_semicolon_jump() {
    let assembler = Assembler::new();
    let result = assembler.assemble_c_instruction("0;JMP");
    assert_eq!(result, "1110101010000111"); // a=0, comp=0, dest=null, jump=JMP
}

#[test]
fn test_dest_equals_comp_jump() {
    let assembler = Assembler::new();
    let result = assembler.assemble_c_instruction("D=A+1;JGE");
    assert_eq!(result, format!("111{}{}{}{}", "0", "110111", "010", "011"));
}

#[test]
fn test_full_m_form() {
    let assembler = Assembler::new();
    let result = assembler.assemble_c_instruction("AD=D+M;JNE");
    assert_eq!(result, format!("111{}{}{}{}", "1", "000010", "110", "101"));
}

#[test]
fn test_comp_with_m() {
    let assembler = Assembler::new();
    let result = assembler.assemble_c_instruction("D=M");
    assert_eq!(result, format!("111{}{}{}{}", "1", "110000", "010", "000"));
}

#[test]
fn test_predefined_symbols() {
    let table = SymbolTable::new();
    assert_eq!(table.get_address("SP"), Some(0));
    assert_eq!(table.get_address("R13"), Some(13));
    assert_eq!(table.get_address("SCREEN"), Some(16384));
    assert!(table.contains("KBD"));
    assert!(!table.contains("UNDECLARED"));
}

#[test]
fn test_add_and_get() {
    let mut table = SymbolTable::new();
    table.add_entry("LOOP", 42);
    assert!(table.contains("LOOP"));
    assert_eq!(table.get_address("LOOP"), Some(42));
}

#[test]
fn test_full_assembly_flow() {
    let source = "\n            @i\n            M=1\n            (LOOP)\n            @i\n            D=M\n            @100\n            D=D-A\n            @END\n            D;JGT\n            @LOOP\n            0;JMP\n            (END)\n            @END\n            0;JMP\n        ";

    let mut assembler = Assembler::new();
    assembler.assemble_all(source);

    assert_eq!(assembler.binaries[0], "0000000000010000"); // @i = 16
    assert_eq!(assembler.binaries[1], "1110111111001000"); // M=1
    assert_eq!(assembler.binaries[2], "0000000000010000"); // @i
    assert_eq!(assembler.binaries[3], "1111110000010000"); // D=M
    assert_eq!(assembler.binaries[4], "0000000001100100"); // @100
    assert_eq!(assembler.binaries[5], format!("111{}{}{}{}", "0", "010011", "010", "000")); // D=D-A
    assert_eq!(assembler.binaries[6], "0000000000001010"); // @END = 10
    assert_eq!(assembler.binaries[7], "1110001100000001"); // D;JGT
    assert_eq!(assembler.binaries[8], "0000000000000010"); // @LOOP = 2
    assert_eq!(assembler.binaries[9], "1110101010000111"); // 0;JMP
    assert_eq!(assembler.binaries[10], "0000000000001010"); // @END = 10
    assert_eq!(assembler.binaries[11], "1110101010000111"); // 0;JMP
}

#[test]
fn test_assembly_sentinel() {
    let mut assembler = Assembler::new();
    assembler.assemble_all("@1");
    assert_eq!(assembler.binaries.len(), 2);
    assert_eq!(assembler.binaries[0], "0000000000000001");
    assert_eq!(assembler.binaries[1], "1111111111111111");
}

#[test]
fn test_unknown_fields_resolve_to_none() {
    assert_eq!(comp_bits("FOO"), None);
    assert_eq!(dest_bits("X"), None);
    assert_eq!(jump_bits("FLY"), None);
    assert_eq!(comp_bits("D+1"), Some((false, 0b011111)));
    assert_eq!(dest_bits(""), Some(0b000));
    assert_eq!(jump_bits("JNE"), Some(0b101));
}

#[test]
fn test_tables_hold_the_vocabularies() {
    let comp = comp_table();
    assert_eq!(comp.len(), 28);
    assert_eq!(comp[0], ("0", false, 0b101010));
    assert_eq!(comp[27], ("D|M", true, 0b010101));

    let dest = dest_table();
    assert_eq!(dest.len(), 8);
    assert_eq!(dest[3], ("MD", 0b011));

    let jump = jump_table();
    assert_eq!(jump.len(), 8);
    assert_eq!(jump[7], ("JMP", 0b111));
}

#[test]
fn test_variables_allocate_from_sixteen() {
    let mut assembler = Assembler::new();
    assembler.assemble_all("@first\n@second\n@first");
    assert_eq!(assembler.symbol_table.get_address("first"), Some(16));
    assert_eq!(assembler.symbol_table.get_address("second"), Some(17));
    assert_eq!(assembler.binaries[0], "0000000000010000");
    assert_eq!(assembler.binaries[1], "0000000000010001");
    assert_eq!(assembler.binaries[2], "0000000000010000");
}

#[test]
fn test_decode_instruction() {
    assert_eq!(decode_instruction(0b0000000000010101), "@21");
    assert_eq!(decode_instruction(0b1110110000010000), "D=A");
    assert_eq!(decode_instruction(0b1110101010000111), "0;JMP");
    assert_eq!(decode_instruction(0b1111000010110101), "AD=D+M;JNE");
}
