use hack::executor::Executor;
use hack::text::{bin16_string, dec_string, parse_bin16, parse_u16, split_tokens, str_eq, trim_str};
use hack::vm::{command_ok, Stack};

#[test]
fn test_executor_push_constant() {
    let mut executor = Executor::new();

    let commands = vec!["push constant 7".to_string()];
    executor.set_stack(commands);
    executor.run(64);

    assert_eq!(executor.cpu.get_data(0), 257);
    assert_eq!(executor.cpu.get_data(256), 7);
}

#[test]
fn test_executor_add_program() {
    let mut executor = Executor::new();

    let commands = vec![
        "push constant 8".to_string(),
        "push constant 20".to_string(),
        "add".to_string(),
    ];
    executor.set_stack(commands);
    executor.run(256);

    assert_eq!(executor.cpu.get_data(0), 257);
    assert_eq!(executor.cpu.get_data(256), 28);
}

#[test]
fn test_translate_all_matches_direct_calls() {
    let mut by_commands = Stack::new();
    by_commands.commands = vec![
        "push constant 3".to_string(),
        "push constant 4".to_string(),
        "  add  ".to_string(),
        "eq".to_string(),
    ];
    by_commands.translate_all();

    let mut by_calls = Stack::new();
    by_calls.push_command("constant", "3");
    by_calls.push_command("constant", "4");
    by_calls.add();
    by_calls.eq();

    assert_eq!(by_commands.assembly, by_calls.assembly);
    assert_eq!(by_commands.counter_eq, 1);
}

#[test]
fn test_parse_u16_accepts_digits_in_range() {
    assert_eq!(parse_u16("0"), Some(0));
    assert_eq!(parse_u16("007"), Some(7));
    assert_eq!(parse_u16("65535"), Some(65535));
    assert_eq!(parse_u16("65536"), None);
    assert_eq!(parse_u16(""), None);
    assert_eq!(parse_u16("12a"), None);
    assert_eq!(parse_u16("-1"), None);
}

#[test]
fn test_dec_string_renders() {
    assert_eq!(dec_string(0), "0");
    assert_eq!(dec_string(10), "10");
    assert_eq!(dec_string(65535), "65535");
}

#[test]
fn test_bin16_round_trip() {
    assert_eq!(bin16_string(0), "0000000000000000");
    assert_eq!(bin16_string(0xFFFF), "1111111111111111");
    assert_eq!(bin16_string(21), "0000000000010101");
    assert_eq!(parse_bin16("0000000000010101"), 21);
    assert_eq!(parse_bin16(&bin16_string(0xBEEF)), 0xBEEF);
}

#[test]
fn test_trim_and_tokens() {
    assert_eq!(trim_str("  D=A \t"), "D=A");
    assert_eq!(trim_str(" \t "), "");
    assert!(str_eq("abc", "abc"));
    assert!(!str_eq("abc", "abd"));
    let tokens = split_tokens("  push  constant\t7 ");
    assert_eq!(tokens, vec!["push".to_string(), "constant".to_string(), "7".to_string()]);
}

#[test]
fn test_command_ok_screens_commands() {
    assert!(command_ok("push constant 7"));
    assert!(command_ok("pop local 3"));
    assert!(command_ok("add"));
    assert!(command_ok("eq"));
    assert!(command_ok("  gt "));
    assert!(!command_ok("pop constant 7"));
    assert!(!command_ok("push pointer 2"));
    assert!(!command_ok("push constant x"));
    assert!(!command_ok("mul"));
    assert!(!command_ok("push constant"));
    assert!(!command_ok(""));
}
