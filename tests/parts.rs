use russembly::console::{cpu_error, get_global_output, lexer_error, printx, Console, PrintT};
use russembly::cpu::CPU;
use russembly::diagnostics::render_error;
use russembly::text::{format_int, generate_strings, parse_u64, same_text, split_lines, unescape_newlines};

#[test]
fn printx_labels_and_plain_text() {
    let mut console = Console::new();
    printx(&mut console, PrintT::Error, "e");
    printx(&mut console, PrintT::Info, "i");
    printx(&mut console, PrintT::Lexer, "l");
    printx(&mut console, PrintT::Cpu, "c");
    printx(&mut console, PrintT::Syntax, "s");
    printx(&mut console, PrintT::Clear, "plain");
    assert_eq!(
        get_global_output(&console),
        "[Error]: e\n[Info]: i\n[Lexer]: l\n[Cpu]: c\n[Syntax]: s\nplain"
    );
}

#[test]
fn error_counters() {
    let mut console = Console::new();
    cpu_error(&mut console);
    cpu_error(&mut console);
    lexer_error(&mut console);
    assert_eq!(console.cpu_errors, 2);
    assert_eq!(console.lexer_errors, 1);
    console.cpu_errors = usize::MAX;
    cpu_error(&mut console);
    assert_eq!(console.cpu_errors, usize::MAX);
}

#[test]
fn words_of_a_line() {
    let words = generate_strings("  mov P0,5 {x}\"a b\"");
    assert_eq!(words, vec!["mov", "P0", ",", "5", "{", "x", "}", "\"", "a", "b", "\""]);
    assert!(generate_strings("").is_empty());
    assert!(generate_strings("   ").is_empty());
    assert_eq!(generate_strings("a\tb\u{a0}c\r"), vec!["a", "b", "c"]);
}

#[test]
fn numbers() {
    assert_eq!(parse_u64("42"), Some(42));
    assert_eq!(parse_u64("+7"), Some(7));
    assert_eq!(parse_u64("18446744073709551615"), Some(u64::MAX));
    assert_eq!(parse_u64("18446744073709551616"), None);
    assert_eq!(parse_u64(""), None);
    assert_eq!(parse_u64("+"), None);
    assert_eq!(parse_u64("4a"), None);
    assert_eq!(format_int(0), "0");
    assert_eq!(format_int(-7), "-7");
    assert_eq!(format_int(1234567), "1234567");
    assert_eq!(format_int(i128::MIN), i128::MIN.to_string());
}

#[test]
fn text_helpers() {
    assert!(same_text("abc", "abc"));
    assert!(!same_text("abc", "abd"));
    assert!(!same_text("ab", "abc"));
    assert_eq!(unescape_newlines("a\\nb\\\\n"), "a\nb\\\n");
    assert_eq!(split_lines("a\r\nb~c\n\nd\r"), vec!["a", "b", "c", "", "d\r"]);
    assert_eq!(split_lines("a\n"), vec!["a"]);
    assert!(split_lines("").is_empty());
}

#[test]
fn error_block() {
    let r = render_error("bad thing", "prnt some value", 12, 1, "here");
    let expected = "[Error]: bad thing\n   |\n12 | prnt some value\n   |      ^^^^ here\n   |\n";
    assert_eq!(r, expected);
    let r = render_error("e", "a\t\tbb  c", 3, 2, "");
    assert_eq!(r, "[Error]: e\n  |\n3 | a\t\tbb  c\n  |     ^ \n  |\n");
}

#[test]
fn json_of_state() {
    let mut cpu = CPU::new().unwrap();
    assert_eq!(
        cpu.get_json(),
        "{\"stack\":[],\"ports\":{\"0\":\"0\",\"1\":\"0\",\"2\":\"0\",\"3\":\"0\",\"4\":\"0\",\"5\":\"0\",\"6\":\"0\",\"7\":\"0\"},\"vars\":[],\"accumulator\":\"0\"}"
    );
    let lines = {
        let mut console = Console::new();
        let mut lexer = russembly::lexer::Lexer::new();
        lexer.run(&mut console, "let a , 3".to_string(), 2);
        lexer.run(&mut console, "let b , \"x\\y \\n\"".to_string(), 2);
        lexer.get_lines(&mut console).unwrap()
    };
    cpu.run_keywords(&lines[0], 0);
    cpu.run_keywords(&lines[1], 0);
    cpu.push_to_stack(-1);
    cpu.push_to_stack(2);
    cpu.mov(7, -5);
    cpu.mova(9);
    assert_eq!(
        cpu.get_json(),
        "{\"stack\":[-1, 2],\"ports\":{\"0\":\"0\",\"1\":\"0\",\"2\":\"0\",\"3\":\"0\",\"4\":\"0\",\"5\":\"0\",\"6\":\"0\",\"7\":\"-5\"},\"vars\":[{\"name\":\"a\",\"value\":\"3\"},{\"name\":\"b\",\"value\":\"x\\\\y \\n\"}],\"accumulator\":\"9\"}"
    );
}

#[test]
fn setb_sets_and_reports() {
    let mut cpu = CPU::new().unwrap();
    cpu.setb("P1^3".to_string());
    assert_eq!(cpu.get_port(1), 8);
    cpu.setb("P1^0".to_string());
    assert_eq!(cpu.get_port(1), 9);
    cpu.setb("P7^1".to_string());
    assert_eq!(cpu.get_port(7), 2);
    cpu.setb("P8^1".to_string());
    cpu.setb("P2^64".to_string());
    cpu.setb("P2".to_string());
    cpu.setb("Px^1".to_string());
    assert_eq!(cpu.get_port(2), 0);
    assert_eq!(
        get_global_output(&cpu.console),
        "Port: 8 out of bounds (0 - 7)\nSetting the 64th bit will lead to a stack overflow (max is 63)\nError parsing: P2\nError parsing: Px^1\n"
    );
}

#[test]
fn debug_operations() {
    let mut cpu = CPU::new().unwrap();
    cpu.push_to_stack(20);
    cpu.push_to_stack(5);
    cpu.sub();
    assert_eq!(cpu.get_stack(), &vec![-15]);
    cpu.push_to_stack(-45);
    cpu.div();
    assert_eq!(cpu.get_stack(), &vec![3]);
    cpu.push_to_stack(4);
    cpu.mul();
    assert_eq!(cpu.pop_from_stack(), Some(12));
    assert_eq!(cpu.pop_from_stack(), None);
    cpu.mov(3, 2);
    cpu.mova_p(3);
    cpu.subp(3);
    assert_eq!(cpu.get_accumulator(), &0);
    cpu.djnz(3, "top".to_string());
    assert_eq!(cpu.get_port(3), 1);
    cpu.djnz(3, "top".to_string());
    cpu.djnz(3, "top".to_string());
    assert_eq!(cpu.get_port(3), 0);
    cpu.add_jump_location("top".to_string(), 4);
    assert_eq!(cpu.get_jump_locations()[0].line, 4);
    assert_eq!(cpu.get_port_from_str("P12"), Some(12));
    assert_eq!(cpu.get_port_from_str("P"), None);
}
