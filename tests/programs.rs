use russembly::console::{get_global_output, Console};
use russembly::cpu::{Var, CPU};
use russembly::lexer::Lexer;
use russembly::token::{Line, TokenType};

fn load(src: &str) -> CPU {
    let mut cpu = CPU::new().unwrap();
    assert_eq!(cpu.load_string(src), Some(()));
    cpu
}

fn run(src: &str) -> CPU {
    let mut cpu = load(src);
    cpu.run_main();
    cpu
}

fn output(cpu: &CPU) -> String {
    get_global_output(&cpu.console)
}

fn lines_of(src: &[&str]) -> Vec<Line> {
    let mut console = Console::new();
    let mut lexer = Lexer::new();
    for l in src {
        lexer.run(&mut console, l.to_string(), src.len());
    }
    lexer.get_lines(&mut console).unwrap()
}

#[test]
fn subtraction_uses_last_pushed_as_left_operand() {
    let cpu = run("fn main ( ) {\npush 10\npush 3\nsubs\n}");
    assert_eq!(cpu.get_stack(), &vec![-7]);
    assert_eq!(cpu.error_count(), 0);
}

#[test]
fn push_push_subs_on_one_line() {
    let cpu = run("fn main ( ) {\npush 4 push 9 subs\n}");
    assert_eq!(cpu.get_stack(), &vec![5]);
}

#[test]
fn other_arithmetic_orders() {
    let cpu = run("fn main ( ) {\npush 3\npush 12\ndivs\npush 5\npush 2\nadds\nmuls\n}");
    assert_eq!(cpu.get_stack(), &vec![28]);
    let cpu = run("fn main ( ) {\npush 2\npush 7\ndivs\n}");
    assert_eq!(cpu.get_stack(), &vec![3]);
}

#[test]
fn mov_port_then_accumulator() {
    let cpu = run("fn main ( ) {\nmov P0, 5\nmov A, P0\n}");
    assert_eq!(cpu.get_accumulator(), &5);
    assert_eq!(cpu.get_port(0), 5);
    assert_eq!(cpu.error_count(), 0);
}

#[test]
fn let_then_prnt() {
    let cpu = run("fn main ( ) {\nlet x , 7\nprnt x\n}");
    assert!(output(&cpu).contains('7'));
    assert_eq!(cpu.error_count(), 0);
}

#[test]
fn redefinition_last_wins_and_both_kept() {
    let lines = lines_of(&["let x , 1", "let x , 2", "prnt x"]);
    let mut cpu = CPU::new().unwrap();
    let functions = Vec::new();
    cpu.run_keywords(&lines[0], 0);
    cpu.run_keywords(&lines[1], 0);
    assert_eq!(cpu.vars.len(), 2);
    match cpu.try_get_var("x") {
        Some(Var::Number(v)) => assert_eq!(v.value, 2),
        _ => panic!("x is not bound to a number"),
    }
    cpu.run_opcodes(&functions, &lines[2], 0, 2, 1);
    assert!(output(&cpu).contains('2'));
    assert_eq!(cpu.error_count(), 0);
}

#[test]
fn call_clears_variables_of_caller() {
    let cpu = run("fn g ( ) {\nlet y , 3\n}\nfn main ( ) {\nlet x , 1\ncall g\nprnt x\n}");
    assert!(output(&cpu).contains("cannot find value `x` in this scope"));
    assert_eq!(cpu.error_count(), 1);
    assert!(cpu.vars.is_empty());
}

#[test]
fn call_clears_variables_when_callee_binds_nothing() {
    let cpu = run("fn g ( ) {\nprnt 1\n}\nfn main ( ) {\nlet x , 1\ncall g\nprnt x\n}");
    assert!(output(&cpu).contains("cannot find value `x` in this scope"));
    assert_eq!(cpu.error_count(), 1);
}

#[test]
fn unknown_leading_word_counts_and_later_lines_run() {
    let cpu = run("fn main ( ) {\nfoo\nprnt 5\n}");
    assert_eq!(cpu.error_count(), 1);
    assert_eq!(cpu.console.lexer_errors, 1);
    assert!(output(&cpu).contains("Unexpected instruction at line 2"));
    assert!(output(&cpu).contains("-------------------------\n5-------------------------"));
}

#[test]
fn unknown_word_outside_functions() {
    let cpu = run("frobnicate\nfn main ( ) {\nprnt 5\n}");
    assert_eq!(cpu.error_count(), 1);
    assert!(output(&cpu).contains("\n5-"));
}

#[test]
fn function_call_prints_and_counts_nothing() {
    let cpu = run("fn f ( ) {\nprnt \"hi\"\n}\nfn main ( ) {\ncall f\n}");
    assert!(output(&cpu).contains("hi"));
    assert_eq!(cpu.error_count(), 0);
}

#[test]
fn full_output_of_a_run() {
    let cpu = run("fn main ( ) {\nprnt \"a\\nb\"\nnl\nprnt Stack\n}");
    let expected = "[Lexer]: Parsing the tokens returned 0 errors\n[Info]: Finished parsing tokens\n\nOutput:\n-------------------------\na\nb\n[]-------------------------\n[Cpu]: Interpreting the tokens returned 0 errors\n";
    assert_eq!(output(&cpu), expected);
}

#[test]
fn missing_function_is_reported() {
    let cpu = run("fn f ( ) {\nprnt 1\n}");
    assert!(output(&cpu).contains("[Error]: function `main` not found\n"));
    assert_eq!(cpu.error_count(), 1);
}

#[test]
fn empty_program_is_refused() {
    let mut cpu = CPU::new().unwrap();
    assert_eq!(cpu.load_string(""), None);
    assert!(output(&cpu).contains("[Error]: Please provide some Code\n"));
    assert!(output(&cpu).contains("[Error]: No functions found (empty)\n"));
}

#[test]
fn code_outside_functions_is_refused() {
    let mut cpu = CPU::new().unwrap();
    assert_eq!(cpu.load_string("push 1"), None);
    assert!(output(&cpu).contains("Top level code is not allowed"));
    assert_eq!(cpu.error_count(), 1);
}

#[test]
fn stack_underflow_is_an_error() {
    let cpu = run("fn main ( ) {\npush 1\nadds\nprnt Stack\n}");
    assert_eq!(cpu.get_stack(), &vec![1]);
    assert!(output(&cpu).contains("[Error]: Not enough values on the Stack\n[1]"));
    assert_eq!(cpu.error_count(), 1);
}

#[test]
fn division_by_zero_is_an_error() {
    let cpu = run("fn main ( ) {\npush 0\npush 4\ndivs\n}");
    assert_eq!(cpu.get_stack(), &vec![0, 4]);
    assert!(output(&cpu).contains("[Error]: Division by zero\n"));
}

#[test]
fn overflow_is_an_error() {
    let big: i128 = 9223372036854775807;
    let cpu = run("fn main ( ) {\npush 9223372036854775807\npush 9223372036854775807\nmuls\nmuls\n}");
    assert_eq!(cpu.get_stack(), &vec![big * big]);
    assert!(output(&cpu).contains("[Error]: Not enough values on the Stack\n"));
    let cpu = run("fn main ( ) {\npush 9223372036854775807\npush 9223372036854775807\nmuls\npush 4\nmuls\n}");
    assert_eq!(cpu.get_stack(), &vec![big * big, 4]);
    assert!(output(&cpu).contains("[Error]: Arithmetic overflow\n"));
}

#[test]
fn invalid_port_is_an_error() {
    let cpu = run("fn main ( ) {\nmov P9 , 1\nprnt Px\n}");
    assert_eq!(cpu.error_count(), 2);
    assert!(output(&cpu).contains("[Error]: Invalid Port\n"));
}

#[test]
fn unresolved_variable_report() {
    let cpu = run("fn main ( ) {\nprnt nothing\n}");
    let expected = "[Error]: cannot find value `nothing` in this scope\n  |\n0 | prnt nothing\n  |      ^^^^^^^ not found in this scope\n  |\n";
    assert!(output(&cpu).contains(expected));
}

#[test]
fn deep_recursion_is_stopped() {
    let cpu = run("fn main ( ) {\ncall main\n}");
    assert!(output(&cpu).contains("[Error]: maximum call depth exceeded\n"));
    assert_eq!(cpu.error_count(), 1);
}

#[test]
fn jumps_are_inert_but_recorded() {
    let cpu = run("fn main ( ) {\nloop:\npush 1\njmp\n}");
    assert_eq!(cpu.get_stack(), &vec![1]);
    assert_eq!(cpu.get_jump_locations().len(), 1);
    assert_eq!(cpu.get_jump_locations()[0].name, "loop");
    assert_eq!(cpu.get_jump_locations()[0].line, 2);
}

#[test]
fn tilde_separates_lines() {
    let cpu = run("fn main ( ) {~push 6~}");
    assert_eq!(cpu.get_stack(), &vec![6]);
}

#[test]
fn let_errors() {
    let cpu = run("fn main ( ) {\nlet x\nlet y , A\nlet z ,\n}");
    assert!(output(&cpu).contains("[Error]: Expected Comma\n[Error]: Expected value for let\n"));
    assert!(output(&cpu).contains("[Error]: You can only store Strings and Numbers inside a Variable\n"));
    assert_eq!(cpu.error_count(), 4);
}

#[test]
fn let_without_comma_still_binds() {
    let lines = lines_of(&["let x 5", "let s \"hi\""]);
    let mut cpu = CPU::new().unwrap();
    cpu.run_keywords(&lines[0], 0);
    assert_eq!(cpu.vars.len(), 1);
    match cpu.try_get_var("x") {
        Some(Var::Number(v)) => assert_eq!(v.value, 5),
        _ => panic!("x is not bound to a number"),
    }
    cpu.run_keywords(&lines[1], 0);
    match cpu.try_get_var("s") {
        Some(Var::String(v)) => assert_eq!(v.value, "hi"),
        _ => panic!("s is not bound to a string"),
    }
    assert_eq!(cpu.error_count(), 2);
    assert_eq!(output(&cpu), "[Error]: Expected Comma\n[Error]: Expected Comma\n");
    let cpu = run("fn main ( ) {\nlet x 5 prnt x\n}");
    assert!(output(&cpu).contains("\n5-"));
    assert_eq!(cpu.error_count(), 1);
}

#[test]
fn tabs_separate_words() {
    let cpu = run("fn main ( ) {\n\tpush\t5\t\tpush 6\n}");
    assert_eq!(cpu.get_stack(), &vec![5, 6]);
    assert_eq!(cpu.error_count(), 0);
}

#[test]
fn header_errors() {
    let mut cpu = CPU::new().unwrap();
    assert_eq!(cpu.load_string("fn main x ) {\nprnt 1\n}"), None);
    assert!(output(&cpu).contains("[Error]: Expected `(` but found x\n[Syntax]: \nfn `name` (`arguments`) {\n`code`\n}\n"));
}

#[test]
fn function_arguments_are_parsed() {
    let cpu = load("fn add ( a , b ) {\nprnt a\n}");
    assert_eq!(cpu.functions.len(), 1);
    assert_eq!(cpu.functions[0].name, "add");
    let args: Vec<&str> = cpu.functions[0].arguments.iter().map(|t| t.value.as_str()).collect();
    assert_eq!(args, vec!["a", ",", "b"]);
    assert_eq!(cpu.functions[0].lines.len(), 2);
}

#[test]
fn first_function_of_a_name_wins() {
    let cpu = run("fn main ( ) {\nprnt 1\n}\nfn main ( ) {\nprnt 2\n}");
    assert!(output(&cpu).contains("\n1-"));
    assert!(!output(&cpu).contains("\n2-"));
}

#[test]
fn token_values_spell_the_words() {
    let lines = lines_of(&["mov P0 , 5 ; set the port"]);
    let values: Vec<&str> = lines[0].tokens.iter().map(|t| t.value.as_str()).collect();
    assert_eq!(values, vec!["mov", "P0", ",", "5"]);
    let lines = lines_of(&["push(12)+x"]);
    let values: Vec<&str> = lines[0].tokens.iter().map(|t| t.value.as_str()).collect();
    assert_eq!(values, vec!["push", "(", "12", ")", "+", "x"]);
    let lines = lines_of(&["call ;x ;rest"]);
    let values: Vec<&str> = lines[0].tokens.iter().map(|t| t.value.as_str()).collect();
    assert_eq!(values, vec!["call", ";x"]);
}

#[test]
fn token_kinds() {
    let lines = lines_of(&["call f", "fn {", "prnt \"a  b\\n\" Stack A nl end:"]);
    assert!(matches!(lines[0].tokens[1].token_type, TokenType::FunctionName));
    assert_eq!(lines[1].tokens.len(), 2);
    assert!(matches!(lines[1].tokens[1].token_type, TokenType::Bracket));
    let t = &lines[2].tokens;
    assert_eq!(t[1].value, "a b\n");
    assert!(matches!(t[1].token_type, TokenType::String));
    assert!(matches!(t[2].token_type, TokenType::Stack));
    assert!(matches!(t[3].token_type, TokenType::Accumulator));
    assert!(matches!(t[4].token_type, TokenType::NewLine));
    match &t[5].token_type {
        TokenType::JumpLocation(j) => {
            assert_eq!(j.name, "end");
            assert_eq!(j.line, 3);
        }
        _ => panic!("not a jump location"),
    }
}

#[test]
fn missing_names_are_reported() {
    let mut console = Console::new();
    let mut lexer = Lexer::new();
    lexer.run(&mut console, "call".to_string(), 1);
    assert_eq!(console.lexer_errors, 1);
    assert_eq!(console.output, "[Error]: Expected Function name at line 1\n");
    lexer.run(&mut console, "7 8".to_string(), 0);
    assert_eq!(console.lexer_errors, 1);
}
