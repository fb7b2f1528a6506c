//! The output text and the error counters that a run accumulates.
use vstd::prelude::*;

verus! {

/// The style of a printed message.
#[derive(Clone, Copy, Debug, PartialEq, Eq, Structural)]
pub enum PrintT {
    Error,
    Info,
    Lexer,
    Cpu,
    Syntax,
    Clear,
}

/// What a run has printed so far, and how many problems the tokenizer and the
/// interpreter have reported.
#[derive(Debug)]
pub struct Console {
    pub output: String,
    pub cpu_errors: usize,
    pub lexer_errors: usize,
}

/// The view of a console.
pub struct ConsoleView {
    pub output: Seq<char>,
    pub cpu_errors: nat,
    pub lexer_errors: nat,
}

impl View for Console {
    type V = ConsoleView;

    open spec fn view(&self) -> ConsoleView {
        ConsoleView {
            output: self.output@,
            cpu_errors: self.cpu_errors as nat,
            lexer_errors: self.lexer_errors as nat,
        }
    }
}

/// The label that starts a message of the given style.
pub open spec fn prefix(t: PrintT) -> Seq<char> {
    match t {
        PrintT::Error => "[Error]: "@,
        PrintT::Info => "[Info]: "@,
        PrintT::Lexer => "[Lexer]: "@,
        PrintT::Cpu => "[Cpu]: "@,
        PrintT::Syntax => "[Syntax]: "@,
        PrintT::Clear => seq![],
    }
}

/// The text that printing `message` in style `t` adds to the output: a
/// labelled line, or for `Clear` the message alone.
pub open spec fn printed(t: PrintT, message: Seq<char>) -> Seq<char> {
    if t == PrintT::Clear {
        message
    } else {
        prefix(t) + message + seq!['\n']
    }
}

/// A counter raised by one, stopping at the largest `usize`.
pub open spec fn bump(n: nat) -> nat {
    if n < usize::MAX { n + 1 } else { n }
}

impl ConsoleView {
    /// The console after printing `message` in style `t`.
    pub open spec fn print(self, t: PrintT, message: Seq<char>) -> ConsoleView {
        ConsoleView { output: self.output + printed(t, message), ..self }
    }

    /// The console after one more interpreter error.
    pub open spec fn cpu_error(self) -> ConsoleView {
        ConsoleView { cpu_errors: bump(self.cpu_errors), ..self }
    }

    /// The console after one more tokenizer error.
    pub open spec fn lexer_error(self) -> ConsoleView {
        ConsoleView { lexer_errors: bump(self.lexer_errors), ..self }
    }

    /// An error message followed by the count of one more interpreter error.
    pub open spec fn fail(self, message: Seq<char>) -> ConsoleView {
        self.print(PrintT::Error, message).cpu_error()
    }

    /// An error message followed by the count of one more tokenizer error.
    pub open spec fn lex_fail(self, message: Seq<char>) -> ConsoleView {
        self.print(PrintT::Error, message).lexer_error()
    }

    /// All problems reported so far.
    pub open spec fn error_count(self) -> nat {
        self.cpu_errors + self.lexer_errors
    }
}

impl Console {
    /// An empty console with no errors counted.
    pub fn new() -> (c: Console)
        ensures
            c@ == (ConsoleView { output: seq![], cpu_errors: 0, lexer_errors: 0 }),
    {
        Console { output: String::new(), cpu_errors: 0, lexer_errors: 0 }
    }
}

/// Counts one more interpreter error.
pub fn cpu_error(console: &mut Console)
    ensures
        final(console)@ == old(console)@.cpu_error(),
{
    if console.cpu_errors < usize::MAX {
        console.cpu_errors = console.cpu_errors + 1;
    }
}

/// Counts one more tokenizer error.
pub fn lexer_error(console: &mut Console)
    ensures
        final(console)@ == old(console)@.lexer_error(),
{
    if console.lexer_errors < usize::MAX {
        console.lexer_errors = console.lexer_errors + 1;
    }
}

/// Writes `message` to the output: labelled and on a line of its own, or as
/// it is for `PrintT::Clear`.
pub fn printx(console: &mut Console, type_: PrintT, message: &str)
    ensures
        final(console)@ == old(console)@.print(type_, message@),
{
    let ghost before = console.output@;
    match type_ {
        PrintT::Error => console.output.append("[Error]: "),
        PrintT::Info => console.output.append("[Info]: "),
        PrintT::Lexer => console.output.append("[Lexer]: "),
        PrintT::Cpu => console.output.append("[Cpu]: "),
        PrintT::Syntax => console.output.append("[Syntax]: "),
        PrintT::Clear => {},
    }
    console.output.append(message);
    if type_ != PrintT::Clear {
        console.output.append("\n");
        proof {
            reveal_strlit("\n");
        }
    }
    assert(console.output@ =~= before + printed(type_, message@));
}

/// Everything written to the output so far.
pub fn get_global_output(console: &Console) -> (r: String)
    ensures
        r@ == console.output@,
{
    console.output.clone()
}

} // verus!
