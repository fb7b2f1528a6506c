//! Loading a program: source text to tokenized lines to functions.
use vstd::prelude::*;
use crate::console::{ConsoleView, PrintT, printx};
use crate::cpu::{CPU, Machine};
use crate::lexer::{Lexer, tokenize_line, extract_functions, line_jumps};
use crate::text::{nat_text, append_nat, strings_view, source_lines, split_lines};
use crate::token::{LineView, functions_view};

verus! {

/// The lines `ls` tokenized one after the other, numbered on from the lines
/// `done` already read; and the console after.
pub open spec fn lex_lines(ls: Seq<Seq<char>>, done: Seq<LineView>, con: ConsoleView)
    -> (Seq<LineView>, ConsoleView)
    decreases ls.len(),
{
    if ls.len() == 0 {
        (done, con)
    } else {
        let (toks, c1) = tokenize_line(ls[0], (done.len() + 1) as nat, con);
        lex_lines(ls.drop_first(), done.push(LineView { tokens: toks, text: ls[0] }), c1)
    }
}

/// The tokenized lines of a program and the console after tokenizing it,
/// with the summary (or the complaint about an empty program) printed.
pub open spec fn lex_program(ls: Seq<Seq<char>>, con: ConsoleView) -> (Seq<LineView>, ConsoleView) {
    if ls.len() != 0 {
        let (lvs, c) = lex_lines(ls, seq![], con);
        (lvs, c.print(PrintT::Lexer, "Parsing the tokens returned "@ + nat_text(c.lexer_errors) + " errors"@)
            .print(PrintT::Info, "Finished parsing tokens"@))
    } else {
        (seq![], con.print(PrintT::Error, "Please provide some Code"@))
    }
}

/// The machine after loading the program whose lines are `ls`, and whether
/// it holds at least one function. The functions and the jump locations are
/// replaced by those of the program.
pub open spec fn load_effect(m: Machine, ls: Seq<Seq<char>>) -> (Machine, bool) {
    let (lvs, c1) = lex_program(ls, m.console);
    let (fs, c2) = extract_functions(lvs, c1);
    if fs.len() == 0 {
        (Machine {
            functions: seq![],
            jump_locations: line_jumps(lvs),
            console: c2.print(PrintT::Error, "No functions found (empty)"@),
            ..m
        }, false)
    } else {
        (Machine { functions: fs, jump_locations: line_jumps(lvs), console: c2, ..m }, true)
    }
}

impl CPU {
    /// Loads the program whose source lines are `lines` (see `load_effect`):
    /// `Some(())` when it declares at least one function.
    pub fn load_lines(&mut self, lines: Vec<String>) -> (r: Option<()>)
        ensures
            final(self)@ == load_effect(old(self)@, strings_view(lines@)).0,
            r is Some <==> load_effect(old(self)@, strings_view(lines@)).1,
    {
        let ghost ls = strings_view(lines@);
        self.functions = Vec::new();
        let mut lexer = Lexer::new();
        let count = lines.len();
        assert(functions_view(self.functions@) =~= Seq::empty());
        let ghost m_start = self@;
        if count != 0 {
            let ghost con0 = self.console@;
            let mut i: usize = 0;
            assert(ls.skip(0) =~= ls);
            while i < count
                invariant
                    i <= count,
                    count == lines.len(),
                    ls == strings_view(lines@),
                    lexer@.lines.len() == i,
                    lexer@.functions == Seq::<crate::token::FunctionView>::empty(),
                    self@ == (Machine { console: self.console@, ..m_start }),
                    lex_lines(ls.skip(i as int), lexer@.lines, self.console@)
                        == lex_lines(ls, seq![], con0),
                decreases count - i,
            {
                assert(ls.skip(i as int).drop_first() =~= ls.skip(i + 1));
                lexer.run(&mut self.console, lines[i].clone(), count);
                i = i + 1;
            }
            assert(ls.skip(count as int) =~= Seq::<Seq<char>>::empty());
            let mut m = "Parsing the tokens returned ".to_owned();
            append_nat(&mut m, self.console.lexer_errors as u128);
            m.append(" errors");
            printx(&mut self.console, PrintT::Lexer, m.as_str());
            printx(&mut self.console, PrintT::Info, "Finished parsing tokens");
        } else {
            printx(&mut self.console, PrintT::Error, "Please provide some Code");
        }
        lexer.generate_functions(&mut self.console);
        assert(lexer@.functions =~= extract_functions(lex_program(ls, m_start.console).0, lex_program(ls, m_start.console).1).0);
        self.jump_locations = lexer.get_jump_locations();
        match lexer.get_functions(&mut self.console) {
            Some(f) => {
                self.functions = f;
                Some(())
            },
            None => None,
        }
    }

    /// Loads the program written in `string`, whose lines end with a line
    /// feed or `~` (see `source_lines` and `load_lines`).
    pub fn load_string(&mut self, string: &str) -> (r: Option<()>)
        ensures
            final(self)@ == load_effect(old(self)@, source_lines(string@)).0,
            r is Some <==> load_effect(old(self)@, source_lines(string@)).1,
    {
        let lines = split_lines(string);
        self.load_lines(lines)
    }
}

} // verus!
