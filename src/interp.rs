//! The interpreter: runs a function's lines against the machine.
use vstd::prelude::*;
use crate::console::{PrintT, printx, cpu_error};
use crate::cpu::{CPU, Machine, Binding, Var, StringVar, NumberVar, vars_view, find_var, port_index, trunc_div, PORTS};
use crate::diagnostics::{error_report, render_error};
use crate::text::{int_text, nat_text, append_int, append_nat, same_text, push_char};
use crate::token::{Token, TokenType, TokenView, Kind, Line, LineView, Function, FunctionView,
    tokens_view, lines_view, functions_view, clone_functions};

verus! {

/// How deep `call` may nest before the interpreter refuses to go further.
pub const MAX_CALL_DEPTH: usize = 100;

/// The token at index `j`, if there is one.
pub open spec fn at(ts: Seq<TokenView>, j: int) -> Option<TokenView> {
    if 0 <= j < ts.len() { Some(ts[j]) } else { None }
}

/// The smaller of two integers.
pub open spec fn min(a: int, b: int) -> int {
    if a <= b { a } else { b }
}

/// Where dispatch resumes after the instruction that starts at index `j`:
/// each instruction takes the operands its grammar asks for, as far as the
/// line has them.
pub open spec fn next_index(ts: Seq<TokenView>, j: int) -> int {
    let t = ts[j];
    let n = ts.len() as int;
    if t.kind == Kind::OpCode {
        if t.value == "push"@ || t.value == "prnt"@ || t.value == "call"@ {
            min(j + 2, n)
        } else if t.value == "mov"@ {
            min(j + 4, n)
        } else {
            j + 1
        }
    } else if t.kind == Kind::Keyword && t.value == "let"@ {
        if j + 1 >= n {
            j + 1
        } else if ts[j + 1].kind != Kind::VarName {
            j + 2
        } else if j + 2 < n && ts[j + 2].kind == Kind::Comma {
            min(j + 4, n)
        } else {
            min(j + 3, n)
        }
    } else {
        j + 1
    }
}

/// The index of the first function named `name`, searching from index `i`.
pub open spec fn find_function_from(fs: Seq<FunctionView>, name: Seq<char>, i: int) -> Option<int>
    decreases fs.len() - i,
{
    if i < 0 || i >= fs.len() {
        None
    } else if fs[i].name == name {
        Some(i)
    } else {
        find_function_from(fs, name, i + 1)
    }
}

/// The index of the first function named `name`.
pub open spec fn find_function(fs: Seq<FunctionView>, name: Seq<char>) -> Option<int> {
    find_function_from(fs, name, 0)
}

/// The numbers of a stack, separated by `, `.
pub open spec fn join_numbers(s: Seq<i128>) -> Seq<char>
    decreases s.len(),
{
    if s.len() == 0 {
        seq![]
    } else if s.len() == 1 {
        int_text(s[0] as int)
    } else {
        join_numbers(s.drop_last()) + ", "@ + int_text(s.last() as int)
    }
}

/// The printed form of a stack: its numbers in brackets, bottom first.
pub open spec fn stack_text(s: Seq<i128>) -> Seq<char> {
    "["@ + join_numbers(s) + "]"@
}

/// The printed form of a bound value.
pub open spec fn binding_text(b: Binding) -> Seq<char> {
    match b {
        Binding::Text { value, .. } => value,
        Binding::Num { value, .. } => int_text(value as int),
    }
}

/// The stack arithmetic instructions.
#[derive(Clone, Copy, Debug, PartialEq, Eq, Structural)]
pub enum Arith {
    Add,
    Sub,
    Mul,
    Div,
}

/// `a op b` over the integers; `None` for a division by zero.
pub open spec fn arith_value(op: Arith, a: int, b: int) -> Option<int> {
    match op {
        Arith::Add => Some(a + b),
        Arith::Sub => Some(a - b),
        Arith::Mul => Some(a * b),
        Arith::Div => if b == 0 { None } else { Some(trunc_div(a, b)) },
    }
}

/// The effect of a stack arithmetic instruction: the top value `a` and the
/// one below it `b` are replaced by `a op b`. Too few values, a division by
/// zero and a result outside 128 bits are reported and change nothing else.
pub open spec fn arith_effect(op: Arith, m: Machine) -> Machine {
    let n = m.stack.len();
    if n < 2 {
        m.fail("Not enough values on the Stack"@)
    } else {
        let a = m.stack[n - 1] as int;
        let b = m.stack[n - 2] as int;
        match arith_value(op, a, b) {
            None => m.fail("Division by zero"@),
            Some(r) => if i128::MIN <= r <= i128::MAX {
                Machine { stack: m.stack.drop_last().drop_last().push(r as i128), ..m }
            } else {
                m.fail("Arithmetic overflow"@)
            },
        }
    }
}

/// The value that `mov` reads from `src`, or the message of the error when
/// it cannot read one; `target` names the destination in that message.
pub open spec fn mov_source(src: TokenView, m: Machine, target: Seq<char>) -> Result<i128, Seq<char>> {
    match src.kind {
        Kind::Number(x) => Ok(x),
        Kind::Port => match port_index(src.value) {
            Some(p) => Ok(m.port[p]),
            None => Err("Invalid Port"@),
        },
        _ => Err("You can only move a number or the value of a Port to "@ + target),
    }
}

/// The effect of `mov dst , src`.
pub open spec fn mov_effect(dst: TokenView, comma: TokenView, src: TokenView, m: Machine) -> Machine {
    let m1 = if comma.kind == Kind::Comma { m } else { m.fail("Expected Comma"@) };
    if dst.kind == Kind::Port {
        match port_index(dst.value) {
            Some(p) => match mov_source(src, m1, "this Port"@) {
                Ok(x) => Machine { port: m1.port.update(p, x), ..m1 },
                Err(e) => m1.fail(e),
            },
            None => m1.fail("Invalid Port"@),
        }
    } else if dst.kind == Kind::Accumulator {
        match mov_source(src, m1, "the Accumulator"@) {
            Ok(x) => Machine { accumulator: x, ..m1 },
            Err(e) => m1.fail(e),
        }
    } else {
        m1.fail("Expected Port or Accu!"@)
    }
}

/// The effect of `prnt` at index `j` of line `text` (body line `li`).
pub open spec fn prnt_effect(ts: Seq<TokenView>, j: int, text: Seq<char>, li: nat, m: Machine) -> Machine {
    match at(ts, j + 1) {
        None => Machine {
            console: m.console.cpu_error().print(
                PrintT::Clear,
                error_report("expected token after prnt statement"@, text, li, 1, seq![]),
            ),
            ..m
        },
        Some(t) => match t.kind {
            Kind::Str => m.print(PrintT::Clear, t.value),
            Kind::Number(x) => m.print(PrintT::Clear, int_text(x as int)),
            Kind::Accumulator => m.print(PrintT::Clear, int_text(m.accumulator as int)),
            Kind::Stack => m.print(PrintT::Clear, stack_text(m.stack)),
            Kind::Port => match port_index(t.value) {
                Some(p) => m.print(PrintT::Clear, int_text(m.port[p] as int)),
                None => m.fail("Invalid Port"@),
            },
            _ => match m.lookup(t.value) {
                Some(b) => m.print(PrintT::Clear, binding_text(b)),
                None => Machine {
                    console: m.console.cpu_error().print(
                        PrintT::Clear,
                        error_report(
                            "cannot find value `"@ + t.value + "` in this scope"@,
                            text,
                            li,
                            1,
                            "not found in this scope"@,
                        ),
                    ),
                    ..m
                },
            },
        },
    }
}

/// The effect of the opcodes other than `call` at index `j`.
pub open spec fn opcode_effect(ts: Seq<TokenView>, j: int, text: Seq<char>, li: nat, m: Machine) -> Machine {
    let v = ts[j].value;
    if v == "push"@ {
        match at(ts, j + 1) {
            Some(t) => match t.kind {
                Kind::Number(x) => Machine { stack: m.stack.push(x), ..m },
                _ => m.fail("You can only push Numbers to the Stack!"@),
            },
            None => m.fail("Expected Number after push"@),
        }
    } else if v == "pop"@ {
        if m.stack.len() > 0 { Machine { stack: m.stack.drop_last(), ..m } } else { m }
    } else if v == "mov"@ {
        if j + 3 < ts.len() {
            mov_effect(ts[j + 1], ts[j + 2], ts[j + 3], m)
        } else {
            m.fail("Expected more Tokens after mov"@).print(PrintT::Syntax, "mov <Port or Accu> <,> <value>"@)
        }
    } else if v == "adds"@ {
        arith_effect(Arith::Add, m)
    } else if v == "subs"@ {
        arith_effect(Arith::Sub, m)
    } else if v == "muls"@ {
        arith_effect(Arith::Mul, m)
    } else if v == "divs"@ {
        arith_effect(Arith::Div, m)
    } else if v == "prnt"@ {
        prnt_effect(ts, j, text, li, m)
    } else {
        m
    }
}

/// The machine with `name` bound to the value token `v`; any token but a
/// string or a number is refused.
pub open spec fn bind_effect(m: Machine, name: Seq<char>, v: TokenView) -> Machine {
    match v.kind {
        Kind::Str => Machine { vars: m.vars.push(Binding::Text { name, value: v.value }), ..m },
        Kind::Number(x) => Machine { vars: m.vars.push(Binding::Num { name, value: x }), ..m },
        _ => m.fail("You can only store Strings and Numbers inside a Variable"@),
    }
}

/// The effect of a keyword at index `j`: `let NAME , VALUE` appends a
/// binding. A missing comma is reported, and the token after the name is
/// then taken as the value.
pub open spec fn keyword_effect(ts: Seq<TokenView>, j: int, m: Machine) -> Machine {
    if ts[j].value != "let"@ {
        m
    } else {
        match at(ts, j + 1) {
            None => m.fail("Expected Arguments after let"@),
            Some(nt) => if nt.kind != Kind::VarName {
                m.fail("Expected variable name"@)
            } else {
                match at(ts, j + 2) {
                    None => m.fail("Expected Comma"@).fail("Expected value for let"@),
                    Some(c) => if c.kind == Kind::Comma {
                        match at(ts, j + 3) {
                            Some(v) => bind_effect(m, nt.value, v),
                            None => m.fail("Expected value for let"@),
                        }
                    } else {
                        bind_effect(m.fail("Expected Comma"@), nt.value, c)
                    },
                }
            },
        }
    }
}

/// The report of a token that cannot start an instruction.
pub open spec fn unexpected_token(t: TokenView, li: nat) -> Seq<char> {
    "unexpected token '"@ + t.value + "' at line "@ + nat_text(li)
}

/// Runs the first function named `name` (if any), then clears every variable.
/// `depth` bounds how deeply calls may still nest.
pub open spec fn run_function(fs: Seq<FunctionView>, name: Seq<char>, depth: nat, m: Machine) -> Machine
    decreases depth, 3nat, 0nat,
{
    match find_function(fs, name) {
        Some(i) => {
            let m2 = run_lines(fs, fs[i].lines, 0, depth, m);
            Machine { vars: seq![], ..m2 }
        },
        None => m.fail("function `"@ + name + "` not found"@),
    }
}

/// Runs the lines `ls` from index `li` on.
pub open spec fn run_lines(fs: Seq<FunctionView>, ls: Seq<LineView>, li: int, depth: nat, m: Machine) -> Machine
    decreases depth, 2nat, ls.len() - li,
{
    if li < 0 || li >= ls.len() {
        m
    } else {
        run_lines(fs, ls, li + 1, depth, run_tokens(fs, ls[li], li as nat, 0, depth, m))
    }
}

/// Runs line `l` (body line `li`) from token index `j` on.
pub open spec fn run_tokens(fs: Seq<FunctionView>, l: LineView, li: nat, j: int, depth: nat, m: Machine) -> Machine
    decreases depth, 1nat, l.tokens.len() - j,
{
    if j < 0 || j >= l.tokens.len() {
        m
    } else {
        run_tokens(fs, l, li, next_index(l.tokens, j), depth, run_instruction(fs, l, li, j, depth, m))
    }
}

/// Runs the instruction that starts at token index `j` of line `l`.
pub open spec fn run_instruction(fs: Seq<FunctionView>, l: LineView, li: nat, j: int, depth: nat, m: Machine) -> Machine
    decreases depth, 0nat, 0int,
{
    if j < 0 || j >= l.tokens.len() {
        m
    } else {
        let t = l.tokens[j];
        match t.kind {
            Kind::OpCode => if t.value == "call"@ {
                match at(l.tokens, j + 1) {
                    Some(f) => if depth > 0 {
                        run_function(fs, f.value, (depth - 1) as nat, m)
                    } else {
                        m.fail("maximum call depth exceeded"@)
                    },
                    None => m.fail("Expected function name after call statement"@),
                }
            } else {
                opcode_effect(l.tokens, j, l.text, li, m)
            },
            Kind::Keyword => keyword_effect(l.tokens, j, m),
            Kind::Jump { .. } => m,
            Kind::Bracket => m,
            Kind::Str => m,
            Kind::Comment => m,
            Kind::NewLine => m.print(PrintT::Clear, seq!['\n']),
            _ => m.fail(unexpected_token(t, li)),
        }
    }
}

/// A full run: the output banner, the function `main`, and the count of
/// interpreter errors.
pub open spec fn run_main(m: Machine) -> Machine {
    let m1 = m.print(PrintT::Clear, "\nOutput:\n"@).print(PrintT::Clear, "-------------------------\n"@);
    let m2 = run_function(m.functions, "main"@, MAX_CALL_DEPTH as nat, m1);
    let m3 = m2.print(PrintT::Clear, "-------------------------\n"@);
    m3.print(PrintT::Cpu, "Interpreting the tokens returned "@ + nat_text(m3.console.cpu_errors) + " errors"@)
}

/// Where dispatch resumes after the instruction at index `j` (see `next_index`).
fn next_index_exec(ts: &Vec<Token>, j: usize) -> (r: usize)
    requires
        j < ts.len(),
    ensures
        r == next_index(tokens_view(ts@), j as int),
{
    let n = ts.len();
    let t = &ts[j];
    if matches!(t.token_type, TokenType::OpCode) {
        if same_text(t.value.as_str(), "push") || same_text(t.value.as_str(), "prnt")
            || same_text(t.value.as_str(), "call") {
            if n - j >= 2 { j + 2 } else { n }
        } else if same_text(t.value.as_str(), "mov") {
            if n - j >= 4 { j + 4 } else { n }
        } else {
            j + 1
        }
    } else if matches!(t.token_type, TokenType::Keyword) && same_text(t.value.as_str(), "let") {
        if j + 1 >= n {
            j + 1
        } else if !matches!(ts[j + 1].token_type, TokenType::VarName) {
            j + 2
        } else if n - j > 2 && matches!(ts[j + 2].token_type, TokenType::Comma) {
            if n - j >= 4 { j + 4 } else { n }
        } else if n - j >= 3 {
            j + 3
        } else {
            n
        }
    } else {
        j + 1
    }
}

/// The index of the first function named `name` (see `find_function`).
fn find_function_index(fs: &Vec<Function>, name: &str) -> (r: Option<usize>)
    ensures
        match r {
            Some(i) => find_function(functions_view(fs@), name@) == Some(i as int) && i < fs.len(),
            None => find_function(functions_view(fs@), name@) is None,
        },
{
    let ghost fv = functions_view(fs@);
    let mut i: usize = 0;
    while i < fs.len()
        invariant
            i <= fs.len(),
            fv == functions_view(fs@),
            find_function_from(fv, name@, i as int) == find_function(fv, name@),
        decreases fs.len() - i,
    {
        if same_text(fs[i].name.as_str(), name) {
            return Some(i);
        }
        i = i + 1;
    }
    None
}

/// The decimal text of `x`.
fn format_int_text(x: i128) -> (r: String)
    ensures
        r@ == int_text(x as int),
{
    let mut r = String::new();
    append_int(&mut r, x);
    r
}

/// The printed form of a stack (see `stack_text`).
pub(crate) fn format_stack(stack: &Vec<i128>) -> (r: String)
    ensures
        r@ == stack_text(stack@),
{
    let mut r = "[".to_owned();
    let mut i: usize = 0;
    let ghost start = r@;
    while i < stack.len()
        invariant
            i <= stack.len(),
            start == "["@,
            r@ == start + join_numbers(stack@.subrange(0, i as int)),
        decreases stack.len() - i,
    {
        if i > 0 {
            r.append(", ");
        }
        append_int(&mut r, stack[i]);
        proof {
            let sub = stack@.subrange(0, i + 1);
            assert(sub.drop_last() =~= stack@.subrange(0, i as int));
            if i == 0 {
                assert(stack@.subrange(0, i as int) =~= Seq::<i128>::empty());
                assert(join_numbers(sub) == int_text(sub[0] as int));
            }
        }
        i = i + 1;
    }
    assert(stack@.subrange(0, stack.len() as int) =~= stack@);
    r.append("]");
    r
}

impl CPU {
    /// Reports an interpreter error.
    fn fail(&mut self, message: &str)
        ensures
            final(self)@ == old(self)@.fail(message@),
    {
        printx(&mut self.console, PrintT::Error, message);
        cpu_error(&mut self.console);
    }

    /// The most recent binding of `var`, if any.
    pub fn try_get_var(&self, var: &str) -> (r: Option<Var>)
        ensures
            match r {
                Some(v) => find_var(self@.vars, var@) == Some(v@),
                None => find_var(self@.vars, var@) is None,
            },
    {
        let ghost vv = vars_view(self.vars@);
        let mut k: usize = self.vars.len();
        assert(vv.subrange(0, k as int) =~= vv);
        while k > 0
            invariant
                k <= self.vars.len(),
                vv == vars_view(self.vars@),
                find_var(vv.subrange(0, k as int), var@) == find_var(vv, var@),
            decreases k,
        {
            let ghost sub = vv.subrange(0, k as int);
            assert(sub.drop_last() =~= vv.subrange(0, k - 1));
            k = k - 1;
            let v = &self.vars[k];
            let name = match v {
                Var::String(x) => &x.name,
                Var::Number(x) => &x.name,
            };
            if same_text(name.as_str(), var) {
                return Some(v.clone());
            }
        }
        None
    }

    /// Prints the caret-annotated report of `error` (see `error_report`).
    pub fn cpu_line_error(&mut self, error: &str, line_string: &str, line_number: usize, error_loc: usize, error_line: &str)
        ensures
            final(self)@ == old(self)@.print(
                PrintT::Clear,
                error_report(error@, line_string@, line_number as nat, error_loc as nat, error_line@),
            ),
    {
        let report = render_error(error, line_string, line_number, error_loc, error_line);
        printx(&mut self.console, PrintT::Clear, report.as_str());
    }

    /// The port that a port word names (see `port_index`).
    fn port_of(&self, w: &str) -> (r: Option<usize>)
        ensures
            match r {
                Some(p) => port_index(w@) == Some(p as int) && p < PORTS,
                None => port_index(w@) is None,
            },
    {
        match self.get_port_from_str(w) {
            Some(p) => if p < PORTS { Some(p) } else { None },
            None => None,
        }
    }

    /// Applies a stack arithmetic instruction (see `arith_effect`).
    fn arith(&mut self, op: Arith)
        ensures
            final(self)@ == arith_effect(op, old(self)@),
    {
        let n = self.stack.len();
        if n < 2 {
            self.fail("Not enough values on the Stack");
            return;
        }
        let a = self.stack[n - 1];
        let b = self.stack[n - 2];
        let r = match op {
            Arith::Add => a.checked_add(b),
            Arith::Sub => a.checked_sub(b),
            Arith::Mul => a.checked_mul(b),
            Arith::Div => {
                if b == 0 {
                    self.fail("Division by zero");
                    return;
                }
                a.checked_div(b)
            },
        };
        match r {
            Some(v) => {
                self.stack.pop();
                self.stack.pop();
                self.stack.push(v);
            },
            None => {
                self.fail("Arithmetic overflow");
            },
        }
    }

    /// The value that `mov` reads from `src` (see `mov_source`).
    fn mov_source_exec(&self, src: &Token, target: &str) -> (r: Result<i128, String>)
        ensures
            match r {
                Ok(x) => mov_source(src@, self@, target@) == Ok::<i128, Seq<char>>(x),
                Err(e) => mov_source(src@, self@, target@) == Err::<i128, Seq<char>>(e@),
            },
    {
        match &src.token_type {
            TokenType::Number(x) => Ok(*x),
            TokenType::Port => match self.port_of(src.value.as_str()) {
                Some(p) => Ok(self.port[p]),
                None => Err("Invalid Port".to_owned()),
            },
            _ => {
                let mut e = "You can only move a number or the value of a Port to ".to_owned();
                e.append(target);
                Err(e)
            },
        }
    }

    /// Runs `mov dst , src` (see `mov_effect`).
    fn mov_instr(&mut self, dst: &Token, comma: &Token, src: &Token)
        ensures
            final(self)@ == mov_effect(dst@, comma@, src@, old(self)@),
    {
        if !matches!(comma.token_type, TokenType::Comma) {
            self.fail("Expected Comma");
        }
        match &dst.token_type {
            TokenType::Port => match self.port_of(dst.value.as_str()) {
                Some(p) => match self.mov_source_exec(src, "this Port") {
                    Ok(x) => {
                        self.port[p] = x;
                    },
                    Err(e) => self.fail(e.as_str()),
                },
                None => self.fail("Invalid Port"),
            },
            TokenType::Accumulator => match self.mov_source_exec(src, "the Accumulator") {
                Ok(x) => {
                    self.accumulator = x;
                },
                Err(e) => self.fail(e.as_str()),
            },
            _ => self.fail("Expected Port or Accu!"),
        }
    }

    /// Runs `prnt` at index `j` of `line`, body line `li` (see `prnt_effect`).
    fn prnt_instr(&mut self, line: &Line, j: usize, li: usize)
        requires
            j < line.tokens.len(),
        ensures
            final(self)@ == prnt_effect(line@.tokens, j as int, line@.text, li as nat, old(self)@),
    {
        if j + 1 >= line.tokens.len() {
            proof {
                reveal_strlit("");
            }
            assert(""@ =~= Seq::<char>::empty());
            cpu_error(&mut self.console);
            self.cpu_line_error("expected token after prnt statement", line.as_string.as_str(), li, 1, "");
            return;
        }
        let t = &line.tokens[j + 1];
        match &t.token_type {
            TokenType::String => printx(&mut self.console, PrintT::Clear, t.value.as_str()),
            TokenType::Number(x) => {
                let text = format_int_text(*x);
                printx(&mut self.console, PrintT::Clear, text.as_str());
            },
            TokenType::Accumulator => {
                let text = format_int_text(self.accumulator);
                printx(&mut self.console, PrintT::Clear, text.as_str());
            },
            TokenType::Stack => {
                let text = format_stack(&self.stack);
                printx(&mut self.console, PrintT::Clear, text.as_str());
            },
            TokenType::Port => match self.port_of(t.value.as_str()) {
                Some(p) => {
                    let text = format_int_text(self.port[p]);
                    printx(&mut self.console, PrintT::Clear, text.as_str());
                },
                None => self.fail("Invalid Port"),
            },
            _ => match self.try_get_var(t.value.as_str()) {
                Some(Var::String(x)) => printx(&mut self.console, PrintT::Clear, x.value.as_str()),
                Some(Var::Number(x)) => {
                    let text = format_int_text(x.value);
                    printx(&mut self.console, PrintT::Clear, text.as_str());
                },
                None => {
                    cpu_error(&mut self.console);
                    let mut e = "cannot find value `".to_owned();
                    e.append(t.value.as_str());
                    e.append("` in this scope");
                    self.cpu_line_error(e.as_str(), line.as_string.as_str(), li, 1, "not found in this scope");
                },
            },
        }
    }

    /// Runs the keyword at index `j` of `line` (see `keyword_effect`).
    pub fn run_keywords(&mut self, line: &Line, j: usize)
        requires
            j < line.tokens.len(),
        ensures
            final(self)@ == keyword_effect(line@.tokens, j as int, old(self)@),
    {
        let ts = &line.tokens;
        if !same_text(ts[j].value.as_str(), "let") {
            return;
        }
        if j + 1 >= ts.len() {
            self.fail("Expected Arguments after let");
            return;
        }
        let nt = &ts[j + 1];
        if !matches!(nt.token_type, TokenType::VarName) {
            self.fail("Expected variable name");
            return;
        }
        if ts.len() - j <= 2 {
            self.fail("Expected Comma");
            self.fail("Expected value for let");
            return;
        }
        if matches!(ts[j + 2].token_type, TokenType::Comma) {
            if ts.len() - j > 3 {
                self.bind(nt, &ts[j + 3]);
            } else {
                self.fail("Expected value for let");
            }
        } else {
            self.fail("Expected Comma");
            self.bind(nt, &ts[j + 2]);
        }
    }

    /// Binds the name of `nt` to the value token `v` (see `bind_effect`).
    fn bind(&mut self, nt: &Token, v: &Token)
        ensures
            final(self)@ == bind_effect(old(self)@, nt.value@, v@),
    {
        let ghost before = vars_view(self.vars@);
        match &v.token_type {
            TokenType::String => {
                self.vars.push(Var::String(StringVar { name: nt.value.clone(), value: v.value.clone() }));
                assert(vars_view(self.vars@) =~= before.push(Binding::Text { name: nt.value@, value: v.value@ }));
            },
            TokenType::Number(x) => {
                self.vars.push(Var::Number(NumberVar { name: nt.value.clone(), value: *x }));
                assert(vars_view(self.vars@) =~= before.push(Binding::Num { name: nt.value@, value: *x }));
            },
            _ => self.fail("You can only store Strings and Numbers inside a Variable"),
        }
    }

    /// Runs the opcode at index `j` of `line`, body line `li`, with calls
    /// allowed to nest `depth` more levels (see `run_instruction`).
    pub fn run_opcodes(&mut self, fs: &Vec<Function>, line: &Line, j: usize, li: usize, depth: usize)
        requires
            j < line.tokens.len(),
            line@.tokens[j as int].kind == Kind::OpCode,
        ensures
            final(self)@ == run_instruction(functions_view(fs@), line@, li as nat, j as int, depth as nat, old(self)@),
        decreases depth, 0nat,
    {
        let ts = &line.tokens;
        let v = ts[j].value.as_str();
        if same_text(v, "call") {
            if j + 1 < ts.len() {
                if depth > 0 {
                    self.run_function_in(fs, ts[j + 1].value.as_str(), depth - 1);
                } else {
                    self.fail("maximum call depth exceeded");
                }
            } else {
                self.fail("Expected function name after call statement");
            }
        } else if same_text(v, "push") {
            if j + 1 < ts.len() {
                match &ts[j + 1].token_type {
                    TokenType::Number(x) => self.stack.push(*x),
                    _ => self.fail("You can only push Numbers to the Stack!"),
                }
            } else {
                self.fail("Expected Number after push");
            }
        } else if same_text(v, "pop") {
            if self.stack.len() > 0 {
                self.stack.pop();
            }
        } else if same_text(v, "mov") {
            if ts.len() - j > 3 {
                self.mov_instr(&ts[j + 1], &ts[j + 2], &ts[j + 3]);
            } else {
                self.fail("Expected more Tokens after mov");
                printx(&mut self.console, PrintT::Syntax, "mov <Port or Accu> <,> <value>");
            }
        } else if same_text(v, "adds") {
            self.arith(Arith::Add);
        } else if same_text(v, "subs") {
            self.arith(Arith::Sub);
        } else if same_text(v, "muls") {
            self.arith(Arith::Mul);
        } else if same_text(v, "divs") {
            self.arith(Arith::Div);
        } else if same_text(v, "prnt") {
            self.prnt_instr(line, j, li);
        }
    }

    /// Runs the instruction at index `j` of `line` (see `run_instruction`).
    fn run_instruction_at(&mut self, fs: &Vec<Function>, line: &Line, j: usize, li: usize, depth: usize)
        requires
            j < line.tokens.len(),
        ensures
            final(self)@ == run_instruction(functions_view(fs@), line@, li as nat, j as int, depth as nat, old(self)@),
        decreases depth, 1nat,
    {
        let t = &line.tokens[j];
        match &t.token_type {
            TokenType::OpCode => self.run_opcodes(fs, line, j, li, depth),
            TokenType::Keyword => self.run_keywords(line, j),
            TokenType::JumpLocation(_) => {},
            TokenType::Bracket => {},
            TokenType::String => {},
            TokenType::Comment => {},
            TokenType::NewLine => {
                let mut nl = String::new();
                push_char(&mut nl, '\n');
                printx(&mut self.console, PrintT::Clear, nl.as_str());
            },
            _ => {
                let mut e = "unexpected token '".to_owned();
                e.append(t.value.as_str());
                e.append("' at line ");
                append_nat(&mut e, li as u128);
                self.fail(e.as_str());
            },
        }
    }

    /// Runs the lines `lines` in order (see `run_lines`).
    fn run_lines(&mut self, fs: &Vec<Function>, lines: &Vec<Line>, depth: usize)
        ensures
            final(self)@ == run_lines(functions_view(fs@), lines_view(lines@), 0, depth as nat, old(self)@),
        decreases depth, 2nat,
    {
        let ghost fv = functions_view(fs@);
        let ghost lv = lines_view(lines@);
        let ghost m0 = self@;
        let mut li: usize = 0;
        while li < lines.len()
            invariant
                li <= lines.len(),
                fv == functions_view(fs@),
                lv == lines_view(lines@),
                run_lines(fv, lv, li as int, depth as nat, self@) == run_lines(fv, lv, 0, depth as nat, m0),
            decreases lines.len() - li,
        {
            let line = &lines[li];
            let ghost start = self@;
            assert(lv[li as int] == line@);
            let mut j: usize = 0;
            while j < line.tokens.len()
                invariant
                    j <= line.tokens.len(),
                    fv == functions_view(fs@),
                    run_tokens(fv, line@, li as nat, j as int, depth as nat, self@)
                        == run_tokens(fv, line@, li as nat, 0, depth as nat, start),
                decreases line.tokens.len() - j,
            {
                let next = next_index_exec(&line.tokens, j);
                self.run_instruction_at(fs, line, j, li, depth);
                j = next;
            }
            li = li + 1;
        }
    }

    /// Runs the first function named `name` with calls allowed to nest
    /// `depth` more levels, then clears every variable (see `run_function`).
    fn run_function_in(&mut self, fs: &Vec<Function>, name: &str, depth: usize)
        ensures
            final(self)@ == run_function(functions_view(fs@), name@, depth as nat, old(self)@),
        decreases depth, 3nat,
    {
        match find_function_index(fs, name) {
            Some(i) => {
                self.run_lines(fs, &fs[i].lines, depth);
                self.vars = Vec::new();
                assert(vars_view(self.vars@) =~= Seq::<Binding>::empty());
            },
            None => {
                let mut e = "function `".to_owned();
                e.append(name);
                e.append("` not found");
                self.fail(e.as_str());
            },
        }
    }

    /// Runs the first function of the program named `name`, with calls
    /// allowed to nest `MAX_CALL_DEPTH` levels, then clears every variable.
    pub fn run_function(&mut self, name: &str)
        ensures
            final(self)@ == run_function(old(self)@.functions, name@, MAX_CALL_DEPTH as nat, old(self)@),
    {
        let fs = clone_functions(&self.functions);
        self.run_function_in(&fs, name, MAX_CALL_DEPTH);
    }

    /// Runs the program's `main` function between an output banner, then
    /// reports how many interpreter errors were counted (see `run_main`).
    pub fn run_main(&mut self)
        ensures
            final(self)@ == run_main(old(self)@),
    {
        let fs = clone_functions(&self.functions);
        printx(&mut self.console, PrintT::Clear, "\nOutput:\n");
        printx(&mut self.console, PrintT::Clear, "-------------------------\n");
        self.run_function_in(&fs, "main", MAX_CALL_DEPTH);
        printx(&mut self.console, PrintT::Clear, "-------------------------\n");
        let mut m = "Interpreting the tokens returned ".to_owned();
        append_nat(&mut m, self.console.cpu_errors as u128);
        m.append(" errors");
        printx(&mut self.console, PrintT::Cpu, m.as_str());
    }
}

} // verus!
