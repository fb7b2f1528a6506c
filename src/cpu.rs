//! The machine state: stack, ports, accumulator, variables and functions.
use vstd::prelude::*;
use crate::console::{Console, ConsoleView, PrintT, printx};
use crate::text::{parse_unsigned, parse_u64, chars_of, nat_text, append_nat};
use vstd::arithmetic::div_mod::{lemma_div_is_ordered_by_denominator, lemma_div_pos_is_pos};
use crate::token::{Function, FunctionView, JumpLocation, JumpView, functions_view, jumps_view};

verus! {

/// A variable bound to a string.
#[derive(Debug)]
pub struct StringVar {
    pub name: String,
    pub value: String,
}

/// A variable bound to a number.
#[derive(Debug)]
pub struct NumberVar {
    pub name: String,
    pub value: i128,
}

/// A variable binding.
#[derive(Debug)]
pub enum Var {
    String(StringVar),
    Number(NumberVar),
}

/// The view of a variable binding.
#[allow(inconsistent_fields)]
pub enum Binding {
    Text { name: Seq<char>, value: Seq<char> },
    Num { name: Seq<char>, value: i128 },
}

impl Binding {
    /// The bound name.
    pub open spec fn name(self) -> Seq<char> {
        match self {
            Binding::Text { name, .. } => name,
            Binding::Num { name, .. } => name,
        }
    }
}

impl View for Var {
    type V = Binding;

    open spec fn view(&self) -> Binding {
        match self {
            Var::String(x) => Binding::Text { name: x.name@, value: x.value@ },
            Var::Number(x) => Binding::Num { name: x.name@, value: x.value },
        }
    }
}

impl Clone for Var {
    fn clone(&self) -> (r: Self)
        ensures
            r@ == self@,
    {
        match self {
            Var::String(x) => Var::String(StringVar { name: x.name.clone(), value: x.value.clone() }),
            Var::Number(x) => Var::Number(NumberVar { name: x.name.clone(), value: x.value }),
        }
    }
}

/// The views of a sequence of bindings.
pub open spec fn vars_view(vs: Seq<Var>) -> Seq<Binding> {
    vs.map_values(|v: Var| v@)
}

/// The number of ports.
pub const PORTS: usize = 8;

/// The view of the machine.
pub struct Machine {
    pub stack: Seq<i128>,
    pub port: Seq<i128>,
    pub vars: Seq<Binding>,
    pub accumulator: i128,
    pub jump_locations: Seq<JumpView>,
    pub functions: Seq<FunctionView>,
    pub console: ConsoleView,
}

impl Machine {
    /// The machine after an interpreter error reported with `message`.
    pub open spec fn fail(self, message: Seq<char>) -> Machine {
        Machine { console: self.console.fail(message), ..self }
    }

    /// The machine after printing `message` in style `t`.
    pub open spec fn print(self, t: PrintT, message: Seq<char>) -> Machine {
        Machine { console: self.console.print(t, message), ..self }
    }

    /// The most recent binding of `name`.
    pub open spec fn lookup(self, name: Seq<char>) -> Option<Binding> {
        find_var(self.vars, name)
    }
}

/// The last binding of `name` in `vars`.
pub open spec fn find_var(vars: Seq<Binding>, name: Seq<char>) -> Option<Binding>
    decreases vars.len(),
{
    if vars.len() == 0 {
        None
    } else if vars.last().name() == name {
        Some(vars.last())
    } else {
        find_var(vars.drop_last(), name)
    }
}

/// The number after the first character of a port word, when there is one.
pub open spec fn port_number(w: Seq<char>) -> Option<nat> {
    if w.len() == 0 {
        None
    } else {
        match parse_unsigned(w.drop_first()) {
            Some(v) => if v <= usize::MAX { Some(v) } else { None },
            None => None,
        }
    }
}

/// The port that a port word names, when it names one of the eight.
pub open spec fn port_index(w: Seq<char>) -> Option<int> {
    match port_number(w) {
        Some(v) => if v < PORTS { Some(v as int) } else { None },
        None => None,
    }
}

/// `x` divided by `d`, rounded toward zero.
pub open spec fn trunc_div(x: int, d: int) -> int {
    if x == 0 {
        0
    } else if x > 0 && d > 0 {
        x / d
    } else if x < 0 && d < 0 {
        (-x) / (-d)
    } else if x < 0 {
        -((-x) / d)
    } else {
        -(x / (-d))
    }
}

/// Division rounded toward zero fits in 128 bits, except `i128::MIN / -1`.
pub proof fn lemma_trunc_div_fits(x: int, d: int)
    requires
        i128::MIN <= x <= i128::MAX,
        d != 0,
        !(x == i128::MIN && d == -1),
    ensures
        i128::MIN <= trunc_div(x, d) <= i128::MAX,
{
    if x > 0 && d > 0 {
        lemma_div_is_ordered_by_denominator(x, 1, d);
        lemma_div_pos_is_pos(x, d);
    } else if x < 0 && d < 0 {
        lemma_div_pos_is_pos(-x, -d);
        if d == -1 {
            lemma_div_is_ordered_by_denominator(-x, 1, -d);
        } else {
            lemma_div_is_ordered_by_denominator(-x, 2, -d);
        }
    } else if x < 0 {
        lemma_div_is_ordered_by_denominator(-x, 1, d);
        lemma_div_pos_is_pos(-x, d);
    } else if x > 0 {
        lemma_div_is_ordered_by_denominator(x, 1, -d);
        lemma_div_pos_is_pos(x, -d);
    }
}

/// The position of the first `^` in `s`, or its length when there is none.
pub open spec fn caret_at(s: Seq<char>) -> int
    decreases s.len(),
{
    if s.len() == 0 {
        0
    } else if s[0] == '^' {
        0
    } else {
        1 + caret_at(s.drop_first())
    }
}

/// `caret_at` is the first index that holds `^`.
proof fn lemma_first_index(s: Seq<char>, k: int)
    requires
        0 <= k <= s.len(),
        forall|j: int| 0 <= j < k ==> s[j] != '^',
        k == s.len() || s[k] == '^',
    ensures
        caret_at(s) == k,
    decreases k,
{
    if k > 0 {
        lemma_first_index(s.drop_first(), k - 1);
    }
}

/// The report of text that `setb` cannot read.
pub open spec fn setb_parse_error(s: Seq<char>) -> Seq<char> {
    "Error parsing: "@ + s + "\n"@
}

/// The effect of `setb` on text `s`: the port is the number after the first
/// character of the part before the first `^`; the bit is the number between
/// the first `^` and the next one (or the end). Ports from 8 on and bits
/// beyond 63 are refused with a message.
pub open spec fn setb_effect(m: Machine, s: Seq<char>) -> Machine {
    let k1 = caret_at(s);
    if k1 >= s.len() {
        m.print(PrintT::Clear, setb_parse_error(s))
    } else {
        let rest = s.skip(k1 + 1);
        let first = s.take(k1);
        let second = rest.take(caret_at(rest));
        match (port_number(first), parse_unsigned(second)) {
            (Some(p), Some(b)) => if b > usize::MAX {
                m.print(PrintT::Clear, setb_parse_error(s))
            } else if p >= PORTS {
                m.print(PrintT::Clear, "Port: "@ + nat_text(p) + " out of bounds (0 - 7)\n"@)
            } else if b > 63 {
                m.print(
                    PrintT::Clear,
                    "Setting the "@ + nat_text(b) + "th bit will lead to a stack overflow (max is 63)\n"@,
                )
            } else {
                Machine {
                    port: m.port.update(p as int, m.port[p as int] | (1i128 << (b as u32))),
                    ..m
                }
            },
            _ => m.print(PrintT::Clear, setb_parse_error(s)),
        }
    }
}

/// The register/stack machine together with the program it runs.
#[derive(Debug)]
pub struct CPU {
    pub stack: Vec<i128>,
    pub port: [i128; 8],
    pub vars: Vec<Var>,
    pub accumulator: i128,
    pub jump_locations: Vec<JumpLocation>,
    pub functions: Vec<Function>,
    pub console: Console,
}

impl View for CPU {
    type V = Machine;

    open spec fn view(&self) -> Machine {
        Machine {
            stack: self.stack@,
            port: self.port@,
            vars: vars_view(self.vars@),
            accumulator: self.accumulator,
            jump_locations: jumps_view(self.jump_locations@),
            functions: functions_view(self.functions@),
            console: self.console@,
        }
    }
}

/// A fresh machine: everything empty or zero.
pub open spec fn fresh_machine() -> Machine {
    Machine {
        stack: seq![],
        port: seq![0, 0, 0, 0, 0, 0, 0, 0],
        vars: seq![],
        accumulator: 0,
        jump_locations: seq![],
        functions: seq![],
        console: ConsoleView { output: seq![], cpu_errors: 0, lexer_errors: 0 },
    }
}

impl CPU {
    /// A machine with an empty stack, zero ports and accumulator, no
    /// variables, no functions and an empty console.
    pub fn new() -> (r: Result<CPU, String>)
        ensures
            r is Ok && r->Ok_0@ == fresh_machine(),
    {
        let cpu = CPU {
            stack: Vec::new(),
            port: [0, 0, 0, 0, 0, 0, 0, 0],
            vars: Vec::new(),
            accumulator: 0,
            jump_locations: Vec::new(),
            functions: Vec::new(),
            console: Console::new(),
        };
        assert(cpu@.port =~= seq![0i128, 0, 0, 0, 0, 0, 0, 0]);
        assert(cpu@.vars =~= seq![]);
        assert(cpu@.jump_locations =~= seq![]);
        assert(cpu@.functions =~= seq![]);
        Ok(cpu)
    }

    /// The stack, bottom first.
    pub fn get_stack(&self) -> (r: &Vec<i128>)
        ensures
            r@ == self@.stack,
    {
        &self.stack
    }

    /// The value of port `port`.
    pub fn get_port(&self, port: usize) -> (r: i128)
        requires
            port < PORTS,
        ensures
            r == self@.port[port as int],
    {
        self.port[port]
    }

    /// The accumulator.
    pub fn get_accumulator(&self) -> (r: &i128)
        ensures
            *r == self@.accumulator,
    {
        &self.accumulator
    }

    /// The jump locations recorded.
    pub fn get_jump_locations(&self) -> (r: &Vec<JumpLocation>)
        ensures
            jumps_view(r@) == self@.jump_locations,
    {
        &self.jump_locations
    }

    /// All problems reported so far, by the tokenizer and the interpreter,
    /// stopping at the largest `usize`.
    pub fn error_count(&self) -> (r: usize)
        ensures
            r == if self@.console.error_count() <= usize::MAX { self@.console.error_count() } else { usize::MAX as nat },
    {
        if self.console.cpu_errors <= usize::MAX - self.console.lexer_errors {
            self.console.cpu_errors + self.console.lexer_errors
        } else {
            usize::MAX
        }
    }

    /// Pushes `value` onto the stack.
    pub fn push_to_stack(&mut self, value: i128)
        ensures
            final(self)@ == (Machine { stack: old(self)@.stack.push(value), ..old(self)@ }),
    {
        self.stack.push(value);
    }

    /// Pops the top of the stack, if there is one.
    pub fn pop_from_stack(&mut self) -> (r: Option<i128>)
        ensures
            old(self)@.stack.len() == 0 ==> r is None && final(self)@ == old(self)@,
            old(self)@.stack.len() > 0 ==> r == Some(old(self)@.stack.last())
                && final(self)@ == (Machine { stack: old(self)@.stack.drop_last(), ..old(self)@ }),
    {
        self.stack.pop()
    }

    /// Records a jump location.
    pub fn add_jump_location(&mut self, name: String, line: usize)
        ensures
            final(self)@ == (Machine {
                jump_locations: old(self)@.jump_locations.push(JumpView { name: name@, line: line as nat }),
                ..old(self)@
            }),
    {
        let ghost before = jumps_view(self.jump_locations@);
        self.jump_locations.push(JumpLocation { name, line });
        assert(jumps_view(self.jump_locations@) =~= before.push(JumpView { name: name@, line: line as nat }));
    }

    /// The number after the first character of `port_str`, when it spells
    /// one that fits in a `usize`.
    pub fn get_port_from_str(&self, port_str: &str) -> (r: Option<usize>)
        ensures
            r is Some <==> port_number(port_str@) is Some,
            r is Some ==> r->0 == port_number(port_str@)->0,
    {
        let n = port_str.unicode_len();
        if n == 0 {
            return None;
        }
        let digits = port_str.substring_char(1, n);
        assert(digits@ =~= port_str@.drop_first());
        match parse_u64(digits) {
            Some(v) => {
                if v as u128 <= usize::MAX as u128 {
                    Some(v as usize)
                } else {
                    None
                }
            },
            None => None,
        }
    }

    /// Sets port `port` to `value`.
    pub fn mov(&mut self, port: usize, value: i128)
        requires
            port < PORTS,
        ensures
            final(self)@ == (Machine { port: old(self)@.port.update(port as int, value), ..old(self)@ }),
    {
        self.port[port] = value;
    }

    /// Sets the accumulator to `value`.
    pub fn mova(&mut self, value: i128)
        ensures
            final(self)@ == (Machine { accumulator: value, ..old(self)@ }),
    {
        self.accumulator = value;
    }

    /// Copies port `port` into the accumulator.
    pub fn mova_p(&mut self, port: usize)
        requires
            port < PORTS,
        ensures
            final(self)@ == (Machine { accumulator: old(self)@.port[port as int], ..old(self)@ }),
    {
        self.accumulator = self.port[port];
    }

    /// Replaces the two top stack values by their sum.
    pub fn add(&mut self)
        requires
            old(self)@.stack.len() >= 2,
            i128::MIN <= old(self)@.stack.last() + old(self)@.stack[old(self)@.stack.len() - 2] <= i128::MAX,
        ensures
            final(self)@ == (Machine {
                stack: old(self)@.stack.drop_last().drop_last().push(
                    (old(self)@.stack.last() + old(self)@.stack[old(self)@.stack.len() - 2]) as i128,
                ),
                ..old(self)@
            }),
    {
        let a = self.stack.pop().unwrap();
        let b = self.stack.pop().unwrap();
        self.stack.push(a + b);
    }

    /// Replaces the two top stack values by the top one minus the other.
    pub fn sub(&mut self)
        requires
            old(self)@.stack.len() >= 2,
            i128::MIN <= old(self)@.stack.last() - old(self)@.stack[old(self)@.stack.len() - 2] <= i128::MAX,
        ensures
            final(self)@ == (Machine {
                stack: old(self)@.stack.drop_last().drop_last().push(
                    (old(self)@.stack.last() - old(self)@.stack[old(self)@.stack.len() - 2]) as i128,
                ),
                ..old(self)@
            }),
    {
        let a = self.stack.pop().unwrap();
        let b = self.stack.pop().unwrap();
        self.stack.push(a - b);
    }

    /// Replaces the two top stack values by their product.
    pub fn mul(&mut self)
        requires
            old(self)@.stack.len() >= 2,
            i128::MIN <= old(self)@.stack.last() * old(self)@.stack[old(self)@.stack.len() - 2] <= i128::MAX,
        ensures
            final(self)@ == (Machine {
                stack: old(self)@.stack.drop_last().drop_last().push(
                    (old(self)@.stack.last() * old(self)@.stack[old(self)@.stack.len() - 2]) as i128,
                ),
                ..old(self)@
            }),
    {
        let a = self.stack.pop().unwrap();
        let b = self.stack.pop().unwrap();
        self.stack.push(a * b);
    }

    /// Replaces the two top stack values by the top one divided by the other,
    /// rounded toward zero.
    pub fn div(&mut self)
        requires
            old(self)@.stack.len() >= 2,
            old(self)@.stack[old(self)@.stack.len() - 2] != 0,
            !(old(self)@.stack.last() == i128::MIN && old(self)@.stack[old(self)@.stack.len() - 2] == -1),
        ensures
            final(self)@ == (Machine {
                stack: old(self)@.stack.drop_last().drop_last().push(
                    trunc_div(old(self)@.stack.last() as int, old(self)@.stack[old(self)@.stack.len() - 2] as int) as i128,
                ),
                ..old(self)@
            }),
    {
        let a = self.stack.pop().unwrap();
        let b = self.stack.pop().unwrap();
        proof {
            lemma_trunc_div_fits(a as int, b as int);
        }
        self.stack.push(a.checked_div(b).unwrap());
    }

    /// Adds port `port` to the accumulator.
    pub fn addp(&mut self, port: usize)
        requires
            port < PORTS,
            i128::MIN <= old(self)@.accumulator + old(self)@.port[port as int] <= i128::MAX,
        ensures
            final(self)@ == (Machine {
                accumulator: (old(self)@.accumulator + old(self)@.port[port as int]) as i128,
                ..old(self)@
            }),
    {
        self.accumulator = self.accumulator + self.port[port];
    }

    /// Subtracts port `port` from the accumulator.
    pub fn subp(&mut self, port: usize)
        requires
            port < PORTS,
            i128::MIN <= old(self)@.accumulator - old(self)@.port[port as int] <= i128::MAX,
        ensures
            final(self)@ == (Machine {
                accumulator: (old(self)@.accumulator - old(self)@.port[port as int]) as i128,
                ..old(self)@
            }),
    {
        self.accumulator = self.accumulator - self.port[port];
    }

    /// Decrements port `port` when it is not zero, then jumps to the named
    /// location.
    pub fn djnz(&mut self, port: usize, jmp_loc_name: String)
        requires
            port < PORTS,
            old(self)@.port[port as int] != i128::MIN,
        ensures
            old(self)@.port[port as int] != 0 ==> final(self)@ == (Machine {
                port: old(self)@.port.update(port as int, (old(self)@.port[port as int] - 1) as i128),
                ..old(self)@
            }),
            old(self)@.port[port as int] == 0 ==> final(self)@ == old(self)@,
    {
        if self.port[port] != 0 {
            self.port[port] = self.port[port] - 1;
            self.jmp(jmp_loc_name);
        }
    }

    /// Jumps to the named location: jumps have no effect on this machine.
    pub fn jmp(&mut self, _jmp_loc_name: String)
        ensures
            final(self)@ == old(self)@,
    {
    }

    /// Sets one bit of one port, as named by text of the form `P<port>^<bit>`
    /// (see `setb_effect`); malformed or out-of-range requests are reported.
    pub fn setb(&mut self, port_bit: String)
        ensures
            final(self)@ == setb_effect(old(self)@, port_bit@),
    {
        let chars = chars_of(port_bit.as_str());
        let n = chars.len();
        let mut k1: usize = 0;
        while k1 < n && chars[k1] != '^'
            invariant
                k1 <= n,
                n == chars@.len(),
                chars@ == port_bit@,
                forall|j: int| 0 <= j < k1 ==> chars@[j] != '^',
            decreases n - k1,
        {
            k1 = k1 + 1;
        }
        proof {
            lemma_first_index(port_bit@, k1 as int);
        }
        if k1 == n {
            self.report_setb_error(port_bit.as_str());
            return;
        }
        let mut k2: usize = k1 + 1;
        while k2 < n && chars[k2] != '^'
            invariant
                k1 < k2 <= n,
                n == chars@.len(),
                chars@ == port_bit@,
                forall|j: int| k1 < j < k2 ==> chars@[j] != '^',
            decreases n - k2,
        {
            k2 = k2 + 1;
        }
        proof {
            lemma_first_index(port_bit@.skip(k1 + 1), k2 - k1 - 1);
            assert(port_bit@.skip(k1 + 1).take(k2 - k1 - 1) =~= port_bit@.subrange(k1 + 1, k2 as int));
        }
        let first = port_bit.as_str().substring_char(0, k1);
        let second = port_bit.as_str().substring_char(k1 + 1, k2);
        let port = self.get_port_from_str(first);
        let bit = parse_u64(second);
        match (port, bit) {
            (Some(p), Some(b)) => {
                if b as u128 > usize::MAX as u128 {
                    self.report_setb_error(port_bit.as_str());
                } else if p >= PORTS {
                    let mut m = "Port: ".to_owned();
                    append_nat(&mut m, p as u128);
                    m.append(" out of bounds (0 - 7)\n");
                    printx(&mut self.console, PrintT::Clear, m.as_str());
                } else if b > 63 {
                    let mut m = "Setting the ".to_owned();
                    append_nat(&mut m, b as u128);
                    m.append("th bit will lead to a stack overflow (max is 63)\n");
                    printx(&mut self.console, PrintT::Clear, m.as_str());
                } else {
                    self.port[p] = self.port[p] | (1i128 << (b as u32));
                }
            },
            _ => {
                self.report_setb_error(port_bit.as_str());
            },
        }
    }

    /// Reports text that `setb` cannot read.
    fn report_setb_error(&mut self, port_bit: &str)
        ensures
            final(self)@ == old(self)@.print(PrintT::Clear, setb_parse_error(port_bit@)),
    {
        let mut m = "Error parsing: ".to_owned();
        m.append(port_bit);
        m.append("\n");
        printx(&mut self.console, PrintT::Clear, m.as_str());
    }
}

} // verus!
