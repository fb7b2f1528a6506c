//! The machine state as a JSON object.
use vstd::prelude::*;
use crate::cpu::{CPU, Binding, Var, vars_view};
use crate::interp::stack_text;
use crate::text::{int_text, nat_text, digit_char, append_int, append_nat, push_char, chars_of};

verus! {

/// The entry of port `i` holding `v`: `"i":"v"`.
pub open spec fn port_entry(i: nat, v: i128) -> Seq<char> {
    seq!['"'] + nat_text(i) + seq!['"', ':', '"'] + int_text(v as int) + seq!['"']
}

/// The entries of the ports `p`, separated by commas.
pub open spec fn ports_json(p: Seq<i128>) -> Seq<char>
    decreases p.len(),
{
    if p.len() == 0 {
        seq![]
    } else if p.len() == 1 {
        port_entry(0, p[0])
    } else {
        ports_json(p.drop_last()) + seq![','] + port_entry((p.len() - 1) as nat, p.last())
    }
}

/// The hexadecimal digit for `d` (which must be below sixteen).
pub open spec fn hex_digit(d: nat) -> char {
    if d < 10 { digit_char(d) } else { ((d - 10) + 'a' as u32) as char }
}

/// A character as it stands inside a JSON string: quotes, backslashes and
/// control characters are escaped.
pub open spec fn json_char(c: char) -> Seq<char> {
    if c == '"' {
        seq!['\\', '"']
    } else if c == '\\' {
        seq!['\\', '\\']
    } else if c == '\n' {
        seq!['\\', 'n']
    } else if c == '\r' {
        seq!['\\', 'r']
    } else if c == '\t' {
        seq!['\\', 't']
    } else if (c as u32) < 0x20 {
        seq!['\\', 'u', '0', '0', hex_digit((c as u32 / 16) as nat), hex_digit((c as u32 % 16) as nat)]
    } else {
        seq![c]
    }
}

/// Text as it stands inside a JSON string (see `json_char`).
pub open spec fn json_escape(s: Seq<char>) -> Seq<char>
    decreases s.len(),
{
    if s.len() == 0 {
        seq![]
    } else {
        json_escape(s.drop_last()) + json_char(s.last())
    }
}

/// The entry of a binding: `{"name":"NAME","value":"VALUE"}`.
pub open spec fn var_entry(b: Binding) -> Seq<char> {
    let (name, value) = match b {
        Binding::Text { name, value } => (name, json_escape(value)),
        Binding::Num { name, value } => (name, int_text(value as int)),
    };
    "{\"name\":\""@ + json_escape(name) + "\",\"value\":\""@ + value + "\"}"@
}

/// The hexadecimal digit for `d`.
fn hex_digit_exec(d: u32) -> (c: char)
    requires
        d < 16,
    ensures
        c == hex_digit(d as nat),
{
    if d < 10 {
        crate::text::digit_of(d as u128)
    } else {
        ((d - 10) + 'a' as u32) as u8 as char
    }
}

/// Appends `s` to `out` as it stands inside a JSON string (see `json_escape`).
fn append_escaped(out: &mut String, s: &str)
    ensures
        final(out)@ == old(out)@ + json_escape(s@),
{
    let chars = chars_of(s);
    let mut i: usize = 0;
    let ghost start = out@;
    assert(chars@.subrange(0, 0) =~= Seq::<char>::empty());
    while i < chars.len()
        invariant
            i <= chars.len(),
            chars@ == s@,
            out@ == start + json_escape(chars@.subrange(0, i as int)),
        decreases chars.len() - i,
    {
        let c = chars[i];
        let ghost before = out@;
        if c == '"' {
            push_char(out, '\\');
            push_char(out, '"');
        } else if c == '\\' {
            push_char(out, '\\');
            push_char(out, '\\');
        } else if c == '\n' {
            push_char(out, '\\');
            push_char(out, 'n');
        } else if c == '\r' {
            push_char(out, '\\');
            push_char(out, 'r');
        } else if c == '\t' {
            push_char(out, '\\');
            push_char(out, 't');
        } else if (c as u32) < 0x20 {
            push_char(out, '\\');
            push_char(out, 'u');
            push_char(out, '0');
            push_char(out, '0');
            push_char(out, hex_digit_exec(c as u32 / 16));
            push_char(out, hex_digit_exec(c as u32 % 16));
        } else {
            push_char(out, c);
        }
        assert(out@ =~= before + json_char(c));
        assert(chars@.subrange(0, i + 1).drop_last() =~= chars@.subrange(0, i as int));
        i = i + 1;
    }
    assert(chars@.subrange(0, chars.len() as int) =~= chars@);
}

/// The entries of the bindings `vs`, separated by commas.
pub open spec fn vars_json(vs: Seq<Binding>) -> Seq<char>
    decreases vs.len(),
{
    if vs.len() == 0 {
        seq![]
    } else if vs.len() == 1 {
        var_entry(vs[0])
    } else {
        vars_json(vs.drop_last()) + seq![','] + var_entry(vs.last())
    }
}

/// The state of a machine as a JSON object: its stack as an array, each
/// port by its number, the variables in order, and the accumulator.
pub open spec fn machine_json(stack: Seq<i128>, port: Seq<i128>, vars: Seq<Binding>, accumulator: i128) -> Seq<char> {
    "{\"stack\":"@ + stack_text(stack) + ",\"ports\":{"@ + ports_json(port) + "},\"vars\":["@
        + vars_json(vars) + "],\"accumulator\":\""@ + int_text(accumulator as int) + "\"}"@
}

impl CPU {
    /// The machine state as a JSON object (see `machine_json`).
    pub fn get_json(&self) -> (r: String)
        ensures
            r@ == machine_json(self@.stack, self@.port, self@.vars, self@.accumulator),
    {
        let mut output = "{\"stack\":".to_owned();
        let stack = crate::interp::format_stack(&self.stack);
        output.append(stack.as_str());
        output.append(",\"ports\":{");
        let ghost head = output@;
        let mut i: usize = 0;
        while i < 8
            invariant
                i <= 8,
                self@.port.len() == 8,
                output@ == head + ports_json(self@.port.subrange(0, i as int)),
            decreases 8 - i,
        {
            let ghost sub = self@.port.subrange(0, i + 1);
            assert(sub.drop_last() =~= self@.port.subrange(0, i as int));
            if i > 0 {
                push_char(&mut output, ',');
            }
            push_char(&mut output, '"');
            append_nat(&mut output, i as u128);
            push_char(&mut output, '"');
            push_char(&mut output, ':');
            push_char(&mut output, '"');
            append_int(&mut output, self.port[i]);
            push_char(&mut output, '"');
            proof {
                if i == 0 {
                    assert(self@.port.subrange(0, 0) =~= Seq::<i128>::empty());
                }
                assert(output@ =~= head + ports_json(sub));
            }
            i = i + 1;
        }
        assert(self@.port.subrange(0, 8) =~= self@.port);
        output.append("},\"vars\":[");
        let ghost head2 = output@;
        let ghost vv = vars_view(self.vars@);
        let mut k: usize = 0;
        while k < self.vars.len()
            invariant
                k <= self.vars.len(),
                vv == vars_view(self.vars@),
                output@ == head2 + vars_json(vv.subrange(0, k as int)),
            decreases self.vars.len() - k,
        {
            let ghost sub = vv.subrange(0, k + 1);
            assert(sub.drop_last() =~= vv.subrange(0, k as int));
            if k > 0 {
                push_char(&mut output, ',');
            }
            output.append("{\"name\":\"");
            match &self.vars[k] {
                Var::String(x) => {
                    append_escaped(&mut output, x.name.as_str());
                    output.append("\",\"value\":\"");
                    append_escaped(&mut output, x.value.as_str());
                },
                Var::Number(x) => {
                    append_escaped(&mut output, x.name.as_str());
                    output.append("\",\"value\":\"");
                    append_int(&mut output, x.value);
                },
            }
            output.append("\"}");
            proof {
                if k == 0 {
                    assert(vv.subrange(0, 0) =~= Seq::<Binding>::empty());
                }
                assert(output@ =~= head2 + vars_json(sub));
            }
            k = k + 1;
        }
        assert(vv.subrange(0, self.vars.len() as int) =~= vv);
        output.append("],\"accumulator\":\"");
        append_int(&mut output, self.accumulator);
        output.append("\"}");
        output
    }
}

} // verus!
