//! Properties of the tokenizer and the interpreter, proved over their
//! specifications.
use vstd::prelude::*;
use crate::console::bump;
use crate::cpu::Machine;
use crate::interp::{run_tokens, run_instruction, run_function, find_function, at, next_index, unexpected_token};
use crate::console::PrintT;
use crate::diagnostics::error_report;
use crate::lexer::{tok, scan, finish, Scan, unexpected_word, is_opcode, is_bracket, number_of, tokenize_line};
use crate::text::split_words;
use crate::loader::lex_lines;
use crate::token::{Kind, TokenView, LineView, FunctionView};

verus! {

/// On any machine, the line `push X push Y subs` leaves `Y - X` on top of
/// the stack, above what was there before, and changes nothing else: the
/// value pushed last is the left operand. This always happens for numbers
/// that literals can spell; a difference beyond 128 bits is reported as an
/// overflow and leaves both values on the stack.
pub proof fn lemma_push_push_subs(
    fs: Seq<FunctionView>,
    l: LineView,
    li: nat,
    depth: nat,
    m: Machine,
    x: i128,
    xs: Seq<char>,
    y: i128,
    ys: Seq<char>,
)
    requires
        l.tokens == seq![
            tok(Kind::OpCode, "push"@),
            tok(Kind::Number(x), xs),
            tok(Kind::OpCode, "push"@),
            tok(Kind::Number(y), ys),
            tok(Kind::OpCode, "subs"@),
        ],
    ensures
        i128::MIN <= y - x <= i128::MAX ==> run_tokens(fs, l, li, 0, depth, m)
            == (Machine { stack: m.stack.push((y - x) as i128), ..m }),
        !(i128::MIN <= y - x <= i128::MAX) ==> run_tokens(fs, l, li, 0, depth, m)
            == (Machine { stack: m.stack.push(x).push(y), ..m }).fail("Arithmetic overflow"@),
        0 <= x <= u64::MAX && 0 <= y <= u64::MAX ==> run_tokens(fs, l, li, 0, depth, m)
            == (Machine { stack: m.stack.push((y - x) as i128), ..m }),
{
    reveal_strlit("push");
    reveal_strlit("subs");
    reveal_strlit("call");
    reveal_strlit("prnt");
    reveal_strlit("mov");
    reveal_strlit("pop");
    reveal_strlit("adds");
    assert("push"@[0] == 'p' && "subs"@[0] == 's' && "call"@[0] == 'c' && "prnt"@[0] == 'p');
    assert("mov"@[0] == 'm' && "pop"@[0] == 'p' && "adds"@[0] == 'a');
    assert("push"@[1] == 'u' && "prnt"@[1] == 'r' && "pop"@[1] == 'o');
    let ts = l.tokens;
    let m1 = Machine { stack: m.stack.push(x), ..m };
    let m2 = Machine { stack: m1.stack.push(y), ..m1 };
    let m3 = if i128::MIN <= y - x <= i128::MAX {
        Machine { stack: m.stack.push((y - x) as i128), ..m }
    } else {
        m2.fail("Arithmetic overflow"@)
    };
    assert(next_index(ts, 0) == 2);
    assert(run_instruction(fs, l, li, 0, depth, m) == m1);
    assert(next_index(ts, 2) == 4);
    assert(run_instruction(fs, l, li, 2, depth, m1) == m2);
    assert(next_index(ts, 4) == 5);
    assert(m2.stack.drop_last().drop_last() =~= m.stack);
    assert(run_instruction(fs, l, li, 4, depth, m2) == m3);
    assert(run_tokens(fs, l, li, 5, depth, m3) == m3);
    assert(run_tokens(fs, l, li, 4, depth, m2) == m3);
    assert(run_tokens(fs, l, li, 2, depth, m1) == m3);
}

/// A `call` that finds its function leaves no variable bound when it
/// returns, whatever the caller or the callee bound before: every later
/// lookup fails until a new `let`.
pub proof fn lemma_call_clears_vars(fs: Seq<FunctionView>, l: LineView, li: nat, j: int, depth: nat, m: Machine, name: Seq<char>)
    requires
        0 <= j < l.tokens.len(),
        l.tokens[j] == tok(Kind::OpCode, "call"@),
        at(l.tokens, j + 1) matches Some(t) && t.value == name,
        find_function(fs, name) is Some,
        depth > 0,
    ensures
        run_instruction(fs, l, li, j, depth, m).vars == Seq::<crate::cpu::Binding>::empty(),
        forall|v: Seq<char>| run_instruction(fs, l, li, j, depth, m).lookup(v) is None,
{
    let r = run_instruction(fs, l, li, j, depth, m);
    assert(r == run_function(fs, name, (depth - 1) as nat, m));
    assert(r.vars =~= Seq::<crate::cpu::Binding>::empty());
}

/// After `call g` returns (whether or not `g` binds variables), `prnt x`
/// finds no `x`: it counts one interpreter error and prints only the
/// caret report for `x`, changing nothing else.
pub proof fn lemma_call_then_prnt_unresolved(
    fs: Seq<FunctionView>,
    l: LineView,
    li: nat,
    depth: nat,
    m: Machine,
    g: Seq<char>,
    x: Seq<char>,
)
    requires
        l.tokens == seq![
            tok(Kind::OpCode, "call"@),
            tok(Kind::FunctionName, g),
            tok(Kind::OpCode, "prnt"@),
            tok(Kind::Generic, x),
        ],
        find_function(fs, g) is Some,
        depth > 0,
    ensures
        ({
            let after_call = run_function(fs, g, (depth - 1) as nat, m);
            run_tokens(fs, l, li, 0, depth, m) == (Machine {
                console: after_call.console.cpu_error().print(
                    PrintT::Clear,
                    error_report("cannot find value `"@ + x + "` in this scope"@, l.text, li, 1, "not found in this scope"@),
                ),
                ..after_call
            })
        }),
{
    reveal_strlit("push");
    reveal_strlit("call");
    reveal_strlit("prnt");
    reveal_strlit("mov");
    reveal_strlit("pop");
    reveal_strlit("adds");
    reveal_strlit("subs");
    reveal_strlit("muls");
    reveal_strlit("divs");
    assert("push"@[0] == 'p' && "call"@[0] == 'c' && "prnt"@[0] == 'p' && "mov"@[0] == 'm');
    assert("pop"@[0] == 'p' && "adds"@[0] == 'a' && "subs"@[0] == 's' && "muls"@[0] == 'm');
    assert("divs"@[0] == 'd' && "push"@[1] == 'u' && "prnt"@[1] == 'r' && "pop"@[1] == 'o');
    let ts = l.tokens;
    let after_call = run_function(fs, g, (depth - 1) as nat, m);
    lemma_call_clears_vars(fs, l, li, 0, depth, m, g);
    assert(next_index(ts, 0) == 2);
    assert(run_instruction(fs, l, li, 0, depth, m) == after_call);
    assert(after_call.lookup(x) is None);
    assert(next_index(ts, 2) == 4);
    let r = run_instruction(fs, l, li, 2, depth, after_call);
    assert(run_tokens(fs, l, li, 4, depth, r) == r);
    assert(run_tokens(fs, l, li, 2, depth, after_call) == r);
}

/// A token that cannot start an instruction (a name, a number, a separator,
/// a port or a register) is reported, counted as one interpreter error, and
/// skipped: nothing else changes, and the line goes on with the next token.
pub proof fn lemma_unexpected_leading_token(fs: Seq<FunctionView>, l: LineView, li: nat, j: int, depth: nat, m: Machine)
    requires
        0 <= j < l.tokens.len(),
        !(l.tokens[j].kind is OpCode || l.tokens[j].kind is Keyword || l.tokens[j].kind is Jump
            || l.tokens[j].kind is Bracket || l.tokens[j].kind is Str || l.tokens[j].kind is Comment
            || l.tokens[j].kind is NewLine),
    ensures
        run_instruction(fs, l, li, j, depth, m) == m.fail(unexpected_token(l.tokens[j], li)),
        next_index(l.tokens, j) == j + 1,
        run_tokens(fs, l, li, j, depth, m) == run_tokens(fs, l, li, j + 1, depth, m.fail(unexpected_token(l.tokens[j], li))),
{
}

/// A source line whose first word cannot start a line is tokenized as the
/// same line without that word, after the report of the word and one more
/// tokenizer error.
pub proof fn lemma_unknown_leading_word_line(line: Seq<char>, ln: nat, con: crate::console::ConsoleView)
    requires
        split_words(line).len() > 0,
        is_unknown_word(split_words(line)[0]),
    ensures
        ({
            let ws = split_words(line);
            let con1 = unexpected_word(con, ws[0], ln);
            let s = scan(ws.drop_first(), ln, Scan { tokens: seq![], console: con1, quoted: None });
            &&& tokenize_line(line, ln, con) == (finish(s), s.console)
            &&& con1.lexer_errors == bump(con.lexer_errors)
            &&& con1.cpu_errors == con.cpu_errors
        }),
{
    lemma_unknown_leading_word(split_words(line), ln, con);
}

/// A word that cannot start a line: no mnemonic, keyword, bracket, quote,
/// register, separator, marker, label, comment or number.
pub open spec fn is_unknown_word(w: Seq<char>) -> bool {
    !is_opcode(w) && w != "call"@ && !is_bracket(w) && w != "fn"@ && w != "let"@ && w != "\""@
        && w != "A"@ && w != "Stack"@ && w != ","@ && w != "nl"@
        && !(w.len() > 0 && (w[0] == 'P' || w[0] == ';' || w.last() == ':'))
        && number_of(w) is None
}

/// A line whose first word cannot start a line loses that word, counts one
/// more tokenizer error, and is tokenized from its second word on as if that
/// word came first.
pub proof fn lemma_unknown_leading_word(ws: Seq<Seq<char>>, ln: nat, con: crate::console::ConsoleView)
    requires
        ws.len() > 0,
        is_unknown_word(ws[0]),
    ensures
        scan(ws, ln, Scan { tokens: seq![], console: con, quoted: None })
            == scan(ws.drop_first(), ln, Scan { tokens: seq![], console: unexpected_word(con, ws[0], ln), quoted: None }),
        unexpected_word(con, ws[0], ln).lexer_errors == bump(con.lexer_errors),
        unexpected_word(con, ws[0], ln).cpu_errors == con.cpu_errors,
{
}

/// Loading keeps every source line, in order, whatever problems the
/// tokenizer finds in any of them: an error on one line never drops a later
/// one.
pub proof fn lemma_every_line_read(ls: Seq<Seq<char>>, done: Seq<LineView>, con: crate::console::ConsoleView)
    ensures
        lex_lines(ls, done, con).0.len() == done.len() + ls.len(),
        forall|i: int| 0 <= i < done.len() ==> #[trigger] lex_lines(ls, done, con).0[i] == done[i],
        forall|i: int| 0 <= i < ls.len() ==> #[trigger] lex_lines(ls, done, con).0[done.len() + i].text == ls[i],
    decreases ls.len(),
{
    if ls.len() > 0 {
        let (toks, c1) = tokenize_line(ls[0], (done.len() + 1) as nat, con);
        let done1 = done.push(LineView { tokens: toks, text: ls[0] });
        lemma_every_line_read(ls.drop_first(), done1, c1);
        let r = lex_lines(ls, done, con).0;
        assert forall|i: int| 0 <= i < ls.len() implies #[trigger] r[done.len() + i].text == ls[i] by {
            if i > 0 {
                assert(r[done1.len() + (i - 1)].text == ls.drop_first()[i - 1]);
            } else {
                assert(r[done.len() as int] == done1[done.len() as int]);
            }
        }
        assert forall|i: int| 0 <= i < done.len() implies #[trigger] r[i] == done[i] by {
            assert(r[i] == done1[i]);
        }
    }
}

/// The texts of a sequence of tokens.
pub open spec fn token_values(ts: Seq<TokenView>) -> Seq<Seq<char>> {
    ts.map_values(|t: TokenView| t.value)
}

/// A word that stands for itself in the token stream: no quote and no line
/// break marker.
pub open spec fn plain_word(w: Seq<char>) -> bool {
    w != "\""@ && w != "nl"@
}

/// Whether a word starts a comment.
pub open spec fn is_comment(w: Seq<char>) -> bool {
    w.len() > 0 && w[0] == ';'
}

/// The meaningful words of a line: those before the first comment, where
/// the word after `call`, `let` or `fn` (unless it is `{`) is a name and so
/// never starts a comment.
pub open spec fn meaningful_words(ws: Seq<Seq<char>>) -> Seq<Seq<char>>
    decreases ws.len(),
{
    if ws.len() == 0 {
        seq![]
    } else if is_comment(ws[0]) {
        seq![]
    } else if ws.len() >= 2 && (ws[0] == "call"@ || ws[0] == "let"@ || (ws[0] == "fn"@ && ws[1] != "{"@)) {
        seq![ws[0], ws[1]] + meaningful_words(ws.drop_first().drop_first())
    } else {
        seq![ws[0]] + meaningful_words(ws.drop_first())
    }
}

/// No mnemonic, keyword, register, separator or bracket starts a comment.
proof fn lemma_comments_are_not_words(w: Seq<char>)
    requires
        is_comment(w),
    ensures
        !is_opcode(w) && !is_bracket(w) && w != "call"@ && w != "fn"@ && w != "let"@ && w != "A"@
            && w != "Stack"@ && w != ","@,
{
    reveal_strlit("push");
    reveal_strlit("pop");
    reveal_strlit("mov");
    reveal_strlit("add");
    reveal_strlit("sub");
    reveal_strlit("mul");
    reveal_strlit("div");
    reveal_strlit("adds");
    reveal_strlit("subs");
    reveal_strlit("muls");
    reveal_strlit("divs");
    reveal_strlit("djnz");
    reveal_strlit("djnzs");
    reveal_strlit("jmp");
    reveal_strlit("setb");
    reveal_strlit("end");
    reveal_strlit("prnt");
    reveal_strlit("call");
    reveal_strlit("fn");
    reveal_strlit("let");
    reveal_strlit("A");
    reveal_strlit("Stack");
    reveal_strlit(",");
    reveal_strlit("{");
    reveal_strlit("}");
    reveal_strlit("[");
    reveal_strlit("]");
    reveal_strlit("(");
    reveal_strlit(")");
    assert("push"@[0] != ';' && "pop"@[0] != ';' && "mov"@[0] != ';' && "add"@[0] != ';' && "sub"@[0] != ';' && "mul"@[0] != ';' && "div"@[0] != ';' && "adds"@[0] != ';' && "subs"@[0] != ';' && "muls"@[0] != ';' && "divs"@[0] != ';' && "djnz"@[0] != ';' && "djnzs"@[0] != ';' && "jmp"@[0] != ';' && "setb"@[0] != ';' && "end"@[0] != ';' && "prnt"@[0] != ';' && "call"@[0] != ';' && "fn"@[0] != ';' && "let"@[0] != ';' && "A"@[0] != ';' && "Stack"@[0] != ';' && ","@[0] != ';' && "{"@[0] != ';' && "}"@[0] != ';' && "["@[0] != ';' && "]"@[0] != ';' && "("@[0] != ';' && ")"@[0] != ';');
}

/// No mnemonic or bracket is `call`, `fn` or `let`.
proof fn lemma_opcodes_are_not_names(w: Seq<char>)
    requires
        is_opcode(w) || is_bracket(w),
    ensures
        w != "call"@ && w != "fn"@ && w != "let"@,
{
    reveal_strlit("push");
    reveal_strlit("pop");
    reveal_strlit("mov");
    reveal_strlit("add");
    reveal_strlit("sub");
    reveal_strlit("mul");
    reveal_strlit("div");
    reveal_strlit("adds");
    reveal_strlit("subs");
    reveal_strlit("muls");
    reveal_strlit("divs");
    reveal_strlit("djnz");
    reveal_strlit("djnzs");
    reveal_strlit("jmp");
    reveal_strlit("setb");
    reveal_strlit("end");
    reveal_strlit("prnt");
    reveal_strlit("{");
    reveal_strlit("}");
    reveal_strlit("[");
    reveal_strlit("]");
    reveal_strlit("(");
    reveal_strlit(")");
    reveal_strlit("call");
    reveal_strlit("fn");
    reveal_strlit("let");
    assert("call"@[0] == 'c' && "fn"@[0] == 'f' && "let"@[0] == 'l');
    assert("push"@[0] != 'c' && "push"@[0] != 'f' && "push"@[0] != 'l');
    assert("pop"@[0] != 'c' && "pop"@[0] != 'f' && "pop"@[0] != 'l');
    assert("mov"@[0] != 'c' && "mov"@[0] != 'f' && "mov"@[0] != 'l');
    assert("add"@[0] != 'c' && "add"@[0] != 'f' && "add"@[0] != 'l');
    assert("sub"@[0] != 'c' && "sub"@[0] != 'f' && "sub"@[0] != 'l');
    assert("mul"@[0] != 'c' && "mul"@[0] != 'f' && "mul"@[0] != 'l');
    assert("div"@[0] != 'c' && "div"@[0] != 'f' && "div"@[0] != 'l');
    assert("adds"@[0] != 'c' && "adds"@[0] != 'f' && "adds"@[0] != 'l');
    assert("subs"@[0] != 'c' && "subs"@[0] != 'f' && "subs"@[0] != 'l');
    assert("muls"@[0] != 'c' && "muls"@[0] != 'f' && "muls"@[0] != 'l');
    assert("divs"@[0] != 'c' && "divs"@[0] != 'f' && "divs"@[0] != 'l');
    assert("djnz"@[0] != 'c' && "djnz"@[0] != 'f' && "djnz"@[0] != 'l');
    assert("djnzs"@[0] != 'c' && "djnzs"@[0] != 'f' && "djnzs"@[0] != 'l');
    assert("jmp"@[0] != 'c' && "jmp"@[0] != 'f' && "jmp"@[0] != 'l');
    assert("setb"@[0] != 'c' && "setb"@[0] != 'f' && "setb"@[0] != 'l');
    assert("end"@[0] != 'c' && "end"@[0] != 'f' && "end"@[0] != 'l');
    assert("prnt"@[0] != 'c' && "prnt"@[0] != 'f' && "prnt"@[0] != 'l');
    assert("{"@[0] != 'c' && "{"@[0] != 'f' && "{"@[0] != 'l');
    assert("}"@[0] != 'c' && "}"@[0] != 'f' && "}"@[0] != 'l');
    assert("["@[0] != 'c' && "["@[0] != 'f' && "["@[0] != 'l');
    assert("]"@[0] != 'c' && "]"@[0] != 'f' && "]"@[0] != 'l');
    assert("("@[0] != 'c' && "("@[0] != 'f' && "("@[0] != 'l');
    assert(")"@[0] != 'c' && ")"@[0] != 'f' && ")"@[0] != 'l');
}

/// Scanning plain words outside a string literal yields one token per
/// meaningful word, whose text is the word.
proof fn lemma_scan_values(ws: Seq<Seq<char>>, ln: nat, s: Scan)
    requires
        s.quoted is None,
        forall|i: int| 0 <= i < ws.len() ==> plain_word(#[trigger] ws[i]),
        s.tokens.len() > 0 || ws.len() == 0 || !is_unknown_word(ws[0]),
    ensures
        token_values(scan(ws, ln, s).tokens) == token_values(s.tokens) + meaningful_words(ws),
        scan(ws, ln, s).quoted is None,
    decreases ws.len(), 1nat,
{
    reveal_strlit("call");
    reveal_strlit("let");
    reveal_strlit("fn");
    assert("call"@[0] == 'c' && "let"@[0] == 'l' && "fn"@[0] == 'f');
    if ws.len() == 0 {
        assert(token_values(s.tokens) + meaningful_words(ws) =~= token_values(s.tokens));
    } else {
        let w = ws[0];
        let rest = ws.drop_first();
        assert(plain_word(w));
        if is_comment(w) {
            lemma_comments_are_not_words(w);
        }
        if is_opcode(w) || is_bracket(w) {
            lemma_opcodes_are_not_names(w);
        }
        if w == "call"@ || w == "fn"@ || w == "let"@ {
            assert(w[0] != ';');
            assert(!is_comment(w));
            if ws.len() == 1 {
                assert(rest =~= Seq::<Seq<char>>::empty());
                assert(meaningful_words(rest) =~= Seq::<Seq<char>>::empty());
                assert(meaningful_words(ws) =~= seq![w]);
            }
        }
        if is_opcode(w) {
            lemma_scan_one(ws, ln, s, Kind::OpCode);
        } else if w == "call"@ {
            lemma_scan_named(ws, ln, s, Kind::OpCode, Kind::FunctionName);
        } else if is_bracket(w) {
            lemma_scan_one(ws, ln, s, Kind::Bracket);
        } else if w == "fn"@ {
            if rest.len() > 0 && rest[0] == "{"@ {
                let s1 = s.emit(Kind::Keyword, w).fail(crate::lexer::missing_name(ln));
                lemma_plain_rest(ws);
                lemma_scan_values(rest, ln, s1);
                assert(token_values(s1.tokens) =~= token_values(s.tokens).push(w));
                assert(token_values(s.tokens).push(w) + meaningful_words(rest)
                    =~= token_values(s.tokens) + meaningful_words(ws));
            } else {
                lemma_scan_named(ws, ln, s, Kind::Keyword, Kind::FunctionName);
            }
        } else if w == "let"@ {
            lemma_scan_named(ws, ln, s, Kind::Keyword, Kind::VarName);
        } else if w == "A"@ {
            lemma_scan_one(ws, ln, s, Kind::Accumulator);
        } else if w == "Stack"@ {
            lemma_scan_one(ws, ln, s, Kind::Stack);
        } else if w == ","@ {
            lemma_scan_one(ws, ln, s, Kind::Comma);
        } else if w.len() > 0 && w[0] == 'P' {
            lemma_scan_one(ws, ln, s, Kind::Port);
        } else if is_comment(w) {
            assert(token_values(s.tokens) + meaningful_words(ws) =~= token_values(s.tokens));
        } else if w.len() > 0 && w.last() == ':' {
            lemma_scan_one(ws, ln, s, Kind::Jump { name: w.drop_last(), line: ln });
        } else if number_of(w) is Some {
            lemma_scan_one(ws, ln, s, Kind::Number(number_of(w)->0));
        } else {
            lemma_scan_one(ws, ln, s, Kind::Generic);
        }
    }
}

/// The words after the first of a run of plain words are plain.
proof fn lemma_plain_rest(ws: Seq<Seq<char>>)
    requires
        ws.len() > 0,
        forall|i: int| 0 <= i < ws.len() ==> plain_word(#[trigger] ws[i]),
    ensures
        forall|i: int| 0 <= i < ws.drop_first().len() ==> plain_word(#[trigger] ws.drop_first()[i]),
{
    assert forall|i: int| 0 <= i < ws.drop_first().len() implies plain_word(#[trigger] ws.drop_first()[i]) by {
        assert(ws.drop_first()[i] == ws[i + 1]);
    }
}

/// The step of `lemma_scan_values` where the first word becomes one token.
proof fn lemma_scan_one(ws: Seq<Seq<char>>, ln: nat, s: Scan, k: Kind)
    requires
        s.quoted is None,
        ws.len() > 0,
        forall|i: int| 0 <= i < ws.len() ==> plain_word(#[trigger] ws[i]),
        scan(ws, ln, s) == scan(ws.drop_first(), ln, s.emit(k, ws[0])),
        meaningful_words(ws) == seq![ws[0]] + meaningful_words(ws.drop_first()),
    ensures
        token_values(scan(ws, ln, s).tokens) == token_values(s.tokens) + meaningful_words(ws),
        scan(ws, ln, s).quoted is None,
    decreases ws.len(), 0nat,
{
    let s1 = s.emit(k, ws[0]);
    lemma_plain_rest(ws);
    lemma_scan_values(ws.drop_first(), ln, s1);
    assert(token_values(s1.tokens) =~= token_values(s.tokens).push(ws[0]));
    assert(token_values(s.tokens).push(ws[0]) + meaningful_words(ws.drop_first())
        =~= token_values(s.tokens) + meaningful_words(ws));
}

/// The step of `lemma_scan_values` where the first word may take the next
/// one as a name.
proof fn lemma_scan_named(ws: Seq<Seq<char>>, ln: nat, s: Scan, k: Kind, name_kind: Kind)
    requires
        s.quoted is None,
        ws.len() > 0,
        forall|i: int| 0 <= i < ws.len() ==> plain_word(#[trigger] ws[i]),
        ws.len() == 1 ==> scan(ws, ln, s).tokens == s.tokens.push(tok(k, ws[0])),
        ws.len() == 1 ==> scan(ws, ln, s).quoted is None,
        ws.len() == 1 ==> meaningful_words(ws) == seq![ws[0]],
        ws.len() > 1 ==> scan(ws, ln, s) == scan(
            ws.drop_first().drop_first(),
            ln,
            s.emit(k, ws[0]).emit(name_kind, ws[1]),
        ),
        ws.len() > 1 ==> meaningful_words(ws) == seq![ws[0], ws[1]] + meaningful_words(ws.drop_first().drop_first()),
    ensures
        token_values(scan(ws, ln, s).tokens) == token_values(s.tokens) + meaningful_words(ws),
        scan(ws, ln, s).quoted is None,
    decreases ws.len(), 0nat,
{
    let v0 = token_values(s.tokens);
    if ws.len() == 1 {
        assert(token_values(s.tokens.push(tok(k, ws[0]))) =~= v0 + meaningful_words(ws));
    } else {
        let s1 = s.emit(k, ws[0]).emit(name_kind, ws[1]);
        let rest2 = ws.drop_first().drop_first();
        assert forall|i: int| 0 <= i < rest2.len() implies plain_word(#[trigger] rest2[i]) by {
            assert(rest2[i] == ws[i + 2]);
        }
        lemma_scan_values(rest2, ln, s1);
        assert(token_values(s1.tokens) =~= v0.push(ws[0]).push(ws[1]));
        assert(v0.push(ws[0]).push(ws[1]) + meaningful_words(rest2) =~= v0 + meaningful_words(ws));
    }
}

/// When a line holds no string literal and no line-break marker, and starts
/// with a word that can start a line, its tokens spell its meaningful words
/// (see `meaningful_words`), one token per word and in order.
pub proof fn lemma_tokens_spell_words(line: Seq<char>, ln: nat, con: crate::console::ConsoleView)
    requires
        forall|i: int| 0 <= i < split_words(line).len() ==> plain_word(#[trigger] split_words(line)[i]),
        split_words(line).len() == 0 || !is_unknown_word(split_words(line)[0]),
    ensures
        token_values(tokenize_line(line, ln, con).0) == meaningful_words(split_words(line)),
{
    let s0 = Scan { tokens: seq![], console: con, quoted: None };
    lemma_scan_values(split_words(line), ln, s0);
    assert(token_values(s0.tokens) + meaningful_words(split_words(line)) =~= meaningful_words(split_words(line)));
}

} // verus!
