//! The tokenizer: turns each source line into typed tokens.
use vstd::prelude::*;
use crate::console::{Console, ConsoleView, PrintT, printx, lexer_error};
use crate::text::{
    split_words, strings_view, nat_text, parse_unsigned, join_words, unescape, generate_strings,
    same_text, parse_u64, append_nat, unescape_newlines, push_char,
};
use crate::token::{Token, TokenType, TokenView, Kind, Line, LineView, Function, FunctionView,
    JumpLocation, JumpView, tokens_view, lines_view, functions_view, jumps_view, clone_tokens, clone_functions};

verus! {

/// A token view with the given kind and text.
pub open spec fn tok(kind: Kind, value: Seq<char>) -> TokenView {
    TokenView { kind, value }
}

/// The mnemonics that become `OpCode` tokens (besides `call`).
pub open spec fn is_opcode(w: Seq<char>) -> bool {
    w == "push"@ || w == "pop"@ || w == "mov"@ || w == "add"@ || w == "sub"@ || w == "mul"@
        || w == "div"@ || w == "adds"@ || w == "subs"@ || w == "muls"@ || w == "divs"@
        || w == "djnz"@ || w == "djnzs"@ || w == "jmp"@ || w == "setb"@ || w == "end"@
        || w == "prnt"@
}

/// The bracket words.
pub open spec fn is_bracket(w: Seq<char>) -> bool {
    w == "{"@ || w == "}"@ || w == "["@ || w == "]"@ || w == "("@ || w == ")"@
}

/// The tokenizer's state between two words: the tokens so far, the console,
/// and, inside a string literal, the words read since the opening quote.
pub struct Scan {
    pub tokens: Seq<TokenView>,
    pub console: ConsoleView,
    pub quoted: Option<Seq<Seq<char>>>,
}

impl Scan {
    /// The state after one more token.
    pub open spec fn emit(self, kind: Kind, value: Seq<char>) -> Scan {
        Scan { tokens: self.tokens.push(tok(kind, value)), ..self }
    }

    /// The state after a tokenizer error.
    pub open spec fn fail(self, message: Seq<char>) -> Scan {
        Scan { console: self.console.lex_fail(message), ..self }
    }
}

/// The message for a `call` or `fn` without a name.
pub open spec fn missing_name(ln: nat) -> Seq<char> {
    "Expected Function name at line "@ + nat_text(ln)
}

/// The report of a line that starts with a word that is no instruction.
pub open spec fn unexpected_word(con: ConsoleView, w: Seq<char>, ln: nat) -> ConsoleView {
    con.print(PrintT::Lexer, "\n---------\n"@ + w + "\n---------"@).lex_fail(
        "Unexpected instruction at line "@ + nat_text(ln),
    )
}

/// The string-literal token made of the words `acc`.
pub open spec fn string_token(acc: Seq<Seq<char>>) -> TokenView {
    tok(Kind::Str, unescape(join_words(acc)))
}

/// The number that a word spells, when it spells one that fits in 64 bits.
pub open spec fn number_of(w: Seq<char>) -> Option<i128> {
    match parse_unsigned(w) {
        Some(v) => if v <= u64::MAX { Some(v as i128) } else { None },
        None => None,
    }
}

/// Tokenizes the words `ws` of line `ln` from state `s`.
pub open spec fn scan(ws: Seq<Seq<char>>, ln: nat, s: Scan) -> Scan
    decreases ws.len(),
{
    if ws.len() == 0 {
        s
    } else {
        let w = ws[0];
        let rest = ws.drop_first();
        match s.quoted {
            Some(acc) => if w == "\""@ {
                scan(rest, ln, Scan { tokens: s.tokens.push(string_token(acc)), quoted: None, ..s })
            } else {
                scan(rest, ln, Scan { quoted: Some(acc.push(w)), ..s })
            },
            None => if is_opcode(w) {
                scan(rest, ln, s.emit(Kind::OpCode, w))
            } else if w == "call"@ {
                if rest.len() == 0 {
                    s.emit(Kind::OpCode, w).fail(missing_name(ln))
                } else {
                    scan(rest.drop_first(), ln, s.emit(Kind::OpCode, w).emit(Kind::FunctionName, rest[0]))
                }
            } else if is_bracket(w) {
                scan(rest, ln, s.emit(Kind::Bracket, w))
            } else if w == "fn"@ {
                if rest.len() == 0 {
                    s.emit(Kind::Keyword, w)
                } else if rest[0] == "{"@ {
                    scan(rest, ln, s.emit(Kind::Keyword, w).fail(missing_name(ln)))
                } else {
                    scan(rest.drop_first(), ln, s.emit(Kind::Keyword, w).emit(Kind::FunctionName, rest[0]))
                }
            } else if w == "let"@ {
                if rest.len() == 0 {
                    s.emit(Kind::Keyword, w)
                } else {
                    scan(rest.drop_first(), ln, s.emit(Kind::Keyword, w).emit(Kind::VarName, rest[0]))
                }
            } else if w == "\""@ {
                scan(rest, ln, Scan { quoted: Some(seq![]), ..s })
            } else if w == "A"@ {
                scan(rest, ln, s.emit(Kind::Accumulator, w))
            } else if w == "Stack"@ {
                scan(rest, ln, s.emit(Kind::Stack, w))
            } else if w == ","@ {
                scan(rest, ln, s.emit(Kind::Comma, w))
            } else if w == "nl"@ {
                scan(rest, ln, s.emit(Kind::NewLine, seq!['\n']))
            } else if w.len() > 0 && w[0] == 'P' {
                scan(rest, ln, s.emit(Kind::Port, w))
            } else if w.len() > 0 && w[0] == ';' {
                s
            } else if w.len() > 0 && w.last() == ':' {
                scan(rest, ln, s.emit(Kind::Jump { name: w.drop_last(), line: ln }, w))
            } else if number_of(w) is Some {
                scan(rest, ln, s.emit(Kind::Number(number_of(w)->0), w))
            } else if s.tokens.len() > 0 {
                scan(rest, ln, s.emit(Kind::Generic, w))
            } else {
                scan(rest, ln, Scan { console: unexpected_word(s.console, w, ln), ..s })
            },
        }
    }
}

/// The tokens of a finished scan: an unclosed string literal runs to the end
/// of the line.
pub open spec fn finish(s: Scan) -> Seq<TokenView> {
    match s.quoted {
        Some(acc) => s.tokens.push(string_token(acc)),
        None => s.tokens,
    }
}

/// The tokens of source line `ln` whose text is `line`, and the console after
/// the problems found in it.
pub open spec fn tokenize_line(line: Seq<char>, ln: nat, con: ConsoleView) -> (Seq<TokenView>, ConsoleView) {
    let s = scan(split_words(line), ln, Scan { tokens: seq![], console: con, quoted: None });
    (finish(s), s.console)
}

/// Whether `w` is one of the `OpCode` mnemonics (besides `call`).
fn is_opcode_word(w: &str) -> (r: bool)
    ensures
        r == is_opcode(w@),
{
    same_text(w, "push") || same_text(w, "pop") || same_text(w, "mov") || same_text(w, "add")
        || same_text(w, "sub") || same_text(w, "mul") || same_text(w, "div") || same_text(w, "adds")
        || same_text(w, "subs") || same_text(w, "muls") || same_text(w, "divs")
        || same_text(w, "djnz") || same_text(w, "djnzs") || same_text(w, "jmp")
        || same_text(w, "setb") || same_text(w, "end") || same_text(w, "prnt")
}

/// Whether `w` is a bracket word.
fn is_bracket_word(w: &str) -> (r: bool)
    ensures
        r == is_bracket(w@),
{
    same_text(w, "{") || same_text(w, "}") || same_text(w, "[") || same_text(w, "]")
        || same_text(w, "(") || same_text(w, ")")
}

/// A token of the given kind whose text is `w`.
fn make_token(token_type: TokenType, w: &String) -> (t: Token)
    ensures
        t@ == tok(token_type@, w@),
{
    Token { token_type, value: w.clone() }
}

/// Reports a `call` or `fn` without a name.
fn report_missing_name(console: &mut Console, ln: usize)
    ensures
        final(console)@ == old(console)@.lex_fail(missing_name(ln as nat)),
{
    let mut m = "Expected Function name at line ".to_owned();
    append_nat(&mut m, ln as u128);
    printx(console, PrintT::Error, m.as_str());
    lexer_error(console);
}

/// Reports a line that starts with a word that is no instruction.
fn report_unexpected_word(console: &mut Console, w: &str, ln: usize)
    ensures
        final(console)@ == unexpected_word(old(console)@, w@, ln as nat),
{
    let mut shown = "\n---------\n".to_owned();
    shown.append(w);
    shown.append("\n---------");
    printx(console, PrintT::Lexer, shown.as_str());
    let mut m = "Unexpected instruction at line ".to_owned();
    append_nat(&mut m, ln as u128);
    printx(console, PrintT::Error, m.as_str());
    lexer_error(console);
}

/// The scan state that the tokenizer's variables stand for.
pub open spec fn scan_of(toks: Seq<Token>, console: ConsoleView, quoted: bool, acc: Seq<Seq<char>>) -> Scan {
    Scan { tokens: tokens_view(toks), console, quoted: if quoted { Some(acc) } else { None } }
}

/// Tokenizes the words of source line `ln` (see `tokenize_line`).
fn tokenize_words(console: &mut Console, words: &Vec<String>, ln: usize) -> (toks: Vec<Token>)
    ensures
        ({
            let s = scan(strings_view(words@), ln as nat, Scan { tokens: seq![], console: old(console)@, quoted: None });
            tokens_view(toks@) == finish(s) && final(console)@ == s.console
        }),
{
    let ghost ws = strings_view(words@);
    let ghost init = Scan { tokens: seq![], console: console@, quoted: None };
    let mut toks: Vec<Token> = Vec::new();
    let mut quoted = false;
    let mut has_words = false;
    let mut buf = String::new();
    let ghost mut acc: Seq<Seq<char>> = seq![];
    let mut i: usize = 0;
    let n = words.len();
    assert(ws.skip(0) =~= ws);
    assert(tokens_view(toks@) =~= Seq::<TokenView>::empty());
    while i < n
        invariant
            n == words.len(),
            i <= n,
            ws == strings_view(words@),
            scan(ws.skip(i as int), ln as nat, scan_of(toks@, console@, quoted, acc)) == scan(ws, ln as nat, init),
            quoted ==> buf@ == join_words(acc),
            has_words == (acc.len() > 0),
        decreases n - i,
    {
        let w = &words[i];
        let ghost rest = ws.skip(i as int);
        let ghost before = scan_of(toks@, console@, quoted, acc);
        let ghost old_toks = tokens_view(toks@);
        assert(rest[0] == w@);
        assert(rest.drop_first() =~= ws.skip(i + 1));
        if quoted {
            if same_text(w.as_str(), "\"") {
                let v = unescape_newlines(buf.as_str());
                toks.push(Token { token_type: TokenType::String, value: v });
                quoted = false;
                assert(tokens_view(toks@) =~= old_toks.push(string_token(acc)));
            } else {
                let ghost a0 = acc;
                if has_words {
                    push_char(&mut buf, ' ');
                }
                buf.append(w.as_str());
                proof {
                    acc = acc.push(w@);
                    assert(acc.drop_last() =~= a0);
                }
                has_words = true;
            }
            i = i + 1;
        } else if is_opcode_word(w.as_str()) {
            toks.push(make_token(TokenType::OpCode, w));
            assert(tokens_view(toks@) =~= old_toks.push(tok(Kind::OpCode, w@)));
            i = i + 1;
        } else if same_text(w.as_str(), "call") {
            toks.push(make_token(TokenType::OpCode, w));
            if i + 1 < n {
                toks.push(make_token(TokenType::FunctionName, &words[i + 1]));
                assert(tokens_view(toks@) =~= old_toks.push(tok(Kind::OpCode, w@)).push(tok(Kind::FunctionName, rest[1])));
                assert(rest.drop_first().drop_first() =~= ws.skip(i + 2));
                i = i + 2;
            } else {
                report_missing_name(console, ln);
                assert(tokens_view(toks@) =~= old_toks.push(tok(Kind::OpCode, w@)));
                i = n;
            }
        } else if is_bracket_word(w.as_str()) {
            toks.push(make_token(TokenType::Bracket, w));
            assert(tokens_view(toks@) =~= old_toks.push(tok(Kind::Bracket, w@)));
            i = i + 1;
        } else if same_text(w.as_str(), "fn") {
            toks.push(make_token(TokenType::Keyword, w));
            assert(tokens_view(toks@) =~= old_toks.push(tok(Kind::Keyword, w@)));
            if i + 1 < n {
                if same_text(words[i + 1].as_str(), "{") {
                    report_missing_name(console, ln);
                    i = i + 1;
                } else {
                    toks.push(make_token(TokenType::FunctionName, &words[i + 1]));
                    assert(tokens_view(toks@) =~= old_toks.push(tok(Kind::Keyword, w@)).push(tok(Kind::FunctionName, rest[1])));
                    assert(rest.drop_first().drop_first() =~= ws.skip(i + 2));
                    i = i + 2;
                }
            } else {
                i = n;
            }
        } else if same_text(w.as_str(), "let") {
            toks.push(make_token(TokenType::Keyword, w));
            assert(tokens_view(toks@) =~= old_toks.push(tok(Kind::Keyword, w@)));
            if i + 1 < n {
                toks.push(make_token(TokenType::VarName, &words[i + 1]));
                assert(tokens_view(toks@) =~= old_toks.push(tok(Kind::Keyword, w@)).push(tok(Kind::VarName, rest[1])));
                assert(rest.drop_first().drop_first() =~= ws.skip(i + 2));
                i = i + 2;
            } else {
                i = n;
            }
        } else if same_text(w.as_str(), "\"") {
            quoted = true;
            has_words = false;
            buf = String::new();
            proof {
                acc = seq![];
            }
            i = i + 1;
        } else if same_text(w.as_str(), "A") {
            toks.push(make_token(TokenType::Accumulator, w));
            assert(tokens_view(toks@) =~= old_toks.push(tok(Kind::Accumulator, w@)));
            i = i + 1;
        } else if same_text(w.as_str(), "Stack") {
            toks.push(make_token(TokenType::Stack, w));
            assert(tokens_view(toks@) =~= old_toks.push(tok(Kind::Stack, w@)));
            i = i + 1;
        } else if same_text(w.as_str(), ",") {
            toks.push(make_token(TokenType::Comma, w));
            assert(tokens_view(toks@) =~= old_toks.push(tok(Kind::Comma, w@)));
            i = i + 1;
        } else if same_text(w.as_str(), "nl") {
            let mut v = String::new();
            push_char(&mut v, '\n');
            toks.push(Token { token_type: TokenType::NewLine, value: v });
            assert(tokens_view(toks@) =~= old_toks.push(tok(Kind::NewLine, seq!['\n'])));
            i = i + 1;
        } else {
            let len = w.as_str().unicode_len();
            if len > 0 && w.as_str().get_char(0) == 'P' {
                toks.push(make_token(TokenType::Port, w));
                assert(tokens_view(toks@) =~= old_toks.push(tok(Kind::Port, w@)));
                i = i + 1;
            } else if len > 0 && w.as_str().get_char(0) == ';' {
                i = n;
            } else if len > 0 && w.as_str().get_char(len - 1) == ':' {
                let name = w.as_str().substring_char(0, len - 1).to_owned();
                assert(name@ =~= w@.drop_last());
                let j = JumpLocation { name, line: ln };
                toks.push(make_token(TokenType::JumpLocation(j), w));
                assert(tokens_view(toks@) =~= old_toks.push(tok(Kind::Jump { name: w@.drop_last(), line: ln as nat }, w@)));
                i = i + 1;
            } else {
                match parse_u64(w.as_str()) {
                    Some(v) => {
                        toks.push(make_token(TokenType::Number(v as i128), w));
                        assert(tokens_view(toks@) =~= old_toks.push(tok(Kind::Number(v as i128), w@)));
                    },
                    None => {
                        if toks.len() > 0 {
                            toks.push(make_token(TokenType::Generic, w));
                            assert(tokens_view(toks@) =~= old_toks.push(tok(Kind::Generic, w@)));
                        } else {
                            report_unexpected_word(console, w.as_str(), ln);
                        }
                    },
                }
                i = i + 1;
            }
        }
        assert(scan(ws.skip(i as int), ln as nat, scan_of(toks@, console@, quoted, acc)) == scan(rest, ln as nat, before));
    }
    if quoted {
        let v = unescape_newlines(buf.as_str());
        toks.push(Token { token_type: TokenType::String, value: v });
    }
    assert(ws.skip(n as int) =~= Seq::<Seq<char>>::empty());
    proof {
        let s = scan(ws, ln as nat, init);
        assert(tokens_view(toks@) =~= finish(s));
    }
    toks
}

/// The hint printed after a malformed function header.
pub open spec fn fn_syntax() -> Seq<char> {
    "\nfn `name` (`arguments`) {\n`code`\n}"@
}

/// A structural error in a function header, followed by the syntax hint.
pub open spec fn header_error(con: ConsoleView, message: Seq<char>) -> ConsoleView {
    con.lex_fail(message).print(PrintT::Syntax, fn_syntax())
}

/// The argument tokens of a header from index `j` on, the index after the
/// argument list, and the console after the problems found in it. The list
/// ends at `)`; a nested `(` is reported and skipped; any other bracket is
/// reported and ends the list.
pub open spec fn header_args(ts: Seq<TokenView>, j: int, args: Seq<TokenView>, con: ConsoleView)
    -> (Seq<TokenView>, int, ConsoleView)
    decreases ts.len() - j,
{
    if j < 0 || j >= ts.len() {
        (args, j, con)
    } else if ts[j].kind == Kind::Bracket {
        if ts[j].value == ")"@ {
            (args, j + 1, con)
        } else if ts[j].value == "("@ {
            header_args(ts, j + 1, args, con.lex_fail("Unexpected opening bracket"@))
        } else {
            (args, j + 1, header_error(con, "Expected closing brackets"@))
        }
    } else {
        header_args(ts, j + 1, args.push(ts[j]), con)
    }
}

/// The console after the tokens of a header line from index `j` on: any
/// token but a bracket is code outside a function body.
pub open spec fn header_tail(ts: Seq<TokenView>, j: int, con: ConsoleView) -> ConsoleView
    decreases ts.len() - j,
{
    if j < 0 || j >= ts.len() {
        con
    } else if ts[j].kind == Kind::Bracket {
        header_tail(ts, j + 1, con)
    } else {
        header_tail(ts, j + 1, con.lex_fail("Top level code is not allowed"@))
    }
}

/// The function-grouping state: the functions closed so far, the one being
/// filled, and the console.
pub struct Extract {
    pub functions: Seq<FunctionView>,
    pub current: Option<FunctionView>,
    pub console: ConsoleView,
}

/// Whether a line starts a function: its first token reads `fn`.
pub open spec fn starts_function(l: LineView) -> bool {
    l.tokens.len() > 0 && l.tokens[0].value == "fn"@
}

/// The state with the function being filled, if any, closed.
pub open spec fn close_current(e: Extract) -> Extract {
    match e.current {
        Some(f) => Extract { functions: e.functions.push(f), current: None, ..e },
        None => e,
    }
}

/// The state after the header line `ts` (whose first token reads `fn`): a
/// new function when the header is well formed, none otherwise.
pub open spec fn open_function(ts: Seq<TokenView>, e: Extract) -> Extract {
    if ts.len() < 3 || ts[1].kind != Kind::FunctionName {
        Extract {
            current: None,
            console: header_error(e.console, "Expected function name and opening brackets"@),
            ..e
        }
    } else if ts[2].value != "("@ {
        Extract {
            current: None,
            console: header_error(e.console, "Expected `(` but found "@ + ts[2].value),
            ..e
        }
    } else {
        let (args, k, con) = header_args(ts, 3, seq![], e.console);
        Extract {
            current: Some(FunctionView { name: ts[1].value, arguments: args, lines: seq![] }),
            console: header_tail(ts, k, con),
            ..e
        }
    }
}

/// The state after one more line.
pub open spec fn extract_line(l: LineView, e: Extract) -> Extract {
    if starts_function(l) {
        open_function(l.tokens, close_current(e))
    } else {
        match e.current {
            Some(f) => Extract { current: Some(FunctionView { lines: f.lines.push(l), ..f }), ..e },
            None => if l.tokens.len() > 0 {
                Extract { console: e.console.lex_fail("Top level code is not allowed"@), ..e }
            } else {
                e
            },
        }
    }
}

/// The state after the lines `ls`.
pub open spec fn extract_lines(ls: Seq<LineView>, e: Extract) -> Extract
    decreases ls.len(),
{
    if ls.len() == 0 {
        e
    } else {
        extract_lines(ls.drop_first(), extract_line(ls[0], e))
    }
}

/// The functions that the lines `ls` declare, and the console after the
/// problems found in them.
pub open spec fn extract_functions(ls: Seq<LineView>, con: ConsoleView) -> (Seq<FunctionView>, ConsoleView) {
    let e = close_current(extract_lines(ls, Extract { functions: seq![], current: None, console: con }));
    (e.functions, e.console)
}

/// The view of an optional function.
pub open spec fn option_view(f: Option<Function>) -> Option<FunctionView> {
    match f {
        Some(g) => Some(g@),
        None => None,
    }
}

/// Reports a structural error in a function header, with the syntax hint.
fn report_header_error(console: &mut Console, message: &str)
    ensures
        final(console)@ == header_error(old(console)@, message@),
{
    printx(console, PrintT::Error, message);
    lexer_error(console);
    printx(console, PrintT::Syntax, "\nfn `name` (`arguments`) {\n`code`\n}");
}

/// Parses a header line whose first token reads `fn` (see `open_function`).
fn parse_header(console: &mut Console, ts: &Vec<Token>) -> (r: Option<Function>)
    ensures
        ({
            let e = open_function(
                tokens_view(ts@),
                Extract { functions: seq![], current: None, console: old(console)@ },
            );
            option_view(r) == e.current && final(console)@ == e.console
        }),
{
    let ghost tv = tokens_view(ts@);
    if ts.len() < 3 || !matches!(ts[1].token_type, TokenType::FunctionName) {
        report_header_error(console, "Expected function name and opening brackets");
        return None;
    }
    if !same_text(ts[2].value.as_str(), "(") {
        let mut m = "Expected `(` but found ".to_owned();
        m.append(ts[2].value.as_str());
        report_header_error(console, m.as_str());
        return None;
    }
    let mut args: Vec<Token> = Vec::new();
    let mut j: usize = 3;
    let mut done = false;
    let ghost whole = header_args(tv, 3, seq![], console@);
    assert(tokens_view(args@) =~= Seq::<TokenView>::empty());
    while !done && j < ts.len()
        invariant
            3 <= j <= ts.len(),
            tv == tokens_view(ts@),
            !done ==> header_args(tv, j as int, tokens_view(args@), console@) == whole,
            done ==> (tokens_view(args@), j as int, console@) == whole,
        decreases ts.len() - j,
    {
        let t = &ts[j];
        if matches!(t.token_type, TokenType::Bracket) {
            if same_text(t.value.as_str(), ")") {
                done = true;
            } else if same_text(t.value.as_str(), "(") {
                printx(console, PrintT::Error, "Unexpected opening bracket");
                lexer_error(console);
            } else {
                report_header_error(console, "Expected closing brackets");
                done = true;
            }
        } else {
            let ghost before = tokens_view(args@);
            args.push(t.clone());
            assert(tokens_view(args@) =~= before.push(tv[j as int]));
        }
        j = j + 1;
    }
    let ghost con1 = console@;
    let ghost k = j as int;
    assert((tokens_view(args@), k, con1) == whole);
    while j < ts.len()
        invariant
            k <= j <= ts.len(),
            tv == tokens_view(ts@),
            header_tail(tv, j as int, console@) == header_tail(tv, k, con1),
        decreases ts.len() - j,
    {
        if !matches!(ts[j].token_type, TokenType::Bracket) {
            printx(console, PrintT::Error, "Top level code is not allowed");
            lexer_error(console);
        }
        j = j + 1;
    }
    let f = Function { name: ts[1].value.clone(), arguments: args, lines: Vec::new() };
    assert(f@.lines =~= Seq::<LineView>::empty());
    Some(f)
}

/// The jump locations that the tokens `ts` declare, in order.
pub open spec fn token_jumps(ts: Seq<TokenView>) -> Seq<JumpView>
    decreases ts.len(),
{
    if ts.len() == 0 {
        seq![]
    } else {
        let rest = token_jumps(ts.drop_last());
        match ts.last().kind {
            Kind::Jump { name, line } => rest.push(JumpView { name, line }),
            _ => rest,
        }
    }
}

/// The jump locations that the lines `ls` declare, in order.
pub open spec fn line_jumps(ls: Seq<LineView>) -> Seq<JumpView>
    decreases ls.len(),
{
    if ls.len() == 0 {
        seq![]
    } else {
        line_jumps(ls.drop_last()) + token_jumps(ls.last().tokens)
    }
}

/// Whether `line` starts a function (see `starts_function`).
fn check_line_for_fn(line: &Line) -> (r: bool)
    ensures
        r == starts_function(line@),
{
    line.tokens.len() > 0 && same_text(line.tokens[0].value.as_str(), "fn")
}

/// Reads source lines one at a time and groups them into functions.
pub struct Lexer {
    lines: Vec<Line>,
    functions: Vec<Function>,
    tokens: Vec<Token>,
}

/// The view of a lexer: the lines read so far, the functions found, and the
/// tokens of the last line.
pub struct LexerView {
    pub lines: Seq<LineView>,
    pub functions: Seq<FunctionView>,
    pub tokens: Seq<TokenView>,
}

impl View for Lexer {
    type V = LexerView;

    closed spec fn view(&self) -> LexerView {
        LexerView {
            lines: lines_view(self.lines@),
            functions: functions_view(self.functions@),
            tokens: tokens_view(self.tokens@),
        }
    }
}

impl Lexer {
    /// A lexer that has read nothing.
    pub fn new() -> (l: Lexer)
        ensures
            l@ == (LexerView { lines: seq![], functions: seq![], tokens: seq![] }),
    {
        let l = Lexer { lines: Vec::new(), functions: Vec::new(), tokens: Vec::new() };
        assert(l@.lines =~= seq![]);
        assert(l@.functions =~= seq![]);
        assert(l@.tokens =~= seq![]);
        l
    }

    /// The 1-based number of the next line to be read.
    pub fn line_number(&self) -> (n: usize)
        requires
            self@.lines.len() < usize::MAX,
        ensures
            n == self@.lines.len() + 1,
    {
        self.lines.len() + 1
    }

    /// Tokenizes one more source line (see `tokenize_line`) and keeps it.
    /// `_max_lines`, the total number of lines, serves progress displays
    /// only and has no effect here.
    pub fn run(&mut self, console: &mut Console, line: String, _max_lines: usize)
        requires
            old(self)@.lines.len() < usize::MAX,
        ensures
            ({
                let (toks, con) = tokenize_line(
                    line@,
                    (old(self)@.lines.len() + 1) as nat,
                    old(console)@,
                );
                &&& final(self)@.lines == old(self)@.lines.push(LineView { tokens: toks, text: line@ })
                &&& final(self)@.tokens == toks
                &&& final(self)@.functions == old(self)@.functions
                &&& final(console)@ == con
            }),
    {
        let ln = self.line_number();
        let words = generate_strings(line.as_str());
        let toks = tokenize_words(console, &words, ln);
        self.tokens = clone_tokens(&toks);
        let ghost old_lines = lines_view(self.lines@);
        self.lines.push(Line { tokens: toks, as_string: line });
        assert(lines_view(self.lines@) =~= old_lines.push(self.lines@.last()@));
    }

    /// Groups the lines read so far into functions (see `extract_functions`)
    /// and adds them to those already found.
    pub fn generate_functions(&mut self, console: &mut Console)
        ensures
            ({
                let (fs, con) = extract_functions(old(self)@.lines, old(console)@);
                &&& final(self)@.functions == old(self)@.functions + fs
                &&& final(self)@.lines == old(self)@.lines
                &&& final(self)@.tokens == old(self)@.tokens
                &&& final(console)@ == con
            }),
    {
        let ghost lv = lines_view(self.lines@);
        let ghost init = Extract { functions: seq![], current: None, console: console@ };
        let mut found: Vec<Function> = Vec::new();
        let mut current: Option<Function> = None;
        let mut i: usize = 0;
        assert(lv.skip(0) =~= lv);
        assert(functions_view(found@) =~= Seq::<FunctionView>::empty());
        while i < self.lines.len()
            invariant
                i <= self.lines.len(),
                lv == lines_view(self.lines@),
                extract_lines(lv.skip(i as int), Extract {
                    functions: functions_view(found@),
                    current: option_view(current),
                    console: console@,
                }) == extract_lines(lv, init),
            decreases self.lines.len() - i,
        {
            let line = &self.lines[i];
            let ghost e0 = Extract {
                functions: functions_view(found@),
                current: option_view(current),
                console: console@,
            };
            assert(lv.skip(i as int).drop_first() =~= lv.skip(i + 1));
            assert(lv.skip(i as int)[0] == line@);
            if check_line_for_fn(line) {
                let ghost fs0 = functions_view(found@);
                match current {
                    Some(f) => {
                        found.push(f);
                        assert(functions_view(found@) =~= fs0.push(found@.last()@));
                    },
                    None => {},
                }
                let ghost e1 = Extract { functions: functions_view(found@), current: None, console: console@ };
                assert(e1 == close_current(e0));
                current = parse_header(console, &line.tokens);
            } else {
                match current {
                    Some(mut f) => {
                        let ghost fv = f@;
                        f.lines.push(line.clone());
                        assert(f@.lines =~= fv.lines.push(line@));
                        current = Some(f);
                    },
                    None => {
                        if line.tokens.len() > 0 {
                            printx(console, PrintT::Error, "Top level code is not allowed");
                            lexer_error(console);
                        }
                        current = None;
                    },
                }
            }
            i = i + 1;
        }
        let ghost fs0 = functions_view(found@);
        match current {
            Some(f) => {
                found.push(f);
                assert(functions_view(found@) =~= fs0.push(found@.last()@));
            },
            None => {},
        }
        assert(lv.skip(i as int) =~= Seq::<LineView>::empty());
        let ghost before = functions_view(self.functions@);
        let ghost added = functions_view(found@);
        self.functions.append(&mut found);
        assert(functions_view(self.functions@) =~= before + added);
    }

    /// A copy of the functions found, or `None` (reported) when there are none.
    pub fn get_functions(&self, console: &mut Console) -> (r: Option<Vec<Function>>)
        ensures
            self@.functions.len() == 0 ==> r is None
                && final(console)@ == old(console)@.print(PrintT::Error, "No functions found (empty)"@),
            self@.functions.len() > 0 ==> r is Some && functions_view(r->0@) == self@.functions
                && final(console)@ == old(console)@,
    {
        if self.functions.len() == 0 {
            printx(console, PrintT::Error, "No functions found (empty)");
            return None;
        }
        Some(clone_functions(&self.functions))
    }

    /// The tokens of the last line, or `None` (reported) when it had none.
    pub fn get_tokens(self, console: &mut Console) -> (r: Option<Vec<Token>>)
        ensures
            self@.tokens.len() == 0 ==> r is None
                && final(console)@ == old(console)@.print(PrintT::Error, "No tokens found (empty)"@),
            self@.tokens.len() > 0 ==> r is Some && tokens_view(r->0@) == self@.tokens
                && final(console)@ == old(console)@,
    {
        if self.tokens.len() == 0 {
            printx(console, PrintT::Error, "No tokens found (empty)");
            return None;
        }
        Some(self.tokens)
    }

    /// The lines read, or `None` (reported) when there are none.
    pub fn get_lines(self, console: &mut Console) -> (r: Option<Vec<Line>>)
        ensures
            self@.lines.len() == 0 ==> r is None
                && final(console)@ == old(console)@.print(PrintT::Error, "No lines found (empty)"@),
            self@.lines.len() > 0 ==> r is Some && lines_view(r->0@) == self@.lines
                && final(console)@ == old(console)@,
    {
        if self.lines.len() == 0 {
            printx(console, PrintT::Error, "No lines found (empty)");
            return None;
        }
        Some(self.lines)
    }

    /// The jump locations declared by the lines read (see `line_jumps`).
    pub fn get_jump_locations(&self) -> (r: Vec<JumpLocation>)
        ensures
            jumps_view(r@) == line_jumps(self@.lines),
    {
        let ghost lv = lines_view(self.lines@);
        let mut r: Vec<JumpLocation> = Vec::new();
        let mut i: usize = 0;
        assert(lv.subrange(0, 0) =~= Seq::<LineView>::empty());
        assert(jumps_view(r@) =~= Seq::<JumpView>::empty());
        while i < self.lines.len()
            invariant
                i <= self.lines.len(),
                lv == lines_view(self.lines@),
                jumps_view(r@) == line_jumps(lv.subrange(0, i as int)),
            decreases self.lines.len() - i,
        {
            let ts = &self.lines[i].tokens;
            let ghost tv = tokens_view(ts@);
            let ghost base = jumps_view(r@);
            let mut j: usize = 0;
            assert(tv.subrange(0, 0) =~= Seq::<TokenView>::empty());
            assert(base + token_jumps(tv.subrange(0, 0)) =~= base);
            while j < ts.len()
                invariant
                    j <= ts.len(),
                    tv == tokens_view(ts@),
                    jumps_view(r@) == base + token_jumps(tv.subrange(0, j as int)),
                decreases ts.len() - j,
            {
                let ghost before = jumps_view(r@);
                assert(tv.subrange(0, j + 1).drop_last() =~= tv.subrange(0, j as int));
                match &ts[j].token_type {
                    TokenType::JumpLocation(loc) => {
                        r.push(loc.clone());
                        assert(jumps_view(r@) =~= before.push(loc@));
                    },
                    _ => {},
                }
                j = j + 1;
            }
            assert(tv.subrange(0, ts.len() as int) =~= tv);
            assert(lv.subrange(0, i + 1).drop_last() =~= lv.subrange(0, i as int));
            i = i + 1;
        }
        assert(lv.subrange(0, self.lines.len() as int) =~= lv);
        r
    }
}

} // verus!
