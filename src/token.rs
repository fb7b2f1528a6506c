//! Tokens, source lines and functions, with their mathematical views.
use vstd::prelude::*;

verus! {

/// A named position in the source: a `LABEL:` word and its 1-based line.
#[derive(Debug)]
pub struct JumpLocation {
    pub name: String,
    pub line: usize,
}

/// The kind of a token.
#[derive(Debug)]
pub enum TokenType {
    OpCode,
    Accumulator,
    Port,
    Stack,
    JumpLocation(JumpLocation),
    FunctionName,
    VarName,
    Bracket,
    Keyword,
    String,
    Number(i128),
    Comment,
    Comma,
    NewLine,
    Generic,
}

/// One lexical unit: its kind and its text.
#[derive(Debug)]
pub struct Token {
    pub token_type: TokenType,
    pub value: String,
}

/// The tokens of one source line, together with the line's text.
#[derive(Debug)]
pub struct Line {
    pub tokens: Vec<Token>,
    pub as_string: String,
}

/// A named unit of code: its formal parameters and its body lines.
#[derive(Debug)]
pub struct Function {
    pub name: String,
    pub arguments: Vec<Token>,
    pub lines: Vec<Line>,
}

/// The view of a token kind.
pub enum Kind {
    OpCode,
    Accumulator,
    Port,
    Stack,
    Jump { name: Seq<char>, line: nat },
    FunctionName,
    VarName,
    Bracket,
    Keyword,
    Str,
    Number(i128),
    Comment,
    Comma,
    NewLine,
    Generic,
}

/// The view of a token.
pub struct TokenView {
    pub kind: Kind,
    pub value: Seq<char>,
}

/// The view of a line.
pub struct LineView {
    pub tokens: Seq<TokenView>,
    pub text: Seq<char>,
}

/// The view of a function.
pub struct FunctionView {
    pub name: Seq<char>,
    pub arguments: Seq<TokenView>,
    pub lines: Seq<LineView>,
}

/// The view of a jump location.
pub struct JumpView {
    pub name: Seq<char>,
    pub line: nat,
}

impl View for JumpLocation {
    type V = JumpView;

    open spec fn view(&self) -> JumpView {
        JumpView { name: self.name@, line: self.line as nat }
    }
}

impl View for TokenType {
    type V = Kind;

    open spec fn view(&self) -> Kind {
        match self {
            TokenType::OpCode => Kind::OpCode,
            TokenType::Accumulator => Kind::Accumulator,
            TokenType::Port => Kind::Port,
            TokenType::Stack => Kind::Stack,
            TokenType::JumpLocation(j) => Kind::Jump { name: j.name@, line: j.line as nat },
            TokenType::FunctionName => Kind::FunctionName,
            TokenType::VarName => Kind::VarName,
            TokenType::Bracket => Kind::Bracket,
            TokenType::Keyword => Kind::Keyword,
            TokenType::String => Kind::Str,
            TokenType::Number(x) => Kind::Number(*x),
            TokenType::Comment => Kind::Comment,
            TokenType::Comma => Kind::Comma,
            TokenType::NewLine => Kind::NewLine,
            TokenType::Generic => Kind::Generic,
        }
    }
}

impl View for Token {
    type V = TokenView;

    open spec fn view(&self) -> TokenView {
        TokenView { kind: self.token_type@, value: self.value@ }
    }
}

/// The views of a sequence of tokens.
pub open spec fn tokens_view(ts: Seq<Token>) -> Seq<TokenView> {
    ts.map_values(|t: Token| t@)
}

impl View for Line {
    type V = LineView;

    open spec fn view(&self) -> LineView {
        LineView { tokens: tokens_view(self.tokens@), text: self.as_string@ }
    }
}

/// The views of a sequence of lines.
pub open spec fn lines_view(ls: Seq<Line>) -> Seq<LineView> {
    ls.map_values(|l: Line| l@)
}

impl View for Function {
    type V = FunctionView;

    open spec fn view(&self) -> FunctionView {
        FunctionView {
            name: self.name@,
            arguments: tokens_view(self.arguments@),
            lines: lines_view(self.lines@),
        }
    }
}

/// The views of a sequence of jump locations.
pub open spec fn jumps_view(js: Seq<JumpLocation>) -> Seq<JumpView> {
    js.map_values(|j: JumpLocation| j@)
}

/// The views of a sequence of functions.
pub open spec fn functions_view(fs: Seq<Function>) -> Seq<FunctionView> {
    fs.map_values(|f: Function| f@)
}

impl Clone for JumpLocation {
    fn clone(&self) -> (r: Self)
        ensures
            r@ == self@,
    {
        JumpLocation { name: self.name.clone(), line: self.line }
    }
}

impl Clone for TokenType {
    fn clone(&self) -> (r: Self)
        ensures
            r@ == self@,
    {
        match self {
            TokenType::OpCode => TokenType::OpCode,
            TokenType::Accumulator => TokenType::Accumulator,
            TokenType::Port => TokenType::Port,
            TokenType::Stack => TokenType::Stack,
            TokenType::JumpLocation(j) => TokenType::JumpLocation(j.clone()),
            TokenType::FunctionName => TokenType::FunctionName,
            TokenType::VarName => TokenType::VarName,
            TokenType::Bracket => TokenType::Bracket,
            TokenType::Keyword => TokenType::Keyword,
            TokenType::String => TokenType::String,
            TokenType::Number(x) => TokenType::Number(*x),
            TokenType::Comment => TokenType::Comment,
            TokenType::Comma => TokenType::Comma,
            TokenType::NewLine => TokenType::NewLine,
            TokenType::Generic => TokenType::Generic,
        }
    }
}

impl Clone for Token {
    fn clone(&self) -> (r: Self)
        ensures
            r@ == self@,
    {
        Token { token_type: self.token_type.clone(), value: self.value.clone() }
    }
}

/// A copy of a sequence of tokens.
pub fn clone_tokens(ts: &Vec<Token>) -> (r: Vec<Token>)
    ensures
        tokens_view(r@) == tokens_view(ts@),
{
    let mut r: Vec<Token> = Vec::new();
    let mut i: usize = 0;
    while i < ts.len()
        invariant
            i <= ts.len(),
            r@.len() == i,
            forall|j: int| 0 <= j < i ==> #[trigger] r@[j]@ == ts@[j]@,
        decreases ts.len() - i,
    {
        let t = ts[i].clone();
        r.push(t);
        i = i + 1;
    }
    assert(tokens_view(r@) =~= tokens_view(ts@));
    r
}

impl Clone for Line {
    fn clone(&self) -> (r: Self)
        ensures
            r@ == self@,
    {
        Line { tokens: clone_tokens(&self.tokens), as_string: self.as_string.clone() }
    }
}

/// A copy of a sequence of lines.
pub fn clone_lines(ls: &Vec<Line>) -> (r: Vec<Line>)
    ensures
        lines_view(r@) == lines_view(ls@),
{
    let mut r: Vec<Line> = Vec::new();
    let mut i: usize = 0;
    while i < ls.len()
        invariant
            i <= ls.len(),
            r@.len() == i,
            forall|j: int| 0 <= j < i ==> #[trigger] r@[j]@ == ls@[j]@,
        decreases ls.len() - i,
    {
        let l = ls[i].clone();
        r.push(l);
        i = i + 1;
    }
    assert(lines_view(r@) =~= lines_view(ls@));
    r
}

impl Clone for Function {
    fn clone(&self) -> (r: Self)
        ensures
            r@ == self@,
    {
        Function {
            name: self.name.clone(),
            arguments: clone_tokens(&self.arguments),
            lines: clone_lines(&self.lines),
        }
    }
}

/// A copy of a sequence of functions.
pub fn clone_functions(fs: &Vec<Function>) -> (r: Vec<Function>)
    ensures
        functions_view(r@) == functions_view(fs@),
{
    let mut r: Vec<Function> = Vec::new();
    let mut i: usize = 0;
    while i < fs.len()
        invariant
            i <= fs.len(),
            r@.len() == i,
            forall|j: int| 0 <= j < i ==> #[trigger] r@[j]@ == fs@[j]@,
        decreases fs.len() - i,
    {
        let f = fs[i].clone();
        r.push(f);
        i = i + 1;
    }
    assert(functions_view(r@) =~= functions_view(fs@));
    r
}

} // verus!
