//! The parser: a recursive-descent consumer of the token sequence that
//! builds syntax-model nodes and recovers from malformed input by
//! resynchronizing at statement terminators. The grammar is specified by
//! the `spec_parse_*` functions, a mathematical model of each rule that
//! pins down both the parsed node and the cursor movement, on success and
//! on failure alike.

use vstd::prelude::*;
use vstd::string::StringExecFns;

use crate::syntax::ExpressionView;
use crate::syntax::FunctionParamView;
use crate::syntax::NodeView;
use crate::syntax::StatementView;
use crate::syntax::TypeView;
use crate::syntax::Expression;
use crate::syntax::FunctionParam;
use crate::syntax::Node;
use crate::syntax::NodeInfo;
use crate::syntax::Statement;
use crate::syntax::Type;
use crate::syntax::spec_params_view;
use crate::token::SpecToken;
use crate::token::Token;
use crate::token::TokenInfo;

verus! {

/// The outcome of one grammar rule: a value with the cursor position just
/// past it, or the cursor position after a failed attempt.
pub enum SpecParse<T> {
    Parsed(T, int),
    Failed(int),
}

/// The token sequence a parser works over, token by token.
pub open spec fn spec_tokens_of(tokens: Seq<TokenInfo>) -> Seq<SpecToken> {
    tokens.map_values(|ti: TokenInfo| ti.token@)
}

/// Clamps a resume position into the window that the recursion measure
/// needs. `lemma_parse_type_progress` shows a parsed end always lies in
/// the window, so the clamp never changes it; it only serves termination.
pub open spec fn bounded_next(j: int, lo: int, hi: int) -> int {
    if lo <= j <= hi {
        j
    } else if lo <= hi {
        lo
    } else {
        hi
    }
}

/// The type rule: `Type ::= Identifier | "*" Type | "(" ParamList ")" Type`.
/// A failure reports the cursor just past the offending token; a cursor
/// already at the end fails without moving.
pub open spec fn spec_parse_type(ts: Seq<SpecToken>, i: int) -> SpecParse<TypeView>
    decreases ts.len() - i,
{
    if !(0 <= i < ts.len()) {
        SpecParse::Failed(i)
    } else {
        match ts[i] {
            SpecToken::Identifier(name) => SpecParse::Parsed(TypeView::Common(name), i + 1),
            SpecToken::Times => match spec_parse_type(ts, i + 1) {
                SpecParse::Parsed(inner, j) => SpecParse::Parsed(
                    TypeView::Pointer(Box::new(inner)),
                    j,
                ),
                SpecParse::Failed(j) => SpecParse::Failed(j),
            },
            SpecToken::LeftParen => match spec_parse_params(ts, i + 1) {
                SpecParse::Parsed(params, j) => match spec_parse_type(
                    ts,
                    bounded_next(j, i + 2, ts.len() as int),
                ) {
                    SpecParse::Parsed(ret, k) => SpecParse::Parsed(
                        TypeView::Function { params, return_type: Some(Box::new(ret)) },
                        k,
                    ),
                    SpecParse::Failed(k) => SpecParse::Failed(k),
                },
                SpecParse::Failed(j) => SpecParse::Failed(j),
            },
            _ => SpecParse::Failed(i + 1),
        }
    }
}

/// The parameter-list rule: `Identifier ":" Type` pairs, without
/// separators, terminated by `)`.
pub open spec fn spec_parse_params(ts: Seq<SpecToken>, i: int) -> SpecParse<
    Seq<FunctionParamView>,
>
    decreases ts.len() - i,
{
    if !(0 <= i < ts.len()) {
        SpecParse::Failed(i)
    } else if ts[i] is RightParen {
        SpecParse::Parsed(Seq::empty(), i + 1)
    } else {
        match ts[i] {
            SpecToken::Identifier(name) => {
                if !(i + 1 < ts.len()) {
                    SpecParse::Failed(i + 1)
                } else if ts[i + 1] is Colon {
                    match spec_parse_type(ts, i + 2) {
                        SpecParse::Parsed(declared_type, j) => {
                            match spec_parse_params(ts, bounded_next(j, i + 3, ts.len() as int)) {
                                SpecParse::Parsed(rest, k) => SpecParse::Parsed(
                                    seq![FunctionParamView { name, declared_type }] + rest,
                                    k,
                                ),
                                SpecParse::Failed(k) => SpecParse::Failed(k),
                            }
                        },
                        SpecParse::Failed(j) => SpecParse::Failed(j),
                    }
                } else {
                    SpecParse::Failed(i + 2)
                }
            },
            _ => SpecParse::Failed(i + 1),
        }
    }
}

/// The declaration tail after the `:` of `name: Type;`: a type and its
/// statement terminator.
pub open spec fn spec_parse_declaration(ts: Seq<SpecToken>, i: int, name: Seq<char>) -> SpecParse<
    NodeView,
> {
    match spec_parse_type(ts, i) {
        SpecParse::Parsed(t, j) => {
            if !(j < ts.len()) {
                SpecParse::Failed(j)
            } else if ts[j] is SemiColon {
                SpecParse::Parsed(
                    NodeView::Expression(
                        ExpressionView::Declare { identifier: name, declared_type: t },
                    ),
                    j + 1,
                )
            } else {
                SpecParse::Failed(j + 1)
            }
        },
        SpecParse::Failed(j) => SpecParse::Failed(j),
    }
}

/// An identifier-led declaration after its leading identifier: the `:` is
/// the only form the grammar knows yet.
pub open spec fn spec_parse_identifier_led(
    ts: Seq<SpecToken>,
    i: int,
    name: Seq<char>,
) -> SpecParse<NodeView> {
    if !(0 <= i < ts.len()) {
        SpecParse::Failed(i)
    } else if ts[i] is Colon {
        spec_parse_declaration(ts, i + 1, name)
    } else {
        SpecParse::Failed(i + 1)
    }
}

/// An external-symbol declaration after its keyword:
/// `Identifier ":" Type ";"`.
pub open spec fn spec_parse_extern(ts: Seq<SpecToken>, i: int) -> SpecParse<NodeView> {
    if !(0 <= i < ts.len()) {
        SpecParse::Failed(i)
    } else {
        match ts[i] {
            SpecToken::Identifier(name) => {
                if !(i + 1 < ts.len()) {
                    SpecParse::Failed(i + 1)
                } else if ts[i + 1] is Colon {
                    match spec_parse_type(ts, i + 2) {
                        SpecParse::Parsed(t, j) => {
                            if !(j < ts.len()) {
                                SpecParse::Failed(j)
                            } else if ts[j] is SemiColon {
                                SpecParse::Parsed(
                                    NodeView::Statement(
                                        StatementView::Extern {
                                            identifier: name,
                                            declared_type: t,
                                        },
                                    ),
                                    j + 1,
                                )
                            } else {
                                SpecParse::Failed(j + 1)
                            }
                        },
                        SpecParse::Failed(j) => SpecParse::Failed(j),
                    }
                } else {
                    SpecParse::Failed(i + 2)
                }
            },
            _ => SpecParse::Failed(i + 1),
        }
    }
}

/// One top-level declaration at a cursor standing on its leading token.
pub open spec fn spec_parse_decl(ts: Seq<SpecToken>, i: int) -> SpecParse<NodeView> {
    match ts[i] {
        SpecToken::KwExtern => spec_parse_extern(ts, i + 1),
        SpecToken::Identifier(name) => spec_parse_identifier_led(ts, i + 1, name),
        _ => SpecParse::Failed(i + 1),
    }
}

/// Where resynchronization lands: just past the first statement
/// terminator at or after `i`, or the end of the tokens.
pub open spec fn spec_resync(ts: Seq<SpecToken>, i: int) -> int
    decreases ts.len() - i,
{
    if !(0 <= i < ts.len()) {
        i
    } else if ts[i] is SemiColon {
        i + 1
    } else {
        spec_resync(ts, i + 1)
    }
}

/// Resynchronization only moves forward, never past the end.
pub proof fn lemma_resync_bounds(ts: Seq<SpecToken>, i: int)
    requires
        0 <= i <= ts.len(),
    ensures
        i <= spec_resync(ts, i) <= ts.len(),
    decreases ts.len() - i,
{
    if i < ts.len() && !(ts[i] is SemiColon) {
        lemma_resync_bounds(ts, i + 1);
    }
}

/// The type rule always moves the cursor forward on success, never moves
/// it backward on failure, and never leaves the token sequence.
pub proof fn lemma_parse_type_progress(ts: Seq<SpecToken>, i: int)
    requires
        0 <= i <= ts.len(),
    ensures
        match spec_parse_type(ts, i) {
            SpecParse::Parsed(t, j) => i < j <= ts.len(),
            SpecParse::Failed(j) => i <= j <= ts.len(),
        },
    decreases ts.len() - i, 1int,
{
    if 0 <= i < ts.len() {
        match ts[i] {
            SpecToken::Times => {
                lemma_parse_type_progress(ts, i + 1);
            },
            SpecToken::LeftParen => {
                lemma_parse_params_progress(ts, i + 1);
                match spec_parse_params(ts, i + 1) {
                    SpecParse::Parsed(params, j) => {
                        lemma_parse_type_progress(ts, bounded_next(j, i + 2, ts.len() as int));
                    },
                    SpecParse::Failed(j) => {},
                }
            },
            _ => {},
        }
    }
}

/// The parameter-list rule always moves the cursor forward on success,
/// never moves it backward on failure, and never leaves the tokens.
pub proof fn lemma_parse_params_progress(ts: Seq<SpecToken>, i: int)
    requires
        0 <= i <= ts.len(),
    ensures
        match spec_parse_params(ts, i) {
            SpecParse::Parsed(params, j) => i < j <= ts.len(),
            SpecParse::Failed(j) => i <= j <= ts.len(),
        },
    decreases ts.len() - i, 0int,
{
    if 0 <= i < ts.len() && !(ts[i] is RightParen) {
        match ts[i] {
            SpecToken::Identifier(name) => {
                if i + 1 < ts.len() && ts[i + 1] is Colon {
                    lemma_parse_type_progress(ts, i + 2);
                    match spec_parse_type(ts, i + 2) {
                        SpecParse::Parsed(t, j) => {
                            lemma_parse_params_progress(
                                ts,
                                bounded_next(j, i + 3, ts.len() as int),
                            );
                        },
                        SpecParse::Failed(j) => {},
                    }
                }
            },
            _ => {},
        }
    }
}

/// The declaration tail never moves the cursor backward and never leaves
/// the tokens.
pub proof fn lemma_parse_declaration_progress(ts: Seq<SpecToken>, i: int, name: Seq<char>)
    requires
        0 <= i <= ts.len(),
    ensures
        match spec_parse_declaration(ts, i, name) {
            SpecParse::Parsed(nv, j) => i < j <= ts.len(),
            SpecParse::Failed(j) => i <= j <= ts.len(),
        },
{
    lemma_parse_type_progress(ts, i);
}

/// Every top-level parse attempt consumes at least its leading token and
/// stays within the token sequence, succeed or fail.
pub proof fn lemma_parse_decl_progress(ts: Seq<SpecToken>, i: int)
    requires
        0 <= i < ts.len(),
    ensures
        match spec_parse_decl(ts, i) {
            SpecParse::Parsed(nv, j) => i < j <= ts.len(),
            SpecParse::Failed(j) => i < j <= ts.len(),
        },
{
    match ts[i] {
        SpecToken::KwExtern => {
            if i + 1 < ts.len() {
                match ts[i + 1] {
                    SpecToken::Identifier(name) => {
                        if i + 2 < ts.len() && ts[i + 2] is Colon {
                            lemma_parse_type_progress(ts, i + 3);
                        }
                    },
                    _ => {},
                }
            }
        },
        SpecToken::Identifier(name) => {
            if i + 1 < ts.len() && ts[i + 1] is Colon {
                lemma_parse_declaration_progress(ts, i + 2, name);
            }
        },
        _ => {},
    }
}


/// The decimal digit character for a value below ten.
pub open spec fn spec_digit_of(d: nat) -> char {
    if d == 0 {
        '0'
    } else if d == 1 {
        '1'
    } else if d == 2 {
        '2'
    } else if d == 3 {
        '3'
    } else if d == 4 {
        '4'
    } else if d == 5 {
        '5'
    } else if d == 6 {
        '6'
    } else if d == 7 {
        '7'
    } else if d == 8 {
        '8'
    } else {
        '9'
    }
}

/// The decimal rendering of a number, most significant digit first.
pub open spec fn spec_decimal(n: nat) -> Seq<char>
    decreases n,
{
    if n < 10 {
        seq![spec_digit_of(n)]
    } else {
        spec_decimal(n / 10).push(spec_digit_of(n % 10))
    }
}

/// The decimal digit character of a value below ten.
fn digit_of(d: usize) -> (r: char)
    requires
        d < 10,
    ensures
        r == spec_digit_of(d as nat),
{
    match d {
        0 => '0',
        1 => '1',
        2 => '2',
        3 => '3',
        4 => '4',
        5 => '5',
        6 => '6',
        7 => '7',
        8 => '8',
        _ => '9',
    }
}

/// The decimal digits of a number, most significant first.
fn decimal_digits(n: usize) -> (v: Vec<char>)
    ensures
        v@ == spec_decimal(n as nat),
    decreases n,
{
    if n < 10 {
        let mut v: Vec<char> = Vec::new();
        v.push(digit_of(n));
        proof {
            assert(v@ =~= seq![spec_digit_of(n as nat)]);
        }
        v
    } else {
        let mut v = decimal_digits(n / 10);
        v.push(digit_of(n % 10));
        v
    }
}

/// A number rendered in decimal.
fn usize_to_string(n: usize) -> (r: String)
    ensures
        r@ == spec_decimal(n as nat),
{
    crate::lexer::chars_to_string(&decimal_digits(n))
}

/// A short name for each token variant, for diagnostics.
fn token_kind_name(t: &Token) -> (r: &'static str) {
    match t {
        Token::Unknown(_) => "Unknown",
        Token::Comment(_) => "Comment",
        Token::Identifier(_) => "Identifier",
        Token::String(_) => "String",
        Token::Number { .. } => "Number",
        Token::SemiColon => "SemiColon",
        Token::Colon => "Colon",
        Token::Assign => "Assign",
        Token::Walrus => "Walrus",
        Token::LeftParen => "LeftParen",
        Token::RightParen => "RightParen",
        Token::LeftCurly => "LeftCurly",
        Token::RightCurly => "RightCurly",
        Token::Plus => "Plus",
        Token::Minus => "Minus",
        Token::Times => "Times",
        Token::DividedBy => "DividedBy",
        Token::Comma => "Comma",
        Token::KwExtern => "KwExtern",
        Token::KwReturn => "KwReturn",
    }
}

/// Appends "line L, column C" for a token's start position.
fn append_position(m: &mut String, at: &TokenInfo)
    ensures
        final(m)@.len() >= old(m)@.len(),
{
    m.append("line ");
    let line = usize_to_string(at.start_pos.line);
    m.append(line.as_str());
    m.append(", column ");
    let column = usize_to_string(at.start_pos.column);
    m.append(column.as_str());
}

/// A diagnostic for an expected-token mismatch, naming the expectation,
/// what stood there instead, and where.
fn expected_message(expected: &str, found: &TokenInfo) -> (m: String)
    ensures
        m@.len() > 0,
{
    proof {
        reveal_strlit("expected ");
    }
    let mut m = String::from_str("expected ");
    m.append(expected);
    m.append(" at ");
    append_position(&mut m, found);
    m.append(", found ");
    m.append(token_kind_name(&found.token));
    m
}

/// A diagnostic for a token that no grammar rule accepts here.
fn unexpected_message(kind: &str, found: &TokenInfo) -> (m: String)
    ensures
        m@.len() > 0,
{
    proof {
        reveal_strlit("unexpected ");
    }
    let mut m = String::from_str("unexpected ");
    m.append(kind);
    m.append(" at ");
    append_position(&mut m, found);
    m.append(": ");
    m.append(token_kind_name(&found.token));
    m
}

/// A diagnostic for a cursor that ran out of tokens.
fn exhausted_message(index: usize) -> (m: String)
    ensures
        m@.len() > 0,
{
    proof {
        reveal_strlit("failed to peek token info at index: ");
    }
    let mut m = String::from_str("failed to peek token info at index: ");
    let digits = usize_to_string(index);
    m.append(digits.as_str());
    m
}

/// The parser's ghost state: the token sequence and the cursor.
pub struct ParserView {
    pub tokens: Seq<TokenInfo>,
    pub index: nat,
}

/// A recursive-descent parser over a scanned token sequence. Each call
/// to `parse` consumes exactly one top-level declaration, recovering from
/// malformed input at the next statement terminator.
pub struct Parser {
    tokens: Vec<TokenInfo>,
    index: usize,
}

impl View for Parser {
    type V = ParserView;

    closed spec fn view(&self) -> ParserView {
        ParserView { tokens: self.tokens@, index: self.index as nat }
    }
}

impl Parser {
    /// The cursor never stands past the end of the tokens.
    pub open spec fn wf(self) -> bool {
        self@.index <= self@.tokens.len()
    }

    /// The token sequence the cursor walks, token by token.
    pub open spec fn toks(self) -> Seq<SpecToken> {
        spec_tokens_of(self@.tokens)
    }

    /// A parser over the given tokens, at the first one.
    pub fn new(tokens: Vec<TokenInfo>) -> (r: Self)
        ensures
            r.wf(),
            r@.tokens == tokens@,
            r@.index == 0,
    {
        Self { tokens, index: 0 }
    }

    /// The tokens this parser walks.
    pub fn tokens(&self) -> (r: &Vec<TokenInfo>)
        ensures
            r@ == self@.tokens,
    {
        &self.tokens
    }

    /// Moves the cursor one token forward.
    fn bump(&mut self)
        requires
            old(self).wf(),
            old(self)@.index < old(self)@.tokens.len(),
        ensures
            final(self).wf(),
            final(self)@.tokens == old(self)@.tokens,
            final(self)@.index == old(self)@.index + 1,
    {
        proof {
            assert(self.tokens.len() == self@.tokens.len());
        }
        self.index = self.index + 1;
    }

    /// The token under the cursor, without consuming it; an error when
    /// the tokens are exhausted.
    fn current_token_info(&self) -> (r: Result<&TokenInfo, String>)
        requires
            self.wf(),
        ensures
            match r {
                Ok(ti) => self@.index < self@.tokens.len() && *ti == self@.tokens[self@.index as int],
                Err(m) => self@.index == self@.tokens.len() && m@.len() > 0,
            },
    {
        if self.index < self.tokens.len() {
            Ok(&self.tokens[self.index])
        } else {
            Err(exhausted_message(self.index))
        }
    }

    /// Consumes and returns the token under the cursor; an error, without
    /// moving, when the tokens are exhausted.
    fn advance_token_info(&mut self) -> (r: Result<TokenInfo, String>)
        requires
            old(self).wf(),
        ensures
            final(self).wf(),
            final(self)@.tokens == old(self)@.tokens,
            match r {
                Ok(ti) => {
                    &&& old(self)@.index < old(self)@.tokens.len()
                    &&& ti == old(self)@.tokens[old(self)@.index as int]
                    &&& final(self)@.index == old(self)@.index + 1
                },
                Err(m) => {
                    &&& old(self)@.index == old(self)@.tokens.len()
                    &&& final(self)@ == old(self)@
                    &&& m@.len() > 0
                },
            },
    {
        if self.index < self.tokens.len() {
            let ti = self.tokens[self.index].clone();
            self.index = self.index + 1;
            Ok(ti)
        } else {
            Err(exhausted_message(self.index))
        }
    }

    /// The type rule: `Type ::= Identifier | "*" Type | "(" ParamList ")"
    /// Type`. Success and failure, and the cursor movement of each, agree
    /// exactly with `spec_parse_type`.
    fn parse_type(&mut self) -> (r: Result<Type, String>)
        requires
            old(self).wf(),
        ensures
            final(self).wf(),
            final(self)@.tokens == old(self)@.tokens,
            match r {
                Ok(t) => spec_parse_type(old(self).toks(), old(self)@.index as int)
                    == SpecParse::Parsed(t@, final(self)@.index as int),
                Err(m) => spec_parse_type(old(self).toks(), old(self)@.index as int)
                    == SpecParse::<TypeView>::Failed(final(self)@.index as int) && m@.len() > 0,
            },
        decreases old(self)@.tokens.len() - old(self)@.index,
    {
        let ghost ts = self.toks();
        let ghost i0 = self@.index as int;
        let ti = match self.advance_token_info() {
            Ok(t) => t,
            Err(m) => {
                return Err(m);
            },
        };
        proof {
            assert(ts[i0] == self@.tokens[i0].token@);
        }
        match ti.token {
            Token::Identifier(ident) => Ok(Type::Common(ident)),
            Token::Times => {
                let inner = match self.parse_type() {
                    Ok(t) => t,
                    Err(m) => {
                        return Err(m);
                    },
                };
                Ok(Type::Pointer(Box::new(inner)))
            },
            Token::LeftParen => {
                let params = match self.parse_function_params() {
                    Ok(p) => p,
                    Err(m) => {
                        return Err(m);
                    },
                };
                proof {
                    lemma_parse_params_progress(ts, i0 + 1);
                }
                let ret = match self.parse_type() {
                    Ok(t) => t,
                    Err(m) => {
                        return Err(m);
                    },
                };
                Ok(Type::Function { params, return_type: Some(Box::new(ret)) })
            },
            _ => Err(unexpected_message("token", &ti)),
        }
    }

    /// The parameter-list rule: `Identifier ":" Type` pairs without
    /// separators, terminated by `)`. Agrees with `spec_parse_params`.
    fn parse_function_params(&mut self) -> (r: Result<Vec<FunctionParam>, String>)
        requires
            old(self).wf(),
        ensures
            final(self).wf(),
            final(self)@.tokens == old(self)@.tokens,
            match r {
                Ok(ps) => spec_parse_params(old(self).toks(), old(self)@.index as int)
                    == SpecParse::Parsed(spec_params_view(ps@), final(self)@.index as int),
                Err(m) => spec_parse_params(old(self).toks(), old(self)@.index as int)
                    == SpecParse::<Seq<FunctionParamView>>::Failed(final(self)@.index as int)
                    && m@.len() > 0,
            },
        decreases old(self)@.tokens.len() - old(self)@.index,
    {
        let ghost ts = self.toks();
        let ghost i0 = self@.index as int;
        let ti = match self.current_token_info() {
            Ok(t) => t.clone(),
            Err(m) => {
                return Err(m);
            },
        };
        proof {
            assert(ts[i0] == self@.tokens[i0].token@);
        }
        match ti.token {
            Token::RightParen => {
                self.bump();
                let ps: Vec<FunctionParam> = Vec::new();
                proof {
                    assert(spec_params_view(ps@) =~= Seq::<FunctionParamView>::empty());
                }
                Ok(ps)
            },
            Token::Identifier(name) => {
                self.bump();
                let colon = match self.advance_token_info() {
                    Ok(t) => t,
                    Err(m) => {
                        return Err(m);
                    },
                };
                proof {
                    assert(ts[i0 + 1] == self@.tokens[i0 + 1].token@);
                }
                match colon.token {
                    Token::Colon => {},
                    _ => {
                        return Err(expected_message("Colon", &colon));
                    },
                }
                let declared_type = match self.parse_type() {
                    Ok(t) => t,
                    Err(m) => {
                        return Err(m);
                    },
                };
                proof {
                    lemma_parse_type_progress(ts, i0 + 2);
                }
                let mut rest = match self.parse_function_params() {
                    Ok(p) => p,
                    Err(m) => {
                        return Err(m);
                    },
                };
                let ghost tail0 = rest@;
                let ghost tail_view = spec_params_view(rest@);
                let param = FunctionParam { name, declared_type };
                let ghost param_view = param@;
                let mut out: Vec<FunctionParam> = Vec::new();
                out.push(param);
                out.append(&mut rest);
                proof {
                    lemma_params_view_index(out@);
                    lemma_params_view_index(tail0);
                    assert(spec_params_view(out@).len() == 1 + tail_view.len());
                    assert forall|k: int| 0 <= k < out@.len() implies spec_params_view(out@)[k]
                        == (seq![param_view] + tail_view)[k] by {
                        if k == 0 {
                            assert(out@[0] == param);
                        } else {
                            assert(out@[k] == tail0[k - 1]);
                        }
                    }
                    assert(spec_params_view(out@) =~= seq![param_view] + tail_view);
                }
                Ok(out)
            },
            _ => {
                self.bump();
                Err(expected_message("Identifier", &ti))
            },
        }
    }

    /// The declaration tail after `name:`: a type and its terminator.
    /// Agrees with `spec_parse_declaration`.
    fn parse_declaration(&mut self, ident: String) -> (r: Result<Node, String>)
        requires
            old(self).wf(),
        ensures
            final(self).wf(),
            final(self)@.tokens == old(self)@.tokens,
            match r {
                Ok(node) => spec_parse_declaration(
                    old(self).toks(),
                    old(self)@.index as int,
                    ident@,
                ) == SpecParse::Parsed(node@, final(self)@.index as int),
                Err(m) => spec_parse_declaration(old(self).toks(), old(self)@.index as int, ident@)
                    == SpecParse::<NodeView>::Failed(final(self)@.index as int) && m@.len() > 0,
            },
    {
        let ghost ts = self.toks();
        let ghost i0 = self@.index as int;
        let declared_type = match self.parse_type() {
            Ok(t) => t,
            Err(m) => {
                return Err(m);
            },
        };
        let terminator = match self.advance_token_info() {
            Ok(t) => t,
            Err(m) => {
                return Err(m);
            },
        };
        proof {
            assert(ts[final(self)@.index - 1] == self@.tokens[final(self)@.index - 1].token@);
        }
        match terminator.token {
            Token::SemiColon => Ok(
                Node::Expression(Expression::Declare { identifier: ident, declared_type }),
            ),
            _ => Err(expected_message("SemiColon", &terminator)),
        }
    }

    /// An identifier-led declaration after its leading identifier: only
    /// the `name: Type;` form exists yet. Agrees with
    /// `spec_parse_identifier_led`.
    fn parse_identifier(&mut self, ident: String) -> (r: Result<Node, String>)
        requires
            old(self).wf(),
        ensures
            final(self).wf(),
            final(self)@.tokens == old(self)@.tokens,
            match r {
                Ok(node) => spec_parse_identifier_led(
                    old(self).toks(),
                    old(self)@.index as int,
                    ident@,
                ) == SpecParse::Parsed(node@, final(self)@.index as int),
                Err(m) => spec_parse_identifier_led(
                    old(self).toks(),
                    old(self)@.index as int,
                    ident@,
                ) == SpecParse::<NodeView>::Failed(final(self)@.index as int) && m@.len() > 0,
            },
    {
        let ghost ts = self.toks();
        let ghost i0 = self@.index as int;
        let ti = match self.advance_token_info() {
            Ok(t) => t,
            Err(m) => {
                return Err(m);
            },
        };
        proof {
            assert(ts[i0] == self@.tokens[i0].token@);
        }
        match ti.token {
            Token::Colon => self.parse_declaration(ident),
            _ => Err(unexpected_message("token", &ti)),
        }
    }

    /// An external-symbol declaration after its keyword:
    /// `Identifier ":" Type ";"`. Agrees with `spec_parse_extern`.
    fn parse_extern(&mut self) -> (r: Result<Node, String>)
        requires
            old(self).wf(),
        ensures
            final(self).wf(),
            final(self)@.tokens == old(self)@.tokens,
            match r {
                Ok(node) => spec_parse_extern(old(self).toks(), old(self)@.index as int)
                    == SpecParse::Parsed(node@, final(self)@.index as int),
                Err(m) => spec_parse_extern(old(self).toks(), old(self)@.index as int)
                    == SpecParse::<NodeView>::Failed(final(self)@.index as int) && m@.len() > 0,
            },
    {
        let ghost ts = self.toks();
        let ghost i0 = self@.index as int;
        let name_info = match self.advance_token_info() {
            Ok(t) => t,
            Err(m) => {
                return Err(m);
            },
        };
        proof {
            assert(ts[i0] == self@.tokens[i0].token@);
        }
        let ident = match name_info.token {
            Token::Identifier(ident) => ident,
            _ => {
                return Err(expected_message("Identifier", &name_info));
            },
        };
        let colon = match self.advance_token_info() {
            Ok(t) => t,
            Err(m) => {
                return Err(m);
            },
        };
        proof {
            assert(ts[i0 + 1] == self@.tokens[i0 + 1].token@);
        }
        match colon.token {
            Token::Colon => {},
            _ => {
                return Err(expected_message("Colon", &colon));
            },
        }
        let declared_type = match self.parse_type() {
            Ok(t) => t,
            Err(m) => {
                return Err(m);
            },
        };
        let terminator = match self.advance_token_info() {
            Ok(t) => t,
            Err(m) => {
                return Err(m);
            },
        };
        proof {
            assert(ts[final(self)@.index - 1] == self@.tokens[final(self)@.index - 1].token@);
        }
        match terminator.token {
            Token::SemiColon => Ok(
                Node::Statement(Statement::Extern { identifier: ident, declared_type }),
            ),
            _ => Err(expected_message("SemiColon", &terminator)),
        }
    }

    /// Puts the parser in a good spot after a bad node: consumes tokens
    /// up to and including the next statement terminator, or to the end.
    fn resynchronize(&mut self)
        requires
            old(self).wf(),
        ensures
            final(self).wf(),
            final(self)@.tokens == old(self)@.tokens,
            final(self)@.index == spec_resync(old(self).toks(), old(self)@.index as int),
    {
        let ghost ts = self.toks();
        loop
            invariant_except_break
                spec_resync(ts, self@.index as int) == spec_resync(ts, old(self)@.index as int),
            invariant
                self.wf(),
                self@.tokens == old(self)@.tokens,
                ts == self.toks(),
            ensures
                final(self).wf(),
                final(self)@.tokens == old(self)@.tokens,
                final(self)@.index == spec_resync(ts, old(self)@.index as int),
            decreases self@.tokens.len() - self@.index,
        {
            if self.index >= self.tokens.len() {
                break ;
            }
            let ghost pre = self@.index as int;
            proof {
                assert(ts[pre] == self@.tokens[pre].token@);
            }
            let semi = matches!(self.tokens[self.index].token, Token::SemiColon);
            self.bump();
            if semi {
                break ;
            }
        }
    }

    /// Parses exactly one top-level declaration: `None` exactly when the
    /// tokens are exhausted. A successful parse carries the node and an
    /// empty message; a failed one carries an `Invalid` node, a non-empty
    /// diagnostic, and a cursor resynchronized past the next statement
    /// terminator. Either way the node spans `start_index..end_index` and
    /// the cursor moves strictly forward.
    pub fn parse(&mut self) -> (r: Option<NodeInfo>)
        requires
            old(self).wf(),
        ensures
            final(self).wf(),
            final(self)@.tokens == old(self)@.tokens,
            ({
                let ts = old(self).toks();
                let i0 = old(self)@.index as int;
                match r {
                    None => i0 >= ts.len() && final(self)@ == old(self)@,
                    Some(ni) => {
                        &&& i0 < ts.len()
                        &&& ni.start_index == i0
                        &&& ni.end_index == final(self)@.index
                        &&& i0 < final(self)@.index <= ts.len()
                        &&& match spec_parse_decl(ts, i0) {
                            SpecParse::Parsed(nv, j) => ni.node@ == nv && final(self)@.index == j
                                && ni.message@.len() == 0,
                            SpecParse::Failed(j) => ni.node == Node::Invalid && final(self)@.index
                                == spec_resync(ts, j) && ni.message@.len() > 0,
                        }
                    },
                }
            }),
    {
        let ghost ts = self.toks();
        let ghost i0 = self@.index as int;
        let start_index = self.index;
        let first = match self.advance_token_info() {
            Ok(t) => t,
            Err(_) => {
                return None;
            },
        };
        proof {
            assert(ts[i0] == self@.tokens[i0].token@);
            lemma_parse_decl_progress(ts, i0);
        }
        let first_token = first.token.clone();
        let result: Result<Node, String> = match first_token {
            Token::KwExtern => self.parse_extern(),
            Token::Identifier(ident) => self.parse_identifier(ident),
            _ => Err(unexpected_message("root token", &first)),
        };
        let end_index = self.index;
        match result {
            Ok(node) => Some(
                NodeInfo { node, start_index, end_index, message: String::new() },
            ),
            Err(message) => {
                proof {
                    if let SpecParse::<NodeView>::Failed(j) = spec_parse_decl(ts, i0) {
                        lemma_resync_bounds(ts, j);
                    }
                }
                self.resynchronize();
                Some(
                    NodeInfo {
                        node: Node::Invalid,
                        start_index,
                        end_index: self.index,
                        message,
                    },
                )
            },
        }
    }
}

/// `spec_params_view` maps a parameter sequence element by element.
pub proof fn lemma_params_view_index(ps: Seq<FunctionParam>)
    ensures
        spec_params_view(ps).len() == ps.len(),
        forall|k: int| 0 <= k < ps.len() ==> spec_params_view(ps)[k] == ps[k]@,
    decreases ps.len(),
{
    if ps.len() > 0 {
        let tail = ps.subrange(1, ps.len() as int);
        lemma_params_view_index(tail);
        assert(spec_params_view(ps) == seq![ps[0]@] + spec_params_view(tail));
        assert forall|k: int| 0 <= k < ps.len() implies spec_params_view(ps)[k] == ps[k]@ by {
            if k > 0 {
                assert(spec_params_view(tail)[k - 1] == tail[k - 1]@);
                assert(tail[k - 1] == ps[k]);
            }
        }
    }
}

} // verus!
