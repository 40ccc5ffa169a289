//! The token model: the alphabet of lexical units and their positional
//! metadata, together with the fixed keyword and symbol tables.

use vstd::prelude::*;

verus! {

/// The radix a numeric literal was written in.
#[derive(Debug, Clone, Copy, PartialEq, Eq, Structural)]
pub enum NumberFormat {
    Decimal,
    Hex,
    Octal,
    Binary,
}

/// A lexical unit. `Unknown` carries the raw text of an unrecognized
/// lexeme; `Comment` is reserved and not yet emitted by the scanner.
#[derive(Debug, PartialEq, Eq)]
pub enum Token {
    Unknown(String),
    Comment(String),
    Identifier(String),
    String(String),
    Number { value: String, format: NumberFormat, is_float: bool },
    SemiColon,
    Colon,
    Assign,
    Walrus,
    LeftParen,
    RightParen,
    LeftCurly,
    RightCurly,
    Plus,
    Minus,
    Times,
    DividedBy,
    Comma,
    KwExtern,
    KwReturn,
}

/// The mathematical shape of a token: text payloads become character
/// sequences, so contracts can speak of token contents directly.
pub enum SpecToken {
    Unknown(Seq<char>),
    Comment(Seq<char>),
    Identifier(Seq<char>),
    String(Seq<char>),
    Number { value: Seq<char>, format: NumberFormat, is_float: bool },
    SemiColon,
    Colon,
    Assign,
    Walrus,
    LeftParen,
    RightParen,
    LeftCurly,
    RightCurly,
    Plus,
    Minus,
    Times,
    DividedBy,
    Comma,
    KwExtern,
    KwReturn,
}

impl View for Token {
    type V = SpecToken;

    open spec fn view(&self) -> SpecToken {
        match self {
            Token::Unknown(s) => SpecToken::Unknown(s@),
            Token::Comment(s) => SpecToken::Comment(s@),
            Token::Identifier(s) => SpecToken::Identifier(s@),
            Token::String(s) => SpecToken::String(s@),
            Token::Number { value, format, is_float } => SpecToken::Number {
                value: value@,
                format: *format,
                is_float: *is_float,
            },
            Token::SemiColon => SpecToken::SemiColon,
            Token::Colon => SpecToken::Colon,
            Token::Assign => SpecToken::Assign,
            Token::Walrus => SpecToken::Walrus,
            Token::LeftParen => SpecToken::LeftParen,
            Token::RightParen => SpecToken::RightParen,
            Token::LeftCurly => SpecToken::LeftCurly,
            Token::RightCurly => SpecToken::RightCurly,
            Token::Plus => SpecToken::Plus,
            Token::Minus => SpecToken::Minus,
            Token::Times => SpecToken::Times,
            Token::DividedBy => SpecToken::DividedBy,
            Token::Comma => SpecToken::Comma,
            Token::KwExtern => SpecToken::KwExtern,
            Token::KwReturn => SpecToken::KwReturn,
        }
    }
}

impl DeepView for Token {
    type V = SpecToken;

    open spec fn deep_view(&self) -> SpecToken {
        self.view()
    }
}

/// A location in the source text: 0-based character index, 1-based line
/// and column.
#[derive(Debug, Clone, Copy, PartialEq, Eq, Structural)]
pub struct Position {
    pub index: usize,
    pub line: usize,
    pub column: usize,
}

/// A token together with the source positions of its first character and
/// of the character just past its last one.
#[derive(Debug)]
pub struct TokenInfo {
    pub token: Token,
    pub start_pos: Position,
    pub end_pos: Position,
}


impl Clone for Token {
    /// A clone is equal to the original, field for field.
    fn clone(&self) -> (r: Self)
        ensures
            r == *self,
    {
        match self {
            Token::Unknown(s) => Token::Unknown(s.clone()),
            Token::Comment(s) => Token::Comment(s.clone()),
            Token::Identifier(s) => Token::Identifier(s.clone()),
            Token::String(s) => Token::String(s.clone()),
            Token::Number { value, format, is_float } => Token::Number {
                value: value.clone(),
                format: *format,
                is_float: *is_float,
            },
            Token::SemiColon => Token::SemiColon,
            Token::Colon => Token::Colon,
            Token::Assign => Token::Assign,
            Token::Walrus => Token::Walrus,
            Token::LeftParen => Token::LeftParen,
            Token::RightParen => Token::RightParen,
            Token::LeftCurly => Token::LeftCurly,
            Token::RightCurly => Token::RightCurly,
            Token::Plus => Token::Plus,
            Token::Minus => Token::Minus,
            Token::Times => Token::Times,
            Token::DividedBy => Token::DividedBy,
            Token::Comma => Token::Comma,
            Token::KwExtern => Token::KwExtern,
            Token::KwReturn => Token::KwReturn,
        }
    }
}

impl Clone for TokenInfo {
    /// A clone is equal to the original, field for field.
    fn clone(&self) -> (r: Self)
        ensures
            r == *self,
    {
        TokenInfo { token: self.token.clone(), start_pos: self.start_pos, end_pos: self.end_pos }
    }
}

/// The keyword spelled `e x t e r n`.
pub open spec fn kw_extern_chars() -> Seq<char> {
    seq!['e', 'x', 't', 'e', 'r', 'n']
}

/// The keyword spelled `r e t u r n`.
pub open spec fn kw_return_chars() -> Seq<char> {
    seq!['r', 'e', 't', 'u', 'r', 'n']
}

/// The fixed keyword table: what a maximal identifier-shaped lexeme means
/// when it is a reserved word.
pub open spec fn spec_keyword_token(text: Seq<char>) -> Option<SpecToken> {
    if text == kw_extern_chars() {
        Some(SpecToken::KwExtern)
    } else if text == kw_return_chars() {
        Some(SpecToken::KwReturn)
    } else {
        None
    }
}

/// The fixed single-character symbol table.
pub open spec fn spec_symbol_char(c: char) -> Option<SpecToken> {
    match c {
        ';' => Some(SpecToken::SemiColon),
        ':' => Some(SpecToken::Colon),
        '=' => Some(SpecToken::Assign),
        '(' => Some(SpecToken::LeftParen),
        ')' => Some(SpecToken::RightParen),
        '{' => Some(SpecToken::LeftCurly),
        '}' => Some(SpecToken::RightCurly),
        '*' => Some(SpecToken::Times),
        '+' => Some(SpecToken::Plus),
        '-' => Some(SpecToken::Minus),
        '/' => Some(SpecToken::DividedBy),
        ',' => Some(SpecToken::Comma),
        _ => None,
    }
}

/// Longest-match symbol recognition at position `i`: the two-character
/// symbol `:=` wins over `:` whenever both are present; otherwise a single
/// symbol character stands alone. `None` when no fixed symbol starts here.
pub open spec fn spec_symbol_at(s: Seq<char>, i: int) -> Option<(SpecToken, int)> {
    if 0 <= i < s.len() && s[i] == ':' && i + 1 < s.len() && s[i + 1] == '=' {
        Some((SpecToken::Walrus, i + 2))
    } else if 0 <= i < s.len() && spec_symbol_char(s[i]) is Some {
        Some((spec_symbol_char(s[i])->0, i + 1))
    } else {
        None
    }
}

/// Looks an identifier-shaped lexeme up in the keyword table.
pub fn keyword_lookup(text: &Vec<char>) -> (r: Option<Token>)
    ensures
        match r {
            Some(t) => spec_keyword_token(text@) == Some(t@),
            None => spec_keyword_token(text@) is None,
        },
{
    if text.len() == 6 {
        if text[0] == 'e' && text[1] == 'x' && text[2] == 't'
            && text[3] == 'e' && text[4] == 'r' && text[5] == 'n' {
            proof {
                assert(text@ =~= kw_extern_chars());
            }
            return Some(Token::KwExtern);
        }
        if text[0] == 'r' && text[1] == 'e' && text[2] == 't'
            && text[3] == 'u' && text[4] == 'r' && text[5] == 'n' {
            proof {
                assert(text@ =~= kw_return_chars());
            }
            return Some(Token::KwReturn);
        }
    }
    proof {
        assert(text@ != kw_extern_chars() && text@ != kw_return_chars()) by {
            if text@ == kw_extern_chars() || text@ == kw_return_chars() {
                assert(text@.len() == 6);
            }
        }
    }
    None
}

/// Looks a single character up in the symbol table.
pub fn symbol_lookup(c: char) -> (r: Option<Token>)
    ensures
        match r {
            Some(t) => spec_symbol_char(c) == Some(t@),
            None => spec_symbol_char(c) is None,
        },
{
    match c {
        ';' => Some(Token::SemiColon),
        ':' => Some(Token::Colon),
        '=' => Some(Token::Assign),
        '(' => Some(Token::LeftParen),
        ')' => Some(Token::RightParen),
        '{' => Some(Token::LeftCurly),
        '}' => Some(Token::RightCurly),
        '*' => Some(Token::Times),
        '+' => Some(Token::Plus),
        '-' => Some(Token::Minus),
        '/' => Some(Token::DividedBy),
        ',' => Some(Token::Comma),
        _ => None,
    }
}

} // verus!
