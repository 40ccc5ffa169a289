//! The scanner: converts a character stream into positioned tokens, one
//! per call. The whole pass is specified by `spec_next_token`, a
//! mathematical model of a single scan step over the source characters.

use vstd::prelude::*;
use vstd::string::StrSliceExecFns;

use crate::token::NumberFormat;
use crate::token::Position;
use crate::token::SpecToken;
use crate::token::Token;
use crate::token::TokenInfo;
use crate::token::keyword_lookup;
use crate::token::spec_keyword_token;
use crate::token::spec_symbol_at;
use crate::token::symbol_lookup;

verus! {

/// The Unicode `White_Space` characters, which the scanner skips between
/// lexemes.
pub open spec fn is_space(c: char) -> bool {
    ||| (0x09 <= c as u32 && c as u32 <= 0x0d)
    ||| c as u32 == 0x20
    ||| c as u32 == 0x85
    ||| c as u32 == 0xa0
    ||| c as u32 == 0x1680
    ||| (0x2000 <= c as u32 && c as u32 <= 0x200a)
    ||| c as u32 == 0x2028
    ||| c as u32 == 0x2029
    ||| c as u32 == 0x202f
    ||| c as u32 == 0x205f
    ||| c as u32 == 0x3000
}

/// A character that may continue an identifier lexeme.
pub open spec fn is_ident_char(c: char) -> bool {
    ||| ('a' as u32 <= c as u32 && c as u32 <= 'z' as u32)
    ||| ('A' as u32 <= c as u32 && c as u32 <= 'Z' as u32)
    ||| ('0' as u32 <= c as u32 && c as u32 <= '9' as u32)
    ||| c == '_'
}

/// A character that may begin an identifier lexeme.
pub open spec fn is_ident_start(c: char) -> bool {
    ('a' as u32 <= c as u32 && c as u32 <= 'z' as u32) || ('A' as u32 <= c as u32 && c as u32
        <= 'Z' as u32) || c == '_'
}

/// A decimal digit, which begins a numeric literal.
pub open spec fn is_digit_char(c: char) -> bool {
    '0' as u32 <= c as u32 && c as u32 <= '9' as u32
}

/// The first position at or after `i` whose character fails `p`; the end
/// of the text when every remaining character satisfies `p`.
pub open spec fn spec_seek(s: Seq<char>, i: int, p: spec_fn(char) -> bool) -> int
    decreases s.len() - i,
{
    if i < 0 || i >= s.len() {
        i
    } else if p(s[i]) {
        spec_seek(s, i + 1, p)
    } else {
        i
    }
}

/// The whitespace predicate, as a single function value shared by every
/// use of `spec_seek`.
pub open spec fn space_pred() -> spec_fn(char) -> bool {
    |c: char| is_space(c)
}

/// The identifier-character predicate as a single function value.
pub open spec fn ident_pred() -> spec_fn(char) -> bool {
    |c: char| is_ident_char(c)
}

/// The quote-character predicate as a single function value.
pub open spec fn quote_pred() -> spec_fn(char) -> bool {
    |c: char| c == '"'
}

/// Where leading whitespace ends when scanning from `i`.
pub open spec fn spec_ws_end(s: Seq<char>, i: int) -> int {
    spec_seek(s, i, space_pred())
}

/// What `spec_seek` finds: a position between `i` and the end, every
/// character before it satisfying `p`, and the character at it (if any)
/// failing `p`.
pub proof fn lemma_seek(s: Seq<char>, i: int, p: spec_fn(char) -> bool)
    requires
        0 <= i <= s.len(),
    ensures
        i <= spec_seek(s, i, p) <= s.len(),
        forall|k: int| i <= k < spec_seek(s, i, p) ==> p(s[k]),
        spec_seek(s, i, p) < s.len() ==> !p(s[spec_seek(s, i, p)]),
    decreases s.len() - i,
{
    if i < s.len() && p(s[i]) {
        lemma_seek(s, i + 1, p);
    }
}

/// The 1-based line number of position `i`: one more than the number of
/// newline characters before it.
pub open spec fn spec_line_at(s: Seq<char>, i: int) -> int
    decreases i,
{
    if i <= 0 {
        1
    } else if s[i - 1] == '\n' {
        spec_line_at(s, i - 1) + 1
    } else {
        spec_line_at(s, i - 1)
    }
}

/// The 1-based column of position `i`: columns advance per character,
/// reset on a newline, and ignore carriage returns.
pub open spec fn spec_col_at(s: Seq<char>, i: int) -> int
    decreases i,
{
    if i <= 0 {
        1
    } else if s[i - 1] == '\n' {
        1
    } else if s[i - 1] == '\r' {
        spec_col_at(s, i - 1)
    } else {
        spec_col_at(s, i - 1) + 1
    }
}

/// Line and column are at least 1 and grow at most one per character.
pub proof fn lemma_line_col_bounds(s: Seq<char>, i: int)
    requires
        0 <= i,
    ensures
        1 <= spec_line_at(s, i) <= i + 1,
        1 <= spec_col_at(s, i) <= i + 1,
    decreases i,
{
    if i > 0 {
        lemma_line_col_bounds(s, i - 1);
    }
}

/// The source position `i` as a `Position` value.
pub open spec fn spec_position_at(s: Seq<char>, i: int) -> Position {
    Position {
        index: i as usize,
        line: spec_line_at(s, i) as usize,
        column: spec_col_at(s, i) as usize,
    }
}

/// The identifier-or-keyword rule at `i`: the maximal run of identifier
/// characters, a keyword when the table knows it.
pub open spec fn spec_ident_token(s: Seq<char>, i: int) -> (SpecToken, int) {
    let e = spec_seek(s, i, ident_pred());
    let text = s.subrange(i, e);
    match spec_keyword_token(text) {
        Some(k) => (k, e),
        None => (SpecToken::Identifier(text), e),
    }
}

/// The radix selected by a base marker after a leading `0`.
pub open spec fn spec_base_marker(c: char) -> Option<NumberFormat> {
    match c {
        'x' | 'X' => Some(NumberFormat::Hex),
        'o' | 'O' => Some(NumberFormat::Octal),
        'b' | 'B' => Some(NumberFormat::Binary),
        _ => None,
    }
}

/// Whether `c` is a digit of the given radix.
pub open spec fn spec_digit_ok(c: char, format: NumberFormat) -> bool {
    match format {
        NumberFormat::Binary => c == '0' || c == '1',
        NumberFormat::Octal => '0' as u32 <= c as u32 && c as u32 <= '7' as u32,
        NumberFormat::Decimal => '0' as u32 <= c as u32 && c as u32 <= '9' as u32,
        NumberFormat::Hex => ('0' as u32 <= c as u32 && c as u32 <= '9' as u32) || ('a' as u32
            <= c as u32 && c as u32 <= 'f' as u32) || ('A' as u32 <= c as u32 && c as u32
            <= 'F' as u32),
    }
}

/// Scans digits of the given radix from `i`, allowing a single decimal
/// point; yields where the literal ends and whether a point was seen.
pub open spec fn spec_num_scan(s: Seq<char>, i: int, format: NumberFormat, is_float: bool) -> (
    int,
    bool,
)
    decreases s.len() - i,
{
    if i < 0 || i >= s.len() {
        (i, is_float)
    } else if s[i] == '.' && !is_float {
        spec_num_scan(s, i + 1, format, true)
    } else if spec_digit_ok(s[i], format) {
        spec_num_scan(s, i + 1, format, is_float)
    } else {
        (i, is_float)
    }
}

/// The numeric-literal rule at `i`: a leading `0` followed by a base
/// marker switches the radix and the marker is consumed; the token keeps
/// the digit text verbatim, without the marker.
pub open spec fn spec_number_token(s: Seq<char>, i: int) -> (SpecToken, int) {
    if 0 <= i && i + 1 < s.len() && s[i] == '0' && spec_base_marker(s[i + 1]) is Some {
        let format = spec_base_marker(s[i + 1])->0;
        let scan = spec_num_scan(s, i + 2, format, false);
        (
            SpecToken::Number {
                value: seq!['0'] + s.subrange(i + 2, scan.0),
                format,
                is_float: scan.1,
            },
            scan.0,
        )
    } else {
        let scan = spec_num_scan(s, i, NumberFormat::Decimal, false);
        (
            SpecToken::Number {
                value: s.subrange(i, scan.0),
                format: NumberFormat::Decimal,
                is_float: scan.1,
            },
            scan.0,
        )
    }
}

/// Walks the body of a string literal from `i` with `run` trailing quote
/// characters already seen; yields the position just past the terminating
/// run of `q` quotes, or `None` when the input ends first.
pub open spec fn spec_scan_close(s: Seq<char>, q: int, i: int, run: int) -> Option<int>
    decreases s.len() - i,
{
    if run == q {
        Some(i)
    } else if i < 0 || i >= s.len() {
        None
    } else if s[i] == '"' {
        spec_scan_close(s, q, i + 1, run + 1)
    } else {
        spec_scan_close(s, q, i + 1, 0)
    }
}

/// Where `spec_scan_close` can land: past `i`, within the text, with room
/// for the `q` closing quotes it consumed.
pub proof fn lemma_scan_close_bounds(s: Seq<char>, q: int, i: int, run: int)
    requires
        0 <= i <= s.len(),
        0 <= run <= q,
    ensures
        match spec_scan_close(s, q, i, run) {
            Some(e) => i <= e <= s.len() && i - run <= e - q,
            None => true,
        },
    decreases s.len() - i,
{
    if run != q && i < s.len() {
        if s[i] == '"' {
            lemma_scan_close_bounds(s, q, i + 1, run + 1);
        } else {
            lemma_scan_close_bounds(s, q, i + 1, 0);
        }
    }
}

/// The string-literal rule at a leading quote. The opening run of quotes
/// is counted: a run of exactly 2 is the empty string, any other even run
/// is ambiguous and comes back verbatim as `Unknown`, and an odd run
/// opens a literal closed by the same number of consecutive quotes.
/// Input that ends before the terminator comes back as `Unknown` carrying
/// everything consumed.
pub open spec fn spec_string_token(s: Seq<char>, i: int) -> (SpecToken, int) {
    let r = spec_seek(s, i, quote_pred());
    let q = r - i;
    if q == 2 {
        (SpecToken::String(Seq::empty()), r)
    } else if q % 2 == 0 {
        (SpecToken::Unknown(s.subrange(i, r)), r)
    } else {
        match spec_scan_close(s, q, r, 0) {
            Some(e) => (SpecToken::String(s.subrange(r, e - q)), e),
            None => (SpecToken::Unknown(s.subrange(i, s.len() as int)), s.len() as int),
        }
    }
}

/// One scan step from position `i`: skip whitespace, then take the
/// longest fixed symbol, or dispatch on the character class; `None`
/// exactly when only whitespace remains.
pub open spec fn spec_next_token(s: Seq<char>, i: int) -> Option<(SpecToken, int)> {
    let j = spec_ws_end(s, i);
    if j >= s.len() {
        None
    } else {
        let c = s[j];
        if spec_symbol_at(s, j) is Some {
            spec_symbol_at(s, j)
        } else if c == '"' {
            Some(spec_string_token(s, j))
        } else if is_digit_char(c) {
            Some(spec_number_token(s, j))
        } else if is_ident_start(c) {
            Some(spec_ident_token(s, j))
        } else {
            Some((SpecToken::Unknown(seq![c]), j + 1))
        }
    }
}

/// Relies on `String`'s `FromIterator` over `char`: collecting yields a
/// string holding exactly the given characters in order.
#[verifier::external_body]
pub(crate) fn chars_to_string(chars: &Vec<char>) -> (r: String)
    ensures
        r@ == chars@,
{
    chars.iter().collect()
}

/// Whether the scanner skips `c` as whitespace.
fn char_is_space(c: char) -> (r: bool)
    ensures
        r == is_space(c),
{
    let n = c as u32;
    (0x09 <= n && n <= 0x0d) || n == 0x20 || n == 0x85 || n == 0xa0 || n == 0x1680 || (0x2000 <= n
        && n <= 0x200a) || n == 0x2028 || n == 0x2029 || n == 0x202f || n == 0x205f || n == 0x3000
}

/// Whether `c` may continue an identifier lexeme.
fn char_is_ident(c: char) -> (r: bool)
    ensures
        r == is_ident_char(c),
{
    let n = c as u32;
    ('a' as u32 <= n && n <= 'z' as u32) || ('A' as u32 <= n && n <= 'Z' as u32) || ('0' as u32
        <= n && n <= '9' as u32) || c == '_'
}

/// Whether `c` may begin an identifier lexeme.
fn char_is_ident_start(c: char) -> (r: bool)
    ensures
        r == is_ident_start(c),
{
    let n = c as u32;
    ('a' as u32 <= n && n <= 'z' as u32) || ('A' as u32 <= n && n <= 'Z' as u32) || c == '_'
}

/// Whether `c` is a decimal digit.
fn char_is_digit(c: char) -> (r: bool)
    ensures
        r == is_digit_char(c),
{
    let n = c as u32;
    '0' as u32 <= n && n <= '9' as u32
}

/// Whether `c` is a digit of the given radix.
fn char_digit_ok(c: char, format: NumberFormat) -> (r: bool)
    ensures
        r == spec_digit_ok(c, format),
{
    let n = c as u32;
    match format {
        NumberFormat::Binary => c == '0' || c == '1',
        NumberFormat::Octal => '0' as u32 <= n && n <= '7' as u32,
        NumberFormat::Decimal => '0' as u32 <= n && n <= '9' as u32,
        NumberFormat::Hex => ('0' as u32 <= n && n <= '9' as u32) || ('a' as u32 <= n && n
            <= 'f' as u32) || ('A' as u32 <= n && n <= 'F' as u32),
    }
}

/// Looks a base marker up: the character after a leading `0` that selects
/// the radix of a numeric literal.
fn base_marker_lookup(c: char) -> (r: Option<NumberFormat>)
    ensures
        r == spec_base_marker(c),
{
    match c {
        'x' | 'X' => Some(NumberFormat::Hex),
        'o' | 'O' => Some(NumberFormat::Octal),
        'b' | 'B' => Some(NumberFormat::Binary),
        _ => None,
    }
}

/// A vector of `count` quote characters.
fn repeat_quotes(count: usize) -> (v: Vec<char>)
    ensures
        v@.len() == count,
        forall|k: int| 0 <= k < count ==> v@[k] == '"',
{
    let mut v: Vec<char> = Vec::new();
    let mut i: usize = 0;
    while i < count
        invariant
            i <= count,
            v@.len() == i,
            forall|k: int| 0 <= k < i ==> v@[k] == '"',
        decreases count - i,
    {
        v.push('"');
        i = i + 1;
    }
    v
}

/// `spec_num_scan` never retreats and stays within the text.
pub proof fn lemma_num_scan_bounds(s: Seq<char>, i: int, format: NumberFormat, is_float: bool)
    requires
        0 <= i <= s.len(),
    ensures
        i <= spec_num_scan(s, i, format, is_float).0 <= s.len(),
    decreases s.len() - i,
{
    if i < s.len() {
        if s[i] == '.' && !is_float {
            lemma_num_scan_bounds(s, i + 1, format, true);
        } else if spec_digit_ok(s[i], format) {
            lemma_num_scan_bounds(s, i + 1, format, is_float);
        }
    }
}

/// Scanning one token always moves the cursor forward: a `Some` answer
/// ends strictly past the leading whitespace and within the text, and a
/// `None` answer means only whitespace remained.
pub proof fn lemma_next_token_progress(s: Seq<char>, i: int)
    requires
        0 <= i <= s.len(),
    ensures
        i <= spec_ws_end(s, i) <= s.len(),
        match spec_next_token(s, i) {
            Some(step) => spec_ws_end(s, i) < step.1 <= s.len(),
            None => spec_ws_end(s, i) == s.len(),
        },
{
    lemma_seek(s, i, space_pred());
    let j = spec_ws_end(s, i);
    if j < s.len() {
        let c = s[j];
        if spec_symbol_at(s, j) is Some {
        } else if c == '"' {
            lemma_seek(s, j, quote_pred());
            let r = spec_seek(s, j, quote_pred());
            let q = r - j;
            assert(quote_pred()(s[j]));
            assert(r > j);
            if q == 2 || q % 2 == 0 {
            } else {
                match spec_scan_close(s, q, r, 0) {
                    Some(e) => {
                        lemma_scan_close_bounds(s, q, r, 0);
                    },
                    None => {},
                }
            }
        } else if is_digit_char(c) {
            if j + 1 < s.len() && s[j] == '0' && spec_base_marker(s[j + 1]) is Some {
                lemma_num_scan_bounds(s, j + 2, spec_base_marker(s[j + 1])->0, false);
            } else {
                assert(spec_digit_ok(s[j], NumberFormat::Decimal));
                lemma_num_scan_bounds(s, j + 1, NumberFormat::Decimal, false);
            }
        } else if is_ident_start(c) {
            assert(ident_pred()(s[j]));
            lemma_seek(s, j, ident_pred());
        } else {
        }
    }
}

/// The scanner's ghost state: the source characters and the cursor.
pub struct LexerView {
    pub src: Seq<char>,
    pub index: nat,
    pub line: nat,
    pub column: nat,
}

/// A stateful cursor over the source text. Scanning never fails: every
/// unrecognized lexeme degrades to an `Unknown` token.
pub struct Lexer {
    content: String,
    index: usize,
    line: usize,
    column: usize,
}

impl View for Lexer {
    type V = LexerView;

    closed spec fn view(&self) -> LexerView {
        LexerView {
            src: self.content@,
            index: self.index as nat,
            line: self.line as nat,
            column: self.column as nat,
        }
    }
}

impl Lexer {
    /// The cursor lies within the source, and the line and column agree
    /// with the model of the characters already consumed.
    pub open spec fn wf(self) -> bool {
        &&& self@.index <= self@.src.len()
        &&& self@.src.len() < usize::MAX
        &&& self@.line == spec_line_at(self@.src, self@.index as int)
        &&& self@.column == spec_col_at(self@.src, self@.index as int)
    }

    /// A fresh scanner over the given source text, at line 1, column 1.
    pub fn new(content: String) -> (r: Self)
        requires
            content@.len() < usize::MAX,
        ensures
            r.wf(),
            r@.src == content@,
            r@.index == 0,
    {
        Self { content, index: 0, line: 1, column: 1 }
    }

    /// The character at the given source position, if any.
    fn peek(&self, index: usize) -> (r: Option<char>)
        ensures
            r == (if index < self@.src.len() {
                Some(self@.src[index as int])
            } else {
                None::<char>
            }),
    {
        let s = self.content.as_str();
        if index < s.unicode_len() {
            Some(s.get_char(index))
        } else {
            None
        }
    }

    /// The character `offset` places past the cursor, if any.
    fn peek_offset(&self, offset: usize) -> (r: Option<char>)
        requires
            self@.index + offset <= usize::MAX,
        ensures
            r == (if self@.index + offset < self@.src.len() {
                Some(self@.src[self@.index + offset as int])
            } else {
                None::<char>
            }),
    {
        self.peek(self.index + offset)
    }

    /// The character just past the cursor, if any.
    fn peek_next(&self) -> (r: Option<char>)
        requires
            self.wf(),
        ensures
            r == (if self@.index + 1 < self@.src.len() {
                Some(self@.src[self@.index as int + 1])
            } else {
                None::<char>
            }),
    {
        self.peek_offset(1)
    }

    /// The character under the cursor, if any.
    fn current(&self) -> (r: Option<char>)
        ensures
            r == (if self@.index < self@.src.len() {
                Some(self@.src[self@.index as int])
            } else {
                None::<char>
            }),
    {
        self.peek(self.index)
    }

    /// Consumes one character, keeping the line and column in step with
    /// the position model.
    fn skip(&mut self)
        requires
            old(self).wf(),
            old(self)@.index < old(self)@.src.len(),
        ensures
            final(self).wf(),
            final(self)@.src == old(self)@.src,
            final(self)@.index == old(self)@.index + 1,
    {
        proof {
            lemma_line_col_bounds(self@.src, self@.index as int);
        }
        let current = self.current();
        if let Some(c) = current {
            if c == '\n' {
                self.line = self.line + 1;
                self.column = 1;
            } else if c != '\r' {
                self.column = self.column + 1;
            }
        }
        self.index = self.index + 1;
    }

    /// Consumes and returns the character under the cursor, if any.
    fn advance(&mut self) -> (r: Option<char>)
        requires
            old(self).wf(),
        ensures
            final(self).wf(),
            final(self)@.src == old(self)@.src,
            match r {
                Some(c) => old(self)@.index < old(self)@.src.len() && c == old(
                    self,
                )@.src[old(self)@.index as int] && final(self)@.index == old(self)@.index + 1,
                None => old(self)@.index == old(self)@.src.len() && final(self)@ == old(self)@,
            },
    {
        let c = self.current();
        match c {
            Some(ch) => {
                self.skip();
                Some(ch)
            },
            None => None,
        }
    }

    /// Skips to the end of the contiguous whitespace under the cursor.
    fn skip_whitespaces(&mut self)
        requires
            old(self).wf(),
        ensures
            final(self).wf(),
            final(self)@.src == old(self)@.src,
            final(self)@.index == spec_ws_end(old(self)@.src, old(self)@.index as int),
    {
        loop
            invariant
                self.wf(),
                self@.src == old(self)@.src,
                spec_ws_end(self@.src, self@.index as int) == spec_ws_end(
                    old(self)@.src,
                    old(self)@.index as int,
                ),
            ensures
                final(self).wf(),
                final(self)@.src == old(self)@.src,
                final(self)@.index == spec_ws_end(old(self)@.src, old(self)@.index as int),
            decreases self@.src.len() - self@.index,
        {
            let c_opt = self.current();
            match c_opt {
                None => {
                    break ;
                },
                Some(c) => {
                    if !char_is_space(c) {
                        break ;
                    }
                    self.skip();
                },
            }
        }
    }

    /// The cursor's source position.
    fn position(&self) -> (r: Position)
        ensures
            r.index == self@.index,
            r.line == self@.line,
            r.column == self@.column,
    {
        Position { index: self.index, line: self.line, column: self.column }
    }

    /// Longest-match symbol recognition: consumes the longest fixed
    /// symbol under the cursor, or nothing when no symbol starts here.
    fn try_tokenize_symbol(&mut self) -> (r: Option<Token>)
        requires
            old(self).wf(),
        ensures
            final(self).wf(),
            final(self)@.src == old(self)@.src,
            match spec_symbol_at(old(self)@.src, old(self)@.index as int) {
                Some((t, e)) => r matches Some(tok) && tok@ == t && final(self)@.index == e,
                None => r is None && final(self)@.index == old(self)@.index,
            },
    {
        let c = match self.current() {
            None => {
                return None;
            },
            Some(c) => c,
        };
        if c == ':' {
            if let Some(n) = self.peek_next() {
                if n == '=' {
                    self.skip();
                    self.skip();
                    return Some(Token::Walrus);
                }
            }
        }
        match symbol_lookup(c) {
            Some(tok) => {
                self.skip();
                Some(tok)
            },
            None => None,
        }
    }

    /// The identifier-or-keyword rule: accumulates the maximal run of
    /// identifier characters, then consults the keyword table.
    fn tokenize_identifier_or_keyword(&mut self) -> (t: Token)
        requires
            old(self).wf(),
        ensures
            final(self).wf(),
            final(self)@.src == old(self)@.src,
            ({
                let step = spec_ident_token(old(self)@.src, old(self)@.index as int);
                t@ == step.0 && final(self)@.index == step.1
            }),
    {
        let ghost i0 = self@.index as int;
        let mut ident: Vec<char> = Vec::new();
        loop
            invariant
                self.wf(),
                self@.src == old(self)@.src,
                i0 == old(self)@.index,
                0 <= i0 <= self@.index,
                ident@ == self@.src.subrange(i0, self@.index as int),
                spec_seek(self@.src, self@.index as int, ident_pred()) == spec_seek(
                    self@.src,
                    i0,
                    ident_pred(),
                ),
            ensures
                final(self).wf(),
                final(self)@.src == old(self)@.src,
                final(self)@.index == spec_seek(final(self)@.src, i0, ident_pred()),
                ident@ == final(self)@.src.subrange(i0, final(self)@.index as int),
            decreases self@.src.len() - self@.index,
        {
            let c_opt = self.current();
            match c_opt {
                None => {
                    break ;
                },
                Some(c) => {
                    if char_is_ident(c) {
                        let ghost pre = self@.index as int;
                        ident.push(c);
                        self.skip();
                        proof {
                            assert(ident_pred()(self@.src[pre]));
                            assert(spec_seek(self@.src, pre, ident_pred()) == spec_seek(
                                self@.src,
                                pre + 1,
                                ident_pred(),
                            ));
                            assert(ident@ =~= self@.src.subrange(i0, self@.index as int));
                        }
                    } else {
                        break ;
                    }
                },
            }
        }
        match keyword_lookup(&ident) {
            Some(tok) => tok,
            None => Token::Identifier(chars_to_string(&ident)),
        }
    }

    /// The numeric-literal rule: a base marker after a leading `0`
    /// switches the radix, then digits of that radix are consumed, with
    /// at most one decimal point. The digit text is kept verbatim; no
    /// numeric conversion happens at this stage.
    fn tokenize_number(&mut self) -> (t: Token)
        requires
            old(self).wf(),
        ensures
            final(self).wf(),
            final(self)@.src == old(self)@.src,
            ({
                let step = spec_number_token(old(self)@.src, old(self)@.index as int);
                t@ == step.0 && final(self)@.index == step.1
            }),
    {
        let ghost s = self@.src;
        let ghost i0 = self@.index as int;
        let mut value: Vec<char> = Vec::new();
        let mut format = NumberFormat::Decimal;
        let mut is_float = false;
        let c0 = self.current();
        if let Some(z) = c0 {
            if z == '0' {
                if let Some(m) = self.peek_next() {
                    if let Some(f) = base_marker_lookup(m) {
                        format = f;
                        value.push('0');
                        self.skip();
                        self.skip();
                    }
                }
            }
        }
        let ghost head = value@;
        let ghost scan_start = self@.index as int;
        proof {
            assert(spec_number_token(s, i0) == ({
                let scan = spec_num_scan(s, scan_start, format, false);
                (
                    SpecToken::Number {
                        value: head + s.subrange(scan_start, scan.0),
                        format,
                        is_float: scan.1,
                    },
                    scan.0,
                )
            }));
        }
        loop
            invariant
                self.wf(),
                self@.src == s,
                0 <= scan_start <= self@.index,
                value@ == head + s.subrange(scan_start, self@.index as int),
                spec_num_scan(s, self@.index as int, format, is_float) == spec_num_scan(
                    s,
                    scan_start,
                    format,
                    false,
                ),
            ensures
                final(self).wf(),
                final(self)@.src == s,
                scan_start <= final(self)@.index,
                value@ == head + s.subrange(scan_start, final(self)@.index as int),
                spec_num_scan(s, scan_start, format, false) == (
                    final(self)@.index as int,
                    is_float,
                ),
            decreases s.len() - self@.index,
        {
            let c_opt = self.current();
            match c_opt {
                None => {
                    break ;
                },
                Some(c) => {
                    if c == '.' && !is_float {
                        is_float = true;
                        value.push(c);
                        self.skip();
                    } else if char_digit_ok(c, format) {
                        value.push(c);
                        self.skip();
                    } else {
                        break ;
                    }
                    proof {
                        assert(value@ =~= head + s.subrange(scan_start, self@.index as int));
                    }
                },
            }
        }
        Token::Number { value: chars_to_string(&value), format, is_float }
    }

    /// Whether the cursor stands on a quote character.
    fn at_quote(&self) -> (r: bool)
        ensures
            r == (self@.index < self@.src.len() && self@.src[self@.index as int] == '"'),
    {
        match self.current() {
            Some(c) => c == '"',
            None => false,
        }
    }

    /// The string-literal rule at a leading quote: counts the opening run
    /// of quotes, rejects ambiguous even-length runs, and otherwise
    /// consumes content until the same number of consecutive quotes
    /// closes the literal. The terminator quotes are stripped from the
    /// returned content; input ending early comes back as `Unknown`
    /// carrying everything consumed.
    fn tokenize_string(&mut self) -> (t: Token)
        requires
            old(self).wf(),
            old(self)@.index < old(self)@.src.len(),
            old(self)@.src[old(self)@.index as int] == '"',
        ensures
            final(self).wf(),
            final(self)@.src == old(self)@.src,
            ({
                let step = spec_string_token(old(self)@.src, old(self)@.index as int);
                t@ == step.0 && final(self)@.index == step.1
            }),
    {
        let ghost s = self@.src;
        let ghost i0 = self@.index as int;
        let mut quote_count: usize = 0;
        while self.at_quote()
            invariant
                self.wf(),
                self@.src == s,
                0 <= i0 <= self@.index,
                quote_count == self@.index - i0,
                spec_seek(s, self@.index as int, quote_pred()) == spec_seek(s, i0, quote_pred()),
            decreases s.len() - self@.index,
        {
            let ghost pre = self@.index as int;
            quote_count = quote_count + 1;
            self.skip();
            proof {
                assert(quote_pred()(s[pre]));
            }
        }
        let ghost r = self@.index as int;
        proof {
            if r < s.len() {
                assert(!quote_pred()(s[r]));
            }
            assert(spec_seek(s, i0, quote_pred()) == r);
            lemma_seek(s, i0, quote_pred());
            assert(quote_pred()(s[i0]));
            assert(quote_count >= 1);
        }
        if quote_count == 2 {
            return Token::String(String::new());
        }
        if quote_count % 2 == 0 {
            let quotes = repeat_quotes(quote_count);
            proof {
                assert forall|k: int| i0 <= k < r implies s[k] == '"' by {
                    assert(quote_pred()(s[k]));
                }
                assert(quotes@ =~= s.subrange(i0, r));
            }
            return Token::Unknown(chars_to_string(&quotes));
        }
        let mut content: Vec<char> = Vec::new();
        let mut run: usize = 0;
        let ghost cs = self@.index as int;
        while run != quote_count
            invariant
                self.wf(),
                self@.src == s,
                s == old(self)@.src,
                i0 == old(self)@.index,
                0 <= i0 < cs <= self@.index,
                cs == r,
                r == spec_seek(s, i0, quote_pred()),
                quote_count == r - i0,
                quote_count % 2 == 1,
                run <= quote_count,
                run <= content@.len(),
                content@ == s.subrange(cs, self@.index as int),
                spec_scan_close(s, quote_count as int, self@.index as int, run as int)
                    == spec_scan_close(s, quote_count as int, cs, 0),
            decreases s.len() - self@.index,
        {
            let c_opt = self.advance();
            match c_opt {
                None => {
                    let mut unknown = repeat_quotes(quote_count);
                    proof {
                        lemma_seek(s, i0, quote_pred());
                        assert forall|k: int| i0 <= k < r implies s[k] == '"' by {
                            assert(quote_pred()(s[k]));
                        }
                        assert(unknown@ =~= s.subrange(i0, cs));
                    }
                    unknown.append(&mut content);
                    proof {
                        assert(unknown@ =~= s.subrange(i0, s.len() as int));
                    }
                    return Token::Unknown(chars_to_string(&unknown));
                },
                Some(c) => {
                    content.push(c);
                    if c == '"' {
                        run = run + 1;
                    } else {
                        run = 0;
                    }
                    proof {
                        assert(content@ =~= s.subrange(cs, self@.index as int));
                    }
                },
            }
        }
        proof {
            assert(spec_scan_close(s, quote_count as int, cs, 0) == Some(self@.index as int));
        }
        let new_len = content.len() - quote_count;
        content.truncate(new_len);
        proof {
            assert(content@ =~= s.subrange(cs, self@.index - quote_count));
        }
        Token::String(chars_to_string(&content))
    }

    /// One scan step: skips whitespace, then emits the next token with
    /// its start and end positions, or `None` exactly when the source is
    /// exhausted. Every call that yields a token consumes at least one
    /// character, so a full scan always terminates.
    pub fn tokenize(&mut self) -> (r: Option<TokenInfo>)
        requires
            old(self).wf(),
        ensures
            final(self).wf(),
            final(self)@.src == old(self)@.src,
            ({
                let s = old(self)@.src;
                let i0 = old(self)@.index as int;
                let j = spec_ws_end(s, i0);
                match r {
                    None => j == s.len() && final(self)@.index == s.len(),
                    Some(ti) => {
                        &&& spec_next_token(s, i0) == Some((ti.token@, final(self)@.index as int))
                        &&& ti.start_pos == spec_position_at(s, j)
                        &&& ti.end_pos == spec_position_at(s, final(self)@.index as int)
                        &&& i0 <= j < final(self)@.index <= s.len()
                    },
                }
            }),
    {
        let ghost s = self@.src;
        let ghost i0 = self@.index as int;
        proof {
            lemma_next_token_progress(s, i0);
        }
        self.skip_whitespaces();
        let ghost j = self@.index as int;
        let c = match self.current() {
            None => {
                return None;
            },
            Some(c) => c,
        };
        let start_pos = self.position();
        proof {
            lemma_line_col_bounds(s, j);
        }
        let symbol_token = self.try_tokenize_symbol();
        let token = match symbol_token {
            Some(tok) => tok,
            None => {
                if c == '"' {
                    self.tokenize_string()
                } else if char_is_digit(c) {
                    self.tokenize_number()
                } else if char_is_ident_start(c) {
                    self.tokenize_identifier_or_keyword()
                } else {
                    self.skip();
                    let mut raw: Vec<char> = Vec::new();
                    raw.push(c);
                    proof {
                        assert(raw@ =~= seq![c]);
                    }
                    Token::Unknown(chars_to_string(&raw))
                }
            },
        };
        let end_pos = self.position();
        proof {
            lemma_line_col_bounds(s, self@.index as int);
        }
        Some(TokenInfo { token, start_pos, end_pos })
    }
}


/// The full token stream from position `i`: everything that repeated
/// scan steps emit until the source is exhausted.
pub open spec fn spec_token_stream(s: Seq<char>, i: int) -> Seq<SpecToken>
    decreases s.len() - i,
        when 0 <= i <= s.len()
        via spec_token_stream_decreases
{
    match spec_next_token(s, i) {
        None => Seq::empty(),
        Some(step) => seq![step.0] + spec_token_stream(s, step.1),
    }
}

#[via_fn]
proof fn spec_token_stream_decreases(s: Seq<char>, i: int) {
    lemma_next_token_progress(s, i);
}

/// Liveness: scanning any finite input terminates, and the number of
/// tokens emitted never exceeds the number of characters left.
pub proof fn lemma_scan_liveness(s: Seq<char>, i: int)
    requires
        0 <= i <= s.len(),
    ensures
        spec_token_stream(s, i).len() <= s.len() - i,
    decreases s.len() - i,
{
    lemma_next_token_progress(s, i);
    match spec_next_token(s, i) {
        Some(step) => {
            lemma_scan_liveness(s, step.1);
        },
        None => {},
    }
}

/// The longest-match law: wherever a `:` is immediately followed by `=`,
/// the scanner emits one Walrus token spanning both characters, never a
/// Colon followed by a stray `=`.
pub proof fn lemma_longest_match(s: Seq<char>, i: int)
    requires
        0 <= i,
        ({
            let j = spec_ws_end(s, i);
            j + 1 < s.len() && s[j] == ':' && s[j + 1] == '='
        }),
    ensures
        spec_next_token(s, i) == Some((SpecToken::Walrus, spec_ws_end(s, i) + 2)),
{
    if i <= s.len() {
        lemma_seek(s, i, space_pred());
    }
}

/// A run of `e - p` characters free of quotes does not close a string
/// literal: the closing scan passes straight over it.
proof fn lemma_scan_close_skips(s: Seq<char>, q: int, p: int, e: int)
    requires
        1 <= q,
        0 <= p <= e <= s.len(),
        forall|k: int| p <= k < e ==> s[k] != '"',
    ensures
        spec_scan_close(s, q, p, 0) == spec_scan_close(s, q, e, 0),
    decreases e - p,
{
    if p < e {
        lemma_scan_close_skips(s, q, p + 1, e);
    }
}

/// The string-delimiter round trip: any non-empty content free of quote
/// characters, wrapped in a 3-quote delimiter, scans back to exactly one
/// string token holding that content.
pub proof fn lemma_string_round_trip(content: Seq<char>)
    requires
        content.len() > 0,
        forall|k: int| 0 <= k < content.len() ==> content[k] != '"',
    ensures
        ({
            let s = seq!['"', '"', '"'] + content + seq!['"', '"', '"'];
            spec_next_token(s, 0) == Some((SpecToken::String(content), s.len() as int))
        }),
{
    let s = seq!['"', '"', '"'] + content + seq!['"', '"', '"'];
    let n = content.len() as int;
    assert(s.len() == n + 6);
    assert(s[0] == '"' && s[1] == '"' && s[2] == '"');
    assert(s[n + 3] == '"' && s[n + 4] == '"' && s[n + 5] == '"');
    assert(forall|k: int| 3 <= k < n + 3 ==> s[k] == content[k - 3] && s[k] != '"');
    // no whitespace is skipped: the text opens with a quote
    assert(!space_pred()(s[0]));
    assert(spec_ws_end(s, 0) == 0);
    // no fixed symbol starts with a quote
    assert(spec_symbol_at(s, 0) is None);
    // the opening run of quotes is exactly the 3-quote delimiter
    assert(quote_pred()(s[0]) && quote_pred()(s[1]) && quote_pred()(s[2]));
    assert(!quote_pred()(s[3]));
    assert(spec_seek(s, 3, quote_pred()) == 3);
    assert(spec_seek(s, 2, quote_pred()) == 3);
    assert(spec_seek(s, 1, quote_pred()) == 3);
    assert(spec_seek(s, 0, quote_pred()) == 3);
    // the closing scan passes over the content, then takes the 3 quotes
    lemma_scan_close_skips(s, 3, 3, n + 3);
    assert(spec_scan_close(s, 3, n + 3, 0) == spec_scan_close(s, 3, n + 4, 1));
    assert(spec_scan_close(s, 3, n + 4, 1) == spec_scan_close(s, 3, n + 5, 2));
    assert(spec_scan_close(s, 3, n + 5, 2) == spec_scan_close(s, 3, n + 6, 3));
    assert(spec_scan_close(s, 3, n + 6, 3) == Some(n + 6));
    assert(s.subrange(3, n + 3) =~= content);
}


} // verus!
