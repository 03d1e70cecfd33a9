//! Lexical analysis: turning a [`Source`] into a stream of [`Token`]s.

use vstd::prelude::*;

use crate::source::Source;
use crate::token::{
    deep_tokens, Loc, LocModel, Symbol, Token, TokenError, TokenErrorModel, TokenKind,
    TokenKindModel, TokenModel,
};

verus! {

broadcast use vstd::std_specs::vec::group_vec_axioms;

/// Whether `c` has the Unicode `White_Space` property.
pub open spec fn is_space_char(c: char) -> bool {
    let u = c as u32;
    ||| u == 0x20
    ||| (0x09 <= u && u <= 0x0D)
    ||| u == 0x85
    ||| u == 0xA0
    ||| u == 0x1680
    ||| (0x2000 <= u && u <= 0x200A)
    ||| u == 0x2028
    ||| u == 0x2029
    ||| u == 0x202F
    ||| u == 0x205F
    ||| u == 0x3000
}

/// Whether `c` is an ASCII decimal digit.
pub open spec fn is_digit_char(c: char) -> bool {
    0x30 <= c as u32 && c as u32 <= 0x39
}

/// The numeric value of an ASCII decimal digit.
pub open spec fn digit_val(c: char) -> int
    recommends
        is_digit_char(c),
{
    c as u32 - 0x30
}

/// Whether `c` may start an identifier: an ASCII letter or an underscore.
pub open spec fn is_ident_first_char(c: char) -> bool {
    let u = c as u32;
    ||| (0x41 <= u && u <= 0x5A)
    ||| (0x61 <= u && u <= 0x7A)
    ||| u == 0x5F
}

/// Whether `c` may continue an identifier: an ASCII letter, digit or
/// underscore.
pub open spec fn is_ident_char(c: char) -> bool {
    is_ident_first_char(c) || is_digit_char(c)
}

/// The symbol that the single character `c` spells, if any.
pub open spec fn symbol_of(c: char) -> Option<Symbol> {
    if c == '+' {
        Some(Symbol::Plus)
    } else if c == '-' {
        Some(Symbol::Minus)
    } else if c == '*' {
        Some(Symbol::Asterisk)
    } else if c == '/' {
        Some(Symbol::Slash)
    } else if c == ';' {
        Some(Symbol::Semicolon)
    } else if c == '=' {
        Some(Symbol::Equal)
    } else {
        None
    }
}

/// The value of a digit sequence read as a decimal number.
pub open spec fn int_of_digits(s: Seq<char>) -> int
    decreases s,
{
    if s.len() == 0 {
        0
    } else {
        int_of_digits(s.drop_last()) * 10 + digit_val(s.last())
    }
}

/// A lexing state is well formed when the cursor is inside the text and the
/// line and column counters can still grow by one per remaining character
/// without leaving `usize`.
pub open spec fn lex_wf(code: Seq<char>, loc: LocModel) -> bool {
    &&& code.len() <= usize::MAX
    &&& 0 <= loc.offset <= code.len()
    &&& 1 <= loc.line && loc.line + (code.len() - loc.offset) <= usize::MAX
    &&& 1 <= loc.col && loc.col + (code.len() - loc.offset) <= usize::MAX
}

/// The position of the first character: offset 0, line 1, column 1.
pub open spec fn head_loc() -> LocModel {
    LocModel { offset: 0, line: 1, col: 1 }
}

/// The state after consuming one character (two for a CR-LF pair, which
/// counts as a single line break): `\n` and `\r` advance the line and reset
/// the column, every other character advances the column.
pub open spec fn advanced(code: Seq<char>, loc: LocModel) -> LocModel
    recommends
        0 <= loc.offset < code.len(),
{
    let c = code[loc.offset];
    if c == '\n' {
        LocModel { offset: loc.offset + 1, line: loc.line + 1, col: 1 }
    } else if c == '\r' {
        if loc.offset + 1 < code.len() && code[loc.offset + 1] == '\n' {
            LocModel { offset: loc.offset + 2, line: loc.line + 1, col: 1 }
        } else {
            LocModel { offset: loc.offset + 1, line: loc.line + 1, col: 1 }
        }
    } else {
        LocModel { offset: loc.offset + 1, line: loc.line, col: loc.col + 1 }
    }
}

/// Consuming one character keeps the state well formed and strictly
/// advances the offset.
pub proof fn lemma_advanced(code: Seq<char>, loc: LocModel)
    requires
        lex_wf(code, loc),
        loc.offset < code.len(),
    ensures
        lex_wf(code, advanced(code, loc)),
        loc.offset < advanced(code, loc).offset <= code.len(),
{
}

/// The state after skipping every whitespace character under the cursor.
pub open spec fn skipped_ws(code: Seq<char>, loc: LocModel) -> LocModel
    recommends
        lex_wf(code, loc),
    decreases code.len() - loc.offset,
    when 0 <= loc.offset <= code.len()
{
    if loc.offset < code.len() && is_space_char(code[loc.offset]) {
        skipped_ws(code, advanced(code, loc))
    } else {
        loc
    }
}

/// Skipping whitespace keeps the state well formed, never moves backwards,
/// and stops at the first non-whitespace character or at the end.
pub proof fn lemma_skipped_ws(code: Seq<char>, loc: LocModel)
    requires
        lex_wf(code, loc),
    ensures
        lex_wf(code, skipped_ws(code, loc)),
        loc.offset <= skipped_ws(code, loc).offset <= code.len(),
        skipped_ws(code, loc).offset < code.len() ==> !is_space_char(
            code[skipped_ws(code, loc).offset],
        ),
    decreases code.len() - loc.offset,
{
    if loc.offset < code.len() && is_space_char(code[loc.offset]) {
        lemma_advanced(code, loc);
        lemma_skipped_ws(code, advanced(code, loc));
    }
}

/// The first position at or after `off` that does not hold an ASCII digit.
pub open spec fn digits_end(code: Seq<char>, off: int) -> int
    decreases code.len() - off,
    when 0 <= off <= code.len()
{
    if off < code.len() && is_digit_char(code[off]) {
        digits_end(code, off + 1)
    } else {
        off
    }
}

/// Everything between `off` and `digits_end` is a digit, and the scan stops
/// at the first non-digit.
pub proof fn lemma_digits_end(code: Seq<char>, off: int)
    requires
        0 <= off <= code.len(),
    ensures
        off <= digits_end(code, off) <= code.len(),
        forall|i: int| off <= i < digits_end(code, off) ==> is_digit_char(#[trigger] code[i]),
        digits_end(code, off) < code.len() ==> !is_digit_char(code[digits_end(code, off)]),
    decreases code.len() - off,
{
    if off < code.len() && is_digit_char(code[off]) {
        lemma_digits_end(code, off + 1);
    }
}

/// The first position at or after `off` that does not hold an identifier
/// character.
pub open spec fn ident_end(code: Seq<char>, off: int) -> int
    decreases code.len() - off,
    when 0 <= off <= code.len()
{
    if off < code.len() && is_ident_char(code[off]) {
        ident_end(code, off + 1)
    } else {
        off
    }
}

/// Everything between `off` and `ident_end` is an identifier character, and
/// the scan stops at the first other character.
pub proof fn lemma_ident_end(code: Seq<char>, off: int)
    requires
        0 <= off <= code.len(),
    ensures
        off <= ident_end(code, off) <= code.len(),
        forall|i: int| off <= i < ident_end(code, off) ==> is_ident_char(#[trigger] code[i]),
        ident_end(code, off) < code.len() ==> !is_ident_char(code[ident_end(code, off)]),
    decreases code.len() - off,
{
    if off < code.len() && is_ident_char(code[off]) {
        lemma_ident_end(code, off + 1);
    }
}

/// The diagnostic carried by an integer literal that does not fit in a
/// signed 64-bit value.
pub open spec fn int_range_message() -> Seq<char> {
    "integer literal out of range"@
}

/// The token beginning at `loc` (after skipping whitespace) and the lexing
/// state after it. At the end of the input the token is `EOF` and the state
/// does not move, so every later call keeps yielding the same `EOF`.
pub open spec fn next_token(code: Seq<char>, loc: LocModel) -> (TokenModel, LocModel)
    recommends
        lex_wf(code, loc),
{
    let l = skipped_ws(code, loc);
    if l.offset >= code.len() {
        (TokenModel { kind: TokenKindModel::EOF, loc: l }, l)
    } else {
        let c = code[l.offset];
        if symbol_of(c) is Some {
            (
                TokenModel { kind: TokenKindModel::Symbol(symbol_of(c)->0), loc: l },
                advanced(code, l),
            )
        } else if is_ident_first_char(c) {
            let end = ident_end(code, l.offset);
            (
                TokenModel { kind: TokenKindModel::Ident(code.subrange(l.offset, end)), loc: l },
                LocModel { offset: end, line: l.line, col: l.col + (end - l.offset) },
            )
        } else if is_digit_char(c) {
            let end = digits_end(code, l.offset);
            let v = int_of_digits(code.subrange(l.offset, end));
            let after = LocModel { offset: end, line: l.line, col: l.col + (end - l.offset) };
            if v <= i64::MAX {
                (TokenModel { kind: TokenKindModel::Int(v as i64), loc: l }, after)
            } else {
                (
                    TokenModel {
                        kind: TokenKindModel::Error(TokenErrorModel::Message(int_range_message())),
                        loc: l,
                    },
                    after,
                )
            }
        } else {
            (
                TokenModel {
                    kind: TokenKindModel::Error(
                        TokenErrorModel::UnexpectedChar { actual: Some(c), expected: None },
                    ),
                    loc: l,
                },
                advanced(code, l),
            )
        }
    }
}

/// The state after a token is well formed; a token other than `EOF`
/// strictly advances the offset.
pub proof fn lemma_next_token(code: Seq<char>, loc: LocModel)
    requires
        lex_wf(code, loc),
    ensures
        lex_wf(code, next_token(code, loc).1),
        loc.offset <= next_token(code, loc).1.offset <= code.len(),
        !(next_token(code, loc).0.kind is EOF) ==> next_token(code, loc).1.offset > loc.offset,
{
    lemma_skipped_ws(code, loc);
    let l = skipped_ws(code, loc);
    if l.offset < code.len() {
        let c = code[l.offset];
        lemma_advanced(code, l);
        if symbol_of(c) is Some {
        } else if is_ident_first_char(c) {
            lemma_ident_end(code, l.offset);
            assert(ident_end(code, l.offset) == ident_end(code, l.offset + 1));
        } else if is_digit_char(c) {
            lemma_digits_end(code, l.offset);
            assert(digits_end(code, l.offset) == digits_end(code, l.offset + 1));
        }
    }
}

/// The whole token stream from a lexing state: every token up to and
/// including the first `EOF`.
pub open spec fn tokens_from(code: Seq<char>, loc: LocModel) -> Seq<TokenModel>
    decreases code.len() - loc.offset + 1,
    when lex_wf(code, loc)
    via tokens_from_decreases
{
    let t = next_token(code, loc).0;
    let l2 = next_token(code, loc).1;
    if t.kind is EOF {
        seq![t]
    } else {
        seq![t] + tokens_from(code, l2)
    }
}

#[via_fn]
proof fn tokens_from_decreases(code: Seq<char>, loc: LocModel) {
    lemma_next_token(code, loc);
}

/// A token stream always ends in exactly one `EOF`, which every token
/// before it differs from.
pub proof fn lemma_tokens_from(code: Seq<char>, loc: LocModel)
    requires
        lex_wf(code, loc),
    ensures
        tokens_from(code, loc).len() >= 1,
        tokens_from(code, loc).last().kind is EOF,
        forall|i: int| 0 <= i < tokens_from(code, loc).len() - 1 ==> !(#[trigger] tokens_from(
            code,
            loc,
        )[i].kind is EOF),
    decreases code.len() - loc.offset + 1,
{
    lemma_next_token(code, loc);
    let t = next_token(code, loc).0;
    let l2 = next_token(code, loc).1;
    if !(t.kind is EOF) {
        lemma_tokens_from(code, l2);
    }
}

/// Relies on `String::push`: it appends exactly the given character to the
/// end of the string.
pub assume_specification[ String::push ](s: &mut String, c: char)
    ensures
        final(s)@ == old(s)@.push(c),
;

/// Whether `c` has the Unicode `White_Space` property (executable form).
fn char_is_space(c: char) -> (r: bool)
    ensures
        r == is_space_char(c),
{
    let u = c as u32;
    u == 0x20 || (0x09 <= u && u <= 0x0D) || u == 0x85 || u == 0xA0 || u == 0x1680 || (0x2000 <= u
        && u <= 0x200A) || u == 0x2028 || u == 0x2029 || u == 0x202F || u == 0x205F || u == 0x3000
}

/// Whether `c` is an ASCII decimal digit (executable form).
fn char_is_digit(c: char) -> (r: bool)
    ensures
        r == is_digit_char(c),
{
    let u = c as u32;
    0x30 <= u && u <= 0x39
}

/// Whether `c` may start an identifier (executable form).
fn char_is_ident_first(c: char) -> (r: bool)
    ensures
        r == is_ident_first_char(c),
{
    let u = c as u32;
    (0x41 <= u && u <= 0x5A) || (0x61 <= u && u <= 0x7A) || u == 0x5F
}

/// Whether `c` may continue an identifier (executable form).
fn char_is_ident(c: char) -> (r: bool)
    ensures
        r == is_ident_char(c),
{
    char_is_ident_first(c) || char_is_digit(c)
}

/// A pull-based scanner over a [`Source`]: every call of [`Lexer::next`]
/// yields the next token and advances the cursor, and once the input is
/// exhausted every further call yields `EOF` at the same final position.
pub struct Lexer<'a> {
    pub source: &'a Source,
    pub loc: Loc,
}

impl<'a> Lexer<'a> {
    /// The lexing state is well formed for its source text.
    pub open spec fn wf(&self) -> bool {
        lex_wf(self.source.code@, self.loc@)
    }

    /// A lexer positioned at the head of `source`.
    ///
    /// The length bound keeps the line and column counters within `usize`
    /// whatever the text holds.
    pub fn new(source: &'a Source) -> (r: Self)
        requires
            source.code@.len() < usize::MAX,
        ensures
            r.source == source,
            r.loc@ == head_loc(),
            r.wf(),
    {
        Self { loc: Loc::head(), source }
    }

    /// Whether the cursor is past the last character.
    fn eof(&self) -> (r: bool)
        ensures
            r == (self.loc@.offset >= self.source.code@.len()),
    {
        self.loc.offset >= self.source.code.len()
    }

    /// The character under the cursor, or the Unicode replacement character
    /// past the end of the input.
    fn peek_char(&self) -> (c: char)
        ensures
            c == if self.loc@.offset < self.source.code@.len() {
                self.source.code@[self.loc@.offset]
            } else {
                '\u{FFFD}'
            },
    {
        if self.loc.offset < self.source.code.len() {
            self.source.code[self.loc.offset]
        } else {
            '\u{FFFD}'
        }
    }

    /// Moves the cursor past one character, folding a CR-LF pair into a
    /// single line break.
    fn consume(&mut self)
        requires
            old(self).wf(),
            old(self).loc@.offset < old(self).source.code@.len(),
        ensures
            final(self).source == old(self).source,
            final(self).loc@ == advanced(old(self).source.code@, old(self).loc@),
            final(self).wf(),
    {
        proof {
            lemma_advanced(self.source.code@, self.loc@);
        }
        let c = self.peek_char();
        if c == '\n' {
            self.loc.offset += 1;
            self.loc.line += 1;
            self.loc.col = 1;
        } else if c == '\r' {
            self.loc.offset += 1;
            self.loc.line += 1;
            self.loc.col = 1;
            if self.peek_char() == '\n' {
                self.loc.offset += 1;
            }
        } else {
            self.loc.offset += 1;
            self.loc.col += 1;
        }
    }

    /// Moves the cursor past every whitespace character under it.
    #[verifier::loop_isolation(false)]
    fn skip_whitespaces(&mut self)
        requires
            old(self).wf(),
        ensures
            final(self).source == old(self).source,
            final(self).loc@ == skipped_ws(old(self).source.code@, old(self).loc@),
            final(self).wf(),
    {
        let ghost code = self.source.code@;
        let ghost loc0 = self.loc@;
        while !self.eof() && char_is_space(self.peek_char())
            invariant
                self.source == old(self).source,
                self.wf(),
                skipped_ws(code, self.loc@) == skipped_ws(code, loc0),
            decreases code.len() - self.loc@.offset,
        {
            self.consume();
        }
    }

    /// Scans the maximal run of digits under the cursor into an `Int` token,
    /// or into an error token when the value exceeds `i64::MAX`.
    #[verifier::loop_isolation(false)]
    fn read_integer(&mut self) -> (t: Token)
        requires
            old(self).wf(),
            old(self).loc@.offset < old(self).source.code@.len(),
            is_digit_char(old(self).source.code@[old(self).loc@.offset]),
        ensures
            final(self).source == old(self).source,
            final(self).wf(),
            ({
                let code = old(self).source.code@;
                let start = old(self).loc@.offset;
                let end = digits_end(code, start);
                let v = int_of_digits(code.subrange(start, end));
                &&& final(self).loc@ == (LocModel {
                    offset: end,
                    line: old(self).loc@.line,
                    col: old(self).loc@.col + (end - start),
                })
                &&& t@.loc == old(self).loc@
                &&& (v <= i64::MAX ==> t@.kind == TokenKindModel::Int(v as i64))
                &&& (v > i64::MAX ==> t@.kind == TokenKindModel::Error(
                    TokenErrorModel::Message(int_range_message()),
                ))
            }),
    {
        let ghost code = self.source.code@;
        let ghost start = self.loc@.offset;
        let ghost end = digits_end(code, start);
        proof {
            lemma_digits_end(code, start);
        }
        let loc0 = self.loc;
        let mut acc: u64 = 0;
        let mut too_big = false;
        while !self.eof() && char_is_digit(self.peek_char())
            invariant
                self.source == old(self).source,
                self.wf(),
                start <= self.loc@.offset <= code.len(),
                digits_end(code, self.loc@.offset) == end,
                self.loc@.line == loc0@.line,
                self.loc@.col == loc0@.col + (self.loc@.offset - start),
                too_big == (int_of_digits(code.subrange(start, self.loc@.offset)) > i64::MAX),
                !too_big ==> acc == int_of_digits(code.subrange(start, self.loc@.offset)),
                acc <= i64::MAX as u64,
            decreases code.len() - self.loc@.offset,
        {
            let ghost off = self.loc@.offset;
            let ghost prefix = code.subrange(start, off);
            let c = self.peek_char();
            let d: u64 = (c as u32 - 0x30) as u64;
            proof {
                assert(code.subrange(start, off + 1).drop_last() =~= prefix);
                assert(code.subrange(start, off + 1).last() == code[off]);
                assert(int_of_digits(code.subrange(start, off + 1)) == int_of_digits(prefix) * 10
                    + d);
                assert(digits_end(code, off) == digits_end(code, off + 1));
            }
            let threshold: u64 = (9223372036854775807u64 - d) / 10;
            if too_big || acc > threshold {
                proof {
                    let m = i64::MAX as int;
                    vstd::arithmetic::div_mod::lemma_fundamental_div_mod(m - d, 10);
                    if !too_big {
                        assert(acc as int >= threshold as int + 1);
                        assert(10 * (threshold as int) + 10 > m - d);
                        assert(10 * (acc as int) + d > m);
                    } else {
                        assert(int_of_digits(prefix) * 10 + d > i64::MAX);
                    }
                }
                too_big = true;
            } else {
                proof {
                    let m = i64::MAX as int;
                    vstd::arithmetic::div_mod::lemma_fundamental_div_mod(m - d, 10);
                    assert(10 * (acc as int) <= 10 * (threshold as int));
                    assert(10 * (acc as int) + d <= m);
                }
                acc = acc * 10 + d;
            }
            self.consume();
        }
        proof {
            assert(self.loc@.offset == end);
            assert(code.subrange(start, end) == code.subrange(start, self.loc@.offset));
        }
        if too_big {
            Token::new_error(
                TokenError::Message(String::from_str("integer literal out of range")),
                loc0,
            )
        } else {
            Token::new_int(acc as i64, loc0)
        }
    }

    /// Scans the maximal identifier run under the cursor into an `Ident`
    /// token.
    #[verifier::loop_isolation(false)]
    fn read_ident(&mut self) -> (t: Token)
        requires
            old(self).wf(),
            old(self).loc@.offset < old(self).source.code@.len(),
            is_ident_first_char(old(self).source.code@[old(self).loc@.offset]),
        ensures
            final(self).source == old(self).source,
            final(self).wf(),
            ({
                let code = old(self).source.code@;
                let start = old(self).loc@.offset;
                let end = ident_end(code, start);
                &&& final(self).loc@ == (LocModel {
                    offset: end,
                    line: old(self).loc@.line,
                    col: old(self).loc@.col + (end - start),
                })
                &&& t@.loc == old(self).loc@
                &&& t@.kind == TokenKindModel::Ident(code.subrange(start, end))
            }),
    {
        let ghost code = self.source.code@;
        let ghost start = self.loc@.offset;
        let ghost end = ident_end(code, start);
        proof {
            lemma_ident_end(code, start);
        }
        let loc0 = self.loc;
        let mut text = String::new();
        while !self.eof() && char_is_ident(self.peek_char())
            invariant
                self.source == old(self).source,
                self.wf(),
                start <= self.loc@.offset <= code.len(),
                ident_end(code, self.loc@.offset) == end,
                self.loc@.line == loc0@.line,
                self.loc@.col == loc0@.col + (self.loc@.offset - start),
                text@ == code.subrange(start, self.loc@.offset),
            decreases code.len() - self.loc@.offset,
        {
            let ghost off = self.loc@.offset;
            let c = self.peek_char();
            text.push(c);
            proof {
                assert(text@ =~= code.subrange(start, off + 1));
                assert(ident_end(code, off) == ident_end(code, off + 1));
            }
            self.consume();
        }
        proof {
            assert(self.loc@.offset == end);
        }
        Token::new_ident(text, loc0)
    }

    /// Yields the next token: skips whitespace, then scans exactly one
    /// symbol, identifier, integer or invalid character, or yields `EOF` at
    /// the end of the input, forever.
    pub fn next(&mut self) -> (t: Token)
        requires
            old(self).wf(),
        ensures
            final(self).source == old(self).source,
            final(self).wf(),
            t@ == next_token(old(self).source.code@, old(self).loc@).0,
            final(self).loc@ == next_token(old(self).source.code@, old(self).loc@).1,
    {
        let ghost code = self.source.code@;
        let ghost loc0 = self.loc@;
        proof {
            lemma_skipped_ws(code, loc0);
        }
        self.skip_whitespaces();
        let loc = self.loc;
        if self.eof() {
            return Token::new_eof(loc);
        }
        let c = self.peek_char();
        match c {
            '+' => {
                self.consume();
                Token::new_symbol(Symbol::Plus, loc)
            },
            '-' => {
                self.consume();
                Token::new_symbol(Symbol::Minus, loc)
            },
            '*' => {
                self.consume();
                Token::new_symbol(Symbol::Asterisk, loc)
            },
            '/' => {
                self.consume();
                Token::new_symbol(Symbol::Slash, loc)
            },
            ';' => {
                self.consume();
                Token::new_symbol(Symbol::Semicolon, loc)
            },
            '=' => {
                self.consume();
                Token::new_symbol(Symbol::Equal, loc)
            },
            _ => {
                if char_is_ident_first(c) {
                    self.read_ident()
                } else if char_is_digit(c) {
                    self.read_integer()
                } else {
                    self.consume();
                    Token::new_invalid_char(c, loc)
                }
            },
        }
    }

    /// Runs the lexer to the end of its input, collecting every token up to
    /// and including the first `EOF`.
    #[verifier::loop_isolation(false)]
    pub fn tokenize(&mut self) -> (tokens: Vec<Token>)
        requires
            old(self).wf(),
        ensures
            final(self).source == old(self).source,
            final(self).wf(),
            deep_tokens(tokens@) == tokens_from(old(self).source.code@, old(self).loc@),
    {
        let ghost code = self.source.code@;
        let mut tokens: Vec<Token> = Vec::new();
        loop
            invariant
                self.source == old(self).source,
                self.wf(),
                tokens_from(code, old(self).loc@) =~= deep_tokens(tokens@) + tokens_from(
                    code,
                    self.loc@,
                ),
            decreases code.len() - self.loc@.offset,
        {
            let ghost prev = self.loc@;
            let ghost prev_tokens = tokens@;
            proof {
                lemma_next_token(code, prev);
            }
            let t = self.next();
            let is_eof = matches!(t.kind, TokenKind::EOF);
            tokens.push(t);
            proof {
                assert(deep_tokens(tokens@) =~= deep_tokens(prev_tokens) + seq![t@]);
            }
            if is_eof {
                proof {
                    assert(tokens_from(code, prev) =~= seq![t@]);
                    assert(tokens_from(code, old(self).loc@) =~= deep_tokens(tokens@));
                }
                break;
            }
            proof {
                assert(tokens_from(code, prev) =~= seq![t@] + tokens_from(code, self.loc@));
            }
        }
        tokens
    }
}

/// Lexing a nonempty run of decimal digits whose value fits in a signed
/// 64-bit integer yields a single `Int` token: its value is the number the
/// digits spell, its position is the start of the run, and the very next
/// token is already `EOF`.
pub proof fn lemma_lex_digits(code: Seq<char>)
    requires
        0 < code.len() < usize::MAX,
        forall|i: int| 0 <= i < code.len() ==> is_digit_char(#[trigger] code[i]),
        int_of_digits(code) <= i64::MAX,
    ensures
        tokens_from(code, head_loc()) == seq![
            TokenModel {
                kind: TokenKindModel::Int(int_of_digits(code) as i64),
                loc: head_loc(),
            },
            TokenModel {
                kind: TokenKindModel::EOF,
                loc: LocModel { offset: code.len() as int, line: 1, col: 1 + code.len() as int },
            },
        ],
{
    let l0 = head_loc();
    assert(!is_space_char(code[0]));
    assert(skipped_ws(code, l0) == l0);
    lemma_all_digits_end(code);
    assert(code.subrange(0, code.len() as int) =~= code);
    let after = next_token(code, l0).1;
    assert(next_token(code, l0).0 == TokenModel {
        kind: TokenKindModel::Int(int_of_digits(code) as i64),
        loc: head_loc(),
    });
    assert(skipped_ws(code, after) == after);
    assert(next_token(code, after).0.kind is EOF);
    assert(tokens_from(code, after) =~= seq![next_token(code, after).0]);
}

/// In a text of digits alone the digit scan runs to the very end.
proof fn lemma_all_digits_end(code: Seq<char>)
    requires
        forall|i: int| 0 <= i < code.len() ==> is_digit_char(#[trigger] code[i]),
    ensures
        digits_end(code, 0) == code.len(),
{
    lemma_digits_end(code, 0);
    if digits_end(code, 0) < code.len() {
        assert(is_digit_char(code[digits_end(code, 0)]));
    }
}

/// Once [`Lexer::next`] has yielded `EOF`, the lexing state is final: every
/// later call yields the same `EOF` token at the same position and leaves
/// the state unchanged.
pub proof fn lemma_eof_idempotent(code: Seq<char>, loc: LocModel)
    requires
        lex_wf(code, loc),
        next_token(code, loc).0.kind is EOF,
    ensures
        next_token(code, next_token(code, loc).1) == next_token(code, loc),
{
    let l = next_token(code, loc).1;
    lemma_skipped_ws(code, loc);
    assert(l == skipped_ws(code, loc));
    assert(skipped_ws(code, l) == l);
}

} // verus!
