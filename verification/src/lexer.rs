//! The scanner: from source text to tokens.
//!
//! Scanning never fails. Whitespace and `//` comments are skipped, a
//! character that starts nothing else becomes a one-character word, and the
//! token sequence always ends with `Eof`.

use crate::text::chars_of;
use crate::text::is_alphabetic_char;
use crate::text::is_numeric_char;
use crate::text::is_whitespace_char;
use crate::text::same_text;
use crate::text::text_of;
use crate::token::Token;
use crate::token::TokenKind;
use crate::token::TokenModel;
use crate::token::TokenType;
use vstd::prelude::*;

verus! {

/// The line, counted from 1, on which the character at index `i` stands: one
/// more than the number of line feeds before it.
pub open spec fn line_at(src: Seq<char>, i: int) -> nat
    decreases i,
{
    if i <= 0 || i > src.len() {
        1
    } else if src[i - 1] == '\n' {
        line_at(src, i - 1) + 1
    } else {
        line_at(src, i - 1)
    }
}

/// The column, counted from 1, of the character at index `i`: one more than
/// the number of characters between it and the last line feed before it.
pub open spec fn column_at(src: Seq<char>, i: int) -> nat
    decreases i,
{
    if i <= 0 || i > src.len() {
        1
    } else if src[i - 1] == '\n' {
        1
    } else {
        column_at(src, i - 1) + 1
    }
}

/// A line or column number as a token holds it: the number itself, or the
/// largest `usize` where the number is larger.
pub open spec fn capped(n: nat) -> nat {
    if n > usize::MAX {
        usize::MAX as nat
    } else {
        n
    }
}

/// A character that may start a word.
pub open spec fn is_word_start(c: char) -> bool {
    is_alphabetic_char(c) || c == '_'
}

/// A character that may continue a word.
pub open spec fn is_word_char(c: char) -> bool {
    is_alphabetic_char(c) || is_numeric_char(c) || c == '_'
}

/// A character that may continue a numeric literal.
pub open spec fn is_number_char(c: char) -> bool {
    is_numeric_char(c) || c == '.'
}

/// The end of the longest run of characters of `class` that starts at `pos`.
pub open spec fn run_end(src: Seq<char>, pos: int, class: spec_fn(char) -> bool) -> int
    decreases src.len() - pos,
{
    if 0 <= pos < src.len() && class(src[pos]) {
        run_end(src, pos + 1, class)
    } else {
        pos
    }
}

/// The index just behind the first line feed at or after `pos`, or the end of
/// the text where there is none.
pub open spec fn line_end(src: Seq<char>, pos: int) -> int
    decreases src.len() - pos,
{
    if pos < 0 || pos >= src.len() {
        pos
    } else if src[pos] == '\n' {
        pos + 1
    } else {
        line_end(src, pos + 1)
    }
}

/// The character that a backslash followed by `c` stands for.
pub open spec fn unescape(c: char) -> char {
    if c == 'n' {
        '\n'
    } else if c == 't' {
        '\t'
    } else if c == 'r' {
        '\r'
    } else {
        c
    }
}

/// The content of a string literal whose first character after the opening
/// quote is at `pos`, and the index behind the literal. The literal ends at
/// the first unescaped `quote`, or where the text ends.
pub open spec fn string_body(src: Seq<char>, pos: int, quote: char) -> (Seq<char>, int)
    decreases src.len() - pos,
{
    if pos < 0 || pos >= src.len() {
        (Seq::empty(), pos)
    } else if src[pos] == quote {
        (Seq::empty(), pos + 1)
    } else if src[pos] == '\\' {
        if pos + 1 < src.len() {
            let (rest, end) = string_body(src, pos + 2, quote);
            (seq![unescape(src[pos + 1])] + rest, end)
        } else {
            (Seq::empty(), pos + 1)
        }
    } else {
        let (rest, end) = string_body(src, pos + 1, quote);
        (seq![src[pos]] + rest, end)
    }
}

/// The keyword that `word` spells, or the word itself as an identifier.
pub open spec fn keyword_kind(word: Seq<char>) -> TokenKind {
    if word == "func"@ {
        TokenKind::Func
    } else if word == "end"@ {
        TokenKind::End
    } else if word == "return"@ {
        TokenKind::Return
    } else if word == "if"@ {
        TokenKind::If
    } else if word == "else"@ {
        TokenKind::Else
    } else if word == "while"@ {
        TokenKind::While
    } else if word == "for"@ {
        TokenKind::For
    } else if word == "try"@ {
        TokenKind::Try
    } else if word == "catch"@ {
        TokenKind::Catch
    } else if word == "raise"@ {
        TokenKind::Raise
    } else if word == "route"@ {
        TokenKind::Route
    } else if word == "json"@ {
        TokenKind::Json
    } else if word == "auto"@ {
        TokenKind::Auto
    } else if word == "error_code"@ {
        TokenKind::ErrorCode
    } else if word == "public"@ {
        TokenKind::Public
    } else if word == "private"@ {
        TokenKind::Private
    } else if word == "import"@ {
        TokenKind::Import
    } else if word == "from"@ {
        TokenKind::From
    } else if word == "int"@ {
        TokenKind::Int
    } else if word == "float"@ {
        TokenKind::Float
    } else if word == "double"@ {
        TokenKind::Double
    } else if word == "txt"@ {
        TokenKind::Txt
    } else if word == "bool"@ {
        TokenKind::Bool
    } else if word == "get"@ {
        TokenKind::Get
    } else if word == "post"@ {
        TokenKind::Post
    } else if word == "put"@ {
        TokenKind::Put
    } else if word == "delete"@ {
        TokenKind::Delete
    } else if word == "and"@ {
        TokenKind::And
    } else if word == "or"@ {
        TokenKind::Or
    } else if word == "not"@ {
        TokenKind::Not
    } else {
        TokenKind::Identifier(word)
    }
}

/// Whether the character at `pos` is `c`.
pub open spec fn char_is(src: Seq<char>, pos: int, c: char) -> bool {
    0 <= pos < src.len() && src[pos] == c
}

/// The token that starts at `pos`, where a character stands that is neither
/// whitespace nor the start of a comment, and the index behind the token.
///
/// Two-character operators win over their first character alone. A character
/// that starts no other token is a word of its own.
pub open spec fn token_at(src: Seq<char>, pos: int) -> (TokenKind, int)
    recommends
        0 <= pos < src.len(),
{
    let c = src[pos];
    if c == '(' {
        (TokenKind::LeftParen, pos + 1)
    } else if c == ')' {
        (TokenKind::RightParen, pos + 1)
    } else if c == '{' {
        (TokenKind::LeftBrace, pos + 1)
    } else if c == '}' {
        (TokenKind::RightBrace, pos + 1)
    } else if c == '[' {
        (TokenKind::LeftBracket, pos + 1)
    } else if c == ']' {
        (TokenKind::RightBracket, pos + 1)
    } else if c == ',' {
        (TokenKind::Comma, pos + 1)
    } else if c == '.' {
        (TokenKind::Dot, pos + 1)
    } else if c == ':' {
        (TokenKind::Colon, pos + 1)
    } else if c == '+' {
        (TokenKind::Plus, pos + 1)
    } else if c == '-' {
        if char_is(src, pos + 1, '>') {
            (TokenKind::Arrow, pos + 2)
        } else {
            (TokenKind::Minus, pos + 1)
        }
    } else if c == '*' {
        (TokenKind::Star, pos + 1)
    } else if c == '/' {
        (TokenKind::Slash, pos + 1)
    } else if c == '%' {
        (TokenKind::Percent, pos + 1)
    } else if c == '=' {
        if char_is(src, pos + 1, '=') {
            (TokenKind::EqualEqual, pos + 2)
        } else {
            (TokenKind::Equal, pos + 1)
        }
    } else if c == '!' {
        if char_is(src, pos + 1, '=') {
            (TokenKind::NotEqual, pos + 2)
        } else {
            (TokenKind::Not, pos + 1)
        }
    } else if c == '<' {
        if char_is(src, pos + 1, '=') {
            (TokenKind::LessEqual, pos + 2)
        } else {
            (TokenKind::Less, pos + 1)
        }
    } else if c == '>' {
        if char_is(src, pos + 1, '=') {
            (TokenKind::GreaterEqual, pos + 2)
        } else {
            (TokenKind::Greater, pos + 1)
        }
    } else if c == '"' || c == '\'' {
        let (content, end) = string_body(src, pos + 1, c);
        (TokenKind::String(content), end)
    } else if is_word_start(c) {
        let end = run_end(src, pos, |x: char| is_word_char(x));
        (keyword_kind(src.subrange(pos, end)), end)
    } else if is_numeric_char(c) {
        let end = run_end(src, pos, |x: char| is_number_char(x));
        (TokenKind::Number(src.subrange(pos, end)), end)
    } else {
        (TokenKind::Identifier(seq![c]), pos + 1)
    }
}

/// The tokens of `src` from index `pos` on, `Eof` last. Each token carries the
/// line and column of its first character, `Eof` those of the end of the
/// text; a number too large for a `usize` is capped.
pub open spec fn scan(src: Seq<char>, pos: int) -> Seq<TokenModel>
    decreases src.len() - pos,
{
    if pos < 0 || pos >= src.len() {
        seq![
            TokenModel {
                kind: TokenKind::Eof,
                line: capped(line_at(src, src.len() as int)),
                column: capped(column_at(src, src.len() as int)),
            },
        ]
    } else if is_whitespace_char(src[pos]) {
        scan(src, pos + 1)
    } else if src[pos] == '/' && char_is(src, pos + 1, '/') {
        proof {
            lemma_line_end_bounds(src, pos + 1);
        }
        scan(src, line_end(src, pos + 1))
    } else {
        proof {
            lemma_token_at_bounds(src, pos);
        }
        let (kind, end) = token_at(src, pos);
        seq![
            TokenModel {
                kind,
                line: capped(line_at(src, pos)),
                column: capped(column_at(src, pos)),
            },
        ] + scan(src, end)
    }
}

/// The tokens of a whole source text.
pub open spec fn tokens_of(src: Seq<char>) -> Seq<TokenModel> {
    scan(src, 0)
}

/// A run ends at or behind its start, within the text.
pub proof fn lemma_run_end_bounds(src: Seq<char>, pos: int, class: spec_fn(char) -> bool)
    requires
        0 <= pos <= src.len(),
    ensures
        pos <= run_end(src, pos, class) <= src.len(),
        0 <= pos < src.len() && class(src[pos]) ==> pos < run_end(src, pos, class),
    decreases src.len() - pos,
{
    if 0 <= pos < src.len() && class(src[pos]) {
        lemma_run_end_bounds(src, pos + 1, class);
    }
}

/// The rest of a line ends at or behind its start, within the text.
pub proof fn lemma_line_end_bounds(src: Seq<char>, pos: int)
    requires
        0 <= pos <= src.len(),
    ensures
        pos <= line_end(src, pos) <= src.len(),
    decreases src.len() - pos,
{
    if pos < src.len() && src[pos] != '\n' {
        lemma_line_end_bounds(src, pos + 1);
    }
}

/// A string literal ends at or behind its start, within the text.
pub proof fn lemma_string_body_bounds(src: Seq<char>, pos: int, quote: char)
    requires
        0 <= pos <= src.len(),
    ensures
        pos <= string_body(src, pos, quote).1 <= src.len(),
    decreases src.len() - pos,
{
    if pos < src.len() && src[pos] != quote {
        if src[pos] == '\\' {
            if pos + 1 < src.len() {
                lemma_string_body_bounds(src, pos + 2, quote);
            }
        } else {
            lemma_string_body_bounds(src, pos + 1, quote);
        }
    }
}

/// Every token takes at least one character and ends within the text.
pub proof fn lemma_token_at_bounds(src: Seq<char>, pos: int)
    requires
        0 <= pos < src.len(),
    ensures
        pos < token_at(src, pos).1 <= src.len(),
{
    let c = src[pos];
    if c == '"' || c == '\'' {
        lemma_string_body_bounds(src, pos + 1, c);
    }
    lemma_run_end_bounds(src, pos, |x: char| is_word_char(x));
    lemma_run_end_bounds(src, pos, |x: char| is_number_char(x));
}

/// Every token sequence the scanner yields is nonempty and ends with `Eof`,
/// and `Eof` stands nowhere else in it.
pub proof fn lemma_scan_ends_with_eof(src: Seq<char>, pos: int)
    requires
        0 <= pos <= src.len(),
    ensures
        scan(src, pos).len() > 0,
        scan(src, pos).last().kind is Eof,
        forall|i: int| 0 <= i < scan(src, pos).len() - 1 ==> !(#[trigger] scan(src, pos)[i].kind is Eof),
    decreases src.len() - pos,
{
    if pos >= src.len() {
    } else if is_whitespace_char(src[pos]) {
        lemma_scan_ends_with_eof(src, pos + 1);
    } else if src[pos] == '/' && char_is(src, pos + 1, '/') {
        lemma_line_end_bounds(src, pos + 1);
        lemma_scan_ends_with_eof(src, line_end(src, pos + 1));
    } else {
        lemma_token_at_bounds(src, pos);
        let (kind, end) = token_at(src, pos);
        lemma_scan_ends_with_eof(src, end);
        let head = seq![
            TokenModel {
                kind,
                line: capped(line_at(src, pos)),
                column: capped(column_at(src, pos)),
            },
        ];
        let tail = scan(src, end);
        assert(scan(src, pos) == head + tail);
        assert(!(kind is Eof));
        assert forall|i: int| 0 <= i < scan(src, pos).len() - 1 implies !(#[trigger] scan(
            src,
            pos,
        )[i].kind is Eof) by {
            if i > 0 {
                assert(scan(src, pos)[i] == tail[i - 1]);
            }
        }
    }
}

/// The scanner's state: the text and a place in it.
pub struct Lexer {
    input: Vec<char>,
    pos: usize,
    line: usize,
    column: usize,
}

impl Lexer {
    /// The whole text being scanned.
    pub closed spec fn source(&self) -> Seq<char> {
        self.input@
    }

    /// The index of the next character to read.
    pub closed spec fn position(&self) -> int {
        self.pos as int
    }

    /// The place is inside the text, and line and column are those of the place.
    pub closed spec fn wf(&self) -> bool {
        &&& self.pos <= self.input.len()
        &&& self.line == capped(line_at(self.input@, self.pos as int))
        &&& self.column == capped(column_at(self.input@, self.pos as int))
    }

    /// A scanner at the start of `input`.
    pub fn new(input: &str) -> (lexer: Lexer)
        ensures
            lexer.wf(),
            lexer.source() == input@,
            lexer.position() == 0,
    {
        Lexer { input: chars_of(input), pos: 0, line: 1, column: 1 }
    }

    fn current_char(&self) -> (c: Option<char>)
        requires
            self.wf(),
        ensures
            c == if self.pos < self.input.len() {
                Some(self.input@[self.pos as int])
            } else {
                None
            },
    {
        if self.pos < self.input.len() {
            Some(self.input[self.pos])
        } else {
            None
        }
    }

    fn peek_char(&self, offset: usize) -> (c: Option<char>)
        requires
            self.wf(),
        ensures
            c == if self.pos + offset < self.input.len() {
                Some(self.input@[self.pos + offset])
            } else {
                None
            },
    {
        if offset < self.input.len() - self.pos {
            Some(self.input[self.pos + offset])
        } else {
            None
        }
    }

    fn advance(&mut self)
        requires
            old(self).wf(),
        ensures
            final(self).wf(),
            final(self).input == old(self).input,
            final(self).pos == if old(self).pos < old(self).input.len() {
                old(self).pos + 1
            } else {
                old(self).pos as int
            },
    {
        if let Some(ch) = self.current_char() {
            self.pos += 1;
            if ch == '\n' {
                if self.line < usize::MAX {
                    self.line += 1;
                }
                self.column = 1;
            } else if self.column < usize::MAX {
                self.column += 1;
            }
        }
    }

    fn skip_whitespace(&mut self)
        requires
            old(self).wf(),
        ensures
            final(self).wf(),
            final(self).input == old(self).input,
            old(self).pos <= final(self).pos,
            scan(final(self).input@, final(self).pos as int) == scan(
                old(self).input@,
                old(self).pos as int,
            ),
            final(self).pos < final(self).input.len() ==> !is_whitespace_char(
                final(self).input@[final(self).pos as int],
            ),
    {
        while self.pos < self.input.len() && self.input[self.pos].is_whitespace()
            invariant
                self.wf(),
                self.input == old(self).input,
                old(self).pos <= self.pos,
                scan(self.input@, self.pos as int) == scan(old(self).input@, old(self).pos as int),
            decreases self.input.len() - self.pos,
        {
            self.advance();
        }
    }

    fn skip_comment(&mut self)
        requires
            old(self).wf(),
        ensures
            final(self).wf(),
            final(self).input == old(self).input,
            final(self).pos == if char_is(old(self).input@, old(self).pos as int, '/') && char_is(
                old(self).input@,
                old(self).pos + 1,
                '/',
            ) {
                line_end(old(self).input@, old(self).pos + 1)
            } else {
                old(self).pos as int
            },
    {
        if self.current_char() == Some('/') && self.peek_char(1) == Some('/') {
            self.advance();
            loop
                invariant_except_break
                    line_end(self.input@, self.pos as int) == line_end(
                        old(self).input@,
                        old(self).pos + 1,
                    ),
                invariant
                    self.wf(),
                    self.input == old(self).input,
                    old(self).pos < self.pos,
                ensures
                    self.wf(),
                    self.input == old(self).input,
                    self.pos == line_end(old(self).input@, old(self).pos + 1),
                decreases self.input.len() - self.pos,
            {
                match self.current_char() {
                    Some(ch) => {
                        self.advance();
                        if ch == '\n' {
                            break ;
                        }
                    },
                    None => {
                        break ;
                    },
                }
            }
        }
    }

    fn read_string(&mut self, quote: char) -> (result: String)
        requires
            old(self).wf(),
            old(self).pos < old(self).input.len(),
        ensures
            final(self).wf(),
            final(self).input == old(self).input,
            (result@, final(self).pos as int) == string_body(
                old(self).input@,
                old(self).pos + 1,
                quote,
            ),
    {
        let mut result = String::new();
        self.advance();
        let ghost whole = string_body(self.input@, self.pos as int, quote);
        loop
            invariant_except_break
                whole.0 == result@ + string_body(self.input@, self.pos as int, quote).0,
                whole.1 == string_body(self.input@, self.pos as int, quote).1,
            invariant
                self.wf(),
                self.input == old(self).input,
                whole == string_body(old(self).input@, old(self).pos + 1, quote),
            ensures
                self.wf(),
                self.input == old(self).input,
                whole == string_body(old(self).input@, old(self).pos + 1, quote),
                whole.0 == result@,
                whole.1 == self.pos,
            decreases self.input.len() - self.pos,
        {
            let ghost before = result@;
            let ghost at = self.pos as int;
            match self.current_char() {
                None => {
                    assert(before + Seq::<char>::empty() =~= before);
                    break ;
                },
                Some(ch) => {
                    if ch == quote {
                        self.advance();
                        assert(before + Seq::<char>::empty() =~= before);
                        break ;
                    }
                    if ch == '\\' {
                        self.advance();
                        match self.current_char() {
                            Some(escaped) => {
                                let plain = if escaped == 'n' {
                                    '\n'
                                } else if escaped == 't' {
                                    '\t'
                                } else if escaped == 'r' {
                                    '\r'
                                } else {
                                    escaped
                                };
                                result.push(plain);
                                self.advance();
                                proof {
                                    let rest = string_body(self.input@, at + 2, quote).0;
                                    assert(before + (seq![plain] + rest) =~= before.push(plain)
                                        + rest);
                                }
                            },
                            None => {
                                assert(before + Seq::<char>::empty() =~= before);
                            },
                        }
                    } else {
                        result.push(ch);
                        self.advance();
                        proof {
                            let rest = string_body(self.input@, at + 1, quote).0;
                            assert(before + (seq![ch] + rest) =~= before.push(ch) + rest);
                        }
                    }
                },
            }
        }
        result
    }

    fn read_identifier(&mut self) -> (result: String)
        requires
            old(self).wf(),
        ensures
            final(self).wf(),
            final(self).input == old(self).input,
            final(self).pos == run_end(
                old(self).input@,
                old(self).pos as int,
                |x: char| is_word_char(x),
            ),
            result@ == old(self).input@.subrange(old(self).pos as int, final(self).pos as int),
    {
        let start: usize = self.pos;
        while self.pos < self.input.len() && (self.input[self.pos].is_alphanumeric()
            || self.input[self.pos] == '_')
            invariant
                self.wf(),
                self.input == old(self).input,
                start == old(self).pos,
                start <= self.pos,
                run_end(self.input@, self.pos as int, |x: char| is_word_char(x)) == run_end(
                    self.input@,
                    start as int,
                    |x: char| is_word_char(x),
                ),
            decreases self.input.len() - self.pos,
        {
            self.advance();
        }
        text_of(&self.input, start, self.pos)
    }

    fn read_number(&mut self) -> (result: String)
        requires
            old(self).wf(),
        ensures
            final(self).wf(),
            final(self).input == old(self).input,
            final(self).pos == run_end(
                old(self).input@,
                old(self).pos as int,
                |x: char| is_number_char(x),
            ),
            result@ == old(self).input@.subrange(old(self).pos as int, final(self).pos as int),
    {
        let start: usize = self.pos;
        while self.pos < self.input.len() && (self.input[self.pos].is_numeric()
            || self.input[self.pos] == '.')
            invariant
                self.wf(),
                self.input == old(self).input,
                start == old(self).pos,
                start <= self.pos,
                run_end(self.input@, self.pos as int, |x: char| is_number_char(x)) == run_end(
                    self.input@,
                    start as int,
                    |x: char| is_number_char(x),
                ),
            decreases self.input.len() - self.pos,
        {
            self.advance();
        }
        text_of(&self.input, start, self.pos)
    }

    fn keyword_or_identifier(&self, word: &str) -> (kind: TokenType)
        ensures
            kind@ == keyword_kind(word@),
    {
        if same_text(word, "func") {
            TokenType::Func
        } else if same_text(word, "end") {
            TokenType::End
        } else if same_text(word, "return") {
            TokenType::Return
        } else if same_text(word, "if") {
            TokenType::If
        } else if same_text(word, "else") {
            TokenType::Else
        } else if same_text(word, "while") {
            TokenType::While
        } else if same_text(word, "for") {
            TokenType::For
        } else if same_text(word, "try") {
            TokenType::Try
        } else if same_text(word, "catch") {
            TokenType::Catch
        } else if same_text(word, "raise") {
            TokenType::Raise
        } else if same_text(word, "route") {
            TokenType::Route
        } else if same_text(word, "json") {
            TokenType::Json
        } else if same_text(word, "auto") {
            TokenType::Auto
        } else if same_text(word, "error_code") {
            TokenType::ErrorCode
        } else if same_text(word, "public") {
            TokenType::Public
        } else if same_text(word, "private") {
            TokenType::Private
        } else if same_text(word, "import") {
            TokenType::Import
        } else if same_text(word, "from") {
            TokenType::From
        } else if same_text(word, "int") {
            TokenType::Int
        } else if same_text(word, "float") {
            TokenType::Float
        } else if same_text(word, "double") {
            TokenType::Double
        } else if same_text(word, "txt") {
            TokenType::Txt
        } else if same_text(word, "bool") {
            TokenType::Bool
        } else if same_text(word, "get") {
            TokenType::Get
        } else if same_text(word, "post") {
            TokenType::Post
        } else if same_text(word, "put") {
            TokenType::Put
        } else if same_text(word, "delete") {
            TokenType::Delete
        } else if same_text(word, "and") {
            TokenType::And
        } else if same_text(word, "or") {
            TokenType::Or
        } else if same_text(word, "not") {
            TokenType::Not
        } else {
            TokenType::Identifier(String::from_str(word))
        }
    }

    /// Reads the token that starts at the current place.
    fn read_token(&mut self) -> (kind: TokenType)
        requires
            old(self).wf(),
            old(self).pos < old(self).input.len(),
        ensures
            final(self).wf(),
            final(self).input == old(self).input,
            (kind@, final(self).pos as int) == token_at(old(self).input@, old(self).pos as int),
    {
        let ch = self.input[self.pos];
        if ch == '(' {
            self.advance();
            TokenType::LeftParen
        } else if ch == ')' {
            self.advance();
            TokenType::RightParen
        } else if ch == '{' {
            self.advance();
            TokenType::LeftBrace
        } else if ch == '}' {
            self.advance();
            TokenType::RightBrace
        } else if ch == '[' {
            self.advance();
            TokenType::LeftBracket
        } else if ch == ']' {
            self.advance();
            TokenType::RightBracket
        } else if ch == ',' {
            self.advance();
            TokenType::Comma
        } else if ch == '.' {
            self.advance();
            TokenType::Dot
        } else if ch == ':' {
            self.advance();
            TokenType::Colon
        } else if ch == '+' {
            self.advance();
            TokenType::Plus
        } else if ch == '-' {
            self.advance();
            if self.current_char() == Some('>') {
                self.advance();
                TokenType::Arrow
            } else {
                TokenType::Minus
            }
        } else if ch == '*' {
            self.advance();
            TokenType::Star
        } else if ch == '/' {
            self.advance();
            TokenType::Slash
        } else if ch == '%' {
            self.advance();
            TokenType::Percent
        } else if ch == '=' {
            self.advance();
            if self.current_char() == Some('=') {
                self.advance();
                TokenType::EqualEqual
            } else {
                TokenType::Equal
            }
        } else if ch == '!' {
            self.advance();
            if self.current_char() == Some('=') {
                self.advance();
                TokenType::NotEqual
            } else {
                TokenType::Not
            }
        } else if ch == '<' {
            self.advance();
            if self.current_char() == Some('=') {
                self.advance();
                TokenType::LessEqual
            } else {
                TokenType::Less
            }
        } else if ch == '>' {
            self.advance();
            if self.current_char() == Some('=') {
                self.advance();
                TokenType::GreaterEqual
            } else {
                TokenType::Greater
            }
        } else if ch == '"' || ch == '\'' {
            TokenType::String(self.read_string(ch))
        } else if ch.is_alphabetic() || ch == '_' {
            let word = self.read_identifier();
            self.keyword_or_identifier(word.as_str())
        } else if ch.is_numeric() {
            TokenType::Number(self.read_number())
        } else {
            self.advance();
            let mut word = String::new();
            word.push(ch);
            assert(word@ =~= seq![ch]);
            TokenType::Identifier(word)
        }
    }

    /// Scans the rest of the text. The result is the token sequence of the
    /// text from the current place on, and the scanner ends at the end of the
    /// text.
    pub fn tokenize(&mut self) -> (tokens: Vec<Token>)
        requires
            old(self).wf(),
        ensures
            final(self).wf(),
            final(self).source() == old(self).source(),
            final(self).position() == final(self).source().len(),
            tokens@.map_values(|t: Token| t@) == scan(old(self).source(), old(self).position()),
            tokens@.len() > 0,
            tokens@.last().token_type@ is Eof,
    {
        let mut tokens: Vec<Token> = Vec::new();
        let ghost whole = scan(self.input@, self.pos as int);
        while self.pos < self.input.len()
            invariant
                self.wf(),
                self.input == old(self).input,
                whole == scan(old(self).input@, old(self).pos as int),
                whole == tokens@.map_values(|t: Token| t@) + scan(self.input@, self.pos as int),
            decreases self.input.len() - self.pos,
        {
            let ghost done = tokens@.map_values(|t: Token| t@);
            self.skip_whitespace();
            if self.pos < self.input.len() {
                if self.current_char() == Some('/') && self.peek_char(1) == Some('/') {
                    proof {
                        lemma_line_end_bounds(self.input@, self.pos + 1);
                    }
                    self.skip_comment();
                } else {
                    let line: usize = self.line;
                    let column: usize = self.column;
                    let ghost at = self.pos as int;
                    proof {
                        lemma_token_at_bounds(self.input@, at);
                    }
                    let token_type = self.read_token();
                    let token = Token { token_type, line, column };
                    tokens.push(token);
                    proof {
                        let rest = scan(self.input@, self.pos as int);
                        assert(tokens@.map_values(|t: Token| t@) =~= done.push(token@));
                        assert(done + (seq![token@] + rest) =~= done.push(token@) + rest);
                    }
                }
            }
        }
        let last = Token { token_type: TokenType::Eof, line: self.line, column: self.column };
        proof {
            let done = tokens@.map_values(|t: Token| t@);
            assert(done + seq![last@] =~= tokens@.push(last).map_values(|t: Token| t@));
        }
        tokens.push(last);
        tokens
    }
}

} // verus!
