use vstd::prelude::*;
use vstd::string::*;
use crate::token::{lookup_ident, word_kind, Token, TokenKind};

verus! {

pub open spec fn is_letter_spec(c: char) -> bool {
    ('a' <= c && c <= 'z') || ('A' <= c && c <= 'Z') || c == '_'
}

pub open spec fn is_digit_spec(c: char) -> bool {
    '0' <= c && c <= '9'
}

pub open spec fn is_space_spec(c: char) -> bool {
    c == ' ' || c == '\t' || c == '\n' || c == '\r'
}

/// The character at `i`, or NUL past the end.
pub open spec fn char_at(t: Seq<char>, i: int) -> char {
    if 0 <= i < t.len() { t[i] } else { '\0' }
}

/// The first index from `i` on that holds no white space.
pub open spec fn skip_spaces(t: Seq<char>, i: int) -> int
    decreases t.len() - i,
{
    if 0 <= i < t.len() && is_space_spec(t[i]) { skip_spaces(t, i + 1) } else { i }
}

/// The end of the run of letters and digits that starts at `i`.
pub open spec fn word_end(t: Seq<char>, i: int) -> int
    decreases t.len() - i,
{
    if 0 <= i < t.len() && (is_letter_spec(t[i]) || is_digit_spec(t[i])) { word_end(t, i + 1) } else { i }
}

/// The end of the run of digits that starts at `i`.
pub open spec fn digits_end(t: Seq<char>, i: int) -> int
    decreases t.len() - i,
{
    if 0 <= i < t.len() && is_digit_spec(t[i]) { digits_end(t, i + 1) } else { i }
}

/// The index of the quote that closes a string whose text starts at `i`, or of
/// the end of input.
pub open spec fn string_end(t: Seq<char>, i: int) -> int
    decreases t.len() - i,
{
    if 0 <= i < t.len() && t[i] != '"' && t[i] != '\0' { string_end(t, i + 1) } else { i }
}

/// A token read at `p` that covers `n` characters.
pub open spec fn fixed(kind: TokenKind, lit: Seq<char>, p: int, n: int) -> (TokenKind, Seq<char>, int) {
    (kind, lit, p + n)
}

/// The token that starts at `p` (white space already skipped): its kind, its
/// text, and where the next token starts.
pub open spec fn token_at(t: Seq<char>, p: int) -> (TokenKind, Seq<char>, int) {
    let c = char_at(t, p);
    let n = char_at(t, p + 1);
    if c == '\0' {
        (TokenKind::EOF, " "@, p)
    } else if c == '=' {
        if n == '=' { fixed(TokenKind::EQ, "=="@, p, 2) } else { fixed(TokenKind::ASSIGN, "="@, p, 1) }
    } else if c == '!' {
        if n == '=' { fixed(TokenKind::NEQ, "!="@, p, 2) } else { fixed(TokenKind::BANG, "!"@, p, 1) }
    } else if c == '<' {
        if n == '=' { fixed(TokenKind::LTE, "<="@, p, 2) } else { fixed(TokenKind::LT, "<"@, p, 1) }
    } else if c == '>' {
        if n == '=' { fixed(TokenKind::GTE, ">="@, p, 2) } else { fixed(TokenKind::GT, ">"@, p, 1) }
    } else if c == '+' {
        fixed(TokenKind::PLUS, "+"@, p, 1)
    } else if c == '-' {
        fixed(TokenKind::MINUS, "-"@, p, 1)
    } else if c == '/' {
        fixed(TokenKind::SLASH, "/"@, p, 1)
    } else if c == '*' {
        fixed(TokenKind::ASTERISK, "*"@, p, 1)
    } else if c == '(' {
        fixed(TokenKind::LPAREN, "("@, p, 1)
    } else if c == ')' {
        fixed(TokenKind::RPAREN, ")"@, p, 1)
    } else if c == '{' {
        fixed(TokenKind::LBRACE, "{"@, p, 1)
    } else if c == '}' {
        fixed(TokenKind::RBRACE, "}"@, p, 1)
    } else if c == '[' {
        fixed(TokenKind::LBRACKET, "["@, p, 1)
    } else if c == ']' {
        fixed(TokenKind::RBRACKET, "]"@, p, 1)
    } else if c == ',' {
        fixed(TokenKind::COMMA, ","@, p, 1)
    } else if c == ';' {
        fixed(TokenKind::SEMICOLON, ";"@, p, 1)
    } else if is_letter_spec(c) {
        let e = word_end(t, p);
        (word_kind(t.subrange(p, e)), t.subrange(p, e), e)
    } else if is_digit_spec(c) {
        let e = digits_end(t, p);
        (TokenKind::INT, t.subrange(p, e), e)
    } else if c == '"' {
        let e = string_end(t, p + 1);
        (TokenKind::STRING, t.subrange(p + 1, e), if char_at(t, e) == '"' { e + 1 } else { e })
    } else {
        fixed(TokenKind::ILLEGAL, ""@, p, 1)
    }
}

/// The next token after position `p`: white space is skipped first.
pub open spec fn next_token_spec(t: Seq<char>, p: int) -> (TokenKind, Seq<char>, int) {
    token_at(t, skip_spaces(t, p))
}

/// Turns source text into tokens, one at a time.
pub struct Lexer<'a> {
    input: &'a str,
    chars: Vec<char>,
    pos: usize,
    ch: char,
}

impl<'a> Lexer<'a> {
    /// The characters of the source text.
    pub closed spec fn text(&self) -> Seq<char> {
        self.chars@
    }

    /// How far the lexer has read.
    pub closed spec fn position(&self) -> nat {
        self.pos as nat
    }

    pub closed spec fn wf(&self) -> bool {
        &&& self.chars@ == self.input@
        &&& self.pos <= self.chars@.len()
        &&& self.ch == (if self.pos < self.chars@.len() { self.chars@[self.pos as int] } else { '\0' })
    }

    pub fn new(input: &'a str) -> (r: Self)
        ensures
            r.wf(),
            r.text() == input@,
            r.position() == 0,
    {
        let n = input.unicode_len();
        let mut chars: Vec<char> = Vec::new();
        let mut i: usize = 0;
        while i < n
            invariant
                n == input@.len(),
                i <= n,
                chars@ == input@.subrange(0, i as int),
            decreases n - i,
        {
            chars.push(input.get_char(i));
            i = i + 1;
            assert(chars@ =~= input@.subrange(0, i as int));
        }
        assert(chars@ =~= input@);
        let ch = if chars.len() > 0 { chars[0] } else { '\0' };
        Lexer { input, chars, pos: 0, ch }
    }

    fn read_char(&mut self)
        requires
            old(self).wf(),
        ensures
            final(self).wf(),
            final(self).input == old(self).input,
            final(self).chars == old(self).chars,
            final(self).pos == if old(self).pos < old(self).chars@.len() {
                old(self).pos + 1
            } else {
                old(self).pos as int
            },
    {
        if self.pos < self.chars.len() {
            self.pos = self.pos + 1;
        }
        if self.pos < self.chars.len() {
            self.ch = self.chars[self.pos];
        } else {
            self.ch = '\0';
        }
    }

    fn nextch(&self) -> (r: char)
        requires
            self.wf(),
        ensures
            r == (if self.pos + 1 < self.chars@.len() { self.chars@[self.pos + 1] } else { '\0' }),
    {
        if self.pos < self.chars.len() && self.pos + 1 < self.chars.len() {
            self.chars[self.pos + 1]
        } else {
            '\0'
        }
    }

    fn nextch_is(&self, c: char) -> (r: bool)
        requires
            self.wf(),
        ensures
            r == (c == (if self.pos + 1 < self.chars@.len() { self.chars@[self.pos + 1] } else { '\0' })),
    {
        self.nextch() == c
    }

    fn skip_whitespace(&mut self)
        requires
            old(self).wf(),
        ensures
            final(self).wf(),
            final(self).input == old(self).input,
            final(self).chars == old(self).chars,
            old(self).pos <= final(self).pos,
            final(self).ch != ' ' && final(self).ch != '\t' && final(self).ch != '\n'
                && final(self).ch != '\r',
            final(self).pos == skip_spaces(old(self).chars@, old(self).pos as int),
    {
        while self.ch == ' ' || self.ch == '\t' || self.ch == '\n' || self.ch == '\r'
            invariant
                self.wf(),
                self.input == old(self).input,
                self.chars == old(self).chars,
                old(self).pos <= self.pos,
                skip_spaces(self.chars@, old(self).pos as int) == skip_spaces(self.chars@, self.pos as int),
            decreases self.chars@.len() - self.pos,
        {
            self.read_char();
        }
    }

    fn single(&mut self, kind: TokenKind, literal: &str) -> (r: Token)
        requires
            old(self).wf(),
            old(self).pos < old(self).chars@.len(),
        ensures
            final(self).wf(),
            final(self).input == old(self).input,
            final(self).chars == old(self).chars,
            final(self).pos == old(self).pos + 1,
            r.kind == kind,
            r.literal@ == literal@,
    {
        self.read_char();
        Token::new(kind, literal.to_owned())
    }

    fn double(&mut self, kind: TokenKind, literal: &str) -> (r: Token)
        requires
            old(self).wf(),
            old(self).pos + 1 < old(self).chars@.len(),
        ensures
            final(self).wf(),
            final(self).input == old(self).input,
            final(self).chars == old(self).chars,
            final(self).pos == old(self).pos + 2,
            r.kind == kind,
            r.literal@ == literal@,
    {
        self.read_char();
        self.read_char();
        Token::new(kind, literal.to_owned())
    }

    /// Reads the next token, skipping white space before it. At the end of the
    /// text, or at a NUL character, every call returns `EOF` and stays there; any
    /// other token moves the lexer past it.
    pub fn next_token(&mut self) -> (r: Token)
        requires
            old(self).wf(),
        ensures
            final(self).wf(),
            final(self).text() == old(self).text(),
            old(self).position() <= final(self).position(),
            final(self).position() <= final(self).text().len(),
            r.kind != TokenKind::EOF ==> old(self).position() < final(self).position(),
            (r.kind, r.literal@, final(self).position() as int) == next_token_spec(old(self).text(), old(self).position() as int),
            r.kind == TokenKind::IDENT ==> word_kind(r.literal@) == TokenKind::IDENT,
            r.kind == TokenKind::INT ==> r.literal@.len() > 0 && (forall|i: int|
                0 <= i < r.literal@.len() ==> is_digit_spec(#[trigger] r.literal@[i])),
    {
        self.skip_whitespace();
        let c = self.ch;
        if c == '\0' {
            return Token::new(TokenKind::EOF, " ".to_owned());
        }
        if c == '=' {
            if self.nextch_is('=') { self.double(TokenKind::EQ, "==") } else { self.single(TokenKind::ASSIGN, "=") }
        } else if c == '!' {
            if self.nextch_is('=') { self.double(TokenKind::NEQ, "!=") } else { self.single(TokenKind::BANG, "!") }
        } else if c == '<' {
            if self.nextch_is('=') { self.double(TokenKind::LTE, "<=") } else { self.single(TokenKind::LT, "<") }
        } else if c == '>' {
            if self.nextch_is('=') { self.double(TokenKind::GTE, ">=") } else { self.single(TokenKind::GT, ">") }
        } else if c == '+' {
            self.single(TokenKind::PLUS, "+")
        } else if c == '-' {
            self.single(TokenKind::MINUS, "-")
        } else if c == '/' {
            self.single(TokenKind::SLASH, "/")
        } else if c == '*' {
            self.single(TokenKind::ASTERISK, "*")
        } else if c == '(' {
            self.single(TokenKind::LPAREN, "(")
        } else if c == ')' {
            self.single(TokenKind::RPAREN, ")")
        } else if c == '{' {
            self.single(TokenKind::LBRACE, "{")
        } else if c == '}' {
            self.single(TokenKind::RBRACE, "}")
        } else if c == '[' {
            self.single(TokenKind::LBRACKET, "[")
        } else if c == ']' {
            self.single(TokenKind::RBRACKET, "]")
        } else if c == ',' {
            self.single(TokenKind::COMMA, ",")
        } else if c == ';' {
            self.single(TokenKind::SEMICOLON, ";")
        } else if is_letter(c) {
            self.consume_identifier()
        } else if is_digit(c) {
            self.consume_number()
        } else if c == '"' {
            self.consume_string()
        } else {
            self.single(TokenKind::ILLEGAL, "")
        }
    }

    fn consume_identifier(&mut self) -> (r: Token)
        requires
            old(self).wf(),
            is_letter_spec(old(self).ch),
        ensures
            final(self).wf(),
            final(self).input == old(self).input,
            final(self).chars == old(self).chars,
            old(self).pos < final(self).pos,
            r.kind == word_kind(r.literal@),
            final(self).pos == word_end(old(self).chars@, old(self).pos as int),
            r.literal@ == old(self).chars@.subrange(old(self).pos as int, final(self).pos as int),
    {
        let start = self.pos;
        while is_letter(self.ch) || is_digit(self.ch)
            invariant
                self.wf(),
                self.input == old(self).input,
                self.chars == old(self).chars,
                start == old(self).pos,
                start <= self.pos,
                start < self.chars@.len(),
                start < self.pos || is_letter_spec(self.ch),
                word_end(self.chars@, start as int) == word_end(self.chars@, self.pos as int),
            decreases self.chars@.len() - self.pos,
        {
            self.read_char();
        }
        let literal = self.input.substring_char(start, self.pos).to_owned();
        let kind = lookup_ident(literal.as_str());
        Token::new(kind, literal)
    }

    fn consume_number(&mut self) -> (r: Token)
        requires
            old(self).wf(),
            is_digit_spec(old(self).ch),
        ensures
            final(self).wf(),
            final(self).input == old(self).input,
            final(self).chars == old(self).chars,
            old(self).pos < final(self).pos,
            r.kind == TokenKind::INT,
            r.literal@.len() > 0,
            forall|i: int| 0 <= i < r.literal@.len() ==> is_digit_spec(#[trigger] r.literal@[i]),
            final(self).pos == digits_end(old(self).chars@, old(self).pos as int),
            r.literal@ == old(self).chars@.subrange(old(self).pos as int, final(self).pos as int),
    {
        let start = self.pos;
        while is_digit(self.ch)
            invariant
                self.wf(),
                self.input == old(self).input,
                self.chars == old(self).chars,
                start == old(self).pos,
                start <= self.pos,
                start < self.chars@.len(),
                start < self.pos || is_digit_spec(self.ch),
                forall|i: int| start <= i < self.pos ==> is_digit_spec(#[trigger] self.chars@[i]),
                digits_end(self.chars@, start as int) == digits_end(self.chars@, self.pos as int),
            decreases self.chars@.len() - self.pos,
        {
            self.read_char();
        }
        let literal = self.input.substring_char(start, self.pos).to_owned();
        Token::new(TokenKind::INT, literal)
    }

    fn consume_string(&mut self) -> (r: Token)
        requires
            old(self).wf(),
            old(self).ch == '"',
        ensures
            final(self).wf(),
            final(self).input == old(self).input,
            final(self).chars == old(self).chars,
            old(self).pos < final(self).pos,
            r.kind == TokenKind::STRING,
            ({
                let e = string_end(old(self).chars@, old(self).pos + 1);
                &&& r.literal@ == old(self).chars@.subrange(old(self).pos + 1, e)
                &&& final(self).pos == if char_at(old(self).chars@, e) == '"' { e + 1 } else { e }
            }),
    {
        self.read_char();
        let start = self.pos;
        while self.ch != '"' && self.ch != '\0'
            invariant
                self.wf(),
                self.input == old(self).input,
                self.chars == old(self).chars,
                old(self).pos < start,
                start <= self.pos,
                start == old(self).pos + 1,
                string_end(self.chars@, start as int) == string_end(self.chars@, self.pos as int),
            decreases self.chars@.len() - self.pos,
        {
            self.read_char();
        }
        let literal = self.input.substring_char(start, self.pos).to_owned();
        if self.ch == '"' {
            self.read_char();
        }
        Token::new(TokenKind::STRING, literal)
    }
}

pub fn is_letter(c: char) -> (r: bool)
    ensures
        r == is_letter_spec(c),
{
    ('a' <= c && c <= 'z') || ('A' <= c && c <= 'Z') || c == '_'
}

pub fn is_digit(c: char) -> (r: bool)
    ensures
        r == is_digit_spec(c),
{
    '0' <= c && c <= '9'
}

} // verus!
