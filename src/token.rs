use vstd::prelude::*;

verus! {

/// The kinds of token the lexer produces.
#[derive(Clone, Copy, Debug, PartialEq, Eq, Structural)]
pub enum TokenKind {
    ILLEGAL,
    EOF,
    IDENT,
    INT,
    STRING,
    ASSIGN,
    PLUS,
    MINUS,
    BANG,
    ASTERISK,
    SLASH,
    LT,
    GT,
    LTE,
    GTE,
    EQ,
    NEQ,
    COMMA,
    SEMICOLON,
    LPAREN,
    RPAREN,
    LBRACE,
    RBRACE,
    LBRACKET,
    RBRACKET,
    FUNCTION,
    LET,
    TRUE,
    FALSE,
    IF,
    ELSE,
    RETURN,
}

/// The keyword that a word of source text stands for, if any.
pub open spec fn keyword_of(word: Seq<char>) -> Option<TokenKind> {
    if word == "func"@ {
        Some(TokenKind::FUNCTION)
    } else if word == "let"@ {
        Some(TokenKind::LET)
    } else if word == "true"@ {
        Some(TokenKind::TRUE)
    } else if word == "false"@ {
        Some(TokenKind::FALSE)
    } else if word == "if"@ {
        Some(TokenKind::IF)
    } else if word == "else"@ {
        Some(TokenKind::ELSE)
    } else if word == "return"@ {
        Some(TokenKind::RETURN)
    } else {
        None
    }
}

/// The kind of token that a word made of letters and underscores is.
pub open spec fn word_kind(word: Seq<char>) -> TokenKind {
    match keyword_of(word) {
        Some(k) => k,
        None => TokenKind::IDENT,
    }
}

/// The name of a token kind, as parser messages show it.
pub open spec fn kind_text(k: TokenKind) -> Seq<char> {
    match k {
        TokenKind::ILLEGAL => "ILLEGAL"@,
        TokenKind::EOF => "EOF"@,
        TokenKind::IDENT => "IDENT"@,
        TokenKind::INT => "INT"@,
        TokenKind::STRING => "STRING"@,
        TokenKind::ASSIGN => "ASSIGN"@,
        TokenKind::PLUS => "PLUS"@,
        TokenKind::MINUS => "MINUS"@,
        TokenKind::BANG => "BANG"@,
        TokenKind::ASTERISK => "ASTERISK"@,
        TokenKind::SLASH => "SLASH"@,
        TokenKind::LT => "LT"@,
        TokenKind::GT => "GT"@,
        TokenKind::LTE => "LTE"@,
        TokenKind::GTE => "GTE"@,
        TokenKind::EQ => "EQ"@,
        TokenKind::NEQ => "NEQ"@,
        TokenKind::COMMA => "COMMA"@,
        TokenKind::SEMICOLON => "SEMICOLON"@,
        TokenKind::LPAREN => "LPAREN"@,
        TokenKind::RPAREN => "RPAREN"@,
        TokenKind::LBRACE => "LBRACE"@,
        TokenKind::RBRACE => "RBRACE"@,
        TokenKind::LBRACKET => "LBRACKET"@,
        TokenKind::RBRACKET => "RBRACKET"@,
        TokenKind::FUNCTION => "FUNCTION"@,
        TokenKind::LET => "LET"@,
        TokenKind::TRUE => "TRUE"@,
        TokenKind::FALSE => "FALSE"@,
        TokenKind::IF => "IF"@,
        TokenKind::ELSE => "ELSE"@,
        TokenKind::RETURN => "RETURN"@,
    }
}

impl TokenKind {
    /// The name of the kind, as it appears in parser messages.
    pub fn name(&self) -> (r: &'static str)
        ensures
            r@ == kind_text(*self),
    {
        match self {
            TokenKind::ILLEGAL => "ILLEGAL",
            TokenKind::EOF => "EOF",
            TokenKind::IDENT => "IDENT",
            TokenKind::INT => "INT",
            TokenKind::STRING => "STRING",
            TokenKind::ASSIGN => "ASSIGN",
            TokenKind::PLUS => "PLUS",
            TokenKind::MINUS => "MINUS",
            TokenKind::BANG => "BANG",
            TokenKind::ASTERISK => "ASTERISK",
            TokenKind::SLASH => "SLASH",
            TokenKind::LT => "LT",
            TokenKind::GT => "GT",
            TokenKind::LTE => "LTE",
            TokenKind::GTE => "GTE",
            TokenKind::EQ => "EQ",
            TokenKind::NEQ => "NEQ",
            TokenKind::COMMA => "COMMA",
            TokenKind::SEMICOLON => "SEMICOLON",
            TokenKind::LPAREN => "LPAREN",
            TokenKind::RPAREN => "RPAREN",
            TokenKind::LBRACE => "LBRACE",
            TokenKind::RBRACE => "RBRACE",
            TokenKind::LBRACKET => "LBRACKET",
            TokenKind::RBRACKET => "RBRACKET",
            TokenKind::FUNCTION => "FUNCTION",
            TokenKind::LET => "LET",
            TokenKind::TRUE => "TRUE",
            TokenKind::FALSE => "FALSE",
            TokenKind::IF => "IF",
            TokenKind::ELSE => "ELSE",
            TokenKind::RETURN => "RETURN",
        }
    }
}

/// One token: its kind and the text it was read from.
#[derive(Clone, Debug, PartialEq)]
pub struct Token {
    pub kind: TokenKind,
    pub literal: String,
}

impl Token {
    pub fn new(kind: TokenKind, literal: String) -> (r: Self)
        ensures
            r.kind == kind,
            r.literal@ == literal@,
    {
        Token { kind, literal }
    }

    pub fn copy(&self) -> (r: Self)
        ensures
            r == *self,
    {
        Token { kind: self.kind, literal: self.literal.clone() }
    }
}

/// True when `a` and `b` hold the same characters.
fn same_chars(a: &Vec<char>, b: &str) -> (r: bool)
    ensures
        r == (a@ == b@),
{
    let n = b.unicode_len();
    if a.len() != n {
        return false;
    }
    let mut i: usize = 0;
    while i < n
        invariant
            n == b@.len(),
            a@.len() == n,
            i <= n,
            forall|j: int| 0 <= j < i ==> a@[j] == b@[j],
        decreases n - i,
    {
        if a[i] != b.get_char(i) {
            return false;
        }
        i = i + 1;
    }
    assert(a@ =~= b@);
    true
}

/// The token kind of a word read by the lexer: a keyword's own kind, else `IDENT`.
pub fn lookup_ident(ident: &str) -> (r: TokenKind)
    ensures
        r == word_kind(ident@),
{
    let n = ident.unicode_len();
    let mut word: Vec<char> = Vec::new();
    let mut i: usize = 0;
    while i < n
        invariant
            n == ident@.len(),
            i <= n,
            word@ == ident@.subrange(0, i as int),
        decreases n - i,
    {
        word.push(ident.get_char(i));
        i = i + 1;
        assert(word@ =~= ident@.subrange(0, i as int));
    }
    assert(word@ =~= ident@);
    keyword_kind_of_chars(&word)
}

/// The token kind of a word held as characters.
fn keyword_kind_of_chars(word: &Vec<char>) -> (r: TokenKind)
    ensures
        r == word_kind(word@),
{
    if same_chars(word, "func") {
        TokenKind::FUNCTION
    } else if same_chars(word, "let") {
        TokenKind::LET
    } else if same_chars(word, "true") {
        TokenKind::TRUE
    } else if same_chars(word, "false") {
        TokenKind::FALSE
    } else if same_chars(word, "if") {
        TokenKind::IF
    } else if same_chars(word, "else") {
        TokenKind::ELSE
    } else if same_chars(word, "return") {
        TokenKind::RETURN
    } else {
        TokenKind::IDENT
    }
}

} // verus!
