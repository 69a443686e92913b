use vstd::prelude::*;

verus! {

/// The closed set of token kinds the scanner can emit.
#[allow(non_camel_case_types)]
#[derive(Debug, Clone, Copy, PartialEq, Eq, Structural)]
pub enum Token_Type {
    // Single-character tokens.
    LEFT_PAREN,
    RIGHT_PAREN,
    LEFT_BRACE,
    RIGHT_BRACE,
    COMMA,
    DOT,
    MINUS,
    PLUS,
    SEMICOLON,
    SLASH,
    STAR,
    // One or two character tokens.
    BANG,
    BANG_EQUAL,
    EQUAL,
    EQUAL_EQUAL,
    GREATER,
    GREATER_EQUAL,
    LESS,
    LESS_EQUAL,
    // Literals.
    IDENTIFIER,
    STRING,
    NUMBER,
    // Keywords.
    AND,
    CLASS,
    ELSE,
    FALSE,
    FUN,
    FOR,
    IF,
    NIL,
    OR,
    PRINT,
    RETURN,
    SUPER,
    THIS,
    TRUE,
    VAR,
    WHILE,
    EOF,
}

/// The keyword table: which identifier texts are reserved words, and the
/// kind each one scans to.
pub open spec fn spec_keyword(s: Seq<char>) -> Option<Token_Type> {
    if s == "and"@ {
        Some(Token_Type::AND)
    } else if s == "class"@ {
        Some(Token_Type::CLASS)
    } else if s == "else"@ {
        Some(Token_Type::ELSE)
    } else if s == "false"@ {
        Some(Token_Type::FALSE)
    } else if s == "for"@ {
        Some(Token_Type::FOR)
    } else if s == "fun"@ {
        Some(Token_Type::FUN)
    } else if s == "if"@ {
        Some(Token_Type::IF)
    } else if s == "nil"@ {
        Some(Token_Type::NIL)
    } else if s == "or"@ {
        Some(Token_Type::OR)
    } else if s == "print"@ {
        Some(Token_Type::PRINT)
    } else if s == "return"@ {
        Some(Token_Type::RETURN)
    } else if s == "super"@ {
        Some(Token_Type::SUPER)
    } else if s == "this"@ {
        Some(Token_Type::THIS)
    } else if s == "true"@ {
        Some(Token_Type::TRUE)
    } else if s == "var"@ {
        Some(Token_Type::VAR)
    } else if s == "while"@ {
        Some(Token_Type::WHILE)
    } else {
        None
    }
}

/// Character-by-character string equality, so the keyword lookup needs no
/// assumption about `str` comparison.
fn str_eq(a: &str, b: &str) -> (r: bool)
    ensures
        r == (a@ == b@),
{
    let n = a.unicode_len();
    let m = b.unicode_len();
    if n != m {
        proof {
            assert(a@ != b@);
        }
        return false;
    }
    let mut i: usize = 0;
    while i < n
        invariant
            n == a@.len(),
            n == b@.len(),
            0 <= i <= n,
            forall|j: int| 0 <= j < i ==> a@[j] == b@[j],
        decreases n - i,
    {
        if a.get_char(i) != b.get_char(i) {
            proof {
                assert(a@[i as int] != b@[i as int]);
            }
            return false;
        }
        i = i + 1;
    }
    proof {
        assert(a@ =~= b@);
    }
    true
}

/// Look a lexeme up in the keyword table.
pub fn keywords(k: &str) -> (r: Option<Token_Type>)
    ensures
        r == spec_keyword(k@),
{
    if str_eq(k, "and") {
        Some(Token_Type::AND)
    } else if str_eq(k, "class") {
        Some(Token_Type::CLASS)
    } else if str_eq(k, "else") {
        Some(Token_Type::ELSE)
    } else if str_eq(k, "false") {
        Some(Token_Type::FALSE)
    } else if str_eq(k, "for") {
        Some(Token_Type::FOR)
    } else if str_eq(k, "fun") {
        Some(Token_Type::FUN)
    } else if str_eq(k, "if") {
        Some(Token_Type::IF)
    } else if str_eq(k, "nil") {
        Some(Token_Type::NIL)
    } else if str_eq(k, "or") {
        Some(Token_Type::OR)
    } else if str_eq(k, "print") {
        Some(Token_Type::PRINT)
    } else if str_eq(k, "return") {
        Some(Token_Type::RETURN)
    } else if str_eq(k, "super") {
        Some(Token_Type::SUPER)
    } else if str_eq(k, "this") {
        Some(Token_Type::THIS)
    } else if str_eq(k, "true") {
        Some(Token_Type::TRUE)
    } else if str_eq(k, "var") {
        Some(Token_Type::VAR)
    } else if str_eq(k, "while") {
        Some(Token_Type::WHILE)
    } else {
        None
    }
}

/// A decoded literal value carried by a token. A string literal carries the
/// text strictly between its quotes; a number literal carries the exact digit
/// text it was scanned from, left undecoded so that a consumer chooses its own
/// numeric representation.
#[allow(non_camel_case_types)]
#[derive(Debug, Clone, PartialEq)]
pub enum Literal {
    STRING(String),
    NUM(String),
    NONE(char),
}

/// Mathematical image of a `Literal`.
pub ghost enum LiteralModel {
    STRING(Seq<char>),
    NUM(Seq<char>),
    NONE(char),
}

impl View for Literal {
    type V = LiteralModel;

    open spec fn view(&self) -> LiteralModel {
        match self {
            Literal::STRING(s) => LiteralModel::STRING(s@),
            Literal::NUM(s) => LiteralModel::NUM(s@),
            Literal::NONE(c) => LiteralModel::NONE(*c),
        }
    }
}

impl DeepView for Literal {
    type V = LiteralModel;

    open spec fn deep_view(&self) -> LiteralModel {
        self@
    }
}

/// One classified unit of lexical text: its kind, the exact source substring
/// it was scanned from, an optional decoded literal value, and the 1-based
/// line the scanner was on when the token was emitted.
#[derive(Debug, Clone, PartialEq)]
pub struct Token {
    pub token_type: Token_Type,
    pub lexeme: String,
    pub literal: Option<Literal>,
    pub line: usize,
}

/// Mathematical image of a `Token`.
#[verifier::ext_equal]
pub ghost struct TokenModel {
    pub token_type: Token_Type,
    pub lexeme: Seq<char>,
    pub literal: Option<LiteralModel>,
    pub line: int,
}

impl View for Token {
    type V = TokenModel;

    open spec fn view(&self) -> TokenModel {
        TokenModel {
            token_type: self.token_type,
            lexeme: self.lexeme@,
            literal: self.literal.deep_view(),
            line: self.line as int,
        }
    }
}

impl DeepView for Token {
    type V = TokenModel;

    open spec fn deep_view(&self) -> TokenModel {
        self@
    }
}

} // verus!
