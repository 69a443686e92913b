use vstd::prelude::*;

use crate::loxr_::{DiagModel, Loxr};
use crate::model::{
    alnum_end, block_end, char_at, digits_end, is_alnum, is_digit, lemma_scan_from_unfold, lemma_scan_step_bounds,
    line_end, number_end, opt_seq, scan_from, scan_step, single_punct_kind, spec_diags,
    spec_tokens, step_maybe_equal, string_end,
};
use crate::token::{keywords, spec_keyword, Literal, LiteralModel, Token, Token_Type, TokenModel};

verus! {

/// A decimal digit.
fn is_digit_char(c: char) -> (r: bool)
    ensures
        r == is_digit(c),
{
    '0' <= c && c <= '9'
}

/// A basic letter or a decimal digit.
fn is_alnum_char(c: char) -> (r: bool)
    ensures
        r == is_alnum(c),
{
    ('0' <= c && c <= '9') || ('a' <= c && c <= 'z') || ('A' <= c && c <= 'Z')
}

/// The scanner: one left-to-right pass over the source characters that
/// accumulates the token sequence and reports malformed input to its
/// diagnostic sink without ever aborting the scan.
pub struct Scanner {
    pub tokens: Vec<Token>,
    pub source: String,
    pub start: usize,
    pub current: usize,
    pub line: usize,
    pub source_as_vec: Vec<char>,
    pub loxr: Loxr,
}

impl Scanner {
    /// The cursor invariant: the character sequence mirrors the source text,
    /// `start` and `current` stay in range, and the 1-based line counter can
    /// have moved up at most once per consumed character (which is what keeps
    /// it from overflowing).
    pub open spec fn wf(&self) -> bool {
        &&& self.source@ == self.source_as_vec@
        &&& self.start <= self.current <= self.source_as_vec@.len()
        &&& self.source_as_vec@.len() < usize::MAX
        &&& 1 <= self.line
        &&& self.line <= 1 + self.current
    }

    pub fn new(source: &str, loxr: Loxr) -> (s: Scanner)
        requires
            source@.len() < usize::MAX,
        ensures
            s.wf(),
            s.source@ == source@,
            s.tokens@.len() == 0,
            s.start == 0,
            s.current == 0,
            s.line == 1,
            s.loxr == loxr,
    {
        let n = source.unicode_len();
        let mut source_as_vec: Vec<char> = Vec::new();
        let mut i: usize = 0;
        while i < n
            invariant
                n == source@.len(),
                0 <= i <= n,
                source_as_vec@ == source@.subrange(0, i as int),
            decreases n - i,
        {
            source_as_vec.push(source.get_char(i));
            i = i + 1;
            proof {
                assert(source_as_vec@ =~= source@.subrange(0, i as int));
            }
        }
        proof {
            assert(source_as_vec@ =~= source@);
        }
        Scanner {
            tokens: Vec::new(),
            source: String::from_str(source),
            start: 0,
            current: 0,
            line: 1,
            source_as_vec,
            loxr,
        }
    }

    fn is_at_end(&self) -> (r: bool)
        ensures
            r == (self.current >= self.source_as_vec@.len()),
    {
        self.current >= self.source_as_vec.len()
    }

    /// Consume and return the character under the cursor.
    fn advance(&mut self) -> (c: char)
        requires
            old(self).wf(),
            old(self).current < old(self).source_as_vec@.len(),
        ensures
            c == old(self).source_as_vec@[old(self).current as int],
            *final(self) == (Scanner { current: (old(self).current + 1) as usize, ..*old(self) }),
            final(self).wf(),
    {
        let current_char = self.source_as_vec[self.current];
        self.current = self.current + 1;
        current_char
    }

    /// The character under the cursor, or nul at end of input.
    fn peek(&self) -> (c: char)
        requires
            self.wf(),
        ensures
            c == char_at(self.source_as_vec@, self.current as int),
    {
        if self.is_at_end() {
            return '\0';
        }
        self.source_as_vec[self.current]
    }

    /// The character one past the cursor, or nul if that is past the end.
    fn peek_next(&self) -> (c: char)
        requires
            self.wf(),
        ensures
            c == char_at(self.source_as_vec@, self.current as int + 1),
    {
        if self.current + 1 >= self.source_as_vec.len() {
            return '\0';
        }
        self.source_as_vec[self.current + 1]
    }

    /// Emit one token: its lexeme is the source text between `start` and
    /// `current`, and it is tagged with the line counter's current value.
    fn add_token(&mut self, token_type: Token_Type, literal: Option<Literal>)
        requires
            old(self).wf(),
        ensures
            final(self).tokens.deep_view() == old(self).tokens.deep_view().push(
                TokenModel {
                    token_type,
                    lexeme: old(self).source@.subrange(
                        old(self).start as int,
                        old(self).current as int,
                    ),
                    literal: literal.deep_view(),
                    line: old(self).line as int,
                },
            ),
            *final(self) == (Scanner { tokens: final(self).tokens, ..*old(self) }),
            final(self).wf(),
    {
        let ghost s0 = *self;
        let text = self.source.as_str().substring_char(self.start, self.current);
        let token = Token { token_type, lexeme: String::from_str(text), literal, line: self.line };
        self.tokens.push(token);
        proof {
            assert(self.tokens.deep_view() =~~= s0.tokens.deep_view().push(
                TokenModel {
                    token_type,
                    lexeme: s0.source@.subrange(s0.start as int, s0.current as int),
                    literal: token.literal.deep_view(),
                    line: s0.line as int,
                },
            ));
        }
    }

    /// The one-or-two-character operator rule: consume a trailing `=` and emit
    /// the two-character kind, otherwise emit the one-character kind.
    fn match_next_add_token(
        &mut self,
        expected: char,
        on_match: Token_Type,
        otherwise: Token_Type,
    )
        requires
            old(self).wf(),
            old(self).start + 1 == old(self).current,
        ensures
            ({
                let st = step_maybe_equal(
                    old(self).source@,
                    old(self).start as int,
                    old(self).line as int,
                    on_match,
                    otherwise,
                );
                &&& expected == '=' ==> {
                    &&& final(self).current == st.next
                    &&& final(self).tokens.deep_view() == old(self).tokens.deep_view().push(
                        st.token->Some_0,
                    )
                }
                &&& *final(self) == (Scanner {
                    tokens: final(self).tokens,
                    current: final(self).current,
                    ..*old(self)
                })
                &&& final(self).wf()
            }),
    {
        if self.is_at_end() || self.source_as_vec[self.current] != expected {
            self.add_token(otherwise, None);
        } else {
            self.current = self.current + 1;
            self.add_token(on_match, None);
        }
    }

    /// Scan a string literal whose opening quote sits at `start` and has
    /// already been consumed. Multi-line strings are permitted and each
    /// embedded newline moves the line counter; backslashes are ordinary
    /// characters. An unterminated string is reported and emits no token.
    fn string(&mut self)
        requires
            old(self).wf(),
            old(self).start + 1 == old(self).current,
        ensures
            ({
                let r = string_end(
                    old(self).source@,
                    old(self).current as int,
                    old(self).line as int,
                );
                &&& final(self).current == r.next
                &&& final(self).line == r.line
                &&& *final(self) == (Scanner {
                    tokens: final(self).tokens,
                    current: final(self).current,
                    line: final(self).line,
                    loxr: final(self).loxr,
                    ..*old(self)
                })
                &&& final(self).wf()
                &&& r.ok ==> {
                    &&& final(self).tokens.deep_view() == old(self).tokens.deep_view().push(
                        TokenModel {
                            token_type: Token_Type::STRING,
                            lexeme: old(self).source@.subrange(old(self).start as int, r.next),
                            literal: Some(
                                LiteralModel::STRING(
                                    old(self).source@.subrange(
                                        old(self).start as int + 1,
                                        r.next - 1,
                                    ),
                                ),
                            ),
                            line: r.line,
                        },
                    )
                    &&& final(self).loxr == old(self).loxr
                }
                &&& !r.ok ==> {
                    &&& final(self).tokens == old(self).tokens
                    &&& final(self).loxr.diagnostics.deep_view() == old(
                        self,
                    ).loxr.diagnostics.deep_view().push(
                        DiagModel { line: r.line, pos: ""@, message: "Unterminated string"@ },
                    )
                    &&& final(self).loxr.had_error == true
                    &&& (old(self).loxr.wf() ==> final(self).loxr.wf())
                }
            }),
    {
        let ghost s0 = *self;
        while self.peek() != '"' && !self.is_at_end()
            invariant
                self.wf(),
                *self == (Scanner { current: self.current, line: self.line, ..s0 }),
                s0.current <= self.current,
                string_end(s0.source@, self.current as int, self.line as int) == string_end(
                    s0.source@,
                    s0.current as int,
                    s0.line as int,
                ),
            decreases s0.source_as_vec@.len() - self.current,
        {
            let c = self.advance();
            if c == '\n' {
                self.line = self.line + 1;
            }
        }
        if self.is_at_end() {
            self.loxr.error(self.line, String::from_str("Unterminated string"));
            return ;
        }
        self.advance();
        let value = self.source.as_str().substring_char(self.start + 1, self.current - 1);
        self.add_token(Token_Type::STRING, Some(Literal::STRING(String::from_str(value))));
    }

    /// Scan a number literal whose first digit sits at `start` and has
    /// already been consumed: a maximal digit run, then a fractional part
    /// only when a dot is followed by a digit. The emitted token carries the
    /// consumed text as its literal value.
    fn number(&mut self)
        requires
            old(self).wf(),
            old(self).start + 1 == old(self).current,
        ensures
            ({
                let e = number_end(old(self).source@, old(self).current as int);
                &&& final(self).current == e
                &&& *final(self) == (Scanner {
                    tokens: final(self).tokens,
                    current: final(self).current,
                    ..*old(self)
                })
                &&& final(self).wf()
                &&& final(self).tokens.deep_view() == old(self).tokens.deep_view().push(
                    TokenModel {
                        token_type: Token_Type::NUMBER,
                        lexeme: old(self).source@.subrange(old(self).start as int, e),
                        literal: Some(
                            LiteralModel::NUM(
                                old(self).source@.subrange(old(self).start as int, e),
                            ),
                        ),
                        line: old(self).line as int,
                    },
                )
            }),
    {
        let ghost s0 = *self;
        while is_digit_char(self.peek())
            invariant
                self.wf(),
                *self == (Scanner { current: self.current, ..s0 }),
                s0.current <= self.current,
                digits_end(s0.source@, self.current as int) == digits_end(
                    s0.source@,
                    s0.current as int,
                ),
            decreases s0.source_as_vec@.len() - self.current,
        {
            self.advance();
        }
        if self.peek() == '.' && is_digit_char(self.peek_next()) {
            let ghost j = self.current as int;
            self.advance();
            while is_digit_char(self.peek())
                invariant
                    self.wf(),
                    *self == (Scanner { current: self.current, ..s0 }),
                    j + 1 <= self.current,
                    digits_end(s0.source@, self.current as int) == digits_end(s0.source@, j + 1),
                decreases s0.source_as_vec@.len() - self.current,
            {
                self.advance();
            }
        }
        let text = self.source.as_str().substring_char(self.start, self.current);
        self.add_token(Token_Type::NUMBER, Some(Literal::NUM(String::from_str(text))));
    }

    /// Scan an identifier or keyword whose first character sits at `start`
    /// and has already been consumed: a maximal alphanumeric run, looked up
    /// in the keyword table.
    fn identifier(&mut self)
        requires
            old(self).wf(),
            old(self).start + 1 == old(self).current,
        ensures
            ({
                let e = alnum_end(old(self).source@, old(self).current as int);
                let lexeme = old(self).source@.subrange(old(self).start as int, e);
                let kind = match spec_keyword(lexeme) {
                    Some(k) => k,
                    None => Token_Type::IDENTIFIER,
                };
                &&& final(self).current == e
                &&& *final(self) == (Scanner {
                    tokens: final(self).tokens,
                    current: final(self).current,
                    ..*old(self)
                })
                &&& final(self).wf()
                &&& final(self).tokens.deep_view() == old(self).tokens.deep_view().push(
                    TokenModel {
                        token_type: kind,
                        lexeme,
                        literal: None,
                        line: old(self).line as int,
                    },
                )
            }),
    {
        let ghost s0 = *self;
        while is_alnum_char(self.peek())
            invariant
                self.wf(),
                *self == (Scanner { current: self.current, ..s0 }),
                s0.current <= self.current,
                alnum_end(s0.source@, self.current as int) == alnum_end(
                    s0.source@,
                    s0.current as int,
                ),
            decreases s0.source_as_vec@.len() - self.current,
        {
            self.advance();
        }
        let lexeme = self.source.as_str().substring_char(self.start, self.current);
        let kind = match keywords(lexeme) {
            Some(k) => k,
            None => Token_Type::IDENTIFIER,
        };
        self.add_token(kind, None);
    }

    /// Skip a line comment: everything up to, but not including, the next
    /// newline. No token is emitted.
    fn line_comment(&mut self)
        requires
            old(self).wf(),
        ensures
            final(self).current == line_end(old(self).source@, old(self).current as int),
            *final(self) == (Scanner { current: final(self).current, ..*old(self) }),
            final(self).wf(),
    {
        let ghost s0 = *self;
        while self.peek() != '\n' && !self.is_at_end()
            invariant
                self.wf(),
                *self == (Scanner { current: self.current, ..s0 }),
                line_end(s0.source@, self.current as int) == line_end(
                    s0.source@,
                    s0.current as int,
                ),
            decreases s0.source_as_vec@.len() - self.current,
        {
            self.advance();
        }
    }

    /// Skip a block comment whose opening `/*` has already been consumed:
    /// everything up to and including the closing `*/`, counting embedded
    /// newlines. Reaching end of input first is reported once and the scan
    /// of the comment halts there.
    fn block_comment(&mut self)
        requires
            old(self).wf(),
        ensures
            ({
                let b = block_end(
                    old(self).source@,
                    old(self).current as int,
                    old(self).line as int,
                );
                &&& final(self).current == b.next
                &&& final(self).line == b.line
                &&& *final(self) == (Scanner {
                    current: final(self).current,
                    line: final(self).line,
                    loxr: final(self).loxr,
                    ..*old(self)
                })
                &&& final(self).wf()
                &&& b.ok ==> final(self).loxr == old(self).loxr
                &&& !b.ok ==> {
                    &&& final(self).loxr.diagnostics.deep_view() == old(
                        self,
                    ).loxr.diagnostics.deep_view().push(
                        DiagModel {
                            line: b.line,
                            pos: ""@,
                            message: "No ending to block comment"@,
                        },
                    )
                    &&& final(self).loxr.had_error == true
                    &&& (old(self).loxr.wf() ==> final(self).loxr.wf())
                }
            }),
    {
        let ghost s0 = *self;
        while !(self.is_at_end() || (self.peek() == '*' && self.peek_next() == '/'))
            invariant
                self.wf(),
                *self == (Scanner { current: self.current, line: self.line, ..s0 }),
                block_end(s0.source@, self.current as int, self.line as int) == block_end(
                    s0.source@,
                    s0.current as int,
                    s0.line as int,
                ),
            decreases s0.source_as_vec@.len() - self.current,
        {
            let c = self.advance();
            if c == '\n' {
                self.line = self.line + 1;
            }
        }
        if self.is_at_end() {
            self.loxr.error(self.line, String::from_str("No ending to block comment"));
        } else {
            self.advance();
            self.advance();
        }
    }

    /// One top-level scan step: dispatch on the character under the cursor,
    /// emit at most one token and at most one diagnostic, and leave the
    /// cursor on the first unconsumed character. A character that matches no
    /// category is reported as an invalid token and skipped.
    fn scan_token(&mut self)
        requires
            old(self).wf(),
            old(self).start == old(self).current,
            old(self).current < old(self).source_as_vec@.len(),
        ensures
            ({
                let st = scan_step(
                    old(self).source@,
                    old(self).current as int,
                    old(self).line as int,
                );
                &&& final(self).current == st.next
                &&& final(self).line == st.line
                &&& *final(self) == (Scanner {
                    tokens: final(self).tokens,
                    current: final(self).current,
                    line: final(self).line,
                    loxr: final(self).loxr,
                    ..*old(self)
                })
                &&& final(self).wf()
                &&& (st.token is Some ==> final(self).tokens.deep_view() == old(
                    self,
                ).tokens.deep_view().push(st.token->Some_0))
                &&& (st.token is None ==> final(self).tokens == old(self).tokens)
                &&& (st.diag is Some ==> {
                    &&& final(self).loxr.diagnostics.deep_view() == old(
                        self,
                    ).loxr.diagnostics.deep_view().push(st.diag->Some_0)
                    &&& final(self).loxr.had_error == true
                    &&& (old(self).loxr.wf() ==> final(self).loxr.wf())
                })
                &&& (st.diag is None ==> final(self).loxr == old(self).loxr)
            }),
    {
        let c = self.advance();
        match c {
            '(' => self.add_token(Token_Type::LEFT_PAREN, None),
            ')' => self.add_token(Token_Type::RIGHT_PAREN, None),
            '{' => self.add_token(Token_Type::LEFT_BRACE, None),
            '}' => self.add_token(Token_Type::RIGHT_BRACE, None),
            ',' => self.add_token(Token_Type::COMMA, None),
            '.' => self.add_token(Token_Type::DOT, None),
            '+' => self.add_token(Token_Type::PLUS, None),
            ';' => self.add_token(Token_Type::SEMICOLON, None),
            '*' => self.add_token(Token_Type::STAR, None),
            '!' => self.match_next_add_token('=', Token_Type::BANG_EQUAL, Token_Type::BANG),
            '>' => self.match_next_add_token('=', Token_Type::GREATER_EQUAL, Token_Type::GREATER),
            '<' => self.match_next_add_token('=', Token_Type::LESS_EQUAL, Token_Type::LESS),
            '=' => self.match_next_add_token('=', Token_Type::EQUAL_EQUAL, Token_Type::EQUAL),
            '/' => {
                if self.peek() == '/' {
                    self.line_comment();
                } else if self.peek() == '*' {
                    self.advance();
                    self.block_comment();
                } else {
                    self.add_token(Token_Type::SLASH, None);
                }
            },
            '\n' => {
                self.line = self.line + 1;
            },
            ' ' => (),
            '\r' => (),
            '\t' => (),
            '"' => self.string(),
            other => {
                if is_digit_char(other) {
                    self.number();
                } else if is_alnum_char(other) {
                    self.identifier();
                } else {
                    self.loxr.error(self.line, String::from_str("Invalid token"));
                }
            },
        }
    }

    /// Scan the whole source text: tokens are emitted in source order and the
    /// sequence is closed by exactly one sentinel end-of-input token, even
    /// for empty input. The call never fails: malformed input is reported to
    /// the sink, the offending characters are skipped, and scanning goes on,
    /// so one pass surfaces every lexical error.
    pub fn scan_tokens(&mut self)
        requires
            old(self).wf(),
            old(self).current == 0,
            old(self).line == 1,
            old(self).tokens@.len() == 0,
            old(self).loxr.wf(),
        ensures
            final(self).tokens.deep_view() == spec_tokens(old(self).source@),
            final(self).loxr.diagnostics.deep_view() == old(self).loxr.diagnostics.deep_view()
                + spec_diags(old(self).source@),
            final(self).loxr.had_error == (old(self).loxr.had_error || spec_diags(
                old(self).source@,
            ).len() > 0),
            old(self).loxr.had_error ==> final(self).loxr.had_error,
            final(self).loxr.wf(),
            final(self).source == old(self).source,
            final(self).wf(),
    {
        let ghost s0 = *self;
        let ghost src = s0.source@;
        proof {
            assert(self.tokens.deep_view() =~= Seq::<TokenModel>::empty());
            assert(Seq::<TokenModel>::empty() + scan_from(src, 0, 1).tokens =~= scan_from(
                src,
                0,
                1,
            ).tokens);
        }
        while !self.is_at_end()
            invariant
                self.wf(),
                self.loxr.wf(),
                self.source == s0.source,
                self.source@ == src,
                self.source_as_vec@ == src,
                self.tokens.deep_view() + scan_from(
                    src,
                    self.current as int,
                    self.line as int,
                ).tokens == scan_from(src, 0, 1).tokens,
                self.loxr.diagnostics.deep_view() + scan_from(
                    src,
                    self.current as int,
                    self.line as int,
                ).diags == s0.loxr.diagnostics.deep_view() + scan_from(src, 0, 1).diags,
                scan_from(src, self.current as int, self.line as int).end_line == scan_from(
                    src,
                    0,
                    1,
                ).end_line,
            decreases self.source_as_vec@.len() - self.current,
        {
            self.start = self.current;
            let ghost c0 = self.current as int;
            let ghost l0 = self.line as int;
            proof {
                assert(0 <= c0 < src.len());
                lemma_scan_from_unfold(src, c0, l0);
            }
            let ghost pre = *self;
            self.scan_token();
            proof {
                lemma_scan_step_bounds(src, c0, l0);
                let st = scan_step(src, c0, l0);
                let rest = scan_from(src, st.next, st.line);
                if st.token is Some {
                    assert(self.tokens.deep_view() + rest.tokens =~= pre.tokens.deep_view() + (
                    opt_seq(st.token) + rest.tokens));
                } else {
                    assert(self.tokens.deep_view() + rest.tokens =~= pre.tokens.deep_view() + (
                    opt_seq(st.token) + rest.tokens));
                }
                if st.diag is Some {
                    assert(self.loxr.diagnostics.deep_view() + rest.diags
                        =~= pre.loxr.diagnostics.deep_view() + (opt_seq(st.diag) + rest.diags));
                } else {
                    assert(self.loxr.diagnostics.deep_view() + rest.diags
                        =~= pre.loxr.diagnostics.deep_view() + (opt_seq(st.diag) + rest.diags));
                }
            }
        }
        proof {
            assert(scan_from(src, self.current as int, self.line as int).tokens
                =~= Seq::<TokenModel>::empty());
            assert(self.tokens.deep_view() =~= scan_from(src, 0, 1).tokens);
            assert(self.loxr.diagnostics.deep_view() =~= s0.loxr.diagnostics.deep_view()
                + scan_from(src, 0, 1).diags);
        }
        self.start = self.current;
        self.add_token(Token_Type::EOF, None);
        proof {
            assert(self.tokens.deep_view() =~~= spec_tokens(src));
        }
    }
}

} // verus!
