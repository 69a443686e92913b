use vstd::prelude::*;

use crate::loxr_::DiagModel;
use crate::token::{spec_keyword, LiteralModel, Token_Type, TokenModel};

verus! {

/// The character at position `i`, or the nul sentinel when `i` is out of
/// range. This is the lookahead the scanner sees through `peek`/`peek_next`.
pub open spec fn char_at(src: Seq<char>, i: int) -> char {
    if 0 <= i < src.len() {
        src[i]
    } else {
        '\0'
    }
}

/// A decimal digit.
pub open spec fn is_digit(c: char) -> bool {
    '0' <= c && c <= '9'
}

/// A basic letter.
pub open spec fn is_alpha(c: char) -> bool {
    ('a' <= c && c <= 'z') || ('A' <= c && c <= 'Z')
}

/// The alphanumeric characters that identifiers and keywords are made of.
pub open spec fn is_alnum(c: char) -> bool {
    is_digit(c) || is_alpha(c)
}

/// The single-character punctuation table: the characters that are emitted
/// immediately as a fixed-kind token. A minus sign has no entry here, so it
/// is reported as an invalid token; the MINUS kind stays in the vocabulary
/// for downstream consumers.
pub open spec fn single_punct_kind(c: char) -> Option<Token_Type> {
    if c == '(' {
        Some(Token_Type::LEFT_PAREN)
    } else if c == ')' {
        Some(Token_Type::RIGHT_PAREN)
    } else if c == '{' {
        Some(Token_Type::LEFT_BRACE)
    } else if c == '}' {
        Some(Token_Type::RIGHT_BRACE)
    } else if c == ',' {
        Some(Token_Type::COMMA)
    } else if c == '.' {
        Some(Token_Type::DOT)
    } else if c == '+' {
        Some(Token_Type::PLUS)
    } else if c == ';' {
        Some(Token_Type::SEMICOLON)
    } else if c == '*' {
        Some(Token_Type::STAR)
    } else {
        None
    }
}

/// The position a line comment runs to: the first newline at or after `i`,
/// or the end of input. The newline itself is not part of the comment.
pub open spec fn line_end(src: Seq<char>, i: int) -> int
    decreases src.len() - i,
{
    if i < 0 || i >= src.len() || src[i] == '\n' {
        i
    } else {
        line_end(src, i + 1)
    }
}

/// Where a block comment body starting at `i` (just past the opening `/*`)
/// ends: the position just past the closing `*/` when one exists (`ok`),
/// otherwise the end of input. `line` counts the newlines consumed.
#[verifier::ext_equal]
pub ghost struct BlockRes {
    pub next: int,
    pub line: int,
    pub ok: bool,
}

pub open spec fn block_end(src: Seq<char>, i: int, line: int) -> BlockRes
    decreases src.len() - i,
{
    if i < 0 || i >= src.len() {
        BlockRes { next: i, line, ok: false }
    } else if src[i] == '*' && char_at(src, i + 1) == '/' {
        BlockRes { next: i + 2, line, ok: true }
    } else {
        block_end(src, i + 1, if src[i] == '\n' { line + 1 } else { line })
    }
}

/// Where a string literal starting at `i` (just past the opening quote) ends:
/// the position just past the closing quote when one exists (`ok`), otherwise
/// the end of input. `line` counts the newlines consumed.
#[verifier::ext_equal]
pub ghost struct StrRes {
    pub next: int,
    pub line: int,
    pub ok: bool,
}

pub open spec fn string_end(src: Seq<char>, i: int, line: int) -> StrRes
    decreases src.len() - i,
{
    if i < 0 || i >= src.len() {
        StrRes { next: i, line, ok: false }
    } else if src[i] == '"' {
        StrRes { next: i + 1, line, ok: true }
    } else {
        string_end(src, i + 1, if src[i] == '\n' { line + 1 } else { line })
    }
}

/// The end of the maximal run of digits starting at `i`.
pub open spec fn digits_end(src: Seq<char>, i: int) -> int
    decreases src.len() - i,
{
    if i < 0 || i >= src.len() || !is_digit(src[i]) {
        i
    } else {
        digits_end(src, i + 1)
    }
}

/// The end of a number literal whose first digit sits just before `i`: a
/// maximal digit run, then a fractional part only when a dot is followed by
/// a digit.
pub open spec fn number_end(src: Seq<char>, i: int) -> int {
    let j = digits_end(src, i);
    if char_at(src, j) == '.' && is_digit(char_at(src, j + 1)) {
        digits_end(src, j + 1)
    } else {
        j
    }
}

/// The end of the maximal run of alphanumeric characters starting at `i`.
pub open spec fn alnum_end(src: Seq<char>, i: int) -> int
    decreases src.len() - i,
{
    if i < 0 || i >= src.len() || !is_alnum(src[i]) {
        i
    } else {
        alnum_end(src, i + 1)
    }
}

/// What one top-level scan step does: where the cursor and the line counter
/// move to, and the at most one token and at most one diagnostic it emits.
#[verifier::ext_equal]
pub ghost struct StepRes {
    pub next: int,
    pub line: int,
    pub token: Option<TokenModel>,
    pub diag: Option<DiagModel>,
}

/// A step that only moves the cursor.
pub open spec fn step_silent(next: int, line: int) -> StepRes {
    StepRes { next, line, token: None, diag: None }
}

/// A step that emits one token and no diagnostic.
pub open spec fn step_token(
    next: int,
    line: int,
    token_type: Token_Type,
    lexeme: Seq<char>,
    literal: Option<LiteralModel>,
) -> StepRes {
    StepRes { next, line, token: Some(TokenModel { token_type, lexeme, literal, line }), diag: None }
}

/// A step that emits one diagnostic and no token.
pub open spec fn step_diag(next: int, line: int, message: Seq<char>) -> StepRes {
    StepRes { next, line, token: None, diag: Some(DiagModel { line, pos: ""@, message }) }
}

/// The one-or-two-character operator rule: a trailing `=` is consumed and
/// yields the two-character kind, anything else yields the one-character kind.
pub open spec fn step_maybe_equal(
    src: Seq<char>,
    i: int,
    line: int,
    two: Token_Type,
    one: Token_Type,
) -> StepRes {
    if char_at(src, i + 1) == '=' {
        step_token(i + 2, line, two, src.subrange(i, i + 2), None)
    } else {
        step_token(i + 1, line, one, src.subrange(i, i + 1), None)
    }
}

/// One top-level scan step at position `i` (with `0 <= i < src.len()`),
/// dispatching on the character there.
pub open spec fn scan_step(src: Seq<char>, i: int, line: int) -> StepRes {
    let c = char_at(src, i);
    if single_punct_kind(c) is Some {
        step_token(i + 1, line, single_punct_kind(c)->Some_0, src.subrange(i, i + 1), None)
    } else if c == '!' {
        step_maybe_equal(src, i, line, Token_Type::BANG_EQUAL, Token_Type::BANG)
    } else if c == '>' {
        step_maybe_equal(src, i, line, Token_Type::GREATER_EQUAL, Token_Type::GREATER)
    } else if c == '<' {
        step_maybe_equal(src, i, line, Token_Type::LESS_EQUAL, Token_Type::LESS)
    } else if c == '=' {
        step_maybe_equal(src, i, line, Token_Type::EQUAL_EQUAL, Token_Type::EQUAL)
    } else if c == '/' {
        if char_at(src, i + 1) == '/' {
            step_silent(line_end(src, i + 1), line)
        } else if char_at(src, i + 1) == '*' {
            let b = block_end(src, i + 2, line);
            if b.ok {
                step_silent(b.next, b.line)
            } else {
                step_diag(b.next, b.line, "No ending to block comment"@)
            }
        } else {
            step_token(i + 1, line, Token_Type::SLASH, src.subrange(i, i + 1), None)
        }
    } else if c == '\n' {
        step_silent(i + 1, line + 1)
    } else if c == ' ' || c == '\r' || c == '\t' {
        step_silent(i + 1, line)
    } else if c == '"' {
        let s = string_end(src, i + 1, line);
        if s.ok {
            step_token(
                s.next,
                s.line,
                Token_Type::STRING,
                src.subrange(i, s.next),
                Some(LiteralModel::STRING(src.subrange(i + 1, s.next - 1))),
            )
        } else {
            step_diag(s.next, s.line, "Unterminated string"@)
        }
    } else if is_digit(c) {
        let e = number_end(src, i + 1);
        step_token(
            e,
            line,
            Token_Type::NUMBER,
            src.subrange(i, e),
            Some(LiteralModel::NUM(src.subrange(i, e))),
        )
    } else if is_alnum(c) {
        let e = alnum_end(src, i + 1);
        let lexeme = src.subrange(i, e);
        let kind = match spec_keyword(lexeme) {
            Some(k) => k,
            None => Token_Type::IDENTIFIER,
        };
        step_token(e, line, kind, lexeme, None)
    } else {
        step_diag(i + 1, line, "Invalid token"@)
    }
}

/// Everything a whole scan from position `i` onward produces, in order, and
/// the value of the line counter when input is exhausted.
#[verifier::ext_equal]
pub ghost struct ScanRes {
    pub tokens: Seq<TokenModel>,
    pub diags: Seq<DiagModel>,
    pub end_line: int,
}

pub open spec fn opt_seq<A>(o: Option<A>) -> Seq<A> {
    match o {
        Some(a) => seq![a],
        None => Seq::empty(),
    }
}

pub open spec fn scan_from(src: Seq<char>, i: int, line: int) -> ScanRes
    decreases src.len() - i,
{
    if i < 0 || i >= src.len() {
        ScanRes { tokens: Seq::empty(), diags: Seq::empty(), end_line: line }
    } else {
        let st = scan_step(src, i, line);
        // A scan step always advances and stays in range; the guard only
        // makes that syntactic, see `lemma_scan_step_bounds`.
        let ni = if i < st.next <= src.len() {
            st.next
        } else {
            i + 1
        };
        let rest = scan_from(src, ni, st.line);
        ScanRes {
            tokens: opt_seq(st.token) + rest.tokens,
            diags: opt_seq(st.diag) + rest.diags,
            end_line: rest.end_line,
        }
    }
}

/// The sentinel token that closes every token sequence.
pub open spec fn eof_token(line: int) -> TokenModel {
    TokenModel { token_type: Token_Type::EOF, lexeme: Seq::empty(), literal: None, line }
}

/// The full token sequence for a source text: every scanned token, then
/// exactly one sentinel end-of-input token.
pub open spec fn spec_tokens(src: Seq<char>) -> Seq<TokenModel> {
    let r = scan_from(src, 0, 1);
    r.tokens.push(eof_token(r.end_line))
}

/// The diagnostics a scan of a source text reports, in order.
pub open spec fn spec_diags(src: Seq<char>) -> Seq<DiagModel> {
    scan_from(src, 0, 1).diags
}

pub proof fn lemma_line_end_bounds(src: Seq<char>, i: int)
    requires
        0 <= i <= src.len(),
    ensures
        i <= line_end(src, i) <= src.len(),
    decreases src.len() - i,
{
    if i < src.len() && src[i] != '\n' {
        lemma_line_end_bounds(src, i + 1);
    }
}

pub proof fn lemma_block_end_bounds(src: Seq<char>, i: int, line: int)
    requires
        0 <= i <= src.len(),
    ensures
        i <= block_end(src, i, line).next <= src.len(),
        !block_end(src, i, line).ok ==> block_end(src, i, line).next == src.len(),
        line <= block_end(src, i, line).line,
        block_end(src, i, line).line - line <= block_end(src, i, line).next - i,
    decreases src.len() - i,
{
    if i < src.len() && !(src[i] == '*' && char_at(src, i + 1) == '/') {
        lemma_block_end_bounds(src, i + 1, if src[i] == '\n' { line + 1 } else { line });
    }
}

pub proof fn lemma_string_end_bounds(src: Seq<char>, i: int, line: int)
    requires
        0 <= i <= src.len(),
    ensures
        i <= string_end(src, i, line).next <= src.len(),
        !string_end(src, i, line).ok ==> string_end(src, i, line).next == src.len(),
        string_end(src, i, line).ok ==> string_end(src, i, line).next >= i + 1,
        line <= string_end(src, i, line).line,
        string_end(src, i, line).line - line <= string_end(src, i, line).next - i,
    decreases src.len() - i,
{
    if i < src.len() && src[i] != '"' {
        lemma_string_end_bounds(src, i + 1, if src[i] == '\n' { line + 1 } else { line });
    }
}

pub proof fn lemma_digits_end_bounds(src: Seq<char>, i: int)
    requires
        0 <= i <= src.len(),
    ensures
        i <= digits_end(src, i) <= src.len(),
    decreases src.len() - i,
{
    if i < src.len() && is_digit(src[i]) {
        lemma_digits_end_bounds(src, i + 1);
    }
}

pub proof fn lemma_number_end_bounds(src: Seq<char>, i: int)
    requires
        0 <= i <= src.len(),
    ensures
        i <= number_end(src, i) <= src.len(),
{
    lemma_digits_end_bounds(src, i);
    let j = digits_end(src, i);
    if char_at(src, j) == '.' && is_digit(char_at(src, j + 1)) {
        lemma_digits_end_bounds(src, j + 1);
    }
}

pub proof fn lemma_alnum_end_bounds(src: Seq<char>, i: int)
    requires
        0 <= i <= src.len(),
    ensures
        i <= alnum_end(src, i) <= src.len(),
    decreases src.len() - i,
{
    if i < src.len() && is_alnum(src[i]) {
        lemma_alnum_end_bounds(src, i + 1);
    }
}

/// A scan step always consumes at least one character, never reads past the
/// end of input, and moves the line counter up by at most one per character
/// consumed.
pub proof fn lemma_scan_step_bounds(src: Seq<char>, i: int, line: int)
    requires
        0 <= i < src.len(),
    ensures
        i < scan_step(src, i, line).next <= src.len(),
        line <= scan_step(src, i, line).line,
        scan_step(src, i, line).line - line <= scan_step(src, i, line).next - i,
{
    lemma_line_end_bounds(src, i + 1);
    if i + 2 <= src.len() {
        lemma_block_end_bounds(src, i + 2, line);
    }
    lemma_string_end_bounds(src, i + 1, line);
    lemma_number_end_bounds(src, i + 1);
    lemma_alnum_end_bounds(src, i + 1);
}

/// Unfolding a scan at a position with input left: the whole result is what
/// the step at that position emits, followed by the scan of the rest.
pub proof fn lemma_scan_from_unfold(src: Seq<char>, i: int, line: int)
    requires
        0 <= i < src.len(),
    ensures
        ({
            let st = scan_step(src, i, line);
            let rest = scan_from(src, st.next, st.line);
            scan_from(src, i, line) == ScanRes {
                tokens: opt_seq(st.token) + rest.tokens,
                diags: opt_seq(st.diag) + rest.diags,
                end_line: rest.end_line,
            }
        }),
{
    lemma_scan_step_bounds(src, i, line);
}

/// No scan step ever emits the sentinel kind: only the final push in
/// `spec_tokens` does.
pub proof fn lemma_scan_from_no_eof(src: Seq<char>, i: int, line: int)
    ensures
        forall|k: int|
            0 <= k < scan_from(src, i, line).tokens.len() ==> (#[trigger] scan_from(
                src,
                i,
                line,
            ).tokens[k]).token_type != Token_Type::EOF,
    decreases src.len() - i,
{
    if 0 <= i < src.len() {
        lemma_scan_step_bounds(src, i, line);
        let st = scan_step(src, i, line);
        lemma_scan_from_no_eof(src, st.next, st.line);
        assert(st.token is Some ==> st.token->Some_0.token_type != Token_Type::EOF);
    }
}

/// Every token sequence ends with exactly one sentinel end-of-input token:
/// the last token has the sentinel kind, an empty lexeme and no literal
/// value, and no earlier token has the sentinel kind. This holds for every
/// input, the empty one included.
pub proof fn lemma_single_sentinel(src: Seq<char>)
    ensures
        spec_tokens(src).len() >= 1,
        spec_tokens(src).last().token_type == Token_Type::EOF,
        spec_tokens(src).last().lexeme.len() == 0,
        spec_tokens(src).last().literal is None,
        forall|k: int|
            0 <= k < spec_tokens(src).len() - 1 ==> (#[trigger] spec_tokens(
                src,
            )[k]).token_type != Token_Type::EOF,
{
    lemma_scan_from_no_eof(src, 0, 1);
}

/// For a source made only of single-character punctuation, scanning from any
/// position yields exactly one token per remaining character, in order, each
/// with the matching kind, that character as its lexeme, and the unchanged
/// line number; and it yields no diagnostic.
pub proof fn lemma_punctuation_suffix(src: Seq<char>, i: int, line: int)
    requires
        0 <= i <= src.len(),
        forall|j: int| 0 <= j < src.len() ==> (single_punct_kind(#[trigger] src[j]) is Some),
    ensures
        scan_from(src, i, line).tokens.len() == src.len() - i,
        forall|k: int|
            0 <= k < src.len() - i ==> #[trigger] scan_from(src, i, line).tokens[k] == (TokenModel {
                token_type: single_punct_kind(src[i + k])->Some_0,
                lexeme: src.subrange(i + k, i + k + 1),
                literal: None,
                line,
            }),
        scan_from(src, i, line).diags.len() == 0,
        scan_from(src, i, line).end_line == line,
    decreases src.len() - i,
{
    if i < src.len() {
        lemma_punctuation_suffix(src, i + 1, line);
        let st = scan_step(src, i, line);
        assert(st == step_token(
            i + 1,
            line,
            single_punct_kind(src[i])->Some_0,
            src.subrange(i, i + 1),
            None,
        ));
        assert forall|k: int| 0 <= k < src.len() - i implies #[trigger] scan_from(
            src,
            i,
            line,
        ).tokens[k] == TokenModel {
            token_type: single_punct_kind(src[i + k])->Some_0,
            lexeme: src.subrange(i + k, i + k + 1),
            literal: None,
            line,
        } by {
            if k > 0 {
                assert(scan_from(src, i, line).tokens[k] == scan_from(src, i + 1, line).tokens[k
                    - 1]);
            }
        }
    }
}

/// For input made only of single-character punctuation, the output is exactly
/// one token per input character, in order and with the matching kind, plus
/// the terminal sentinel, and the scan reports nothing.
pub proof fn lemma_punctuation_only(src: Seq<char>)
    requires
        forall|j: int| 0 <= j < src.len() ==> (single_punct_kind(#[trigger] src[j]) is Some),
    ensures
        spec_tokens(src).len() == src.len() + 1,
        forall|k: int|
            0 <= k < src.len() ==> #[trigger] spec_tokens(src)[k] == (TokenModel {
                token_type: single_punct_kind(src[k])->Some_0,
                lexeme: src.subrange(k, k + 1),
                literal: None,
                line: 1,
            }),
        spec_tokens(src).last() == eof_token(1),
        spec_diags(src).len() == 0,
{
    lemma_punctuation_suffix(src, 0, 1);
}

/// The end of an alphanumeric run that reaches the end of input.
proof fn lemma_alnum_end_all(src: Seq<char>, i: int)
    requires
        0 <= i <= src.len(),
        forall|j: int| i <= j < src.len() ==> is_alnum(#[trigger] src[j]),
    ensures
        alnum_end(src, i) == src.len(),
    decreases src.len() - i,
{
    if i < src.len() {
        lemma_alnum_end_all(src, i + 1);
    }
}

/// The keyword/identifier partition: an input that is one maximal
/// alphanumeric run starting with a letter scans to a single token whose
/// kind is the dedicated keyword kind when the run is in the keyword table
/// and IDENTIFIER otherwise, with the whole run as its lexeme, followed by
/// the sentinel, and the scan reports nothing.
pub proof fn lemma_keyword_identifier_partition(src: Seq<char>)
    requires
        src.len() > 0,
        is_alpha(src[0]),
        forall|j: int| 0 <= j < src.len() ==> is_alnum(#[trigger] src[j]),
    ensures
        spec_tokens(src).len() == 2,
        spec_tokens(src)[0] == (TokenModel {
            token_type: match spec_keyword(src) {
                Some(k) => k,
                None => Token_Type::IDENTIFIER,
            },
            lexeme: src,
            literal: None,
            line: 1,
        }),
        spec_tokens(src)[1] == eof_token(1),
        spec_diags(src).len() == 0,
{
    lemma_alnum_end_all(src, 1);
    let c = src[0];
    assert(!is_digit(c));
    assert(single_punct_kind(c) is None);
    let st = scan_step(src, 0, 1);
    assert(src.subrange(0, src.len() as int) =~= src);
    assert(st.next == src.len());
    assert(st.token is Some);
    lemma_scan_from_unfold(src, 0, 1);
    assert(scan_from(src, src.len() as int, 1).tokens =~= Seq::<TokenModel>::empty());
}

} // verus!
