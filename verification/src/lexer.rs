//! Lexical analysis: turns source text into a sequence of positioned tokens.
//!
//! The accepted characters are decimal digits, ASCII letters, the operator
//! characters `+ - * / { }` and `=` (with the two-character forms `==` and
//! `=>`), string literals delimited by `"` or `'`, newlines and spaces.  Any
//! other character stops the scan with an `UnexpectedCharacter` error.
//!
//! The behaviour is specified by `sp_tokenize`, a recursive specification
//! over the character sequence of the input; `tokenize` is proved to return
//! exactly what `sp_tokenize` describes.

use vstd::prelude::*;

verus! {

/// The classification of a lexeme.
#[derive(Debug, Clone, Copy, PartialEq, Eq, Structural)]
pub enum TokenKind {
    Number,
    Operator,
    Symbol,
    NewLine,
    StringLiteral,
}

/// The reason lexing failed.
#[derive(Debug, Clone, Copy, PartialEq, Eq, Structural)]
pub enum LexerErrorType {
    UnexpectedCharacter(char),
}

/// A terminal lexing failure: the offending character and the position the
/// scanner had reached when it met it.
#[derive(Debug, Clone, PartialEq)]
pub struct LexerError {
    pub error_type: LexerErrorType,
    pub line: usize,
    pub column: usize,
}

/// A classified lexeme together with the position it was produced at.
#[derive(Debug, Clone, PartialEq)]
pub struct Token {
    pub kind: TokenKind,
    pub value: String,
    pub column: usize,
    pub line: usize,
}

/// The mathematical model of a token: its text as a character sequence and
/// its position as unbounded naturals.
pub struct TokenV {
    pub kind: TokenKind,
    pub value: Seq<char>,
    pub column: nat,
    pub line: nat,
}

/// The mathematical model of a lexing failure.
pub struct LexErrV {
    pub error_type: LexerErrorType,
    pub line: nat,
    pub column: nat,
}

pub open spec fn token_v(t: Token) -> TokenV {
    TokenV { kind: t.kind, value: t.value@, column: t.column as nat, line: t.line as nat }
}

pub open spec fn toks_v(ts: Seq<Token>) -> Seq<TokenV> {
    Seq::new(ts.len(), |i: int| token_v(ts[i]))
}

pub open spec fn lex_err_v(e: LexerError) -> LexErrV {
    LexErrV { error_type: e.error_type, line: e.line as nat, column: e.column as nat }
}

impl Token {
    pub fn new(kind: TokenKind, value: String, column: usize, line: usize) -> (t: Token)
        ensures
            token_v(t) == (TokenV {
                kind,
                value: value@,
                column: column as nat,
                line: line as nat,
            }),
    {
        Token { kind, value, column, line }
    }
}

pub open spec fn is_digit_char(c: char) -> bool {
    '0' <= c && c <= '9'
}

pub open spec fn is_letter_char(c: char) -> bool {
    ('a' <= c && c <= 'z') || ('A' <= c && c <= 'Z')
}

pub open spec fn is_simple_operator_char(c: char) -> bool {
    c == '+' || c == '-' || c == '*' || c == '/' || c == '{' || c == '}'
}

/// The characters the lexer accepts anywhere outside a string literal.
pub open spec fn is_accepted_char(c: char) -> bool {
    is_digit_char(c) || is_letter_char(c) || is_simple_operator_char(c) || c == '=' || c == '"'
        || c == '\'' || c == '\n' || c == ' '
}

/// The index just past the maximal run of digits starting at `i`.
pub open spec fn digit_run_end(s: Seq<char>, i: int) -> int
    decreases s.len() - i,
{
    if i < s.len() && is_digit_char(s[i]) {
        digit_run_end(s, i + 1)
    } else {
        i
    }
}

/// The index just past the maximal run of letters starting at `i`.
pub open spec fn letter_run_end(s: Seq<char>, i: int) -> int
    decreases s.len() - i,
{
    if i < s.len() && is_letter_char(s[i]) {
        letter_run_end(s, i + 1)
    } else {
        i
    }
}

/// The index of the first occurrence of `q` at or after `i`, or the length
/// of the sequence when `q` does not occur again.
pub open spec fn quote_scan_end(s: Seq<char>, i: int, q: char) -> int
    decreases s.len() - i,
{
    if i < s.len() && s[i] != q {
        quote_scan_end(s, i + 1, q)
    } else {
        i
    }
}

pub open spec fn prepend_token(t: TokenV, r: Result<Seq<TokenV>, LexErrV>) -> Result<
    Seq<TokenV>,
    LexErrV,
> {
    match r {
        Ok(ts) => Ok(seq![t] + ts),
        Err(e) => Err(e),
    }
}

/// The tokens produced from position `i` onward, scanning with the given
/// line and column counters.  The column counter reproduces the scanner's
/// bookkeeping: it advances on spaces and on the `=` forms, and resets on a
/// newline; runs of digits or letters, single-character operators and string
/// literals leave it unchanged.
pub open spec fn sp_tokenize_from(s: Seq<char>, i: int, line: nat, col: nat) -> Result<
    Seq<TokenV>,
    LexErrV,
>
    decreases s.len() - i,
{
    if i < 0 || i >= s.len() {
        Ok(Seq::empty())
    } else {
        let c = s[i];
        if is_digit_char(c) {
            let e = digit_run_end(s, i + 1);
            let j = if i + 1 <= e && e <= s.len() {
                e
            } else {
                i + 1
            };
            let tok = TokenV { kind: TokenKind::Number, value: s.subrange(i, j), column: col, line };
            prepend_token(tok, sp_tokenize_from(s, j, line, col))
        } else if is_simple_operator_char(c) {
            let tok = TokenV { kind: TokenKind::Operator, value: seq![c], column: col, line };
            prepend_token(tok, sp_tokenize_from(s, i + 1, line, col))
        } else if c == '=' {
            if i + 1 < s.len() {
                if s[i + 1] == '=' {
                    let tok = TokenV {
                        kind: TokenKind::Operator,
                        value: "=="@,
                        column: col,
                        line,
                    };
                    prepend_token(tok, sp_tokenize_from(s, i + 2, line, (col + 2) as nat))
                } else if s[i + 1] == '>' {
                    let tok = TokenV {
                        kind: TokenKind::Operator,
                        value: "=>"@,
                        column: col,
                        line,
                    };
                    prepend_token(tok, sp_tokenize_from(s, i + 2, line, (col + 2) as nat))
                } else {
                    let tok = TokenV {
                        kind: TokenKind::Operator,
                        value: "="@,
                        column: (col + 1) as nat,
                        line,
                    };
                    prepend_token(tok, sp_tokenize_from(s, i + 1, line, (col + 1) as nat))
                }
            } else {
                let tok = TokenV { kind: TokenKind::Operator, value: "="@, column: col, line };
                prepend_token(tok, sp_tokenize_from(s, i + 1, line, col))
            }
        } else if is_letter_char(c) {
            let e = letter_run_end(s, i + 1);
            let j = if i + 1 <= e && e <= s.len() {
                e
            } else {
                i + 1
            };
            let tok = TokenV { kind: TokenKind::Symbol, value: s.subrange(i, j), column: col, line };
            prepend_token(tok, sp_tokenize_from(s, j, line, col))
        } else if c == '"' {
            let e = quote_scan_end(s, i + 1, '"');
            let j = if i + 1 <= e && e <= s.len() {
                e
            } else {
                i + 1
            };
            let tok = TokenV {
                kind: TokenKind::StringLiteral,
                value: s.subrange(i + 1, j),
                column: col,
                line,
            };
            let k = if j < s.len() {
                j + 1
            } else {
                j
            };
            prepend_token(tok, sp_tokenize_from(s, k, line, col))
        } else if c == '\n' {
            let tok = TokenV { kind: TokenKind::NewLine, value: "\n"@, column: col, line };
            prepend_token(tok, sp_tokenize_from(s, i + 1, (line + 1) as nat, 1))
        } else if c == '\'' {
            let e = quote_scan_end(s, i + 1, '\'');
            let j = if i + 1 <= e && e <= s.len() {
                e
            } else {
                i + 1
            };
            let tok = TokenV {
                kind: TokenKind::StringLiteral,
                value: s.subrange(i + 1, j),
                column: col,
                line,
            };
            let k = if j < s.len() {
                j + 1
            } else {
                j
            };
            prepend_token(tok, sp_tokenize_from(s, k, line, col))
        } else if c == ' ' {
            sp_tokenize_from(s, i + 1, line, (col + 1) as nat)
        } else {
            Err(LexErrV { error_type: LexerErrorType::UnexpectedCharacter(c), line, column: col })
        }
    }
}

/// The token sequence of a whole input, scanned from its start at line 1,
/// column 1.
pub open spec fn sp_tokenize(s: Seq<char>) -> Result<Seq<TokenV>, LexErrV> {
    sp_tokenize_from(s, 0, 1, 1)
}

/// The number of newlines in `s` between positions `a` (inclusive) and `b`
/// (exclusive).
pub open spec fn newline_count(s: Seq<char>, a: int, b: int) -> int
    decreases b - a,
{
    if a >= b {
        0
    } else {
        (if s[a] == '\n' {
            1int
        } else {
            0int
        }) + newline_count(s, a + 1, b)
    }
}

proof fn lemma_newline_count_skip(s: Seq<char>, a: int, b: int, c: int)
    requires
        a <= b <= c,
        forall|m: int| a <= m < b ==> s[m] != '\n',
    ensures
        newline_count(s, a, c) == newline_count(s, b, c),
    decreases b - a,
{
    if a < b {
        lemma_newline_count_skip(s, a + 1, b, c);
    }
}

proof fn lemma_digit_run_end_bound(s: Seq<char>, k: int, i: int)
    requires
        0 <= k <= i < s.len(),
        !is_digit_char(s[i]),
    ensures
        k <= digit_run_end(s, k) <= i,
        forall|m: int| k <= m < digit_run_end(s, k) ==> is_digit_char(s[m]),
    decreases i - k,
{
    if k < i && is_digit_char(s[k]) {
        lemma_digit_run_end_bound(s, k + 1, i);
    }
}

proof fn lemma_letter_run_end_bound(s: Seq<char>, k: int, i: int)
    requires
        0 <= k <= i < s.len(),
        !is_letter_char(s[i]),
    ensures
        k <= letter_run_end(s, k) <= i,
        forall|m: int| k <= m < letter_run_end(s, k) ==> is_letter_char(s[m]),
    decreases i - k,
{
    if k < i && is_letter_char(s[k]) {
        lemma_letter_run_end_bound(s, k + 1, i);
    }
}

proof fn lemma_scan_reaches_offender(s: Seq<char>, start: int, i: int, line: nat, col: nat)
    requires
        0 <= start <= i < s.len(),
        !is_accepted_char(s[i]),
        forall|m: int| start <= m < i ==> is_accepted_char(s[m]) && s[m] != '"' && s[m] != '\'',
        (s[i] == '>' && i > start) ==> s[i - 1] != '=',
    ensures
        sp_tokenize_from(s, start, line, col) matches Err(e) && e.error_type
            == LexerErrorType::UnexpectedCharacter(s[i]) && e.line == line + newline_count(
            s,
            start,
            i,
        ),
    decreases i - start,
{
    if start == i {
    } else {
        let c = s[start];
        if is_digit_char(c) {
            lemma_digit_run_end_bound(s, start + 1, i);
            let e = digit_run_end(s, start + 1);
            lemma_newline_count_skip(s, start, e, i);
            lemma_scan_reaches_offender(s, e, i, line, col);
        } else if is_simple_operator_char(c) {
            lemma_newline_count_skip(s, start, start + 1, i);
            lemma_scan_reaches_offender(s, start + 1, i, line, col);
        } else if c == '=' {
            if start + 1 < s.len() {
                if s[start + 1] == '=' {
                    lemma_newline_count_skip(s, start, start + 2, i);
                    lemma_scan_reaches_offender(s, start + 2, i, line, (col + 2) as nat);
                } else if s[start + 1] == '>' {
                    assert(start + 1 < i ==> is_accepted_char(s[start + 1]));
                    assert(false);
                } else {
                    lemma_newline_count_skip(s, start, start + 1, i);
                    lemma_scan_reaches_offender(s, start + 1, i, line, (col + 1) as nat);
                }
            } else {
                assert(false);
            }
        } else if is_letter_char(c) {
            lemma_letter_run_end_bound(s, start + 1, i);
            let e = letter_run_end(s, start + 1);
            lemma_newline_count_skip(s, start, e, i);
            lemma_scan_reaches_offender(s, e, i, line, col);
        } else if c == '\n' {
            lemma_scan_reaches_offender(s, start + 1, i, (line + 1) as nat, 1);
        } else if c == ' ' {
            lemma_newline_count_skip(s, start, start + 1, i);
            lemma_scan_reaches_offender(s, start + 1, i, line, (col + 1) as nat);
        } else {
            assert(false);
        }
    }
}

/// A non-empty string made of decimal digits alone scans to exactly one
/// `Number` token holding the whole string, at line 1, column 1.
pub proof fn lemma_tokenize_digit_string(s: Seq<char>)
    requires
        s.len() > 0,
        forall|m: int| 0 <= m < s.len() ==> is_digit_char(s[m]),
    ensures
        sp_tokenize(s) == Ok::<Seq<TokenV>, LexErrV>(
            seq![TokenV { kind: TokenKind::Number, value: s, column: 1, line: 1 }],
        ),
{
    assert(is_digit_char(s[0]));
    assert(sp_tokenize_from(s, s.len() as int, 1, 1) == Ok::<Seq<TokenV>, LexErrV>(
        Seq::empty(),
    ));
    lemma_digit_run_end(s, 1, s.len() as int);
    let tok = TokenV { kind: TokenKind::Number, value: s.subrange(0, s.len() as int), column: 1, line: 1 };
    assert(s.subrange(0, s.len() as int) =~= s);
    assert(tok == (TokenV { kind: TokenKind::Number, value: s, column: 1, line: 1 }));
    assert(seq![tok] + Seq::<TokenV>::empty() =~= seq![tok]);
}

/// Scanning an input whose first character outside the accepted alphabet
/// stands at `i` fails with `UnexpectedCharacter` naming that character, on
/// the line it stands on.  The two string delimiters must not occur earlier
/// (a string literal would swallow the character), and the character must
/// not be the `>` of a `=>` operator (which the scanner accepts as a pair).
pub proof fn lemma_tokenize_unexpected_character(s: Seq<char>, i: int)
    requires
        0 <= i < s.len(),
        !is_accepted_char(s[i]),
        forall|m: int| 0 <= m < i ==> is_accepted_char(s[m]) && s[m] != '"' && s[m] != '\'',
        (s[i] == '>' && i > 0) ==> s[i - 1] != '=',
    ensures
        sp_tokenize(s) matches Err(e) && e.error_type == LexerErrorType::UnexpectedCharacter(s[i])
            && e.line == 1 + newline_count(s, 0, i),
{
    lemma_scan_reaches_offender(s, 0, i, 1, 1);
}

pub proof fn lemma_digit_run_end(s: Seq<char>, i: int, j: int)
    requires
        0 <= i <= j <= s.len(),
        forall|m: int| i <= m < j ==> is_digit_char(s[m]),
        j < s.len() ==> !is_digit_char(s[j]),
    ensures
        digit_run_end(s, i) == j,
    decreases j - i,
{
    if i < j {
        lemma_digit_run_end(s, i + 1, j);
    }
}

pub proof fn lemma_letter_run_end(s: Seq<char>, i: int, j: int)
    requires
        0 <= i <= j <= s.len(),
        forall|m: int| i <= m < j ==> is_letter_char(s[m]),
        j < s.len() ==> !is_letter_char(s[j]),
    ensures
        letter_run_end(s, i) == j,
    decreases j - i,
{
    if i < j {
        lemma_letter_run_end(s, i + 1, j);
    }
}

pub proof fn lemma_quote_scan_end(s: Seq<char>, i: int, j: int, q: char)
    requires
        0 <= i <= j <= s.len(),
        forall|m: int| i <= m < j ==> s[m] != q,
        j < s.len() ==> s[j] == q,
    ensures
        quote_scan_end(s, i, q) == j,
    decreases j - i,
{
    if i < j {
        lemma_quote_scan_end(s, i + 1, j, q);
    }
}

/// One scanning step: when the suffix at `i` begins with a token `tok` and
/// continues at `j`, the tokens accumulated so far extend by `tok`.
proof fn lemma_scan_step(
    s: Seq<char>,
    done: Seq<TokenV>,
    tok: TokenV,
    i: int,
    line: nat,
    col: nat,
    j: int,
    line2: nat,
    col2: nat,
)
    requires
        sp_tokenize_from(s, i, line, col) == prepend_token(
            tok,
            sp_tokenize_from(s, j, line2, col2),
        ),
        match sp_tokenize_from(s, i, line, col) {
            Ok(ts) => sp_tokenize(s) == Ok::<Seq<TokenV>, LexErrV>(done + ts),
            Err(e) => sp_tokenize(s) == Err::<Seq<TokenV>, LexErrV>(e),
        },
    ensures
        match sp_tokenize_from(s, j, line2, col2) {
            Ok(ts) => sp_tokenize(s) == Ok::<Seq<TokenV>, LexErrV>(done.push(tok) + ts),
            Err(e) => sp_tokenize(s) == Err::<Seq<TokenV>, LexErrV>(e),
        },
{
    match sp_tokenize_from(s, j, line2, col2) {
        Ok(ts) => {
            assert(done + (seq![tok] + ts) =~= done.push(tok) + ts);
        },
        Err(e) => {},
    }
}

pub(crate) fn is_digit_c(c: char) -> (r: bool)
    ensures
        r == is_digit_char(c),
{
    '0' <= c && c <= '9'
}

fn is_letter_c(c: char) -> (r: bool)
    ensures
        r == is_letter_char(c),
{
    ('a' <= c && c <= 'z') || ('A' <= c && c <= 'Z')
}

fn is_simple_operator_c(c: char) -> (r: bool)
    ensures
        r == is_simple_operator_char(c),
{
    c == '+' || c == '-' || c == '*' || c == '/' || c == '{' || c == '}'
}

/// Scans the whole input into tokens, or fails on the first character that
/// no rule accepts.  The result is exactly what `sp_tokenize` describes on
/// the input's character sequence.
#[verifier::loop_isolation(false)]
pub fn tokenize(input: String) -> (result: Result<Vec<Token>, LexerError>)
    requires
        input@.len() < usize::MAX,
    ensures
        match result {
            Ok(toks) => sp_tokenize(input@) == Ok::<Seq<TokenV>, LexErrV>(toks_v(toks@)),
            Err(e) => sp_tokenize(input@) == Err::<Seq<TokenV>, LexErrV>(lex_err_v(e)),
        },
{
    let s = input.as_str();
    let n = s.unicode_len();
    let mut tokens: Vec<Token> = Vec::new();
    let mut line: usize = 1;
    let mut column: usize = 1;
    let mut i: usize = 0;
    while i < n
        invariant
            i <= n,
            line as int <= 1 + i as int,
            column as int <= 1 + i as int,
            match sp_tokenize_from(s@, i as int, line as nat, column as nat) {
                Ok(ts) => sp_tokenize(input@) == Ok::<Seq<TokenV>, LexErrV>(toks_v(tokens@) + ts),
                Err(e) => sp_tokenize(input@) == Err::<Seq<TokenV>, LexErrV>(e),
            },
        decreases n - i,
    {
        let ghost done = toks_v(tokens@);
        let c = s.get_char(i);
        if is_digit_c(c) {
            let mut j = i + 1;
            while j < n && is_digit_c(s.get_char(j))
                invariant
                    i < j <= n,
                    forall|m: int| i <= m < j ==> is_digit_char(s@[m]),
                decreases n - j,
            {
                j = j + 1;
            }
            let value = String::from_str(s.substring_char(i, j));
            tokens.push(Token::new(TokenKind::Number, value, column, line));
            proof {
                lemma_digit_run_end(s@, i + 1, j as int);
                let tok = TokenV {
                    kind: TokenKind::Number,
                    value: s@.subrange(i as int, j as int),
                    column: column as nat,
                    line: line as nat,
                };
                lemma_scan_step(
                    s@,
                    done,
                    tok,
                    i as int,
                    line as nat,
                    column as nat,
                    j as int,
                    line as nat,
                    column as nat,
                );
                assert(toks_v(tokens@) =~= done.push(tok));
            }
            i = j;
        } else if is_simple_operator_c(c) {
            let value = String::from_str(s.substring_char(i, i + 1));
            tokens.push(Token::new(TokenKind::Operator, value, column, line));
            proof {
                let tok = TokenV {
                    kind: TokenKind::Operator,
                    value: seq![c],
                    column: column as nat,
                    line: line as nat,
                };
                assert(s@.subrange(i as int, i + 1) =~= seq![c]);
                lemma_scan_step(
                    s@,
                    done,
                    tok,
                    i as int,
                    line as nat,
                    column as nat,
                    i + 1,
                    line as nat,
                    column as nat,
                );
                assert(toks_v(tokens@) =~= done.push(tok));
            }
            i = i + 1;
        } else if c == '=' {
            if i + 1 < n {
                let c2 = s.get_char(i + 1);
                if c2 == '=' {
                    let value = String::from_str("==");
                    tokens.push(Token::new(TokenKind::Operator, value, column, line));
                    proof {
                        let tok = TokenV {
                            kind: TokenKind::Operator,
                            value: "=="@,
                            column: column as nat,
                            line: line as nat,
                        };
                        lemma_scan_step(
                            s@,
                            done,
                            tok,
                            i as int,
                            line as nat,
                            column as nat,
                            i + 2,
                            line as nat,
                            (column + 2) as nat,
                        );
                        assert(toks_v(tokens@) =~= done.push(tok));
                    }
                    column = column + 2;
                    i = i + 2;
                } else if c2 == '>' {
                    let value = String::from_str("=>");
                    tokens.push(Token::new(TokenKind::Operator, value, column, line));
                    proof {
                        let tok = TokenV {
                            kind: TokenKind::Operator,
                            value: "=>"@,
                            column: column as nat,
                            line: line as nat,
                        };
                        lemma_scan_step(
                            s@,
                            done,
                            tok,
                            i as int,
                            line as nat,
                            column as nat,
                            i + 2,
                            line as nat,
                            (column + 2) as nat,
                        );
                        assert(toks_v(tokens@) =~= done.push(tok));
                    }
                    column = column + 2;
                    i = i + 2;
                } else {
                    column = column + 1;
                    let value = String::from_str("=");
                    tokens.push(Token::new(TokenKind::Operator, value, column, line));
                    proof {
                        let tok = TokenV {
                            kind: TokenKind::Operator,
                            value: "="@,
                            column: column as nat,
                            line: line as nat,
                        };
                        lemma_scan_step(
                            s@,
                            done,
                            tok,
                            i as int,
                            line as nat,
                            (column - 1) as nat,
                            i + 1,
                            line as nat,
                            column as nat,
                        );
                        assert(toks_v(tokens@) =~= done.push(tok));
                    }
                    i = i + 1;
                }
            } else {
                let value = String::from_str("=");
                tokens.push(Token::new(TokenKind::Operator, value, column, line));
                proof {
                    let tok = TokenV {
                        kind: TokenKind::Operator,
                        value: "="@,
                        column: column as nat,
                        line: line as nat,
                    };
                    lemma_scan_step(
                        s@,
                        done,
                        tok,
                        i as int,
                        line as nat,
                        column as nat,
                        i + 1,
                        line as nat,
                        column as nat,
                    );
                    assert(toks_v(tokens@) =~= done.push(tok));
                }
                i = i + 1;
            }
        } else if is_letter_c(c) {
            let mut j = i + 1;
            while j < n && is_letter_c(s.get_char(j))
                invariant
                    i < j <= n,
                    forall|m: int| i <= m < j ==> is_letter_char(s@[m]),
                decreases n - j,
            {
                j = j + 1;
            }
            let value = String::from_str(s.substring_char(i, j));
            tokens.push(Token::new(TokenKind::Symbol, value, column, line));
            proof {
                lemma_letter_run_end(s@, i + 1, j as int);
                let tok = TokenV {
                    kind: TokenKind::Symbol,
                    value: s@.subrange(i as int, j as int),
                    column: column as nat,
                    line: line as nat,
                };
                lemma_scan_step(
                    s@,
                    done,
                    tok,
                    i as int,
                    line as nat,
                    column as nat,
                    j as int,
                    line as nat,
                    column as nat,
                );
                assert(toks_v(tokens@) =~= done.push(tok));
            }
            i = j;
        } else if c == '"' || c == '\'' {
            let q = c;
            let mut j = i + 1;
            while j < n && s.get_char(j) != q
                invariant
                    i < j <= n,
                    forall|m: int| i + 1 <= m < j ==> s@[m] != q,
                decreases n - j,
            {
                j = j + 1;
            }
            let value = String::from_str(s.substring_char(i + 1, j));
            tokens.push(Token::new(TokenKind::StringLiteral, value, column, line));
            let next = if j < n {
                j + 1
            } else {
                j
            };
            proof {
                lemma_quote_scan_end(s@, i + 1, j as int, q);
                let tok = TokenV {
                    kind: TokenKind::StringLiteral,
                    value: s@.subrange(i + 1, j as int),
                    column: column as nat,
                    line: line as nat,
                };
                lemma_scan_step(
                    s@,
                    done,
                    tok,
                    i as int,
                    line as nat,
                    column as nat,
                    next as int,
                    line as nat,
                    column as nat,
                );
                assert(toks_v(tokens@) =~= done.push(tok));
            }
            i = next;
        } else if c == '\n' {
            let value = String::from_str("\n");
            tokens.push(Token::new(TokenKind::NewLine, value, column, line));
            proof {
                let tok = TokenV {
                    kind: TokenKind::NewLine,
                    value: "\n"@,
                    column: column as nat,
                    line: line as nat,
                };
                lemma_scan_step(
                    s@,
                    done,
                    tok,
                    i as int,
                    line as nat,
                    column as nat,
                    i + 1,
                    (line + 1) as nat,
                    1,
                );
                assert(toks_v(tokens@) =~= done.push(tok));
            }
            line = line + 1;
            column = 1;
            i = i + 1;
        } else if c == ' ' {
            column = column + 1;
            i = i + 1;
        } else {
            return Err(LexerError { error_type: LexerErrorType::UnexpectedCharacter(c), line, column });
        }
    }
    proof {
        assert(toks_v(tokens@) + Seq::<TokenV>::empty() =~= toks_v(tokens@));
    }
    Ok(tokens)
}

} // verus!
