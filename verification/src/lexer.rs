//! The expression lexer: turns the text of a `${{ ... }}` region into
//! tokens. Lexing is greedy: tokens are read as long as one matches, and
//! the remainder of the text is left for the caller. The only lexing
//! failure is a `\u` escape that names a surrogate code point: such an
//! escape has no character, and no recovery placeholder is produced,
//! since its accompanying diagnostic would fail the parse anyway.

use vstd::prelude::*;

verus! {

broadcast use vstd::seq::group_seq_axioms, vstd::std_specs::vec::group_vec_axioms;

/// A token of the expression language.
pub enum Token {
    Start,
    End,
    String(String),
    Ident(String),
    Dot,
    Eq,
    Ne,
    LBracket,
    RBracket,
    Integer(i64),
    Real(String),
    Variable(String),
    Comma,
}

/// The model of a token.
pub enum TokV {
    Start,
    End,
    Str(Seq<char>),
    Ident(Seq<char>),
    Dot,
    OpEq,
    OpNe,
    LBracket,
    RBracket,
    Integer(int),
    Real(Seq<char>),
    Variable(Seq<char>),
    Comma,
}

pub open spec fn token_view(t: Token) -> TokV {
    match t {
        Token::Start => TokV::Start,
        Token::End => TokV::End,
        Token::String(s) => TokV::Str(s@),
        Token::Ident(s) => TokV::Ident(s@),
        Token::Dot => TokV::Dot,
        Token::Eq => TokV::OpEq,
        Token::Ne => TokV::OpNe,
        Token::LBracket => TokV::LBracket,
        Token::RBracket => TokV::RBracket,
        Token::Integer(i) => TokV::Integer(i as int),
        Token::Real(s) => TokV::Real(s@),
        Token::Variable(s) => TokV::Variable(s@),
        Token::Comma => TokV::Comma,
    }
}

/// A token with the character range it was read from.
pub struct SpannedToken {
    pub tok: Token,
    pub start: usize,
    pub end: usize,
}

pub open spec fn spanned_view(t: SpannedToken) -> (TokV, int, int) {
    (token_view(t.tok), t.start as int, t.end as int)
}

pub open spec fn tokens_view(ts: Seq<SpannedToken>) -> Seq<(TokV, int, int)> {
    Seq::new(ts.len(), |i: int| spanned_view(ts[i]))
}

pub open spec fn is_ws(c: char) -> bool {
    c == ' ' || c == '\t' || c == '\n' || c == '\r' || c == '\u{0b}' || c == '\u{0c}'
}

pub open spec fn is_digit(c: char) -> bool {
    '0' <= c && c <= '9'
}

pub open spec fn is_ident_start(c: char) -> bool {
    ('a' <= c && c <= 'z') || ('A' <= c && c <= 'Z') || c == '_'
}

pub open spec fn is_ident_cont(c: char) -> bool {
    is_ident_start(c) || is_digit(c)
}

pub open spec fn is_hex(c: char) -> bool {
    is_digit(c) || ('a' <= c && c <= 'f') || ('A' <= c && c <= 'F')
}

pub open spec fn digit_val(c: char) -> int {
    c as int - '0' as int
}

pub open spec fn hex_val(c: char) -> int {
    if is_digit(c) {
        digit_val(c)
    } else if 'a' <= c && c <= 'f' {
        c as int - 'a' as int + 10
    } else {
        c as int - 'A' as int + 10
    }
}

/// The end of the run of decimal digits starting at `i`.
pub open spec fn digits_end(s: Seq<char>, i: int) -> int
    decreases s.len() - i,
{
    if 0 <= i < s.len() && is_digit(s[i]) {
        digits_end(s, i + 1)
    } else {
        i
    }
}

/// The end of the run of identifier characters starting at `i`.
pub open spec fn ident_end(s: Seq<char>, i: int) -> int
    decreases s.len() - i,
{
    if 0 <= i < s.len() && is_ident_cont(s[i]) {
        ident_end(s, i + 1)
    } else {
        i
    }
}

/// The end of the run of operator characters (`!`, `=`) starting at `i`.
pub open spec fn op_end(s: Seq<char>, i: int) -> int
    decreases s.len() - i,
{
    if 0 <= i < s.len() && (s[i] == '!' || s[i] == '=') {
        op_end(s, i + 1)
    } else {
        i
    }
}

/// The value of a digit run.
pub open spec fn digits_value(s: Seq<char>) -> int
    decreases s.len(),
{
    if s.len() == 0 {
        0
    } else {
        digits_value(s.drop_last()) * 10 + digit_val(s.last())
    }
}

pub proof fn lemma_digits_end_bounds(s: Seq<char>, i: int)
    requires
        0 <= i <= s.len(),
    ensures
        i <= digits_end(s, i) <= s.len(),
        forall|j: int| i <= j < digits_end(s, i) ==> is_digit(s[j]),
    decreases s.len() - i,
{
    if i < s.len() && is_digit(s[i]) {
        lemma_digits_end_bounds(s, i + 1);
    }
}

pub proof fn lemma_ident_end_bounds(s: Seq<char>, i: int)
    requires
        0 <= i <= s.len(),
    ensures
        i <= ident_end(s, i) <= s.len(),
    decreases s.len() - i,
{
    if i < s.len() && is_ident_cont(s[i]) {
        lemma_ident_end_bounds(s, i + 1);
    }
}

pub proof fn lemma_op_end_bounds(s: Seq<char>, i: int)
    requires
        0 <= i <= s.len(),
    ensures
        i <= op_end(s, i) <= s.len(),
    decreases s.len() - i,
{
    if i < s.len() && (s[i] == '!' || s[i] == '=') {
        lemma_op_end_bounds(s, i + 1);
    }
}

/// What scanning a string literal's body yields.
pub enum StrScanV {
    NoMatch,
    BadEscape,
    Match(Seq<char>, int),
}

/// Scans the body of a double-quoted string from `j`, accumulating the
/// decoded value; `Match` carries the value and the position after the
/// closing quote.
pub open spec fn scan_string_body(s: Seq<char>, j: int, acc: Seq<char>) -> StrScanV
    decreases s.len() - j,
{
    if j < 0 || j >= s.len() {
        StrScanV::NoMatch
    } else if s[j] == '"' {
        StrScanV::Match(acc, j + 1)
    } else if s[j] == '\\' {
        if j + 1 >= s.len() {
            StrScanV::NoMatch
        } else {
            let e = s[j + 1];
            if e == '\\' || e == '/' || e == '"' {
                scan_string_body(s, j + 2, acc.push(e))
            } else if e == 'b' {
                scan_string_body(s, j + 2, acc.push('\u{08}'))
            } else if e == 'f' {
                scan_string_body(s, j + 2, acc.push('\u{0c}'))
            } else if e == 'n' {
                scan_string_body(s, j + 2, acc.push('\n'))
            } else if e == 'r' {
                scan_string_body(s, j + 2, acc.push('\r'))
            } else if e == 't' {
                scan_string_body(s, j + 2, acc.push('\t'))
            } else if e == 'u' {
                if j + 6 <= s.len() && is_hex(s[j + 2]) && is_hex(s[j + 3]) && is_hex(s[j + 4])
                    && is_hex(s[j + 5]) {
                    let v = ((hex_val(s[j + 2]) * 16 + hex_val(s[j + 3])) * 16 + hex_val(s[j + 4]))
                        * 16 + hex_val(s[j + 5]);
                    if 0xD800 <= v < 0xE000 {
                        StrScanV::BadEscape
                    } else {
                        scan_string_body(s, j + 6, acc.push(crate::outside::char_of_code(v)))
                    }
                } else {
                    StrScanV::NoMatch
                }
            } else {
                StrScanV::NoMatch
            }
        }
    } else {
        scan_string_body(s, j + 1, acc.push(s[j]))
    }
}

/// What trying to read one token yields.
pub enum NextTokV {
    NoTok,
    BadEscape,
    Tok(TokV, int),
}

/// The end of a number's text starting at `i` (sign, integer part with no
/// leading zero, optional fraction, optional exponent), or `i` if none.
pub open spec fn number_end(s: Seq<char>, i: int) -> int {
    let j = if 0 <= i < s.len() && s[i] == '-' {
        i + 1
    } else {
        i
    };
    if j < s.len() && is_digit(s[j]) {
        let k = if s[j] == '0' {
            j + 1
        } else {
            digits_end(s, j)
        };
        let k2 = if k + 1 < s.len() && s[k] == '.' && is_digit(s[k + 1]) {
            digits_end(s, k + 1)
        } else {
            k
        };
        let m = if k2 < s.len() && (s[k2] == 'e' || s[k2] == 'E') {
            let m0 = if k2 + 1 < s.len() && (s[k2 + 1] == '+' || s[k2 + 1] == '-') {
                k2 + 2
            } else {
                k2 + 1
            };
            if m0 < s.len() && is_digit(s[m0]) {
                digits_end(s, m0)
            } else {
                k2
            }
        } else {
            k2
        };
        m
    } else {
        i
    }
}

/// Whether the number starting at `i` is a plain integer (no fraction, no
/// exponent).
pub open spec fn number_is_plain(s: Seq<char>, i: int) -> bool {
    let j = if 0 <= i < s.len() && s[i] == '-' {
        i + 1
    } else {
        i
    };
    let k = if j < s.len() && is_digit(s[j]) && s[j] == '0' {
        j + 1
    } else {
        digits_end(s, j)
    };
    number_end(s, i) == k
}

/// The numeric token read at `i`: an integer when the text is a plain
/// integer that fits a signed 64-bit value, otherwise the raw text.
pub open spec fn number_token(s: Seq<char>, i: int) -> TokV {
    let e = number_end(s, i);
    let text = s.subrange(i, e);
    let neg = s[i] == '-';
    let digits = if neg {
        s.subrange(i + 1, e)
    } else {
        text
    };
    let v = if neg {
        -digits_value(digits)
    } else {
        digits_value(digits)
    };
    if number_is_plain(s, i) && -0x8000_0000_0000_0000 <= v < 0x8000_0000_0000_0000 {
        TokV::Integer(v)
    } else {
        TokV::Real(text)
    }
}

/// Reads one token at position `i` (no leading whitespace): the longest of
/// `${{`, `}}`, a string, a number, a variable, an identifier, one of
/// `.,[]`, or `==`/`!=`, tried in that order.
pub open spec fn next_tok(s: Seq<char>, i: int) -> NextTokV {
    if i < 0 || i >= s.len() {
        NextTokV::NoTok
    } else if i + 3 <= s.len() && s[i] == '$' && s[i + 1] == '{' && s[i + 2] == '{' {
        NextTokV::Tok(TokV::Start, i + 3)
    } else if i + 2 <= s.len() && s[i] == '}' && s[i + 1] == '}' {
        NextTokV::Tok(TokV::End, i + 2)
    } else if s[i] == '"' {
        match scan_string_body(s, i + 1, Seq::empty()) {
            StrScanV::NoMatch => NextTokV::NoTok,
            StrScanV::BadEscape => NextTokV::BadEscape,
            StrScanV::Match(value, end) => NextTokV::Tok(TokV::Str(value), end),
        }
    } else if number_end(s, i) > i {
        NextTokV::Tok(number_token(s, i), number_end(s, i))
    } else if s[i] == '$' && i + 1 < s.len() && is_ident_start(s[i + 1]) {
        NextTokV::Tok(TokV::Variable(s.subrange(i + 1, ident_end(s, i + 1))), ident_end(s, i + 1))
    } else if is_ident_start(s[i]) {
        NextTokV::Tok(TokV::Ident(s.subrange(i, ident_end(s, i))), ident_end(s, i))
    } else if s[i] == '.' {
        NextTokV::Tok(TokV::Dot, i + 1)
    } else if s[i] == ',' {
        NextTokV::Tok(TokV::Comma, i + 1)
    } else if s[i] == '[' {
        NextTokV::Tok(TokV::LBracket, i + 1)
    } else if s[i] == ']' {
        NextTokV::Tok(TokV::RBracket, i + 1)
    } else if s[i] == '!' || s[i] == '=' {
        let e = op_end(s, i);
        let text = s.subrange(i, e);
        if text == seq!['=', '='] {
            NextTokV::Tok(TokV::OpEq, e)
        } else if text == seq!['!', '='] {
            NextTokV::Tok(TokV::OpNe, e)
        } else {
            NextTokV::NoTok
        }
    } else {
        NextTokV::NoTok
    }
}

/// Lexes from position `i`: whitespace is skipped, tokens are read while
/// one matches; `None` only for a bad `\u` escape.
pub open spec fn lex_at(s: Seq<char>, i: int) -> Option<Seq<(TokV, int, int)>>
    decreases s.len() - i, 1int,
{
    if i < 0 || i >= s.len() {
        Some(Seq::empty())
    } else if is_ws(s[i]) {
        lex_at(s, i + 1)
    } else {
        match next_tok(s, i) {
            NextTokV::NoTok => Some(Seq::empty()),
            NextTokV::BadEscape => None,
            NextTokV::Tok(t, end) => if i < end <= s.len() {
                match lex_at(s, end) {
                    None => None,
                    Some(rest) => Some(seq![(t, i, end)] + rest),
                }
            } else {
                Some(Seq::empty())
            },
        }
    }
}

fn is_ws_c(c: char) -> (r: bool)
    ensures
        r == is_ws(c),
{
    c == ' ' || c == '\t' || c == '\n' || c == '\r' || c == '\u{0b}' || c == '\u{0c}'
}

fn is_digit_c(c: char) -> (r: bool)
    ensures
        r == is_digit(c),
{
    '0' <= c && c <= '9'
}

fn is_ident_start_c(c: char) -> (r: bool)
    ensures
        r == is_ident_start(c),
{
    ('a' <= c && c <= 'z') || ('A' <= c && c <= 'Z') || c == '_'
}

fn is_ident_cont_c(c: char) -> (r: bool)
    ensures
        r == is_ident_cont(c),
{
    is_ident_start_c(c) || is_digit_c(c)
}

fn is_hex_c(c: char) -> (r: bool)
    ensures
        r == is_hex(c),
{
    is_digit_c(c) || ('a' <= c && c <= 'f') || ('A' <= c && c <= 'F')
}

fn hex_val_c(c: char) -> (r: u32)
    requires
        is_hex(c),
    ensures
        r == hex_val(c),
        r < 16,
{
    if '0' <= c && c <= '9' {
        (c as u32) - ('0' as u32)
    } else if 'a' <= c && c <= 'f' {
        (c as u32) - ('a' as u32) + 10
    } else {
        (c as u32) - ('A' as u32) + 10
    }
}

/// The characters between two positions, as a string.
#[verifier::loop_isolation(false)]
pub fn chars_to_string(s: &Vec<char>, a: usize, b: usize) -> (r: String)
    requires
        0 <= a <= b <= s@.len(),
    ensures
        r@ == s@.subrange(a as int, b as int),
{
    let mut out = String::new();
    let mut i: usize = a;
    proof {
        assert(out@ =~= s@.subrange(a as int, a as int));
    }
    while i < b
        invariant
            a <= i <= b,
            out@ == s@.subrange(a as int, i as int),
        decreases b - i,
    {
        crate::strutil::push_char(&mut out, s[i]);
        i += 1;
        proof {
            assert(out@ =~= s@.subrange(a as int, i as int));
        }
    }
    out
}

#[verifier::loop_isolation(false)]
fn digits_end_c(s: &Vec<char>, i: usize) -> (r: usize)
    requires
        0 <= i <= s@.len(),
    ensures
        r == digits_end(s@, i as int),
        i <= r <= s@.len(),
{
    let mut j: usize = i;
    while j < s.len() && is_digit_c(s[j])
        invariant
            i <= j <= s@.len(),
            digits_end(s@, i as int) == digits_end(s@, j as int),
        decreases s@.len() - j,
    {
        j += 1;
    }
    j
}

#[verifier::loop_isolation(false)]
fn ident_end_c(s: &Vec<char>, i: usize) -> (r: usize)
    requires
        0 <= i <= s@.len(),
    ensures
        r == ident_end(s@, i as int),
        i <= r <= s@.len(),
{
    let mut j: usize = i;
    while j < s.len() && is_ident_cont_c(s[j])
        invariant
            i <= j <= s@.len(),
            ident_end(s@, i as int) == ident_end(s@, j as int),
        decreases s@.len() - j,
    {
        j += 1;
    }
    j
}

#[verifier::loop_isolation(false)]
fn op_end_c(s: &Vec<char>, i: usize) -> (r: usize)
    requires
        0 <= i <= s@.len(),
    ensures
        r == op_end(s@, i as int),
        i <= r <= s@.len(),
{
    let mut j: usize = i;
    while j < s.len() && (s[j] == '!' || s[j] == '=')
        invariant
            i <= j <= s@.len(),
            op_end(s@, i as int) == op_end(s@, j as int),
        decreases s@.len() - j,
    {
        j += 1;
    }
    j
}

/// The value of the digit run `s[a..b]`, saturating above the 64-bit
/// range: when the flag comes back true the value exceeds `2^63`.
#[verifier::loop_isolation(false)]
fn digits_value_c(s: &Vec<char>, a: usize, b: usize) -> (r: (u64, bool))
    requires
        0 <= a <= b <= s@.len(),
        forall|j: int| a <= j < b ==> is_digit(s@[j]),
    ensures
        !r.1 ==> r.0 == digits_value(s@.subrange(a as int, b as int)),
        r.1 ==> digits_value(s@.subrange(a as int, b as int)) > 0x8000_0000_0000_0000,
{
    let mut acc: u64 = 0;
    let mut over = false;
    let mut i: usize = a;
    proof {
        assert(s@.subrange(a as int, a as int) =~= Seq::<char>::empty());
    }
    while i < b
        invariant
            a <= i <= b,
            !over ==> acc == digits_value(s@.subrange(a as int, i as int)),
            over ==> digits_value(s@.subrange(a as int, i as int)) > 0x8000_0000_0000_0000,
        decreases b - i,
    {
        let ghost pre = s@.subrange(a as int, i as int);
        let d = (s[i] as u32 - '0' as u32) as u64;
        proof {
            assert(d == digit_val(s@[i as int]));
            assert(d <= 9);
            assert(s@.subrange(a as int, i + 1).drop_last() =~= pre);
        }
        if !over {
            if acc <= 1_844_674_407_370_955_160u64 {
                acc = acc * 10 + d;
            } else {
                over = true;
                proof {
                    assert(digits_value(s@.subrange(a as int, i + 1)) == acc * 10 + d as int);
                }
            }
        } else {
            proof {
                assert(digits_value(s@.subrange(a as int, i + 1)) == digits_value(pre) * 10
                    + d as int);
            }
        }
        i += 1;
    }
    (acc, over)
}

/// The result of scanning a string literal.
enum StrScan {
    NoMatch,
    BadEscape,
    Match(String, usize),
}

spec fn str_scan_view(r: StrScan) -> StrScanV {
    match r {
        StrScan::NoMatch => StrScanV::NoMatch,
        StrScan::BadEscape => StrScanV::BadEscape,
        StrScan::Match(v, end) => StrScanV::Match(v@, end as int),
    }
}

/// Scans a double-quoted string's body from `j0`.
fn scan_string_c(s: &Vec<char>, j0: usize) -> (r: StrScan)
    requires
        0 <= j0 <= s@.len(),
    ensures
        str_scan_view(r) == scan_string_body(s@, j0 as int, Seq::empty()),
        r matches StrScan::Match(v, end) ==> j0 < end <= s@.len(),
{
    let mut acc = String::new();
    let mut j: usize = j0;
    let mut result = StrScan::NoMatch;
    proof {
        assert(acc@ =~= Seq::<char>::empty());
    }
    loop
        invariant_except_break
            j0 <= j <= s@.len(),
            scan_string_body(s@, j0 as int, Seq::empty()) == scan_string_body(s@, j as int, acc@),
        ensures
            str_scan_view(result) == scan_string_body(s@, j0 as int, Seq::empty()),
            result matches StrScan::Match(v, end) ==> j0 < end <= s@.len(),
        decreases s@.len() - j,
    {
        if j >= s.len() {
            result = StrScan::NoMatch;
            break;
        }
        let c = s[j];
        if c == '"' {
            result = StrScan::Match(acc, j + 1);
            break;
        } else if c == '\\' {
            if s.len() - j < 2 {
                result = StrScan::NoMatch;
                break;
            }
            let e = s[j + 1];
            if e == '\\' || e == '/' || e == '"' {
                crate::strutil::push_char(&mut acc, e);
                j += 2;
            } else if e == 'b' {
                crate::strutil::push_char(&mut acc, '\u{08}');
                j += 2;
            } else if e == 'f' {
                crate::strutil::push_char(&mut acc, '\u{0c}');
                j += 2;
            } else if e == 'n' {
                crate::strutil::push_char(&mut acc, '\n');
                j += 2;
            } else if e == 'r' {
                crate::strutil::push_char(&mut acc, '\r');
                j += 2;
            } else if e == 't' {
                crate::strutil::push_char(&mut acc, '\t');
                j += 2;
            } else if e == 'u' {
                if s.len() - j >= 6 && is_hex_c(s[j + 2]) && is_hex_c(s[j + 3]) && is_hex_c(
                    s[j + 4],
                ) && is_hex_c(s[j + 5]) {
                    let v: u32 = ((hex_val_c(s[j + 2]) * 16 + hex_val_c(s[j + 3])) * 16 + hex_val_c(
                        s[j + 4],
                    )) * 16 + hex_val_c(s[j + 5]);
                    match crate::outside::char_from_code(v) {
                        None => {
                            result = StrScan::BadEscape;
                            break;
                        },
                        Some(decoded) => {
                            crate::strutil::push_char(&mut acc, decoded);
                            j += 6;
                        },
                    }
                } else {
                    result = StrScan::NoMatch;
                    break;
                }
            } else {
                result = StrScan::NoMatch;
                break;
            }
        } else {
            crate::strutil::push_char(&mut acc, c);
            j += 1;
        }
    }
    result
}

/// The result of trying to read one token.
enum NextTok {
    NoTok,
    BadEscape,
    Tok(Token, usize),
}

spec fn next_tok_view(r: NextTok) -> NextTokV {
    match r {
        NextTok::NoTok => NextTokV::NoTok,
        NextTok::BadEscape => NextTokV::BadEscape,
        NextTok::Tok(t, end) => NextTokV::Tok(token_view(t), end as int),
    }
}

/// Reads one token at position `i` (no leading whitespace).
#[verifier::rlimit(30)]
fn next_token_c(s: &Vec<char>, i: usize) -> (r: NextTok)
    requires
        0 <= i < s@.len(),
    ensures
        next_tok_view(r) == next_tok(s@, i as int),
        r matches NextTok::Tok(t, end) ==> i < end <= s@.len(),
{
    if s.len() - i >= 3 && s[i] == '$' && s[i + 1] == '{' && s[i + 2] == '{' {
        return NextTok::Tok(Token::Start, i + 3);
    }
    if s.len() - i >= 2 && s[i] == '}' && s[i + 1] == '}' {
        return NextTok::Tok(Token::End, i + 2);
    }
    if s[i] == '"' {
        return match scan_string_c(s, i + 1) {
            StrScan::NoMatch => NextTok::NoTok,
            StrScan::BadEscape => NextTok::BadEscape,
            StrScan::Match(value, end) => NextTok::Tok(Token::String(value), end),
        };
    }
    match number_token_c(s, i) {
        Some(r) => {
            return r;
        },
        None => {},
    }
    if s[i] == '$' && s.len() - i >= 2 && is_ident_start_c(s[i + 1]) {
        let e = ident_end_c(s, i + 1);
        proof {
            lemma_ident_end_bounds(s@, i + 1);
        }
        let name = chars_to_string(s, i + 1, e);
        return NextTok::Tok(Token::Variable(name), e);
    }
    if is_ident_start_c(s[i]) {
        let e = ident_end_c(s, i);
        proof {
            lemma_ident_end_bounds(s@, i + 1);
            assert(ident_end(s@, i as int) == ident_end(s@, i + 1));
        }
        let name = chars_to_string(s, i, e);
        return NextTok::Tok(Token::Ident(name), e);
    }
    if s[i] == '.' {
        return NextTok::Tok(Token::Dot, i + 1);
    }
    if s[i] == ',' {
        return NextTok::Tok(Token::Comma, i + 1);
    }
    if s[i] == '[' {
        return NextTok::Tok(Token::LBracket, i + 1);
    }
    if s[i] == ']' {
        return NextTok::Tok(Token::RBracket, i + 1);
    }
    if s[i] == '!' || s[i] == '=' {
        let e = op_end_c(s, i);
        proof {
            lemma_op_end_bounds(s@, i as int);
        }
        if e - i == 2 && s[i] == '=' && s[i + 1] == '=' {
            proof {
                assert(s@.subrange(i as int, e as int) =~= seq!['=', '=']);
            }
            return NextTok::Tok(Token::Eq, e);
        }
        if e - i == 2 && s[i] == '!' && s[i + 1] == '=' {
            proof {
                assert(s@.subrange(i as int, e as int) =~= seq!['!', '=']);
            }
            return NextTok::Tok(Token::Ne, e);
        }
        proof {
            let text = s@.subrange(i as int, e as int);
            assert(text.len() == e - i);
            assert(text != seq!['=', '='] && text != seq!['!', '=']) by {
                if text =~= seq!['=', '='] || text =~= seq!['!', '='] {
                    assert(e == i + 2);
                    assert(text[0] == s@[i as int] && text[1] == s@[i + 1]);
                }
            }
        }
        return NextTok::NoTok;
    }
    NextTok::NoTok
}

/// Reads a numeric token at `i`, if one starts there.
#[verifier::rlimit(30)]
fn number_token_c(s: &Vec<char>, i: usize) -> (r: Option<NextTok>)
    requires
        0 <= i < s@.len(),
        !(i + 3 <= s@.len() && s@[i as int] == '$' && s@[i + 1] == '{' && s@[i + 2] == '{'),
        !(i + 2 <= s@.len() && s@[i as int] == '}' && s@[i + 1] == '}'),
        s@[i as int] != '"',
    ensures
        match r {
            Some(t) => number_end(s@, i as int) > i && next_tok_view(t) == next_tok(s@, i as int)
                && (t matches NextTok::Tok(tok, end) ==> i < end <= s@.len()),
            None => number_end(s@, i as int) == i,
        },
{
    let n = s.len();
    let neg = s[i] == '-';
    let j = if neg {
        i + 1
    } else {
        i
    };
    if j >= n || !is_digit_c(s[j]) {
        return None;
    }
    let k = if s[j] == '0' {
        j + 1
    } else {
        digits_end_c(s, j)
    };
    proof {
        lemma_digits_end_bounds(s@, j as int);
    }
    let k2 = if s.len() - k >= 2 && s[k] == '.' && is_digit_c(s[k + 1]) {
        digits_end_c(s, k + 1)
    } else {
        k
    };
    proof {
        if k + 1 < s@.len() && s@[k as int] == '.' && is_digit(s@[k + 1]) {
            lemma_digits_end_bounds(s@, k + 1);
        }
    }
    let e = if k2 < s.len() && (s[k2] == 'e' || s[k2] == 'E') {
        let m0 = if s.len() - k2 >= 2 && (s[k2 + 1] == '+' || s[k2 + 1] == '-') {
            k2 + 2
        } else {
            k2 + 1
        };
        if m0 < s.len() && is_digit_c(s[m0]) {
            let de = digits_end_c(s, m0);
            proof {
                lemma_digits_end_bounds(s@, m0 as int);
            }
            de
        } else {
            k2
        }
    } else {
        k2
    };
    proof {
        if s@[j as int] != '0' {
            assert(digits_end(s@, j as int) == digits_end(s@, j + 1));
            lemma_digits_end_bounds(s@, j + 1);
        }
        assert(k > j);
        assert(number_end(s@, i as int) == e);
        assert(e > i);
        assert(e <= s@.len());
    }
    let plain = e == k;
    let (dstart, dend) = (j, k);
    proof {
        lemma_digits_end_bounds(s@, j as int);
        assert(forall|m: int| j <= m < k ==> is_digit(s@[m]));
    }
    let (val, over) = digits_value_c(s, dstart, dend);
    let fits = !over && (if neg {
        val <= 0x8000_0000_0000_0000u64
    } else {
        val <= 0x7FFF_FFFF_FFFF_FFFFu64
    });
    if plain && fits {
        let v: i64 = if neg {
            if val == 0x8000_0000_0000_0000u64 {
                i64::MIN
            } else {
                -(val as i64)
            }
        } else {
            val as i64
        };
        proof {
            let digits = s@.subrange(i + if s@[i as int] == '-' {
                1int
            } else {
                0int
            }, e as int);
            assert(digits =~= s@.subrange(dstart as int, dend as int));
            assert(number_token(s@, i as int) == TokV::Integer(v as int));
        }
        Some(NextTok::Tok(Token::Integer(v), e))
    } else {
        let text = chars_to_string(s, i, e);
        proof {
            let digits = s@.subrange(i + if s@[i as int] == '-' {
                1int
            } else {
                0int
            }, e as int);
            if plain {
                assert(digits =~= s@.subrange(dstart as int, dend as int));
            }
            assert(number_token(s@, i as int) == TokV::Real(s@.subrange(i as int, e as int)));
        }
        Some(NextTok::Tok(Token::Real(text), e))
    }
}

/// Lexes a whole expression region: tokens while one matches; `None` only
/// for a bad `\u` escape.
pub fn lex_expr(s: &Vec<char>) -> (r: Option<Vec<SpannedToken>>)
    ensures
        match r {
            Some(ts) => Some(tokens_view(ts@)) == lex_at(s@, 0) && (forall|k: int|
                0 <= k < ts@.len() ==> 0 <= #[trigger] ts@[k].start < ts@[k].end <= s@.len()),
            None => lex_at(s@, 0) is None,
        },
{
    let mut out: Vec<SpannedToken> = Vec::new();
    let mut i: usize = 0;
    let mut failed = false;
    loop
        invariant_except_break
            0 <= i <= s@.len(),
            !failed,
            forall|k: int| 0 <= k < out@.len() ==> 0 <= #[trigger] out@[k].start < out@[k].end
                <= s@.len(),
            lex_at(s@, 0) == match lex_at(s@, i as int) {
                Some(rest) => Some(tokens_view(out@) + rest),
                None => None::<Seq<(TokV, int, int)>>,
            },
        ensures
            !failed ==> Some(tokens_view(out@)) == lex_at(s@, 0) && (forall|k: int|
                0 <= k < out@.len() ==> 0 <= #[trigger] out@[k].start < out@[k].end <= s@.len()),
            failed ==> lex_at(s@, 0) is None,
        decreases s@.len() - i,
    {
        proof {
            assert(tokens_view(out@) + Seq::<(TokV, int, int)>::empty() =~= tokens_view(out@));
        }
        if i >= s.len() {
            break;
        }
        if is_ws_c(s[i]) {
            i += 1;
        } else {
            match next_token_c(s, i) {
                NextTok::NoTok => {
                    break;
                },
                NextTok::BadEscape => {
                    failed = true;
                    break;
                },
                NextTok::Tok(t, end) => {
                    let ghost pre = out@;
                    out.push(SpannedToken { tok: t, start: i, end });
                    proof {
                        assert(tokens_view(out@) =~= tokens_view(pre).push(
                            spanned_view(out@.last()),
                        ));
                        if lex_at(s@, end as int) is Some {
                            assert(tokens_view(pre) + (seq![
                                (token_view(out@.last().tok), i as int, end as int),
                            ] + lex_at(s@, end as int).unwrap()) =~= tokens_view(out@) + lex_at(
                                s@,
                                end as int,
                            ).unwrap());
                        }
                    }
                    i = end;
                },
            }
        }
    }
    if failed {
        None
    } else {
        Some(out)
    }
}

} // verus!
