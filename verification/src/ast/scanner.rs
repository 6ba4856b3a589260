//! The lexer. A forward-only cursor walks the source text one Unicode
//! scalar at a time; positions (`start`, `current`) are byte offsets into
//! the UTF-8 text, always on character boundaries, exactly as a maximal-
//! munch hand-written scanner keeps them.
//!
//! The contracts speak about `encode_utf8(source@)`, the byte form of the
//! source, and about the characters decoded from it, using the UTF-8
//! library of vstd; the scan itself is proved against a functional mirror
//! of the token rules.

use vstd::prelude::*;

use crate::ast::expr::LiteralExpr;
use vstd::string::StringSliceAdditionalSpecFns;
use crate::ast::number::{pow10, Number};
use crate::ast::token::{Token, TokenType};

verus! {

broadcast use {vstd::utf8::group_utf8_lib, vstd::string::group_string_axioms};

/// The error sink the scanner reports into: a sticky flag and the
/// recorded `(line, message)` pairs. The caller prints them; the scanner
/// only records.
pub struct ScanError {
    pub detected: bool,
    pub entries: Vec<(usize, String)>,
}

impl ScanError {
    pub fn new() -> (r: ScanError)
        ensures
            r.detected == false,
            r.entries@ =~= Seq::<(usize, String)>::empty(),
    {
        ScanError { detected: false, entries: Vec::new() }
    }

    /// Record one error against a line.
    pub fn error(&mut self, line: usize, message: &str)
        ensures
            final(self).detected == true,
            final(self).entries@.len() == old(self).entries@.len() + 1,
            final(self).entries@.last().0 == line,
            final(self).entries@.last().1@ == message@,
            final(self).entries@.subrange(0, old(self).entries@.len() as int) == old(
                self,
            ).entries@,
    {
        self.report(line, "", message);
        proof {
            reveal_strlit("");
            assert(""@ + message@ =~= message@);
        }
    }

    /// Record one error with a location note.
    fn report(&mut self, line: usize, where_part: &str, message: &str)
        ensures
            final(self).detected == true,
            final(self).entries@.len() == old(self).entries@.len() + 1,
            final(self).entries@.last().0 == line,
            final(self).entries@.last().1@ == where_part@ + message@,
            final(self).entries@.subrange(0, old(self).entries@.len() as int) == old(
                self,
            ).entries@,
    {
        let mut text = String::from_str(where_part);
        text.append(message);
        self.entries.push((line, text));
        self.detected = true;
        proof {
            assert(final(self).entries@.subrange(0, old(self).entries@.len() as int) =~= old(
                self,
            ).entries@);
        }
    }

    /// Has any error been recorded?
    pub fn detected(&self) -> (r: bool)
        ensures
            r == self.detected,
    {
        self.detected
    }
}

/// The byte at `p`, reading past the end as zero.
pub open spec fn byte_at(b: Seq<u8>, p: int) -> u8 {
    if 0 <= p < b.len() {
        b[p]
    } else {
        0
    }
}

/// The character starting at byte position `p`, reading past the end as
/// the NUL character; meaningful when `p` is on a character boundary.
pub open spec fn char_at(b: Seq<u8>, p: int) -> char
    recommends
        vstd::utf8::valid_utf8(b),
{
    if 0 <= p < b.len() {
        vstd::utf8::decode_first_scalar(b.subrange(p, b.len() as int)) as char
    } else {
        '\0'
    }
}

/// The byte width of the character starting at `p`.
pub open spec fn char_width(b: Seq<u8>, p: int) -> int
    recommends
        vstd::utf8::valid_utf8(b),
{
    if 0 <= p < b.len() {
        vstd::utf8::length_of_first_scalar(b.subrange(p, b.len() as int))
    } else {
        1
    }
}

/// A cursor position fit for reading: past the end, or on a character
/// boundary.
pub open spec fn pos_ok(b: Seq<u8>, p: int) -> bool {
    p >= b.len() || vstd::utf8::is_char_boundary(b, p)
}

/// Facts about the character starting at a boundary position inside a
/// valid UTF-8 byte sequence: the decoded suffix starts with it, the next
/// boundary sits one character width further, and that width is the
/// encoded width of the character.
proof fn lemma_first_char(b: Seq<u8>, p: int)
    requires
        vstd::utf8::valid_utf8(b),
        0 <= p < b.len(),
        vstd::utf8::is_char_boundary(b, p),
    ensures
        ({
            let rest = b.subrange(p, b.len() as int);
            &&& vstd::utf8::valid_utf8(rest)
            &&& vstd::utf8::valid_first_scalar(rest)
            &&& vstd::utf8::decode_utf8(rest).len() >= 1
            &&& vstd::utf8::decode_utf8(rest)[0] == char_at(b, p)
            &&& 1 <= char_width(b, p) <= 4
            &&& p + char_width(b, p) <= b.len()
            &&& vstd::utf8::is_char_boundary(b, p + char_width(b, p))
            &&& char_width(b, p) == vstd::utf8::encode_scalar(char_at(b, p) as u32).len()
        }),
{
    let rest = b.subrange(p, b.len() as int);
    vstd::utf8::valid_utf8_split(b, p);
    assert(vstd::utf8::valid_utf8(rest));
    assert(rest.len() > 0);
    assert(vstd::utf8::valid_first_scalar(rest));
    let w = vstd::utf8::length_of_first_scalar(rest);
    assert(1 <= w <= 4);
    assert(w <= rest.len());
    vstd::utf8::decode_utf8_first_scalar(rest);
    assert(vstd::utf8::encode_scalar((vstd::utf8::decode_first_scalar(rest) as char) as u32)
        == vstd::utf8::take_first_scalar(rest));
    assert(vstd::utf8::take_first_scalar(rest).len() == w);
    if p + w == b.len() {
        assert(vstd::utf8::is_char_boundary(b, p + w));
    } else {
        let tail = vstd::utf8::pop_first_scalar(rest);
        assert(vstd::utf8::valid_utf8(tail));
        assert(tail.len() > 0);
        assert(tail[0] == b[p + w]);
        assert(vstd::utf8::valid_first_scalar(tail));
        assert(!vstd::utf8::is_continuation_byte(b[p + w]));
        vstd::utf8::is_char_boundary_iff_not_is_continuation_byte(b, p + w);
    }
}


/// An ASCII decimal digit.
pub open spec fn is_digit_char(c: char) -> bool {
    48 <= c as u32 <= 57
}

/// An ASCII letter or the underscore: what may open an identifier.
pub open spec fn is_alpha_char(c: char) -> bool {
    ||| 97 <= c as u32 <= 122
    ||| 65 <= c as u32 <= 90
    ||| c as u32 == 95
}

/// What the Unicode alphanumeric test returns for each character: a pure
/// function of the character, named rather than spelled out.
pub uninterp spec fn unicode_alphanumeric(c: char) -> bool;

/// What may continue an identifier: a Unicode alphanumeric character or
/// the underscore.
pub open spec fn is_ident_char(c: char) -> bool {
    unicode_alphanumeric(c) || c as u32 == 95
}

/// Relies on char::is_alphanumeric: true exactly for the Unicode
/// alphabetic and numeric general categories, a function of the character
/// alone. In the ASCII range that is the letters and the decimal digits
/// and nothing else.
#[verifier::external_body]
fn char_is_alphanumeric(c: char) -> (r: bool)
    ensures
        r == unicode_alphanumeric(c),
        (97 <= c as u32 <= 122) || (65 <= c as u32 <= 90) || (48 <= c as u32 <= 57) ==> r,
        ((c as u32) < 128 && !((97 <= c as u32 <= 122) || (65 <= c as u32 <= 90) || (48 <= c
            as u32 <= 57))) ==> !r,
{
    c.is_alphanumeric()
}

/// The token kind a reserved word denotes.
pub open spec fn spec_keyword(s: Seq<char>) -> Option<TokenType> {
    if s == "and"@ {
        Some(TokenType::And)
    } else if s == "class"@ {
        Some(TokenType::Class)
    } else if s == "else"@ {
        Some(TokenType::Else)
    } else if s == "false"@ {
        Some(TokenType::False)
    } else if s == "for"@ {
        Some(TokenType::For)
    } else if s == "fun"@ {
        Some(TokenType::Fun)
    } else if s == "if"@ {
        Some(TokenType::If)
    } else if s == "nil"@ {
        Some(TokenType::Nil)
    } else if s == "or"@ {
        Some(TokenType::Or)
    } else if s == "print"@ {
        Some(TokenType::Print)
    } else if s == "return"@ {
        Some(TokenType::Return)
    } else if s == "super"@ {
        Some(TokenType::Super)
    } else if s == "this"@ {
        Some(TokenType::This)
    } else if s == "true"@ {
        Some(TokenType::True)
    } else if s == "var"@ {
        Some(TokenType::Var)
    } else if s == "while"@ {
        Some(TokenType::While)
    } else {
        None
    }
}

/// Are two pieces of text the same sequence of characters?
pub fn str_eq(a: &str, b: &str) -> (r: bool)
    ensures
        r == (a@ == b@),
{
    let ab = a.as_bytes();
    let bb = b.as_bytes();
    let n = ab.len();
    if n != bb.len() {
        proof {
            assert(a@ != b@);
        }
        return false;
    }
    let mut i: usize = 0;
    while i < n
        invariant
            n == ab@.len() == bb@.len(),
            0 <= i <= n,
            ab@ == a.spec_bytes(),
            bb@ == b.spec_bytes(),
            forall|j: int| 0 <= j < i ==> ab@[j] == bb@[j],
        decreases n - i,
    {
        if ab[i] != bb[i] {
            proof {
                assert(a.spec_bytes() != b.spec_bytes());
            }
            return false;
        }
        i = i + 1;
    }
    proof {
        assert(a.spec_bytes() =~= b.spec_bytes());
        assert(vstd::utf8::decode_utf8(vstd::utf8::encode_utf8(a@)) == a@);
        assert(vstd::utf8::decode_utf8(vstd::utf8::encode_utf8(b@)) == b@);
    }
    true
}

/// The fixed table of the sixteen reserved words.
pub fn keyword_token_type(text: &str) -> (r: Option<TokenType>)
    ensures
        r == spec_keyword(text@),
{
    if str_eq(text, "and") {
        Some(TokenType::And)
    } else if str_eq(text, "class") {
        Some(TokenType::Class)
    } else if str_eq(text, "else") {
        Some(TokenType::Else)
    } else if str_eq(text, "false") {
        Some(TokenType::False)
    } else if str_eq(text, "for") {
        Some(TokenType::For)
    } else if str_eq(text, "fun") {
        Some(TokenType::Fun)
    } else if str_eq(text, "if") {
        Some(TokenType::If)
    } else if str_eq(text, "nil") {
        Some(TokenType::Nil)
    } else if str_eq(text, "or") {
        Some(TokenType::Or)
    } else if str_eq(text, "print") {
        Some(TokenType::Print)
    } else if str_eq(text, "return") {
        Some(TokenType::Return)
    } else if str_eq(text, "super") {
        Some(TokenType::Super)
    } else if str_eq(text, "this") {
        Some(TokenType::This)
    } else if str_eq(text, "true") {
        Some(TokenType::True)
    } else if str_eq(text, "var") {
        Some(TokenType::Var)
    } else if str_eq(text, "while") {
        Some(TokenType::While)
    } else {
        None
    }
}

/// A boundary of the whole text is a boundary of its suffix.
proof fn lemma_boundary_in_suffix(b: Seq<u8>, from: int, to: int)
    requires
        vstd::utf8::valid_utf8(b),
        0 <= from <= to <= b.len(),
        vstd::utf8::is_char_boundary(b, from),
        vstd::utf8::is_char_boundary(b, to),
    ensures
        vstd::utf8::is_char_boundary(b.subrange(from, b.len() as int), to - from),
{
    let tail = b.subrange(from, b.len() as int);
    vstd::utf8::valid_utf8_split(b, from);
    if to == b.len() {
        assert(vstd::utf8::is_char_boundary(tail, tail.len() as int));
    } else if to == from {
        assert(vstd::utf8::is_char_boundary(tail, 0));
    } else {
        vstd::utf8::is_char_boundary_iff_not_is_continuation_byte(b, to);
        assert(!vstd::utf8::is_continuation_byte(b[to]));
        assert(tail[to - from] == b[to]);
        vstd::utf8::is_char_boundary_iff_not_is_continuation_byte(tail, to - from);
    }
}


/// The mathematical shape of a token the scanner emits.
pub struct TokenModel {
    pub ty: TokenType,
    pub lexeme: Seq<char>,
    pub lit: TokLit,
    pub line: int,
}

/// The mathematical shape of a token's literal payload.
pub enum TokLit {
    LNone,
    LStr { s: Seq<char> },
    LNum { n: int, d: int },
}

/// An emitted token agrees with its mathematical shape.
pub open spec fn token_model_matches(tok: Token, m: TokenModel) -> bool {
    &&& tok.token_type == m.ty
    &&& tok.lexeme@ == m.lexeme
    &&& tok.line == m.line
    &&& (match m.lit {
        TokLit::LNone => tok.literal is None,
        TokLit::LStr { s } => tok.literal matches Some(LiteralExpr::Str(x)) && x@ == s,
        TokLit::LNum { n, d } => tok.literal matches Some(LiteralExpr::Num(x)) && x.wf()
            && x.v_num() == n && x.v_den() == d,
    })
}

/// The position one character further, capped at the end of the text.
pub open spec fn next_pos(b: Seq<u8>, p: int) -> int {
    let q = p + char_width(b, p);
    if q > b.len() {
        b.len() as int
    } else {
        q
    }
}

/// The end of the run of ASCII digits starting at `p`.
pub open spec fn m_digits_end(b: Seq<u8>, p: int) -> int
    decreases b.len() - p,
    when 0 <= p <= b.len()
{
    if p >= b.len() || !is_digit_char(char_at(b, p)) {
        p
    } else {
        m_digits_end(b, next_pos(b, p))
    }
}

/// The end of the run of identifier characters starting at `p`.
pub open spec fn m_ident_end(b: Seq<u8>, p: int) -> int
    decreases b.len() - p,
    when 0 <= p <= b.len()
{
    if p >= b.len() || !is_ident_char(char_at(b, p)) {
        p
    } else {
        m_ident_end(b, next_pos(b, p))
    }
}

/// The end of a line comment: the next newline, or the end of the text.
pub open spec fn m_comment_end(b: Seq<u8>, p: int) -> int
    decreases b.len() - p,
    when 0 <= p <= b.len()
{
    if p >= b.len() || char_at(b, p) == '\n' {
        p
    } else {
        m_comment_end(b, next_pos(b, p))
    }
}

/// Walk a string body: the position of the closing quote (or the end of
/// the text) and the line count after the embedded newlines.
pub open spec fn m_str_scan(b: Seq<u8>, p: int, line: int) -> (int, int)
    decreases b.len() - p,
    when 0 <= p <= b.len()
{
    if p >= b.len() || char_at(b, p) == '"' {
        (p, line)
    } else {
        m_str_scan(
            b,
            next_pos(b, p),
            line + if char_at(b, p) == '\n' {
                1int
            } else {
                0int
            },
        )
    }
}

/// The numeric value of the ASCII digit bytes in `[i, j)`.
pub open spec fn digits_val(b: Seq<u8>, i: int, j: int) -> int
    decreases j - i,
{
    if j <= i {
        0
    } else {
        digits_val(b, i, j - 1) * 10 + (byte_at(b, j - 1) - 48)
    }
}

/// What one scanning step does: possibly a token, possibly a recorded
/// error, and the cursor and line afterwards.
pub struct StepR {
    pub tok: Option<TokenModel>,
    pub err: Option<(int, Seq<char>)>,
    pub pos: int,
    pub line: int,
}

/// Facts about a run of digits: it ends on a boundary, every byte in it
/// is a digit byte, and it is no shorter than where it started.
proof fn lemma_digits_range(b: Seq<u8>, p: int)
    requires
        vstd::utf8::valid_utf8(b),
        0 <= p <= b.len(),
        pos_ok(b, p),
    ensures
        ({
            let e = m_digits_end(b, p);
            &&& p <= e <= b.len()
            &&& pos_ok(b, e)
            &&& (e < b.len() ==> vstd::utf8::is_char_boundary(b, e))
            &&& vstd::utf8::is_char_boundary(b, e)
            &&& forall|j: int| p <= j < e ==> 48 <= #[trigger] b[j] <= 57
        }),
    decreases b.len() - p,
{
    vstd::utf8::is_char_boundary_start_end_of_seq(b);
    if p >= b.len() || !is_digit_char(char_at(b, p)) {
        if p == b.len() {
            assert(vstd::utf8::is_char_boundary(b, p));
        }
    } else {
        lemma_first_char(b, p);
        lemma_ascii_char(b, p);
        assert(char_width(b, p) == 1);
        assert(b[p] == char_at(b, p) as u32);
        lemma_digits_range(b, p + 1);
    }
}

/// Facts about a run of identifier characters.
proof fn lemma_ident_range(b: Seq<u8>, p: int)
    requires
        vstd::utf8::valid_utf8(b),
        0 <= p <= b.len(),
        pos_ok(b, p),
    ensures
        ({
            let e = m_ident_end(b, p);
            &&& p <= e <= b.len()
            &&& vstd::utf8::is_char_boundary(b, e)
        }),
    decreases b.len() - p,
{
    vstd::utf8::is_char_boundary_start_end_of_seq(b);
    if p >= b.len() || !is_ident_char(char_at(b, p)) {
    } else {
        lemma_first_char(b, p);
        lemma_ident_range(b, next_pos(b, p));
    }
}

/// Facts about a comment body.
proof fn lemma_comment_range(b: Seq<u8>, p: int)
    requires
        vstd::utf8::valid_utf8(b),
        0 <= p <= b.len(),
        pos_ok(b, p),
    ensures
        ({
            let e = m_comment_end(b, p);
            &&& p <= e <= b.len()
            &&& vstd::utf8::is_char_boundary(b, e)
        }),
    decreases b.len() - p,
{
    vstd::utf8::is_char_boundary_start_end_of_seq(b);
    if p >= b.len() || char_at(b, p) == '\n' {
    } else {
        lemma_first_char(b, p);
        lemma_comment_range(b, next_pos(b, p));
    }
}

/// Facts about a string body walk: position and line move forward, the
/// line by at most the bytes consumed, and the stop is a boundary.
proof fn lemma_str_scan(b: Seq<u8>, p: int, line: int)
    requires
        vstd::utf8::valid_utf8(b),
        0 <= p <= b.len(),
        pos_ok(b, p),
    ensures
        ({
            let (e, l2) = m_str_scan(b, p, line);
            &&& p <= e <= b.len()
            &&& vstd::utf8::is_char_boundary(b, e)
            &&& line <= l2 <= line + (e - p)
        }),
    decreases b.len() - p,
{
    vstd::utf8::is_char_boundary_start_end_of_seq(b);
    if p >= b.len() || char_at(b, p) == '"' {
    } else {
        lemma_first_char(b, p);
        lemma_str_scan(
            b,
            next_pos(b, p),
            line + if char_at(b, p) == '\n' {
                1int
            } else {
                0int
            },
        );
    }
}

/// A one-byte character reads back as its own byte.
proof fn lemma_ascii_char(b: Seq<u8>, p: int)
    requires
        vstd::utf8::valid_utf8(b),
        0 <= p < b.len(),
        vstd::utf8::is_char_boundary(b, p),
    ensures
        char_width(b, p) == 1 <==> (char_at(b, p) as u32) < 128,
        char_width(b, p) == 1 ==> b[p] == char_at(b, p) as u32 && b[p] < 128,
        (char_at(b, p) as u32) < 128 ==> b[p] == char_at(b, p) as u32,
{
    lemma_first_char(b, p);
    let rest = b.subrange(p, b.len() as int);
    let w = vstd::utf8::length_of_first_scalar(rest);
    let cp = vstd::utf8::decode_first_scalar(rest);
    assert(vstd::utf8::valid_first_scalar(rest));
    let b0 = rest[0];
    if w == 1 {
        assert(vstd::utf8::is_leading_byte_width_1(b0));
        assert(cp == vstd::utf8::codepoint_width_1(b0));
        assert(b0 & 0x7F == b0 && b0 < 128) by (bit_vector)
            requires
                b0 <= 0x7f,
        ;
        assert(cp == b0);
        assert(char_at(b, p) as u32 == cp);
    } else {
        assert(!vstd::utf8::is_leading_byte_width_1(b0));
        assert(cp >= 0x80) by {
            assert(vstd::utf8::not_overlong_encoding(cp, w));
        }
        if w == 2 {
            let b1 = rest[1];
            assert(vstd::utf8::codepoint_width_2(b0, b1) <= 0x7FF) by (bit_vector);
        } else if w == 3 {
            let b1 = rest[1];
            let b2 = rest[2];
            assert(vstd::utf8::codepoint_width_3(b0, b1, b2) <= 0xFFFF) by (bit_vector);
            assert(vstd::utf8::not_surrogate(cp));
        } else {
            assert(vstd::utf8::not_overlong_encoding(cp, w));
            assert(0x10000 <= cp <= 0x10FFFF);
        }
        assert(vstd::utf8::not_surrogate(cp));
        assert(char_at(b, p) as u32 == cp);
    }
}


/// The scan of an identifier or reserved word, the opening character
/// already consumed: the longest run of identifier characters, matched
/// against the keyword table.
pub open spec fn m_identifier(b: Seq<u8>, start: int, cur: int, line: int) -> StepR {
    let e = m_ident_end(b, cur);
    let lex = vstd::utf8::decode_utf8(b.subrange(start, e));
    let ty = match spec_keyword(lex) {
        Some(t) => t,
        None => TokenType::Identifier,
    };
    StepR {
        tok: Some(TokenModel { ty, lexeme: lex, lit: TokLit::LNone, line }),
        err: None,
        pos: e,
        line,
    }
}

/// The scan of a number, the opening digit already consumed: one or more
/// digits, then optionally a dot that is directly followed by a digit and
/// more digits; the value is the exact decimal the lexeme denotes, and a
/// decimal too wide for the representation is recorded as an error
/// instead of a token.
pub open spec fn m_number(b: Seq<u8>, start: int, cur: int, line: int) -> StepR {
    let p1 = m_digits_end(b, cur);
    let frac = char_at(b, p1) == '.' && is_digit_char(char_at(b, p1 + 1));
    let e = if frac {
        m_digits_end(b, p1 + 1)
    } else {
        p1
    };
    let k = if frac {
        e - (p1 + 1)
    } else {
        0int
    };
    let n = digits_val(b, start, p1) * pow10(k as nat) + (if frac {
        digits_val(b, p1 + 1, e)
    } else {
        0int
    });
    let d = pow10(k as nat);
    if n <= u64::MAX && d <= u64::MAX {
        StepR {
            tok: Some(
                TokenModel {
                    ty: TokenType::Number,
                    lexeme: vstd::utf8::decode_utf8(b.subrange(start, e)),
                    lit: TokLit::LNum { n, d },
                    line,
                },
            ),
            err: None,
            pos: e,
            line,
        }
    } else {
        StepR { tok: None, err: Some((line, "Number literal out of range."@)), pos: e, line }
    }
}

/// The scan of a string. `start` marks the opening quote; the cursor sits
/// either on it (a scan begun there consumes it first) or just past it
/// (the driver already consumed it). Characters then run verbatim to the
/// next quote — which may come at once, giving the empty string —
/// embedded newlines count lines, and a quote that never closes records
/// an error and emits nothing.
pub open spec fn m_string(b: Seq<u8>, start: int, cur: int, line: int) -> StepR {
    let p1 = if cur == start {
        next_pos(b, cur)
    } else {
        cur
    };
    let (p2, l2) = m_str_scan(b, p1, line);
    if p2 >= b.len() {
        StepR { tok: None, err: Some((l2, "Unterminated string."@)), pos: p2, line: l2 }
    } else {
        StepR {
            tok: Some(
                TokenModel {
                    ty: TokenType::String,
                    lexeme: vstd::utf8::decode_utf8(b.subrange(start, p2 + 1)),
                    lit: TokLit::LStr { s: vstd::utf8::decode_utf8(b.subrange(start + 1, p2)) },
                    line: l2,
                },
            ),
            err: None,
            pos: p2 + 1,
            line: l2,
        }
    }
}

/// How a scanning step changes the scanner: the cursor and line move as
/// the step says, a token is appended exactly when the step emits one,
/// and an error is recorded exactly when the step reports one.
pub open spec fn step_post(pre: Scanner, post: Scanner, st: StepR) -> bool {
    &&& post.source == pre.source
    &&& post.start == pre.start
    &&& post.current == st.pos
    &&& post.line == st.line
    &&& (match st.tok {
        Some(m) => {
            &&& post.tokens@.len() == pre.tokens@.len() + 1
            &&& post.tokens@.subrange(0, pre.tokens@.len() as int) == pre.tokens@
            &&& token_model_matches(post.tokens@.last(), m)
        },
        None => post.tokens == pre.tokens,
    })
    &&& (match st.err {
        Some((l, msg)) => {
            &&& post.error.detected == true
            &&& post.error.entries@.len() == pre.error.entries@.len() + 1
            &&& post.error.entries@.subrange(0, pre.error.entries@.len() as int)
                == pre.error.entries@
            &&& post.error.entries@.last().0 == l
            &&& post.error.entries@.last().1@ == msg
        },
        None => post.error == pre.error,
    })
}

/// Non-negative and monotonic: more digit bytes never shrink the value.
proof fn lemma_digits_val_bounds(b: Seq<u8>, i: int, j: int, j2: int)
    requires
        i <= j <= j2,
        forall|k: int| i <= k < j2 ==> 48 <= #[trigger] b[k] <= 57 && 0 <= k < b.len(),
    ensures
        0 <= digits_val(b, i, j) <= digits_val(b, i, j2),
    decreases j2 - i,
{
    if j2 <= i {
    } else if j == j2 {
        lemma_digits_val_bounds(b, i, j - 1, j - 1);
        assert(digits_val(b, i, j) == digits_val(b, i, j - 1) * 10 + (byte_at(b, j - 1) - 48));
        assert(digits_val(b, i, j - 1) * 10 >= digits_val(b, i, j - 1)) by (nonlinear_arith)
            requires
                digits_val(b, i, j - 1) >= 0,
        ;
    } else {
        lemma_digits_val_bounds(b, i, j, j2 - 1);
        lemma_digits_val_bounds(b, i, j2 - 1, j2 - 1);
        assert(digits_val(b, i, j2) == digits_val(b, i, j2 - 1) * 10 + (byte_at(b, j2 - 1) - 48));
        assert(digits_val(b, i, j2 - 1) * 10 >= digits_val(b, i, j2 - 1)) by (nonlinear_arith)
            requires
                digits_val(b, i, j2 - 1) >= 0,
        ;
    }
}


/// A step that emits one plain token ending at `e`.
pub open spec fn tok1(ty: TokenType, b: Seq<u8>, start: int, e: int, line: int) -> StepR {
    StepR {
        tok: Some(
            TokenModel {
                ty,
                lexeme: vstd::utf8::decode_utf8(b.subrange(start, e)),
                lit: TokLit::LNone,
                line,
            },
        ),
        err: None,
        pos: e,
        line,
    }
}

/// One scanning step, the decision rules of the lexer: maximal-munch two-
/// character operators before single ones, `//` comments to the line end,
/// whitespace discarded, newlines counted, then strings, numbers,
/// identifiers and reserved words; any other character is recorded as an
/// error and discarded.
#[verifier::opaque]
pub open spec fn m_step(b: Seq<u8>, start: int, pos: int, line: int) -> StepR {
    let c = char_at(b, pos);
    let p1 = next_pos(b, pos);
    if c == '(' {
        tok1(TokenType::LeftParen, b, start, p1, line)
    } else if c == ')' {
        tok1(TokenType::RightParen, b, start, p1, line)
    } else if c == '{' {
        tok1(TokenType::LeftBrace, b, start, p1, line)
    } else if c == '}' {
        tok1(TokenType::RightBrace, b, start, p1, line)
    } else if c == ',' {
        tok1(TokenType::Comma, b, start, p1, line)
    } else if c == '.' {
        tok1(TokenType::Dot, b, start, p1, line)
    } else if c == '-' {
        tok1(TokenType::Minus, b, start, p1, line)
    } else if c == '+' {
        tok1(TokenType::Plus, b, start, p1, line)
    } else if c == ';' {
        tok1(TokenType::Semicolon, b, start, p1, line)
    } else if c == '*' {
        tok1(TokenType::Star, b, start, p1, line)
    } else if c == '!' {
        if char_at(b, p1) == '=' {
            tok1(TokenType::BangEqual, b, start, p1 + 1, line)
        } else {
            tok1(TokenType::Bang, b, start, p1, line)
        }
    } else if c == '=' {
        if char_at(b, p1) == '=' {
            tok1(TokenType::EqualEqual, b, start, p1 + 1, line)
        } else {
            tok1(TokenType::Equal, b, start, p1, line)
        }
    } else if c == '<' {
        if char_at(b, p1) == '=' {
            tok1(TokenType::LessEqual, b, start, p1 + 1, line)
        } else {
            tok1(TokenType::Less, b, start, p1, line)
        }
    } else if c == '>' {
        if char_at(b, p1) == '=' {
            tok1(TokenType::GreaterEqual, b, start, p1 + 1, line)
        } else {
            tok1(TokenType::Greater, b, start, p1, line)
        }
    } else if c == '/' {
        if char_at(b, p1) == '/' {
            StepR { tok: None, err: None, pos: m_comment_end(b, p1 + 1), line }
        } else {
            tok1(TokenType::Slash, b, start, p1, line)
        }
    } else if c == ' ' || c == '\r' || c == '\t' {
        StepR { tok: None, err: None, pos: p1, line }
    } else if c == '\n' {
        StepR { tok: None, err: None, pos: p1, line: line + 1 }
    } else if c == '"' {
        m_string(b, start, p1, line)
    } else if is_digit_char(c) {
        m_number(b, start, p1, line)
    } else if is_alpha_char(c) {
        m_identifier(b, start, p1, line)
    } else {
        StepR { tok: None, err: Some((line, "Unexpected character."@)), pos: p1, line }
    }
}

/// A cursor clipped into `[lo, hi]`; on reachable states it is already
/// there, so this only keeps the recursion well-founded.
pub open spec fn clip_pos(p: int, lo: int, hi: int) -> int {
    if p < lo {
        lo
    } else if p > hi {
        hi
    } else {
        p
    }
}

/// A whole scan from a position: the models of the tokens emitted, the
/// errors recorded, and the final line count.
pub open spec fn m_scan(b: Seq<u8>, pos: int, line: int) -> (
    Seq<TokenModel>,
    Seq<(int, Seq<char>)>,
    int,
)
    decreases b.len() - pos,
    when 0 <= pos <= b.len()
{
    if pos >= b.len() {
        (Seq::empty(), Seq::empty(), line)
    } else {
        let st = m_step(b, pos, pos, line);
        let np = clip_pos(st.pos, pos + 1, b.len() as int);
        let (ts, es, l2) = m_scan(b, np, st.line);
        (
            (match st.tok {
                Some(m) => seq![m] + ts,
                None => ts,
            }),
            (match st.err {
                Some(e) => seq![e] + es,
                None => es,
            }),
            l2,
        )
    }
}

/// No single step emits the terminal marker.
#[verifier::rlimit(100)]
proof fn lemma_step_not_eof(b: Seq<u8>, start: int, pos: int, line: int)
    ensures
        m_step(b, start, pos, line).tok matches Some(m) ==> m.ty != TokenType::Eof,
{
    reveal(m_step);
    let st = m_step(b, start, pos, line);
    let c = char_at(b, pos);
    if c == '"' {
        assert(st.tok matches Some(m) ==> m.ty == TokenType::String);
    } else if is_digit_char(c) {
        assert(st.tok matches Some(m) ==> m.ty == TokenType::Number);
    } else if is_alpha_char(c) {
        let e = m_ident_end(b, next_pos(b, pos));
        let lex = vstd::utf8::decode_utf8(b.subrange(start, e));
        assert(st.tok matches Some(m) ==> m.ty != TokenType::Eof) by {
            match spec_keyword(lex) {
                Some(t) => {
                    assert(t != TokenType::Eof);
                },
                None => {},
            }
        }
    }
}

/// LAW: a scan never emits the terminal marker itself, so the one the
/// driver appends afterwards is the only one, and the last token.
pub proof fn lemma_scan_no_eof(b: Seq<u8>, pos: int, line: int)
    requires
        0 <= pos <= b.len(),
    ensures
        forall|i: int|
            0 <= i < m_scan(b, pos, line).0.len() ==> #[trigger] m_scan(
                b,
                pos,
                line,
            ).0[i].ty != TokenType::Eof,
    decreases b.len() - pos,
{
    if pos >= b.len() {
    } else {
        let st = m_step(b, pos, pos, line);
        let np = clip_pos(st.pos, pos + 1, b.len() as int);
        lemma_scan_no_eof(b, np, st.line);
        lemma_step_not_eof(b, pos, pos, line);
    }
}

/// When the whole part alone leaves `u64`, the number does.
proof fn lemma_number_overflow_whole(b: Seq<u8>, start: int, p1: int, k: int, fracval: int)
    requires
        digits_val(b, start, p1) > u64::MAX,
        k >= 0,
        fracval >= 0,
    ensures
        digits_val(b, start, p1) * pow10(k as nat) + fracval > u64::MAX,
{
    lemma_pow10_pos(k as nat);
    assert(digits_val(b, start, p1) * pow10(k as nat) >= digits_val(b, start, p1) * 1)
        by (nonlinear_arith)
        requires
            pow10(k as nat) >= 1,
            digits_val(b, start, p1) >= 0,
    ;
}

/// When the fractional part alone leaves `u64`, the number does.
proof fn lemma_number_overflow_frac(b: Seq<u8>, start: int, p1: int, e: int)
    requires
        digits_val(b, p1 + 1, e) > u64::MAX,
        digits_val(b, start, p1) >= 0,
    ensures
        digits_val(b, start, p1) * pow10((e - (p1 + 1)) as nat) + digits_val(b, p1 + 1, e)
            > u64::MAX,
{
    lemma_pow10_pos((e - (p1 + 1)) as nat);
    assert(digits_val(b, start, p1) * pow10((e - (p1 + 1)) as nat) >= 0) by (nonlinear_arith)
        requires
            pow10((e - (p1 + 1)) as nat) >= 1,
            digits_val(b, start, p1) >= 0,
    ;
}

/// Powers of ten are positive.
proof fn lemma_pow10_pos(k: nat)
    ensures
        pow10(k) >= 1,
    decreases k,
{
    if k > 0 {
        lemma_pow10_pos((k - 1) as nat);
    }
}

/// Ten to a power of twenty or more no longer fits in `u64`.
proof fn lemma_big_pow10_public(k: nat)
    ensures
        k >= 20 ==> pow10(k) > u64::MAX,
    decreases k,
{
    if k > 0 {
        lemma_big_pow10_public((k - 1) as nat);
        lemma_pow10_pos((k - 1) as nat);
        if k == 20 {
            assert(pow10(20) > u64::MAX) by {
                reveal_with_fuel(pow10, 21);
            }
        }
    }
}

/// The scanner: the source text, the tokens produced so far, the byte
/// offsets of the token in progress, the current line, and the error sink.
pub struct Scanner {
    pub source: String,
    pub tokens: Vec<Token>,
    pub start: usize,
    pub current: usize,
    pub line: usize,
    pub error: ScanError,
}

impl Scanner {
    /// The UTF-8 byte form of the source text.
    pub open spec fn sbytes(self) -> Seq<u8> {
        vstd::utf8::encode_utf8(self.source@)
    }

    pub fn new(source: String, error: ScanError) -> (r: Scanner)
        ensures
            r.source == source,
            r.tokens@ =~= Seq::<Token>::empty(),
            r.start == 0,
            r.current == 0,
            r.line == 1,
            r.error == error,
    {
        Scanner { source, tokens: Vec::new(), start: 0, current: 0, line: 1, error }
    }

    /// The byte length of the source.
    fn src_len(&self) -> (n: usize)
        ensures
            n == self.sbytes().len(),
    {
        self.source.as_str().as_bytes().len()
    }

    /// Has the cursor reached the end of the source?
    pub fn is_at_end(&self) -> (r: bool)
        ensures
            r == (self.current >= self.sbytes().len()),
    {
        self.current >= self.src_len()
    }

    /// The character under the cursor, or NUL at the end.
    pub fn peek(&self) -> (r: char)
        requires
            pos_ok(self.sbytes(), self.current as int),
        ensures
            r == char_at(self.sbytes(), self.current as int),
    {
        let n = self.src_len();
        if self.current >= n {
            return '\0';
        }
        proof {
            lemma_first_char(self.sbytes(), self.current as int);
        }
        let (_, rest) = self.source.as_str().split_at(self.current);
        let mut it = rest.chars();
        match it.next() {
            Some(c) => c,
            None => {
                proof {
                    assert(false);
                }
                '\0'
            },
        }
    }

    /// The character one byte past the cursor, or NUL past the end; the
    /// byte after the cursor must open a character for this to be
    /// meaningful, as it is whenever the cursor sits on a one-byte
    /// character.
    pub fn peek_next(&self) -> (r: char)
        requires
            pos_ok(self.sbytes(), self.current + 1),
        ensures
            r == char_at(self.sbytes(), self.current + 1),
    {
        let n = self.src_len();
        if self.current >= n {
            return '\0';
        }
        if self.current + 1 >= n {
            return '\0';
        }
        proof {
            lemma_first_char(self.sbytes(), self.current + 1);
        }
        let (_, rest) = self.source.as_str().split_at(self.current + 1);
        let mut it = rest.chars();
        match it.next() {
            Some(c) => c,
            None => {
                proof {
                    assert(false);
                }
                '\0'
            },
        }
    }

    /// Consume and return the character under the cursor.
    pub fn advance(&mut self) -> (r: char)
        requires
            old(self).current < old(self).sbytes().len(),
            vstd::utf8::is_char_boundary(old(self).sbytes(), old(self).current as int),
        ensures
            *final(self) == (Scanner { current: final(self).current, ..*old(self) }),
            r == char_at(old(self).sbytes(), old(self).current as int),
            final(self).current == old(self).current + char_width(
                old(self).sbytes(),
                old(self).current as int,
            ),
            pos_ok(final(self).sbytes(), final(self).current as int),
            vstd::utf8::is_char_boundary(final(self).sbytes(), final(self).current as int),
            final(self).current <= final(self).sbytes().len(),
    {
        let n = self.src_len();
        proof {
            lemma_first_char(self.sbytes(), self.current as int);
        }
        let c = self.peek();
        let w = utf8_width(c);
        proof {
            assert(self.current + w <= n);
        }
        self.current = self.current + w;
        c
    }

    /// Consume the character under the cursor when it equals `expected`.
    pub fn match_char(&mut self, expected: char) -> (r: bool)
        requires
            pos_ok(old(self).sbytes(), old(self).current as int),
        ensures
            *final(self) == (Scanner { current: final(self).current, ..*old(self) }),
            r == (old(self).current < old(self).sbytes().len() && char_at(
                old(self).sbytes(),
                old(self).current as int,
            ) == expected),
            final(self).current == if r {
                old(self).current + char_width(old(self).sbytes(), old(self).current as int)
            } else {
                old(self).current as int
            },
            pos_ok(final(self).sbytes(), final(self).current as int),
            r ==> final(self).current <= final(self).sbytes().len(),
    {
        let n = self.src_len();
        if self.current >= n {
            return false;
        }
        proof {
            lemma_first_char(self.sbytes(), self.current as int);
        }
        let current_char = self.peek();
        if current_char != expected {
            return false;
        }
        let w = utf8_width(current_char);
        proof {
            assert(self.current + w <= n);
        }
        self.current = self.current + w;
        true
    }

    /// The source text between two byte positions, both on character
    /// boundaries.
    pub fn substring(&self, from: usize, to: usize) -> (r: String)
        requires
            from <= to <= self.sbytes().len(),
            vstd::utf8::is_char_boundary(self.sbytes(), from as int),
            vstd::utf8::is_char_boundary(self.sbytes(), to as int),
        ensures
            r@ == vstd::utf8::decode_utf8(self.sbytes().subrange(from as int, to as int)),
    {
        let ghost b = self.sbytes();
        proof {
            lemma_boundary_in_suffix(b, from as int, to as int);
            vstd::utf8::valid_utf8_split(b, from as int);
        }
        let text = self.source.as_str();
        let (_, tail) = text.split_at(from);
        proof {
            vstd::utf8::valid_utf8_split(tail.spec_bytes(), to - from);
        }
        let (mid, _) = tail.split_at(to - from);
        proof {
            assert(mid.spec_bytes() =~= b.subrange(from as int, to as int));
            assert(vstd::utf8::decode_utf8(vstd::utf8::encode_utf8(mid@)) == mid@);
        }
        mid.to_owned()
    }

    /// Record a token without a literal payload, its lexeme the text from
    /// `start` to `current`.
    pub fn add_token(&mut self, token_type: TokenType)
        requires
            old(self).start <= old(self).current <= old(self).sbytes().len(),
            vstd::utf8::is_char_boundary(old(self).sbytes(), old(self).start as int),
            vstd::utf8::is_char_boundary(old(self).sbytes(), old(self).current as int),
        ensures
            *final(self) == (Scanner { tokens: final(self).tokens, ..*old(self) }),
            final(self).tokens@.len() == old(self).tokens@.len() + 1,
            final(self).tokens@.subrange(0, old(self).tokens@.len() as int) == old(self).tokens@,
            ({
                let tok = final(self).tokens@.last();
                &&& tok.token_type == token_type
                &&& tok.lexeme@ == vstd::utf8::decode_utf8(
                    old(self).sbytes().subrange(
                        old(self).start as int,
                        old(self).current as int,
                    ),
                )
                &&& tok.literal is None
                &&& tok.line == old(self).line
            }),
    {
        self.add_token_with_literal(token_type, None);
    }

    /// Record a token with the given literal payload, its lexeme the text
    /// from `start` to `current`.
    pub fn add_token_with_literal(&mut self, token_type: TokenType, literal: Option<LiteralExpr>)
        requires
            old(self).start <= old(self).current <= old(self).sbytes().len(),
            vstd::utf8::is_char_boundary(old(self).sbytes(), old(self).start as int),
            vstd::utf8::is_char_boundary(old(self).sbytes(), old(self).current as int),
        ensures
            *final(self) == (Scanner { tokens: final(self).tokens, ..*old(self) }),
            final(self).tokens@.len() == old(self).tokens@.len() + 1,
            final(self).tokens@.subrange(0, old(self).tokens@.len() as int) == old(self).tokens@,
            ({
                let tok = final(self).tokens@.last();
                &&& tok.token_type == token_type
                &&& tok.lexeme@ == vstd::utf8::decode_utf8(
                    old(self).sbytes().subrange(
                        old(self).start as int,
                        old(self).current as int,
                    ),
                )
                &&& tok.literal == literal
                &&& tok.line == old(self).line
            }),
    {
        let text = self.substring(self.start, self.current);
        let tok = Token { token_type, lexeme: text, literal, line: self.line };
        self.tokens.push(tok);
        proof {
            assert(final(self).tokens@.subrange(0, old(self).tokens@.len() as int) =~= old(
                self,
            ).tokens@);
        }
    }

    /// An ASCII decimal digit?
    pub fn is_digit(&self, c: char) -> (r: bool)
        ensures
            r == is_digit_char(c),
    {
        let u = c as u32;
        48 <= u && u <= 57
    }

    /// An ASCII letter or the underscore?
    pub fn is_alpha(&self, c: char) -> (r: bool)
        ensures
            r == is_alpha_char(c),
    {
        let u = c as u32;
        (97 <= u && u <= 122) || (65 <= u && u <= 90) || u == 95
    }

    /// A character that may continue an identifier: Unicode alphanumeric
    /// or the underscore.
    pub fn is_alpha_numeric(&self, c: char) -> (r: bool)
        ensures
            r == is_ident_char(c),
            (97 <= c as u32 <= 122) || (65 <= c as u32 <= 90) || (48 <= c as u32 <= 57) || (c
                as u32 == 95) ==> r,
            ((c as u32) < 128 && !((97 <= c as u32 <= 122) || (65 <= c as u32 <= 90) || (48 <= c
                as u32 <= 57) || (c as u32 == 95))) ==> !r,
    {
        char_is_alphanumeric(c) || c as u32 == 95
    }

    /// The value of the ASCII digit bytes in `[from, to)`, or `None` when
    /// it does not fit `u64`.
    fn parse_digits(&self, from: usize, to: usize) -> (r: Option<u64>)
        requires
            from <= to <= self.sbytes().len(),
            forall|j: int| from <= j < to ==> 48 <= #[trigger] self.sbytes()[j] <= 57,
        ensures
            match r {
                Some(v) => v == digits_val(self.sbytes(), from as int, to as int),
                None => digits_val(self.sbytes(), from as int, to as int) > u64::MAX,
            },
    {
        let ghost b = self.sbytes();
        let bytes = self.source.as_str().as_bytes();
        let mut acc: u64 = 0;
        let mut i: usize = from;
        while i < to
            invariant
                b == self.sbytes(),
                from <= i <= to <= b.len(),
                bytes@ == b,
                forall|j: int| from <= j < to ==> 48 <= #[trigger] b[j] <= 57,
                acc == digits_val(b, from as int, i as int),
            decreases to - i,
        {
            let d: u64 = (bytes[i] - 48) as u64;
            let scaled = match acc.checked_mul(10) {
                Some(v) => v,
                None => {
                    proof {
                        assert(byte_at(b, i as int) == b[i as int]);
                        assert(digits_val(b, from as int, i + 1) == acc * 10 + (byte_at(
                            b,
                            i as int,
                        ) - 48));
                        assert(digits_val(b, from as int, i + 1) > u64::MAX);
                        lemma_digits_val_bounds(b, from as int, i + 1, to as int);
                        assert(digits_val(b, from as int, to as int) >= digits_val(
                            b,
                            from as int,
                            i + 1,
                        ));
                    }
                    return None;
                },
            };
            acc = match scaled.checked_add(d) {
                Some(v) => v,
                None => {
                    proof {
                        assert(byte_at(b, i as int) == b[i as int]);
                        assert(digits_val(b, from as int, i + 1) == acc * 10 + (byte_at(
                            b,
                            i as int,
                        ) - 48));
                        assert(digits_val(b, from as int, i + 1) > u64::MAX);
                        lemma_digits_val_bounds(b, from as int, i + 1, to as int);
                        assert(digits_val(b, from as int, to as int) >= digits_val(
                            b,
                            from as int,
                            i + 1,
                        ));
                    }
                    return None;
                },
            };
            i = i + 1;
        }
        Some(acc)
    }

    /// Scan the rest of an identifier and record the token: the longest
    /// run of identifier characters, a reserved word when the table says
    /// so.
    pub fn identifier(&mut self)
        requires
            pos_ok(old(self).sbytes(), old(self).current as int),
            vstd::utf8::is_char_boundary(old(self).sbytes(), old(self).start as int),
            old(self).start <= old(self).current <= old(self).sbytes().len(),
        ensures
            step_post(
                *old(self),
                *final(self),
                m_identifier(
                    old(self).sbytes(),
                    old(self).start as int,
                    old(self).current as int,
                    old(self).line as int,
                ),
            ),
            old(self).current <= final(self).current <= final(self).sbytes().len(),
            pos_ok(final(self).sbytes(), final(self).current as int),
    {
        let ghost b = self.sbytes();
        proof {
            lemma_ident_range(b, self.current as int);
        }
        while self.is_alpha_numeric(self.peek())
            invariant
                self.source == old(self).source,
                self.tokens == old(self).tokens,
                self.error == old(self).error,
                self.start == old(self).start,
                self.line == old(self).line,
                b == self.sbytes(),
                old(self).current <= self.current <= b.len(),
                pos_ok(b, self.current as int),
                m_ident_end(b, self.current as int) == m_ident_end(b, old(self).current as int),
            decreases b.len() - self.current,
        {
            proof {
                lemma_first_char(b, self.current as int);
            }
            self.advance();
            proof {
                lemma_ident_range(b, self.current as int);
            }
        }
        proof {
            assert(self.current == m_ident_end(b, old(self).current as int));
        }
        let text = self.substring(self.start, self.current);
        let token_type = match keyword_token_type(text.as_str()) {
            Some(t) => t,
            None => TokenType::Identifier,
        };
        proof {
            lemma_ident_range(b, old(self).current as int);
        }
        self.add_token(token_type);
    }

    /// Scan the rest of a number and record the token: digits, then a dot
    /// only when a digit follows it, then more digits; the literal is the
    /// exact decimal value of the lexeme. A decimal too wide for the
    /// representation records an error instead.
    pub fn number(&mut self)
        requires
            pos_ok(old(self).sbytes(), old(self).current as int),
            vstd::utf8::is_char_boundary(old(self).sbytes(), old(self).start as int),
            old(self).start <= old(self).current <= old(self).sbytes().len(),
            forall|j: int|
                old(self).start <= j < old(self).current ==> 48 <= #[trigger] old(
                    self,
                ).sbytes()[j] <= 57,
        ensures
            step_post(
                *old(self),
                *final(self),
                m_number(
                    old(self).sbytes(),
                    old(self).start as int,
                    old(self).current as int,
                    old(self).line as int,
                ),
            ),
            old(self).current <= final(self).current <= final(self).sbytes().len(),
            pos_ok(final(self).sbytes(), final(self).current as int),
    {
        let ghost b = self.sbytes();
        proof {
            lemma_digits_range(b, self.current as int);
        }
        while self.is_digit(self.peek())
            invariant
                self.source == old(self).source,
                self.tokens == old(self).tokens,
                self.error == old(self).error,
                self.start == old(self).start,
                self.line == old(self).line,
                b == self.sbytes(),
                old(self).current <= self.current <= b.len(),
                pos_ok(b, self.current as int),
                m_digits_end(b, self.current as int) == m_digits_end(b, old(self).current as int),
                forall|j: int|
                    old(self).start <= j < self.current ==> 48 <= #[trigger] b[j] <= 57,
            decreases b.len() - self.current,
        {
            proof {
                lemma_first_char(b, self.current as int);
                lemma_ascii_char(b, self.current as int);
            }
            self.advance();
            proof {
                lemma_digits_range(b, self.current as int);
            }
        }
        let int_end = self.current;
        proof {
            assert(int_end == m_digits_end(b, old(self).current as int));
            lemma_digits_range(b, old(self).current as int);
        }
        let dot = self.peek();
        let mut has_frac = false;
        if dot == '.' {
            proof {
                lemma_first_char(b, self.current as int);
                lemma_ascii_char(b, self.current as int);
            }
            let after = self.peek_next();
            if self.is_digit(after) {
                has_frac = true;
                self.advance();
                proof {
                    lemma_digits_range(b, self.current as int);
                }
                while self.is_digit(self.peek())
                    invariant
                        self.source == old(self).source,
                        self.tokens == old(self).tokens,
                        self.error == old(self).error,
                        self.start == old(self).start,
                        self.line == old(self).line,
                        b == self.sbytes(),
                        int_end + 1 <= self.current <= b.len(),
                        pos_ok(b, self.current as int),
                        m_digits_end(b, self.current as int) == m_digits_end(b, int_end + 1),
                        forall|j: int|
                            int_end + 1 <= j < self.current ==> 48 <= #[trigger] b[j] <= 57,
                    decreases b.len() - self.current,
                {
                    proof {
                        lemma_first_char(b, self.current as int);
                        lemma_ascii_char(b, self.current as int);
                    }
                    self.advance();
                    proof {
                        lemma_digits_range(b, self.current as int);
                    }
                }
            }
        }
        let end = self.current;
        proof {
            if has_frac {
                lemma_digits_range(b, int_end + 1);
            }
        }
        let whole = match self.parse_digits(self.start, int_end) {
            Some(v) => v,
            None => {
                proof {
                    if has_frac {
                        lemma_digits_val_bounds(b, int_end + 1, int_end + 1, end as int);
                    }
                    lemma_number_overflow_whole(
                        b,
                        old(self).start as int,
                        int_end as int,
                        if has_frac {
                            end - (int_end + 1)
                        } else {
                            0int
                        },
                        if has_frac {
                            digits_val(b, int_end + 1, end as int)
                        } else {
                            0int
                        },
                    );
                }
                let line = self.line;
                self.error.error(line, "Number literal out of range.");
                return ;
            },
        };
        if has_frac {
            let frac_len = end - (int_end + 1);
            if frac_len > 19 {
                proof {
                    lemma_big_pow10_public((frac_len) as nat);
                }
                let line = self.line;
                self.error.error(line, "Number literal out of range.");
                return ;
            }
            let frac = match self.parse_digits(int_end + 1, end) {
                Some(v) => v,
                None => {
                    proof {
                        lemma_number_overflow_frac(
                            b,
                            old(self).start as int,
                            int_end as int,
                            end as int,
                        );
                    }
                    let line = self.line;
                    self.error.error(line, "Number literal out of range.");
                    return ;
                },
            };
            match Number::from_decimal(whole, frac, frac_len as u32) {
                Some(x) => {
                    proof {
                        lemma_pow10_pos(frac_len as nat);
                    }
                    self.add_token_with_literal(TokenType::Number, Some(LiteralExpr::Num(x)));
                },
                None => {
                    let line = self.line;
                    self.error.error(line, "Number literal out of range.");
                },
            }
        } else {
            match Number::from_decimal(whole, 0, 0) {
                Some(x) => {
                    proof {
                        lemma_pow10_pos(0);
                    }
                    self.add_token_with_literal(TokenType::Number, Some(LiteralExpr::Num(x)));
                },
                None => {
                    let line = self.line;
                    self.error.error(line, "Number literal out of range.");
                },
            }
        }
    }

    /// Scan a string and record the token: the opening quote is consumed
    /// when the cursor still sits on it, characters then run verbatim to
    /// the closing quote — which may come at once, giving the empty
    /// string — embedded newlines count lines, and a quote that never
    /// closes records an error and emits nothing.
    pub fn string(&mut self)
        requires
            pos_ok(old(self).sbytes(), old(self).current as int),
            vstd::utf8::is_char_boundary(old(self).sbytes(), old(self).start as int),
            old(self).start <= old(self).current <= old(self).sbytes().len(),
            old(self).start < old(self).sbytes().len(),
            char_width(old(self).sbytes(), old(self).start as int) == 1,
            old(self).line + old(self).sbytes().len() - old(self).current <= usize::MAX,
        ensures
            step_post(
                *old(self),
                *final(self),
                m_string(
                    old(self).sbytes(),
                    old(self).start as int,
                    old(self).current as int,
                    old(self).line as int,
                ),
            ),
            old(self).current <= final(self).current <= final(self).sbytes().len(),
            pos_ok(final(self).sbytes(), final(self).current as int),
            final(self).line - old(self).line <= final(self).current - old(self).current,
    {
        let ghost b = self.sbytes();
        if self.current == self.start {
            proof {
                lemma_first_char(b, self.current as int);
            }
            self.advance();
        }
        proof {
            lemma_str_scan(b, self.current as int, self.line as int);
        }
        while self.peek() != '"' && !self.is_at_end()
            invariant
                self.source == old(self).source,
                self.tokens == old(self).tokens,
                self.error == old(self).error,
                self.start == old(self).start,
                old(self).current <= self.current <= b.len(),
                b == self.sbytes(),
                pos_ok(b, self.current as int),
                self.line + b.len() - self.current <= usize::MAX,
                self.line - old(self).line <= self.current - old(self).current,
                m_str_scan(b, self.current as int, self.line as int) == m_str_scan(
                    b,
                    (if old(self).current == old(self).start {
                        next_pos(b, old(self).current as int)
                    } else {
                        old(self).current as int
                    }),
                    old(self).line as int,
                ),
            decreases b.len() - self.current,
        {
            proof {
                lemma_first_char(b, self.current as int);
            }
            let c = self.peek();
            if c == '\n' {
                self.line = self.line + 1;
            }
            self.advance();
        }
        if self.is_at_end() {
            let line = self.line;
            self.error.error(line, "Unterminated string.");
            return ;
        }
        proof {
            lemma_first_char(b, self.current as int);
            lemma_ascii_char(b, self.current as int);
        }
        self.advance();
        proof {
            lemma_first_char(b, old(self).start as int);
        }
        let value = self.substring(self.start + 1, self.current - 1);
        self.add_token_with_literal(TokenType::String, Some(LiteralExpr::Str(value)));
    }

    /// Scan exactly one lexical element from the cursor: a token, a
    /// discarded piece of text (whitespace or a comment), or a recorded
    /// error, per the decision rules in [`m_step`].
    #[verifier::rlimit(100)]
    pub fn scan_token(&mut self)
        requires
            old(self).current < old(self).sbytes().len(),
            vstd::utf8::is_char_boundary(old(self).sbytes(), old(self).current as int),
            vstd::utf8::is_char_boundary(old(self).sbytes(), old(self).start as int),
            old(self).start <= old(self).current,
            char_at(old(self).sbytes(), old(self).current as int) == '"' ==> char_width(
                old(self).sbytes(),
                old(self).start as int,
            ) == 1,
            is_digit_char(char_at(old(self).sbytes(), old(self).current as int)) ==> forall|
                j: int,
            |
                old(self).start <= j < old(self).current ==> 48 <= #[trigger] old(
                    self,
                ).sbytes()[j] <= 57,
            old(self).line + old(self).sbytes().len() - old(self).current <= usize::MAX,
        ensures
            step_post(
                *old(self),
                *final(self),
                m_step(
                    old(self).sbytes(),
                    old(self).start as int,
                    old(self).current as int,
                    old(self).line as int,
                ),
            ),
            old(self).current < final(self).current <= final(self).sbytes().len(),
            pos_ok(final(self).sbytes(), final(self).current as int),
            final(self).line - old(self).line <= final(self).current - old(self).current,
    {
        let ghost b = self.sbytes();
        proof {
            reveal(m_step);
            lemma_first_char(b, self.current as int);
            lemma_ascii_char(b, self.current as int);
        }
        let c = self.advance();

        match c {
            '(' => self.add_token(TokenType::LeftParen),
            ')' => self.add_token(TokenType::RightParen),
            '{' => self.add_token(TokenType::LeftBrace),
            '}' => self.add_token(TokenType::RightBrace),
            ',' => self.add_token(TokenType::Comma),
            '.' => self.add_token(TokenType::Dot),
            '-' => self.add_token(TokenType::Minus),
            '+' => self.add_token(TokenType::Plus),
            ';' => self.add_token(TokenType::Semicolon),
            '*' => self.add_token(TokenType::Star),
            '!' => {
                let matched = self.match_char('=');
                proof {
                    if matched {
                        lemma_ascii_char(b, old(self).current + 1);
                    }
                }
                let token_type = if matched {
                    TokenType::BangEqual
                } else {
                    TokenType::Bang
                };
                self.add_token(token_type);
            },
            '=' => {
                let matched = self.match_char('=');
                proof {
                    if matched {
                        lemma_ascii_char(b, old(self).current + 1);
                    }
                }
                let token_type = if matched {
                    TokenType::EqualEqual
                } else {
                    TokenType::Equal
                };
                self.add_token(token_type);
            },
            '<' => {
                let matched = self.match_char('=');
                proof {
                    if matched {
                        lemma_ascii_char(b, old(self).current + 1);
                    }
                }
                let token_type = if matched {
                    TokenType::LessEqual
                } else {
                    TokenType::Less
                };
                self.add_token(token_type);
            },
            '>' => {
                let matched = self.match_char('=');
                proof {
                    if matched {
                        lemma_ascii_char(b, old(self).current + 1);
                    }
                }
                let token_type = if matched {
                    TokenType::GreaterEqual
                } else {
                    TokenType::Greater
                };
                self.add_token(token_type);
            },
            '/' => {
                if self.match_char('/') {
                    proof {
                        lemma_ascii_char(b, old(self).current + 1);
                        lemma_comment_range(b, self.current as int);
                    }
                    while self.peek() != '\n' && !self.is_at_end()
                        invariant
                            self.source == old(self).source,
                            self.tokens == old(self).tokens,
                            self.error == old(self).error,
                            self.start == old(self).start,
                            self.line == old(self).line,
                            b == self.sbytes(),
                            old(self).current < self.current <= b.len(),
                            pos_ok(b, self.current as int),
                            m_comment_end(b, self.current as int) == m_comment_end(
                                b,
                                old(self).current + 2,
                            ),
                        decreases b.len() - self.current,
                    {
                        proof {
                            lemma_first_char(b, self.current as int);
                        }
                        self.advance();
                        proof {
                            lemma_comment_range(b, self.current as int);
                        }
                    }
                } else {
                    self.add_token(TokenType::Slash);
                }
            },
            ' ' => {},
            '\r' => {},
            '\t' => {},
            '\n' => {
                self.line = self.line + 1;
            },
            '"' => self.string(),
            _ => {
                if self.is_digit(c) {
                    self.number();
                } else if self.is_alpha(c) {
                    self.identifier();
                } else {
                    let line = self.line;
                    self.error.error(line, "Unexpected character.");
                }
            },
        }
    }

    /// Scan the whole source: tokens per the decision rules, one per
    /// element, and exactly one terminal marker appended at the end,
    /// whatever errors were recorded along the way. Returns a copy of the
    /// token list.
    #[verifier::rlimit(100)]
    pub fn scan_tokens(&mut self) -> (r: Vec<Token>)
        requires
            pos_ok(old(self).sbytes(), old(self).current as int),
            old(self).current <= old(self).sbytes().len(),
            old(self).line + old(self).sbytes().len() - old(self).current <= usize::MAX,
        ensures
            ({
                let (ms, es, l2) = m_scan(
                    old(self).sbytes(),
                    old(self).current as int,
                    old(self).line as int,
                );
                &&& final(self).source == old(self).source
                &&& final(self).line == l2
                &&& final(self).current == final(self).sbytes().len()
                &&& final(self).tokens@.len() == old(self).tokens@.len() + ms.len() + 1
                &&& final(self).tokens@.subrange(0, old(self).tokens@.len() as int) == old(
                    self,
                ).tokens@
                &&& (forall|i: int|
                    0 <= i < ms.len() ==> token_model_matches(
                        #[trigger] final(self).tokens@[old(self).tokens@.len() + i],
                        ms[i],
                    ))
                &&& final(self).tokens@.last().token_type == TokenType::Eof
                &&& final(self).tokens@.last().lexeme@ == Seq::<char>::empty()
                &&& final(self).tokens@.last().literal is None
                &&& final(self).tokens@.last().line == l2
                &&& final(self).error.entries@.len() == old(self).error.entries@.len() + es.len()
                &&& final(self).error.entries@.subrange(
                    0,
                    old(self).error.entries@.len() as int,
                ) == old(self).error.entries@
                &&& (forall|i: int|
                    0 <= i < es.len() ==> {
                        let e = #[trigger] final(self).error.entries@[old(
                            self,
                        ).error.entries@.len() + i];
                        e.0 == es[i].0 && e.1@ == es[i].1
                    })
                &&& final(self).error.detected == (old(self).error.detected || es.len() > 0)
                &&& r@ == final(self).tokens@
            }),
    {
        let ghost b = self.sbytes();
        let ghost target = m_scan(b, old(self).current as int, old(self).line as int);

        while !self.is_at_end()
            invariant
                self.source == old(self).source,
                b == self.sbytes(),
                pos_ok(b, self.current as int),
                self.current <= b.len(),
                self.line + b.len() - self.current <= usize::MAX,
                self.tokens@.len() >= old(self).tokens@.len(),
                self.tokens@.subrange(0, old(self).tokens@.len() as int) == old(self).tokens@,
                self.error.entries@.len() >= old(self).error.entries@.len(),
                self.error.entries@.subrange(0, old(self).error.entries@.len() as int) == old(
                    self,
                ).error.entries@,
                ({
                    let (ms, es, l2) = m_scan(b, self.current as int, self.line as int);
                    let k = self.tokens@.len() - old(self).tokens@.len();
                    let q = self.error.entries@.len() - old(self).error.entries@.len();
                    &&& target.0.len() == k + ms.len()
                    &&& target.1.len() == q + es.len()
                    &&& target.2 == l2
                    &&& ms =~= target.0.skip(k as int)
                    &&& es =~= target.1.skip(q as int)
                    &&& (forall|i: int|
                        0 <= i < k ==> token_model_matches(
                            #[trigger] self.tokens@[old(self).tokens@.len() + i],
                            target.0[i],
                        ))
                    &&& (forall|i: int|
                        0 <= i < q ==> {
                            let e = #[trigger] self.error.entries@[old(
                                self,
                            ).error.entries@.len() + i];
                            e.0 == target.1[i].0 && e.1@ == target.1[i].1
                        })
                    &&& self.error.detected == (old(self).error.detected || q > 0)
                }),
            decreases b.len() - self.current,
        {
            let ghost pre = *self;
            self.start = self.current;
            proof {
                lemma_ascii_char(b, self.current as int);
            }
            self.scan_token();
            proof {
                let st = m_step(b, pre.current as int, pre.current as int, pre.line as int);
                assert(clip_pos(st.pos, pre.current + 1, b.len() as int) == st.pos);
                let ms_pre = m_scan(b, pre.current as int, pre.line as int);
                let rest = m_scan(b, st.pos, st.line);
                assert(ms_pre == ({
                    (
                        (match st.tok {
                            Some(m) => seq![m] + rest.0,
                            None => rest.0,
                        }),
                        (match st.err {
                            Some(e) => seq![e] + rest.1,
                            None => rest.1,
                        }),
                        rest.2,
                    )
                }));
                let base = old(self).tokens@.len() as int;
                let ebase = old(self).error.entries@.len() as int;
                let k0 = pre.tokens@.len() - base;
                let q0 = pre.error.entries@.len() - ebase;
                assert(ms_pre.0 =~= target.0.skip(k0));
                assert(ms_pre.1 =~= target.1.skip(q0));
                match st.tok {
                    Some(m) => {
                        assert(target.0[k0] == ms_pre.0[0]);
                        assert(rest.0 =~= target.0.skip(k0 + 1)) by {
                            assert(forall|i: int|
                                0 <= i < rest.0.len() ==> #[trigger] rest.0[i] == ms_pre.0[i + 1]
                                    && ms_pre.0[i + 1] == target.0.skip(k0)[i + 1]
                                    && target.0.skip(k0)[i + 1] == target.0[k0 + 1 + i]);
                        }
                        assert(self.tokens@[base + k0] == self.tokens@.last());
                        assert(forall|i: int|
                            0 <= i < k0 ==> #[trigger] self.tokens@[base + i] == pre.tokens@[base
                                + i]) by {
                            assert(forall|i: int|
                                0 <= i < k0 ==> pre.tokens@[base + i] == #[trigger] self.tokens@.subrange(
                                    0,
                                    pre.tokens@.len() as int,
                                )[base + i]);
                        }
                        assert(self.tokens@.subrange(0, base) =~= pre.tokens@.subrange(0, base));
                    },
                    None => {},
                }
                match st.err {
                    Some(e) => {
                        assert(target.1[q0] == ms_pre.1[0]);
                        assert(rest.1 =~= target.1.skip(q0 + 1)) by {
                            assert(forall|i: int|
                                0 <= i < rest.1.len() ==> #[trigger] rest.1[i] == ms_pre.1[i + 1]
                                    && ms_pre.1[i + 1] == target.1.skip(q0)[i + 1]
                                    && target.1.skip(q0)[i + 1] == target.1[q0 + 1 + i]);
                        }
                        assert(self.error.entries@[ebase + q0] == self.error.entries@.last());
                        assert(forall|i: int|
                            0 <= i < q0 ==> #[trigger] self.error.entries@[ebase + i]
                                == pre.error.entries@[ebase + i]) by {
                            assert(forall|i: int|
                                0 <= i < q0 ==> pre.error.entries@[ebase + i]
                                    == #[trigger] self.error.entries@.subrange(
                                    0,
                                    pre.error.entries@.len() as int,
                                )[ebase + i]);
                        }
                        assert(self.error.entries@.subrange(0, ebase) =~= pre.error.entries@.subrange(
                            0,
                            ebase,
                        ));
                    },
                    None => {},
                }
            }
        }
        let line = self.line;
        self.tokens.push(
            Token { token_type: TokenType::Eof, lexeme: String::new(), literal: None, line },
        );
        let out = self.tokens.clone();
        proof {
            assert(final(self).tokens@.subrange(0, old(self).tokens@.len() as int) =~= old(
                self,
            ).tokens@);
            assert(out@ =~= self.tokens@);
        }
        out
    }
}

/// The number of bytes the character takes in UTF-8.
fn utf8_width(c: char) -> (r: usize)
    ensures
        r == vstd::utf8::encode_scalar(c as u32).len(),
        1 <= r <= 4,
{
    let u = c as u32;
    if u < 0x80 {
        1
    } else if u < 0x800 {
        2
    } else if u < 0x10000 {
        3
    } else {
        4
    }
}

} // verus!
