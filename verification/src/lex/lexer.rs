//! The hand-written scanner over the source buffer.
//!
//! The executable [`Lexer`] is specified against the mathematical scanner
//! [`scan`], which describes, for any position in the source, the next token
//! (its kind and character span) and the cursor position after it.

use vstd::prelude::*;
use vstd::string::*;
use core::ops::Range;

verus! {

/// The closed set of token kinds the scanner can produce.
#[derive(PartialEq, Eq, Structural, Clone, Copy, Debug)]
pub enum Tag {
    Invalid,
    Eof,
    Identifier,
    LParen,
    RParen,
    LBrace,
    RBrace,
    Semicolon,
    NumberLiteral,
    KInt,
    KVoid,
    KReturn,
    OpNegation,
    OpComplement,
}

/// A token: a kind together with the character span it covers in the
/// source buffer. Tokens own no text.
#[derive(PartialEq, Debug)]
pub struct Token {
    pub tag: Tag,
    pub range: Range<usize>,
}

/// Ghost image of a token: its kind and character span.
pub struct TokenModel {
    pub tag: Tag,
    pub start: int,
    pub end: int,
}

impl View for Token {
    type V = TokenModel;

    open spec fn view(&self) -> TokenModel {
        TokenModel { tag: self.tag, start: self.range.start as int, end: self.range.end as int }
    }
}

/// Characters skipped between tokens.
pub open spec fn is_space_char(c: char) -> bool {
    c == ' ' || c == '\n' || c == '\t' || c == '\r'
}

/// Characters that may start an identifier.
pub open spec fn is_letter_char(c: char) -> bool {
    ('a' as u32 <= c as u32 && c as u32 <= 'z' as u32) || ('A' as u32 <= c as u32 && c as u32
        <= 'Z' as u32) || c == '_'
}

/// Decimal digits.
pub open spec fn is_digit_char(c: char) -> bool {
    '0' as u32 <= c as u32 && c as u32 <= '9' as u32
}

/// Characters that may continue an identifier.
pub open spec fn is_ident_char(c: char) -> bool {
    is_letter_char(c) || is_digit_char(c)
}

/// Single-character punctuation and operator tokens.
pub open spec fn punct_tag(c: char) -> Option<Tag> {
    if c == '(' {
        Some(Tag::LParen)
    } else if c == ')' {
        Some(Tag::RParen)
    } else if c == '{' {
        Some(Tag::LBrace)
    } else if c == '}' {
        Some(Tag::RBrace)
    } else if c == ';' {
        Some(Tag::Semicolon)
    } else if c == '-' {
        Some(Tag::OpNegation)
    } else if c == '~' {
        Some(Tag::OpComplement)
    } else {
        None
    }
}

/// The keyword table: the tag for an identifier spelling that is reserved.
pub open spec fn spec_keyword(w: Seq<char>) -> Option<Tag> {
    if w == "int"@ {
        Some(Tag::KInt)
    } else if w == "void"@ {
        Some(Tag::KVoid)
    } else if w == "return"@ {
        Some(Tag::KReturn)
    } else {
        None
    }
}

/// The tag an identifier-shaped word lexes to: its keyword tag if reserved,
/// otherwise the generic identifier tag.
pub open spec fn keyword_or_identifier(w: Seq<char>) -> Tag {
    match spec_keyword(w) {
        Some(t) => t,
        None => Tag::Identifier,
    }
}

/// One past the last position of the identifier run beginning at `i`
/// (maximal munch).
pub open spec fn ident_end(s: Seq<char>, i: int) -> int
    decreases s.len() - i,
{
    if 0 <= i < s.len() && is_ident_char(s[i]) {
        ident_end(s, i + 1)
    } else {
        i
    }
}

/// One past the last position of the digit run beginning at `i`
/// (maximal munch).
pub open spec fn digits_end(s: Seq<char>, i: int) -> int
    decreases s.len() - i,
{
    if 0 <= i < s.len() && is_digit_char(s[i]) {
        digits_end(s, i + 1)
    } else {
        i
    }
}

/// The result of scanning one token: its kind, its character span, and the
/// cursor position after it.
pub struct ScanTok {
    pub tag: Tag,
    pub start: int,
    pub end: int,
    pub next: int,
}

/// The mathematical scanner: the token found when scanning `s` from
/// position `pos`. Whitespace is skipped; identifiers and integer literals
/// are maximal munch; punctuation is a single character; any other
/// character yields a single-character invalid token; the end of the buffer
/// yields a zero-length end-of-input token whose `next` lies past the
/// buffer, which marks the scanner as exhausted.
pub open spec fn scan(s: Seq<char>, pos: int) -> ScanTok
    decreases s.len() - pos,
{
    if pos < 0 || pos >= s.len() {
        ScanTok { tag: Tag::Eof, start: pos, end: pos, next: pos + 1 }
    } else if is_space_char(s[pos]) {
        scan(s, pos + 1)
    } else if is_letter_char(s[pos]) {
        let end = ident_end(s, pos + 1);
        ScanTok { tag: keyword_or_identifier(s.subrange(pos, end)), start: pos, end, next: end }
    } else if is_digit_char(s[pos]) {
        let end = digits_end(s, pos + 1);
        ScanTok { tag: Tag::NumberLiteral, start: pos, end, next: end }
    } else {
        match punct_tag(s[pos]) {
            Some(t) => ScanTok { tag: t, start: pos, end: pos + 1, next: pos + 1 },
            None => ScanTok { tag: Tag::Invalid, start: pos, end: pos + 1, next: pos + 1 },
        }
    }
}

impl Tag {
    /// Looks an identifier spelling up in the keyword table.
    pub fn get_keyword(key: &str) -> (r: Option<Tag>)
        ensures
            r == spec_keyword(key@),
    {
        if str_eq(key, "int") {
            Some(Tag::KInt)
        } else if str_eq(key, "void") {
            Some(Tag::KVoid)
        } else if str_eq(key, "return") {
            Some(Tag::KReturn)
        } else {
            None
        }
    }
}

/// Character-by-character string comparison.
fn str_eq(a: &str, b: &str) -> (r: bool)
    ensures
        r == (a@ == b@),
{
    let na = a.unicode_len();
    let nb = b.unicode_len();
    if na != nb {
        return false;
    }
    let mut k: usize = 0;
    while k < na
        invariant
            k <= na,
            na == a@.len(),
            na == b@.len(),
            forall|j: int| 0 <= j < k ==> a@[j] == b@[j],
        decreases na - k,
    {
        if a.get_char(k) != b.get_char(k) {
            return false;
        }
        k += 1;
    }
    proof {
        assert(a@ =~= b@);
    }
    true
}

fn is_space(c: char) -> (r: bool)
    ensures
        r == is_space_char(c),
{
    c == ' ' || c == '\n' || c == '\t' || c == '\r'
}

fn is_letter(c: char) -> (r: bool)
    ensures
        r == is_letter_char(c),
{
    ('a' as u32 <= c as u32 && c as u32 <= 'z' as u32) || ('A' as u32 <= c as u32 && c as u32
        <= 'Z' as u32) || c == '_'
}

fn is_digit(c: char) -> (r: bool)
    ensures
        r == is_digit_char(c),
{
    '0' as u32 <= c as u32 && c as u32 <= '9' as u32
}

fn punct_lookup(c: char) -> (r: Option<Tag>)
    ensures
        r == punct_tag(c),
{
    if c == '(' {
        Some(Tag::LParen)
    } else if c == ')' {
        Some(Tag::RParen)
    } else if c == '{' {
        Some(Tag::LBrace)
    } else if c == '}' {
        Some(Tag::RBrace)
    } else if c == ';' {
        Some(Tag::Semicolon)
    } else if c == '-' {
        Some(Tag::OpNegation)
    } else if c == '~' {
        Some(Tag::OpComplement)
    } else {
        None
    }
}

/// Ghost image of the scanner state: the source buffer and the cursor.
pub struct LexerModel {
    pub buffer: Seq<char>,
    pub index: int,
}

/// The scanner: a source buffer and a cursor position (in characters).
pub struct Lexer {
    pub buffer: String,
    index: usize,
}

impl View for Lexer {
    type V = LexerModel;

    closed spec fn view(&self) -> LexerModel {
        LexerModel { buffer: self.buffer@, index: self.index as int }
    }
}

impl Lexer {
    /// The scanner may produce another token: the end-of-input token has not
    /// been delivered yet. Calling [`Lexer::next`] requires this; delivering
    /// the end-of-input token gives it up for good.
    pub open spec fn ready(&self) -> bool {
        self@.index <= self@.buffer.len() && self@.buffer.len() < usize::MAX
    }

    /// Makes a scanner over the given source text, positioned at its start.
    pub fn load_test_str(s: &str) -> (r: Self)
        requires
            s@.len() < usize::MAX,
        ensures
            r@.buffer == s@,
            r@.index == 0,
    {
        Lexer { buffer: s.to_owned(), index: 0 }
    }

    /// Scans the next token and advances the cursor past it, as the
    /// mathematical scanner [`scan`] describes. After the end-of-input token
    /// has been returned the scanner is exhausted: the cursor stands past
    /// the buffer and `next` may not be called again.
    pub fn next(&mut self) -> (r: Token)
        requires
            old(self).ready(),
        ensures
            final(self)@.buffer == old(self)@.buffer,
            final(self)@.index == scan(old(self)@.buffer, old(self)@.index).next,
            r@.tag == scan(old(self)@.buffer, old(self)@.index).tag,
            r@.start == scan(old(self)@.buffer, old(self)@.index).start,
            r@.end == scan(old(self)@.buffer, old(self)@.index).end,
    {
        let ghost buf = self.buffer@;
        let ghost pos0 = self.index as int;
        let len = self.buffer.as_str().unicode_len();
        while self.index < len && is_space(self.buffer.as_str().get_char(self.index))
            invariant
                self@.buffer == buf,
                self.index <= len,
                len == buf.len(),
                len < usize::MAX,
                scan(buf, pos0) == scan(buf, self.index as int),
            decreases len - self.index,
        {
            self.index += 1;
        }
        if self.index == len {
            self.index = len + 1;
            return Token { tag: Tag::Eof, range: len..len };
        }
        let start = self.index;
        let c = self.buffer.as_str().get_char(start);
        if is_letter(c) {
            let mut j = start + 1;
            while j < len && is_ident(self.buffer.as_str().get_char(j))
                invariant
                    self@.buffer == buf,
                    start + 1 <= j <= len,
                    len == buf.len(),
                    ident_end(buf, start + 1) == ident_end(buf, j as int),
                decreases len - j,
            {
                j += 1;
            }
            let word = self.buffer.as_str().substring_char(start, j);
            let tag = match Tag::get_keyword(word) {
                Some(t) => t,
                None => Tag::Identifier,
            };
            self.index = j;
            Token { tag, range: start..j }
        } else if is_digit(c) {
            let mut j = start + 1;
            while j < len && is_digit(self.buffer.as_str().get_char(j))
                invariant
                    self@.buffer == buf,
                    start + 1 <= j <= len,
                    len == buf.len(),
                    digits_end(buf, start + 1) == digits_end(buf, j as int),
                decreases len - j,
            {
                j += 1;
            }
            self.index = j;
            Token { tag: Tag::NumberLiteral, range: start..j }
        } else {
            let tag = match punct_lookup(c) {
                Some(t) => t,
                None => Tag::Invalid,
            };
            self.index = start + 1;
            Token { tag, range: start..start + 1 }
        }
    }
}

fn is_ident(c: char) -> (r: bool)
    ensures
        r == is_ident_char(c),
{
    is_letter(c) || is_digit(c)
}

/// The identifier run beginning at `i` stays within the buffer.
pub proof fn lemma_ident_end_bounds(s: Seq<char>, i: int)
    requires
        0 <= i <= s.len(),
    ensures
        i <= ident_end(s, i) <= s.len(),
    decreases s.len() - i,
{
    if i < s.len() && is_ident_char(s[i]) {
        lemma_ident_end_bounds(s, i + 1);
    }
}

/// The digit run beginning at `i` stays within the buffer.
pub proof fn lemma_digits_end_bounds(s: Seq<char>, i: int)
    requires
        0 <= i <= s.len(),
    ensures
        i <= digits_end(s, i) <= s.len(),
    decreases s.len() - i,
{
    if i < s.len() && is_digit_char(s[i]) {
        lemma_digits_end_bounds(s, i + 1);
    }
}

/// Every character of the identifier run is an identifier character, and
/// the run is maximal: the character after it, if any, is not one.
proof fn lemma_ident_end_chars(s: Seq<char>, i: int)
    requires
        0 <= i <= s.len(),
    ensures
        i <= ident_end(s, i) <= s.len(),
        forall|k: int| i <= k < ident_end(s, i) ==> is_ident_char(s[k]),
        ident_end(s, i) < s.len() ==> !is_ident_char(s[ident_end(s, i)]),
    decreases s.len() - i,
{
    if i < s.len() && is_ident_char(s[i]) {
        lemma_ident_end_chars(s, i + 1);
    }
}

/// A run of identifier characters that ends at the buffer end or at a
/// non-identifier character is exactly what maximal munch finds.
proof fn lemma_ident_end_determined(s: Seq<char>, a: int, b: int)
    requires
        0 <= a <= b <= s.len(),
        forall|k: int| a <= k < b ==> is_ident_char(s[k]),
        b == s.len() || !is_ident_char(s[b]),
    ensures
        ident_end(s, a) == b,
    decreases b - a,
{
    if a < b {
        lemma_ident_end_determined(s, a + 1, b);
    }
}

/// As [`lemma_ident_end_chars`], for digit runs.
proof fn lemma_digits_end_chars(s: Seq<char>, i: int)
    requires
        0 <= i <= s.len(),
    ensures
        i <= digits_end(s, i) <= s.len(),
        forall|k: int| i <= k < digits_end(s, i) ==> is_digit_char(s[k]),
        digits_end(s, i) < s.len() ==> !is_digit_char(s[digits_end(s, i)]),
    decreases s.len() - i,
{
    if i < s.len() && is_digit_char(s[i]) {
        lemma_digits_end_chars(s, i + 1);
    }
}

/// As [`lemma_ident_end_determined`], for digit runs.
proof fn lemma_digits_end_determined(s: Seq<char>, a: int, b: int)
    requires
        0 <= a <= b <= s.len(),
        forall|k: int| a <= k < b ==> is_digit_char(s[k]),
        b == s.len() || !is_digit_char(s[b]),
    ensures
        digits_end(s, a) == b,
    decreases b - a,
{
    if a < b {
        lemma_digits_end_determined(s, a + 1, b);
    }
}

/// Where the scanner's result lies: the span starts at or after the scan
/// position; a real token has a non-empty span ending where the cursor
/// continues, still inside the buffer; the end-of-input token has an empty
/// span at the buffer end and leaves the cursor past the buffer.
pub proof fn lemma_scan_bounds(s: Seq<char>, pos: int)
    requires
        0 <= pos <= s.len(),
    ensures
        pos <= scan(s, pos).start <= scan(s, pos).end <= s.len(),
        scan(s, pos).tag == Tag::Eof ==> scan(s, pos).start == s.len() && scan(s, pos).end
            == s.len() && scan(s, pos).next == s.len() + 1,
        scan(s, pos).tag != Tag::Eof ==> scan(s, pos).start < scan(s, pos).end && scan(s, pos).next
            == scan(s, pos).end && pos < scan(s, pos).next,
    decreases s.len() - pos,
{
    if pos >= s.len() {
    } else if is_space_char(s[pos]) {
        lemma_scan_bounds(s, pos + 1);
    } else if is_letter_char(s[pos]) {
        lemma_ident_end_bounds(s, pos + 1);
    } else if is_digit_char(s[pos]) {
        lemma_digits_end_bounds(s, pos + 1);
    }
}

/// Lexing is idempotent on token boundaries: scanning, in isolation, the
/// exact substring a token's span denotes yields a token of the same kind.
pub proof fn lemma_token_relex(s: Seq<char>, pos: int)
    requires
        0 <= pos <= s.len(),
    ensures
        scan(s.subrange(scan(s, pos).start, scan(s, pos).end), 0).tag == scan(s, pos).tag,
    decreases s.len() - pos,
{
    let t = scan(s, pos);
    if pos >= s.len() {
        assert(s.subrange(pos, pos) =~= Seq::<char>::empty());
    } else if is_space_char(s[pos]) {
        lemma_token_relex(s, pos + 1);
    } else if is_letter_char(s[pos]) {
        let end = ident_end(s, pos + 1);
        lemma_ident_end_chars(s, pos + 1);
        let sub = s.subrange(pos, end);
        assert(sub[0] == s[pos]);
        assert(forall|k: int| 1 <= k < sub.len() ==> is_ident_char(#[trigger] sub[k]));
        lemma_ident_end_determined(sub, 1, sub.len() as int);
        assert(sub.subrange(0, sub.len() as int) =~= sub);
    } else if is_digit_char(s[pos]) {
        let end = digits_end(s, pos + 1);
        lemma_digits_end_chars(s, pos + 1);
        let sub = s.subrange(pos, end);
        assert(sub[0] == s[pos]);
        assert(forall|k: int| 1 <= k < sub.len() ==> is_digit_char(#[trigger] sub[k]));
        lemma_digits_end_determined(sub, 1, sub.len() as int);
    } else {
        let sub = s.subrange(pos, pos + 1);
        assert(sub[0] == s[pos]);
    }
}

} // verus!
