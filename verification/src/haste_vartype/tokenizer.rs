//! Splits a variable type into tokens, with the byte range of each.

use crate::haste_vartype::error::Error;
use crate::haste_vartype::span::Span;
use vstd::prelude::*;
use vstd::string::StrSliceExecFns;

verus! {

/// What a token is: punctuation, an identifier or a number, with its text.
#[derive(Debug, PartialEq, Eq, Clone)]
pub enum TokenKind<'a> {
    LAngle,
    RAngle,
    LSquare,
    RSquare,
    Asterisk,
    Ident(&'a str),
    Lit(&'a str),
}

/// A token and the byte range of the input it covers.
#[derive(Debug, PartialEq, Eq, Clone)]
pub struct Token<'a> {
    pub kind: TokenKind<'a>,
    pub span: Span,
}

/// The kind of a token, without its text.
#[derive(Debug, Clone, Copy, PartialEq, Eq, Structural)]
pub enum SpecKind {
    LAngle,
    RAngle,
    LSquare,
    RSquare,
    Asterisk,
    Ident,
    Lit,
}

/// A token as its kind and the range `[start, end)` of character indices it covers.
pub type SpecToken = (SpecKind, int, int);

/// An ASCII letter.
pub open spec fn is_alpha(c: char) -> bool {
    (65 <= c as u32 <= 90) || (97 <= c as u32 <= 122)
}

/// An ASCII digit.
pub open spec fn is_digit(c: char) -> bool {
    48 <= c as u32 <= 57
}

/// A character that may continue an identifier: ASCII letter, digit or `_`.
pub open spec fn is_ident_char(c: char) -> bool {
    is_alpha(c) || is_digit(c) || c as u32 == 95
}

/// A character with the Unicode `White_Space` property (what `char::is_whitespace` tests).
pub open spec fn is_space(c: char) -> bool {
    let x = c as u32;
    (9 <= x <= 13) || x == 32 || x == 0x85 || x == 0xa0 || x == 0x1680 || (0x2000 <= x
        <= 0x200a) || x == 0x2028 || x == 0x2029 || x == 0x202f || x == 0x205f || x == 0x3000
}

/// The number of bytes of `c` in UTF-8.
pub open spec fn utf8_len(c: char) -> int {
    if (c as u32) < 0x80 {
        1
    } else if (c as u32) < 0x800 {
        2
    } else if (c as u32) < 0x10000 {
        3
    } else {
        4
    }
}

/// The byte offset, in UTF-8, of the character at index `i` of `text`.
pub open spec fn byte_offset(text: Seq<char>, i: int) -> int
    decreases i,
{
    if i <= 0 {
        0
    } else {
        byte_offset(text, i - 1) + utf8_len(text[i - 1])
    }
}

/// The kind of a one-character token (`<`, `>`, `[`, `]`, `*`).
pub open spec fn punct(c: char) -> Option<SpecKind> {
    let x = c as u32;
    if x == 60 {
        Some(SpecKind::LAngle)
    } else if x == 62 {
        Some(SpecKind::RAngle)
    } else if x == 91 {
        Some(SpecKind::LSquare)
    } else if x == 93 {
        Some(SpecKind::RSquare)
    } else if x == 42 {
        Some(SpecKind::Asterisk)
    } else {
        None
    }
}

/// The end of the run of identifier characters from `p`.
pub open spec fn ident_end(text: Seq<char>, p: int) -> int
    decreases text.len() - p,
{
    if 0 <= p < text.len() && is_ident_char(text[p]) {
        ident_end(text, p + 1)
    } else {
        p
    }
}

/// The end of the run of digits from `p`.
pub open spec fn digits_end(text: Seq<char>, p: int) -> int
    decreases text.len() - p,
{
    if 0 <= p < text.len() && is_digit(text[p]) {
        digits_end(text, p + 1)
    } else {
        p
    }
}

/// The end of the run of white space from `p`.
pub open spec fn space_end(text: Seq<char>, p: int) -> int
    decreases text.len() - p,
{
    if 0 <= p < text.len() && is_space(text[p]) {
        space_end(text, p + 1)
    } else {
        p
    }
}

/// The next token from character index `p` on, white space skipped, and the index after it.
/// An identifier starts with a letter and goes on with letters, digits and `_`; a number is a
/// run of digits. A character that starts no token is an error, and is passed over. `None` at
/// the end of the input.
pub open spec fn next_token_spec(text: Seq<char>, p: int) -> Option<(Result<SpecToken, char>, int)>
    decreases text.len() - p,
{
    if p < 0 || p >= text.len() {
        None
    } else {
        let c = text[p];
        if punct(c) is Some {
            Some((Ok((punct(c)->0, p, p + 1)), p + 1))
        } else if is_alpha(c) {
            let e = ident_end(text, p + 1);
            Some((Ok((SpecKind::Ident, p, e)), e))
        } else if is_digit(c) {
            let e = digits_end(text, p + 1);
            Some((Ok((SpecKind::Lit, p, e)), e))
        } else if is_space(c) {
            let q = space_end(text, p + 1);
            if p < q <= text.len() {
                next_token_spec(text, q)
            } else {
                None
            }
        } else {
            Some((Err(c), p + 1))
        }
    }
}

/// `t` is the token `st` of `text`: same kind and text, and the span is its byte range.
pub open spec fn token_matches(t: Token, st: SpecToken, text: Seq<char>) -> bool {
    &&& match t.kind {
        TokenKind::LAngle => st.0 == SpecKind::LAngle,
        TokenKind::RAngle => st.0 == SpecKind::RAngle,
        TokenKind::LSquare => st.0 == SpecKind::LSquare,
        TokenKind::RSquare => st.0 == SpecKind::RSquare,
        TokenKind::Asterisk => st.0 == SpecKind::Asterisk,
        TokenKind::Ident(x) => st.0 == SpecKind::Ident && x@ == text.subrange(st.1, st.2),
        TokenKind::Lit(x) => st.0 == SpecKind::Lit && x@ == text.subrange(st.1, st.2),
    }
    &&& t.span.start == byte_offset(text, st.1)
    &&& t.span.end == byte_offset(text, st.2)
}

/// What the tokenizer hands out for the spec result `s`.
pub open spec fn result_matches(
    r: Option<Result<Token, Error>>,
    s: Option<(Result<SpecToken, char>, int)>,
    text: Seq<char>,
) -> bool {
    match s {
        None => r is None,
        Some((Ok(st), _)) => r matches Some(Ok(t)) && token_matches(t, st, text),
        Some((Err(c), _)) => r == Some(Err::<Token, Error>(Error::UnknownChar(c))),
    }
}

/// The input fits byte ranges of `u16`.
pub open spec fn fits_spans(text: Seq<char>) -> bool {
    byte_offset(text, text.len() as int) <= u16::MAX
}

/// Byte offsets grow with the character index.
pub proof fn lemma_byte_offset_monotone(text: Seq<char>, i: int, j: int)
    requires
        0 <= i <= j,
    ensures
        byte_offset(text, i) <= byte_offset(text, j),
    decreases j,
{
    if i < j {
        lemma_byte_offset_monotone(text, i, j - 1);
    }
}

/// Counting bytes from the second character on leaves out the first character's bytes.
proof fn lemma_byte_offset_drop_first(text: Seq<char>, i: int)
    requires
        1 <= i <= text.len(),
    ensures
        byte_offset(text, i) == utf8_len(text[0]) + byte_offset(text.drop_first(), i - 1),
    decreases i,
{
    if i > 1 {
        lemma_byte_offset_drop_first(text, i - 1);
        assert(text.drop_first()[i - 2] == text[i - 1]);
    } else {
        assert(byte_offset(text, 0) == 0);
        assert(byte_offset(text.drop_first(), 0) == 0);
    }
}

/// The byte offset of the end of the input is the length of its UTF-8 encoding.
proof fn lemma_byte_offset_encoded(text: Seq<char>)
    ensures
        byte_offset(text, text.len() as int) == vstd::utf8::encode_utf8(text).len(),
    decreases text.len(),
{
    if text.len() > 0 {
        lemma_byte_offset_encoded(text.drop_first());
        lemma_byte_offset_drop_first(text, text.len() as int);
        vstd::utf8::char_is_scalar(text[0]);
        assert(vstd::utf8::encode_scalar(text[0] as u32).len() == utf8_len(text[0]));
    }
}

/// Each bracket character and the asterisk is a token of its own, named after it: `<` and `>`
/// are angle brackets, `[` and `]` square brackets, `*` an asterisk; the token covers just that
/// character.
pub proof fn lemma_punctuation_tokens(text: Seq<char>, p: int)
    requires
        0 <= p < text.len(),
    ensures
        text[p] == '<' ==> next_token_spec(text, p) == Some((Ok::<SpecToken, char>((SpecKind::LAngle, p, p + 1)), p + 1)),
        text[p] == '>' ==> next_token_spec(text, p) == Some((Ok::<SpecToken, char>((SpecKind::RAngle, p, p + 1)), p + 1)),
        text[p] == '[' ==> next_token_spec(text, p) == Some((Ok::<SpecToken, char>((SpecKind::LSquare, p, p + 1)), p + 1)),
        text[p] == ']' ==> next_token_spec(text, p) == Some((Ok::<SpecToken, char>((SpecKind::RSquare, p, p + 1)), p + 1)),
        text[p] == '*' ==> next_token_spec(text, p) == Some((Ok::<SpecToken, char>((SpecKind::Asterisk, p, p + 1)), p + 1)),
{
}

/// A token read from `p` ends after `p`, within the input.
pub proof fn lemma_next_token_advances(text: Seq<char>, p: int)
    requires
        next_token_spec(text, p) is Some,
    ensures
        p < (next_token_spec(text, p)->0).1 <= text.len(),
        (next_token_spec(text, p)->0).0 matches Ok(st) ==> p <= st.1 < st.2 == (next_token_spec(
            text,
            p,
        )->0).1,
    decreases text.len() - p,
{
    let c = text[p];
    if punct(c) is Some {
    } else if is_alpha(c) {
        lemma_run_end(text, p + 1, 0);
    } else if is_digit(c) {
        lemma_run_end(text, p + 1, 1);
    } else if is_space(c) {
        let q = space_end(text, p + 1);
        lemma_run_end(text, p + 1, 2);
        lemma_next_token_advances(text, q);
    }
}

/// The end of a run from `p` lies between `p` and the end of the input (for `p` inside it).
proof fn lemma_run_end(text: Seq<char>, p: int, which: int)
    requires
        0 <= p <= text.len(),
    ensures
        which == 0 ==> p <= ident_end(text, p) <= text.len(),
        which == 1 ==> p <= digits_end(text, p) <= text.len(),
        which == 2 ==> p <= space_end(text, p) <= text.len(),
    decreases text.len() - p,
{
    if p < text.len() {
        lemma_run_end(text, p + 1, which);
    }
}

/// Whether `c` is an ASCII letter.
pub fn is_ident_start(c: char) -> (r: bool)
    ensures
        r == is_alpha(c),
{
    let x = c as u32;
    (65 <= x && x <= 90) || (97 <= x && x <= 122)
}

/// Whether `c` may continue an identifier.
pub fn is_ident_continue(c: char) -> (r: bool)
    ensures
        r == is_ident_char(c),
{
    let x = c as u32;
    (65 <= x && x <= 90) || (97 <= x && x <= 122) || (48 <= x && x <= 57) || x == 95
}

/// Whether `c` is an ASCII digit.
pub fn is_ascii_digit(c: char) -> (r: bool)
    ensures
        r == is_digit(c),
{
    let x = c as u32;
    48 <= x && x <= 57
}

/// Whether `c` is white space in Unicode's sense.
pub fn is_whitespace(c: char) -> (r: bool)
    ensures
        r == is_space(c),
{
    let x = c as u32;
    (9 <= x && x <= 13) || x == 32 || x == 0x85 || x == 0xa0 || x == 0x1680 || (0x2000 <= x && x
        <= 0x200a) || x == 0x2028 || x == 0x2029 || x == 0x202f || x == 0x205f || x == 0x3000
}

/// The number of bytes of `c` in UTF-8.
pub fn len_utf8(c: char) -> (r: usize)
    ensures
        r == utf8_len(c),
{
    let x = c as u32;
    if x < 0x80 {
        1
    } else if x < 0x800 {
        2
    } else if x < 0x10000 {
        3
    } else {
        4
    }
}

/// Reads tokens from the front of a variable type.
#[derive(Debug, Clone)]
pub struct Tokenizer<'a> {
    input: &'a str,
    len: usize,
    index: usize,
    offset: usize,
}

impl<'a> Tokenizer<'a> {
    /// The input's characters.
    pub closed spec fn text(&self) -> Seq<char> {
        self.input@
    }

    /// The index of the next character to read.
    pub closed spec fn index(&self) -> int {
        self.index as int
    }

    /// The byte offset of the next character to read.
    pub closed spec fn offset(&self) -> int {
        self.offset as int
    }

    /// The position lies inside the input, and the offset is its byte offset.
    pub closed spec fn wf(&self) -> bool {
        &&& self.len == self.input@.len()
        &&& self.index <= self.len
        &&& self.offset == byte_offset(self.input@, self.index as int)
        &&& self.offset <= usize::MAX
        &&& byte_offset(self.input@, self.input@.len() as int) <= usize::MAX
    }

    /// The character consumed last, if any.
    pub open spec fn last_consumed(&self) -> Option<char> {
        if self.index() > 0 {
            Some(self.text()[self.index() - 1])
        } else {
            None
        }
    }

    /// The tokenizer's facts, for callers.
    pub proof fn lemma_wf(&self)
        requires
            self.wf(),
        ensures
            0 <= self.index() <= self.text().len(),
            self.offset() == byte_offset(self.text(), self.index()),
    {
    }

    /// A tokenizer at the start of `input`.
    pub fn new(input: &'a str) -> (r: Self)
        ensures
            r.wf(),
            r.text() == input@,
            r.index() == 0,
            r.offset() == 0,
    {
        let len = input.unicode_len();
        let _byte_len = input.as_bytes().len();
        proof {
            lemma_byte_offset_encoded(input@);
        }
        Tokenizer { input, len, index: 0, offset: 0 }
    }

    /// The next character, not consumed.
    pub fn peek_char(&self) -> (r: Option<char>)
        requires
            self.wf(),
        ensures
            r == (if self.index() < self.text().len() {
                Some(self.text()[self.index()])
            } else {
                None
            }),
    {
        if self.index < self.len {
            Some(self.input.get_char(self.index))
        } else {
            None
        }
    }

    /// Consumes and returns the next character.
    pub fn next_char(&mut self) -> (r: Option<char>)
        requires
            old(self).wf(),
        ensures
            final(self).wf(),
            final(self).text() == old(self).text(),
            old(self).index() < old(self).text().len() ==> r == Some(
                old(self).text()[old(self).index()],
            ) && final(self).index() == old(self).index() + 1,
            old(self).index() >= old(self).text().len() ==> r is None && final(self).index()
                == old(self).index(),
    {
        if self.index < self.len {
            let ch = self.input.get_char(self.index);
            proof {
                lemma_byte_offset_monotone(self.input@, self.index + 1, self.len as int);
            }
            self.offset = self.offset + len_utf8(ch);
            self.index = self.index + 1;
            Some(ch)
        } else {
            None
        }
    }

    /// The character before the position.
    pub fn prev_char(&self) -> (r: Option<char>)
        requires
            self.wf(),
        ensures
            r == self.last_consumed(),
    {
        if self.index > 0 {
            Some(self.input.get_char(self.index - 1))
        } else {
            None
        }
    }

    /// Consumes characters while `func` accepts them, and returns how many it consumed.
    pub fn eat_while<F: Fn(char) -> bool>(&mut self, func: F) -> (n: usize)
        requires
            old(self).wf(),
            forall|c: char| call_requires(func, (c,)),
        ensures
            final(self).wf(),
            final(self).text() == old(self).text(),
            final(self).index() == old(self).index() + n,
            forall|k: int|
                old(self).index() <= k < final(self).index() ==> call_ensures(
                    func,
                    (#[trigger] old(self).text()[k],),
                    true,
                ),
            final(self).index() < old(self).text().len() ==> call_ensures(
                func,
                (old(self).text()[final(self).index()],),
                false,
            ),
    {
        let mut n: usize = 0;
        loop
            invariant
                self.wf(),
                self.text() == old(self).text(),
                self.index() == old(self).index() + n,
                forall|c: char| call_requires(func, (c,)),
                forall|k: int|
                    old(self).index() <= k < self.index() ==> call_ensures(
                        func,
                        (#[trigger] old(self).text()[k],),
                        true,
                    ),
            ensures
                self.wf(),
                self.text() == old(self).text(),
                self.index() == old(self).index() + n,
                forall|k: int|
                    old(self).index() <= k < self.index() ==> call_ensures(
                        func,
                        (#[trigger] old(self).text()[k],),
                        true,
                    ),
                self.index() < old(self).text().len() ==> call_ensures(
                    func,
                    (old(self).text()[self.index()],),
                    false,
                ),
            decreases self.len - self.index,
        {
            let ch = match self.peek_char() {
                Some(ch) => ch,
                None => break,
            };
            if !func(ch) {
                break;
            }
            n = n + 1;
            proof {
                lemma_byte_offset_monotone(self.input@, self.index + 1, self.len as int);
            }
            self.offset = self.offset + len_utf8(ch);
            self.index = self.index + 1;
        }
        n
    }

    /// The byte offset of the character before the position (the position's offset at the
    /// start).
    pub fn prev_offset(&self) -> (r: usize)
        requires
            self.wf(),
        ensures
            r == byte_offset(self.text(), if self.index() > 0 {
                self.index() - 1
            } else {
                0
            }),
    {
        proof {
            if self.index > 0 {
                lemma_byte_offset_monotone(self.input@, 0, self.index - 1);
            }
        }
        match self.prev_char() {
            Some(ch) => self.offset - len_utf8(ch),
            None => self.offset,
        }
    }

    /// The token of kind `kind` made of the character just consumed.
    fn emit(&self, kind: TokenKind<'a>) -> (r: Token<'a>)
        requires
            self.wf(),
            fits_spans(self.text()),
            self.index() > 0,
        ensures
            r.kind == kind,
            r.span.start == byte_offset(self.text(), self.index() - 1),
            r.span.end == byte_offset(self.text(), self.index()),
    {
        proof {
            lemma_byte_offset_monotone(self.input@, self.index as int, self.len as int);
        }
        let start = self.prev_offset();
        let end = self.offset;
        Token { kind, span: Span::new(start as u16, end as u16) }
    }

    /// Consumes the rest of a run whose first character was just consumed, and returns the
    /// run's text and span.
    fn emit_run(&mut self, digits: bool) -> (r: (&'a str, Span))
        requires
            old(self).wf(),
            fits_spans(old(self).text()),
            old(self).index() > 0,
        ensures
            final(self).wf(),
            final(self).text() == old(self).text(),
            final(self).index() == (if digits {
                digits_end(old(self).text(), old(self).index())
            } else {
                ident_end(old(self).text(), old(self).index())
            }),
            r.0@ == old(self).text().subrange(old(self).index() - 1, final(self).index()),
            r.1.start == byte_offset(old(self).text(), old(self).index() - 1),
            r.1.end == byte_offset(old(self).text(), final(self).index()),
    {
        let start = self.prev_offset();
        let first = self.index - 1;
        let ghost p = self.index as int;
        if digits {
            self.eat_while(is_ascii_digit);
            proof {
                lemma_run_matches(self.input@, p, self.index as int, 1);
            }
        } else {
            self.eat_while(is_ident_continue);
            proof {
                lemma_run_matches(self.input@, p, self.index as int, 0);
            }
        }
        proof {
            lemma_byte_offset_monotone(self.input@, first as int, self.index as int);
            lemma_byte_offset_monotone(self.input@, self.index as int, self.len as int);
        }
        let text = self.input.substring_char(first, self.index);
        (text, Span::new(start as u16, self.offset as u16))
    }

    /// Consumes white space.
    fn eat_whitespace(&mut self)
        requires
            old(self).wf(),
        ensures
            final(self).wf(),
            final(self).text() == old(self).text(),
            final(self).index() == space_end(old(self).text(), old(self).index()),
    {
        let ghost p = self.index as int;
        self.eat_while(is_whitespace);
        proof {
            lemma_run_matches(self.input@, p, self.index as int, 2);
        }
    }

    /// The next token, or the error of a character that starts none, or `None` at the end:
    /// see [`next_token_spec`].
    pub fn next(&mut self) -> (r: Option<Result<Token<'a>, Error>>)
        requires
            old(self).wf(),
            fits_spans(old(self).text()),
        ensures
            final(self).wf(),
            final(self).text() == old(self).text(),
            result_matches(r, next_token_spec(old(self).text(), old(self).index()), old(self).text()),
            final(self).index() == match next_token_spec(old(self).text(), old(self).index()) {
                None => old(self).text().len() as int,
                Some(t) => t.1,
            },
    {
        let ghost t = self.input@;
        loop
            invariant
                self.wf(),
                self.text() == t,
                t == old(self).text(),
                fits_spans(t),
                next_token_spec(t, old(self).index()) == next_token_spec(t, self.index()),
            decreases self.len - self.index,
        {
            let ghost p = self.index as int;
            let ch = match self.next_char() {
                Some(ch) => ch,
                None => return None,
            };
            let x = ch as u32;
            if x == 60 {
                return Some(Ok(self.emit(TokenKind::LAngle)));
            } else if x == 62 {
                return Some(Ok(self.emit(TokenKind::RAngle)));
            } else if x == 91 {
                return Some(Ok(self.emit(TokenKind::LSquare)));
            } else if x == 93 {
                return Some(Ok(self.emit(TokenKind::RSquare)));
            } else if x == 42 {
                return Some(Ok(self.emit(TokenKind::Asterisk)));
            } else if is_ident_start(ch) {
                let (text, span) = self.emit_run(false);
                return Some(Ok(Token { kind: TokenKind::Ident(text), span }));
            } else if is_ascii_digit(ch) {
                let (text, span) = self.emit_run(true);
                return Some(Ok(Token { kind: TokenKind::Lit(text), span }));
            } else if is_whitespace(ch) {
                self.eat_whitespace();
                proof {
                    lemma_run_end(t, p + 1, 2);
                }
            } else {
                return Some(Err(Error::UnknownChar(ch)));
            }
        }
    }
}

/// A run that a predicate accepted up to `q`, and that stops at `q`, ends at `q`.
proof fn lemma_run_matches(text: Seq<char>, p: int, q: int, which: int)
    requires
        0 <= p <= q <= text.len(),
        which == 0 ==> (forall|k: int| p <= k < q ==> call_ensures(is_ident_continue, (#[trigger] text[k],), true)) && (q < text.len() ==> call_ensures(is_ident_continue, (text[q],), false)),
        which == 1 ==> (forall|k: int| p <= k < q ==> call_ensures(is_ascii_digit, (#[trigger] text[k],), true)) && (q < text.len() ==> call_ensures(is_ascii_digit, (text[q],), false)),
        which == 2 ==> (forall|k: int| p <= k < q ==> call_ensures(is_whitespace, (#[trigger] text[k],), true)) && (q < text.len() ==> call_ensures(is_whitespace, (text[q],), false)),
    ensures
        which == 0 ==> ident_end(text, p) == q,
        which == 1 ==> digits_end(text, p) == q,
        which == 2 ==> space_end(text, p) == q,
    decreases q - p,
{
    if p < q {
        lemma_run_matches(text, p + 1, q, which);
    }
}

/// A fresh tokenizer has consumed nothing: `prev_char` gives `None`.
pub proof fn lemma_prev_char_fresh(t: Tokenizer)
    requires
        t.index() == 0,
    ensures
        t.last_consumed() is None,
{
}

/// After `next_char` gave `Some(c)` (it moved from `t` to `u`), `prev_char` gives `Some(c)`.
pub proof fn lemma_prev_char_after_next_char(t: Tokenizer, u: Tokenizer, c: char)
    requires
        u.text() == t.text(),
        t.index() < t.text().len(),
        Some(c) == Some(t.text()[t.index()]),
        u.index() == t.index() + 1,
    ensures
        u.last_consumed() == Some(c),
{
}

/// After `eat_while` consumed `n > 0` characters (it moved from `t` to `u`), `prev_char` gives
/// the last of them.
pub proof fn lemma_prev_char_after_eat_while(t: Tokenizer, u: Tokenizer, n: int)
    requires
        u.text() == t.text(),
        n > 0,
        u.index() == t.index() + n,
        0 <= t.index(),
        u.index() <= t.text().len(),
    ensures
        u.last_consumed() == Some(t.text()[t.index() + n - 1]),
{
}

} // verus!
