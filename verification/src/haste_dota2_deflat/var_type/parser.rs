use super::tokenizer::{
    bwd_ok, bwd_token, is_digit, is_word, token_is, word_start, SpecTok, TokKind, Token,
    Tokenizer,
};
use vstd::prelude::*;
use vstd::string::{is_ascii, StringSliceAdditionalSpecFns};

verus! {

broadcast use vstd::string::group_string_axioms;

/// The length of a fixed size array: a named constant or a number.
#[derive(Debug, PartialEq, Clone)]
pub enum ArrayLength<'a> {
    Ident(&'a str),
    Number(usize),
}

/// A parsed type declaration.
#[derive(Debug, PartialEq)]
pub enum Decl<'a> {
    Ident(&'a str),
    Pointer(Box<Decl<'a>>),
    Template { ident: &'a str, argument: Box<Decl<'a>> },
    Array { decl: Box<Decl<'a>>, length: ArrayLength<'a> },
}

/// An array length in terms of the input: the byte range of a name, or a number.
pub enum SpecLen {
    Ident(int, int),
    Number(nat),
}

/// A declaration in terms of the input: identifiers are byte ranges.
pub enum SpecDecl {
    Ident(int, int),
    Pointer(Box<SpecDecl>),
    Template(int, int, Box<SpecDecl>),
    Array(Box<SpecDecl>, SpecLen),
}

/// The value of a run of decimal digits.
pub open spec fn decimal_value(s: Seq<u8>) -> nat
    decreases s.len(),
{
    if s.len() == 0 {
        0
    } else {
        decimal_value(s.drop_last()) * 10 + (s.last() - 48) as nat
    }
}

/// Every byte is a decimal digit.
pub open spec fn all_digits(s: Seq<u8>) -> bool {
    forall|i: int| 0 <= i < s.len() ==> is_digit(#[trigger] s[i])
}

/// A backward token starts before the position it is read from.
pub proof fn lemma_bwd_token_before(s: Seq<u8>, e: int)
    ensures
        bwd_token(s, e) matches Some(t) ==> 0 <= t.1 < e && 0 <= tok_start(t.0) <= tok_end(t.0) <= e && tok_end(t.0)
            <= s.len() && t.1 == tok_start(t.0),
    decreases e,
{
    if e <= 0 || e > s.len() {
    } else if super::tokenizer::is_alnum(s[e - 1]) {
        lemma_word_start(s, e - 1);
    } else if super::tokenizer::punct_kind(s[e - 1]) is Some {
    } else if s[e - 1] == 32 {
        lemma_bwd_token_before(s, e - 1);
    }
}

/// The start of a word run lies before its end.
pub proof fn lemma_word_start(s: Seq<u8>, e: int)
    requires
        0 <= e <= s.len(),
    ensures
        0 <= word_start(s, e) <= e,
        forall|i: int| word_start(s, e) <= i < e ==> is_word(#[trigger] s[i]),
    decreases e,
{
    if 0 < e <= s.len() && is_word(s[e - 1]) {
        lemma_word_start(s, e - 1);
    }
}

/// Parses the declaration that ends at byte `e`, reading tokens backward: what the parser
/// returns and where it stops; `None` where the parser gives up (a token it does not expect,
/// the start of the input, a byte the tokenizer does not accept, a length that is not a
/// decimal number that fits in `usize`).
pub open spec fn parse_any_spec(s: Seq<u8>, e: int) -> Option<(SpecDecl, int)>
    decreases e,
{
    if !bwd_ok(s, e) {
        None
    } else {
        match bwd_token(s, e) {
            None => None,
            Some(t1) => {
                proof {
                    lemma_bwd_token_before(s, e);
                }
                let e1 = t1.1;
                if tok_kind(t1.0) == TokKind::Ident {
                    Some((SpecDecl::Ident(tok_start(t1.0), tok_end(t1.0)), e1))
                } else if tok_kind(t1.0) == TokKind::RAngle {
                    match parse_any_spec(s, e1) {
                        None => None,
                        Some(arg) => {
                            let e2 = arg.1;
                            if !bwd_ok(s, e2) {
                                None
                            } else {
                                match bwd_token(s, e2) {
                                    Some(t2) => if tok_kind(t2.0) == TokKind::LAngle && bwd_ok(s, t2.1) {
                                        match bwd_token(s, t2.1) {
                                            Some(t3) => if tok_kind(t3.0) == TokKind::Ident {
                                                Some(
                                                    (
                                                        SpecDecl::Template(
                                                            tok_start(t3.0),
                                                            tok_end(t3.0),
                                                            Box::new(arg.0),
                                                        ),
                                                        t3.1,
                                                    ),
                                                )
                                            } else {
                                                None
                                            },
                                            None => None,
                                        }
                                    } else {
                                        None
                                    },
                                    None => None,
                                }
                            }
                        },
                    }
                } else if tok_kind(t1.0) == TokKind::RSquare {
                    if !bwd_ok(s, e1) {
                        None
                    } else {
                        match bwd_token(s, e1) {
                            None => None,
                            Some(t2) => {
                                proof {
                                    lemma_bwd_token_before(s, e1);
                                    lemma_bwd_token_before(s, t2.1);
                                }
                                let digits = s.subrange(tok_start(t2.0), tok_end(t2.0));
                                let len = if tok_kind(t2.0) == TokKind::Ident {
                                    Some(SpecLen::Ident(tok_start(t2.0), tok_end(t2.0)))
                                } else if tok_kind(t2.0) == TokKind::Number && all_digits(digits)
                                    && decimal_value(digits) <= usize::MAX {
                                    Some(SpecLen::Number(decimal_value(digits)))
                                } else {
                                    None
                                };
                                if len is None || !bwd_ok(s, t2.1) {
                                    None
                                } else {
                                    match bwd_token(s, t2.1) {
                                        Some(t3) => if tok_kind(t3.0) == TokKind::LSquare {
                                            match parse_any_spec(s, t3.1) {
                                                Some(inner) => Some(
                                                    (
                                                        SpecDecl::Array(
                                                            Box::new(inner.0),
                                                            len->0,
                                                        ),
                                                        inner.1,
                                                    ),
                                                ),
                                                None => None,
                                            }
                                        } else {
                                            None
                                        },
                                        None => None,
                                    }
                                }
                            },
                        }
                    }
                } else if tok_kind(t1.0) == TokKind::Asterisk {
                    match parse_any_spec(s, e1) {
                        Some(inner) => Some((SpecDecl::Pointer(Box::new(inner.0)), inner.1)),
                        None => None,
                    }
                } else {
                    None
                }
            },
        }
    }
}

/// Kind of a token.
pub open spec fn tok_kind(t: SpecTok) -> TokKind {
    t.0
}

/// First byte of a token.
pub open spec fn tok_start(t: SpecTok) -> int {
    t.1
}

/// The byte after a token.
pub open spec fn tok_end(t: SpecTok) -> int {
    t.2
}

/// Kind of the token read backward from `e`.
pub open spec fn next_kind(s: Seq<u8>, e: int) -> TokKind {
    let t = bwd_token(s, e)->0;
    tok_kind(t.0)
}

/// The declaration parsed backward from `e`.
pub open spec fn parsed_decl(s: Seq<u8>, e: int) -> SpecDecl {
    let p = parse_any_spec(s, e)->0;
    p.0
}

/// Where parsing backward from `e` stops.
pub open spec fn parsed_end(s: Seq<u8>, e: int) -> int {
    let p = parse_any_spec(s, e)->0;
    p.1
}

/// `d` is the declaration `sd` of the input `text`.
pub open spec fn decl_is(d: Decl, sd: SpecDecl, text: Seq<char>) -> bool
    decreases sd,
{
    match (d, sd) {
        (Decl::Ident(x), SpecDecl::Ident(a, b)) => x@ == text.subrange(a, b),
        (Decl::Pointer(x), SpecDecl::Pointer(y)) => decl_is(*x, *y, text),
        (Decl::Template { ident, argument }, SpecDecl::Template(a, b, y)) => ident@
            == text.subrange(a, b) && decl_is(*argument, *y, text),
        (Decl::Array { decl, length }, SpecDecl::Array(y, l)) => decl_is(*decl, *y, text) && match (
            length,
            l,
        ) {
            (ArrayLength::Ident(x), SpecLen::Ident(a, b)) => x@ == text.subrange(a, b),
            (ArrayLength::Number(n), SpecLen::Number(m)) => n == m,
            _ => false,
        },
        _ => false,
    }
}

/// Tokens read from the back of the input, with one token of look-ahead.
struct RevTokens<'a> {
    tokenizer: Tokenizer<'a>,
    peeked: Option<Option<Token<'a>>>,
    peeked_from: Ghost<int>,
}

impl<'a> RevTokens<'a> {
    /// The position that the next token is read backward from.
    closed spec fn pos(&self) -> int {
        if self.peeked is Some {
            self.peeked_from@
        } else {
            self.tokenizer.bwd()
        }
    }

    closed spec fn bytes(&self) -> Seq<u8> {
        self.tokenizer.bytes_view()
    }

    closed spec fn text(&self) -> Seq<char> {
        self.tokenizer.text()
    }

    closed spec fn wf(&self) -> bool {
        &&& self.tokenizer.wf()
        &&& 0 <= self.pos() <= self.bytes().len()
        &&& (self.peeked matches Some(x) ==> {
            &&& bwd_ok(self.bytes(), self.peeked_from@)
            &&& match bwd_token(self.bytes(), self.peeked_from@) {
                None => x is None && self.tokenizer.bwd() == 0,
                Some(t) => x is Some && token_is(x->0, t.0, self.text()) && self.tokenizer.bwd()
                    == t.1,
            }
        })
    }

    /// The input is ASCII and its bytes are its characters.
    proof fn lemma_text_ascii(&self)
        requires
            self.wf(),
        ensures
            vstd::utf8::is_ascii_chars(self.text()),
            self.bytes() =~= Seq::new(self.text().len(), |i| self.text()[i] as u8),
    {
        self.tokenizer.lemma_text_ascii();
    }

    fn new(tokenizer: Tokenizer<'a>) -> (r: Self)
        requires
            tokenizer.wf(),
        ensures
            r.wf(),
            r.pos() == tokenizer.bwd(),
            r.bytes() == tokenizer.bytes_view(),
            r.text() == tokenizer.text(),
    {
        proof {
            tokenizer.lemma_wf_bounds();
        }
        RevTokens { tokenizer, peeked: None, peeked_from: Ghost(0) }
    }

    /// The next token, read backward.
    fn next(&mut self) -> (r: Option<Token<'a>>)
        requires
            old(self).wf(),
            bwd_ok(old(self).bytes(), old(self).pos()),
        ensures
            final(self).wf(),
            final(self).bytes() == old(self).bytes(),
            final(self).text() == old(self).text(),
            match bwd_token(old(self).bytes(), old(self).pos()) {
                None => r is None && final(self).pos() == 0,
                Some(t) => r is Some && token_is(r->0, t.0, old(self).text()) && final(self).pos()
                    == t.1,
            },
    {
        proof {
            lemma_bwd_token_before(self.bytes(), self.pos());
        }
        match self.peeked.take() {
            Some(x) => x,
            None => self.tokenizer.next_back(),
        }
    }

    /// The kind of the next token, without taking it.
    fn peek(&mut self) -> (r: Option<TokKind>)
        requires
            old(self).wf(),
            bwd_ok(old(self).bytes(), old(self).pos()),
        ensures
            final(self).wf(),
            final(self).bytes() == old(self).bytes(),
            final(self).text() == old(self).text(),
            final(self).pos() == old(self).pos(),
            match bwd_token(old(self).bytes(), old(self).pos()) {
                None => r is None,
                Some(t) => r == Some(tok_kind(t.0)),
            },
    {
        proof {
            lemma_bwd_token_before(self.bytes(), self.pos());
        }
        if self.peeked.is_none() {
            let from = Ghost(self.tokenizer.bwd());
            let t = self.tokenizer.next_back();
            self.peeked = Some(t);
            self.peeked_from = from;
        }
        match &self.peeked {
            Some(Some(t)) => Some(
                match t {
                    Token::Ident(_) => TokKind::Ident,
                    Token::Number(_) => TokKind::Number,
                    Token::LAngle => TokKind::LAngle,
                    Token::RAngle => TokKind::RAngle,
                    Token::LSquare => TokKind::LSquare,
                    Token::RSquare => TokKind::RSquare,
                    Token::Asterisk => TokKind::Asterisk,
                },
            ),
            _ => None,
        }
    }
}


/// A prefix of a run of digits has no greater value.
pub proof fn lemma_decimal_prefix(s: Seq<u8>, i: int)
    requires
        0 <= i <= s.len(),
    ensures
        decimal_value(s.subrange(0, i)) <= decimal_value(s),
    decreases s.len(),
{
    if i < s.len() {
        lemma_decimal_prefix(s.drop_last(), i);
        assert(s.drop_last().subrange(0, i) =~= s.subrange(0, i));
    } else {
        assert(s.subrange(0, i) =~= s);
    }
}

/// The `usize` that a run of decimal digits spells.
fn parse_usize(x: &str) -> (r: usize)
    requires
        is_ascii(x),
        all_digits(x.spec_bytes()),
        decimal_value(x.spec_bytes()) <= usize::MAX,
    ensures
        r == decimal_value(x.spec_bytes()),
{
    let b = x.as_bytes();
    let mut v: usize = 0;
    let mut i: usize = 0;
    while i < b.len()
        invariant
            b@ == x.spec_bytes(),
            all_digits(b@),
            decimal_value(b@) <= usize::MAX,
            i <= b.len(),
            v == decimal_value(b@.subrange(0, i as int)),
        decreases b.len() - i,
    {
        proof {
            lemma_decimal_prefix(b@, i + 1);
            assert(b@.subrange(0, i + 1).drop_last() =~= b@.subrange(0, i as int));
            assert(is_digit(b@[i as int]));
        }
        v = v * 10 + (b[i] - 48) as usize;
        i = i + 1;
    }
    proof {
        assert(b@.subrange(0, i as int) =~= b@);
    }
    v
}

/// The text of a token is the input's bytes it covers.
proof fn lemma_token_bytes(x: &str, text: Seq<char>, s: Seq<u8>, a: int, b: int)
    requires
        vstd::utf8::is_ascii_chars(text),
        s =~= Seq::new(text.len(), |i| text[i] as u8),
        0 <= a <= b <= text.len(),
        x@ == text.subrange(a, b),
    ensures
        is_ascii(x),
        x.spec_bytes() == s.subrange(a, b),
{
    assert(vstd::utf8::is_ascii_chars(x@));
    vstd::string::is_ascii_spec_bytes(x);
    assert(x.spec_bytes() =~= s.subrange(a, b));
}

/// Parses an identifier.
fn parse_ident<'a>(rev_iter: &mut RevTokens<'a>) -> (r: Decl<'a>)
    requires
        old(rev_iter).wf(),
        parse_any_spec(old(rev_iter).bytes(), old(rev_iter).pos()) is Some,
        next_kind(old(rev_iter).bytes(), old(rev_iter).pos()) == TokKind::Ident,
    ensures
        final(rev_iter).wf(),
        final(rev_iter).bytes() == old(rev_iter).bytes(),
        final(rev_iter).text() == old(rev_iter).text(),
        decl_is(r, parsed_decl(old(rev_iter).bytes(), old(rev_iter).pos()), old(rev_iter).text()),
        final(rev_iter).pos() == parsed_end(old(rev_iter).bytes(), old(rev_iter).pos()),
{
    match rev_iter.next() {
        Some(Token::Ident(ident)) => Decl::Ident(ident),
        _ => {
            proof {
                assert(false);
            }
            Decl::Ident("")
        },
    }
}

/// Parses `ident< argument >`, from the back.
fn parse_template<'a>(rev_iter: &mut RevTokens<'a>) -> (r: Decl<'a>)
    requires
        old(rev_iter).wf(),
        parse_any_spec(old(rev_iter).bytes(), old(rev_iter).pos()) is Some,
        next_kind(old(rev_iter).bytes(), old(rev_iter).pos()) == TokKind::RAngle,
    ensures
        final(rev_iter).wf(),
        final(rev_iter).bytes() == old(rev_iter).bytes(),
        final(rev_iter).text() == old(rev_iter).text(),
        decl_is(r, parsed_decl(old(rev_iter).bytes(), old(rev_iter).pos()), old(rev_iter).text()),
        final(rev_iter).pos() == parsed_end(old(rev_iter).bytes(), old(rev_iter).pos()),
    decreases old(rev_iter).pos(), 1int,
{
    proof {
        lemma_bwd_token_before(rev_iter.bytes(), rev_iter.pos());
    }
    let _rangle = rev_iter.next();
    let argument = parse_any(rev_iter);
    proof {
        lemma_bwd_token_before(rev_iter.bytes(), rev_iter.pos());
    }
    let _langle = rev_iter.next();
    let ident = match rev_iter.next() {
        Some(Token::Ident(ident)) => ident,
        _ => {
            proof {
                assert(false);
            }
            ""
        },
    };
    Decl::Template { ident, argument: Box::new(argument) }
}

/// Parses `decl[length]`, from the back.
fn parse_array<'a>(rev_iter: &mut RevTokens<'a>) -> (r: Decl<'a>)
    requires
        old(rev_iter).wf(),
        parse_any_spec(old(rev_iter).bytes(), old(rev_iter).pos()) is Some,
        next_kind(old(rev_iter).bytes(), old(rev_iter).pos()) == TokKind::RSquare,
    ensures
        final(rev_iter).wf(),
        final(rev_iter).bytes() == old(rev_iter).bytes(),
        final(rev_iter).text() == old(rev_iter).text(),
        decl_is(r, parsed_decl(old(rev_iter).bytes(), old(rev_iter).pos()), old(rev_iter).text()),
        final(rev_iter).pos() == parsed_end(old(rev_iter).bytes(), old(rev_iter).pos()),
    decreases old(rev_iter).pos(), 1int,
{
    proof {
        lemma_bwd_token_before(rev_iter.bytes(), rev_iter.pos());
    }
    let _rsquare = rev_iter.next();
    let ghost p1 = rev_iter.pos();
    proof {
        lemma_bwd_token_before(rev_iter.bytes(), p1);
        rev_iter.lemma_text_ascii();
    }
    let length = match rev_iter.next() {
        Some(Token::Ident(ident)) => ArrayLength::Ident(ident),
        Some(Token::Number(number)) => {
            proof {
                let t2 = bwd_token(rev_iter.bytes(), p1)->0;
                lemma_token_bytes(number, rev_iter.text(), rev_iter.bytes(), tok_start(t2.0), tok_end(t2.0));
            }
            ArrayLength::Number(parse_usize(number))
        },
        _ => {
            proof {
                assert(false);
            }
            ArrayLength::Number(0)
        },
    };
    proof {
        lemma_bwd_token_before(rev_iter.bytes(), rev_iter.pos());
    }
    let _lsquare = rev_iter.next();
    let decl = parse_any(rev_iter);
    Decl::Array { decl: Box::new(decl), length }
}

/// Parses `decl*`, from the back.
fn parse_pointer<'a>(rev_iter: &mut RevTokens<'a>) -> (r: Decl<'a>)
    requires
        old(rev_iter).wf(),
        parse_any_spec(old(rev_iter).bytes(), old(rev_iter).pos()) is Some,
        next_kind(old(rev_iter).bytes(), old(rev_iter).pos()) == TokKind::Asterisk,
    ensures
        final(rev_iter).wf(),
        final(rev_iter).bytes() == old(rev_iter).bytes(),
        final(rev_iter).text() == old(rev_iter).text(),
        decl_is(r, parsed_decl(old(rev_iter).bytes(), old(rev_iter).pos()), old(rev_iter).text()),
        final(rev_iter).pos() == parsed_end(old(rev_iter).bytes(), old(rev_iter).pos()),
    decreases old(rev_iter).pos(), 1int,
{
    proof {
        lemma_bwd_token_before(rev_iter.bytes(), rev_iter.pos());
    }
    let _asterisk = rev_iter.next();
    let decl = parse_any(rev_iter);
    Decl::Pointer(Box::new(decl))
}

/// Parses the declaration that ends where `rev_iter` stands.
fn parse_any<'a>(rev_iter: &mut RevTokens<'a>) -> (r: Decl<'a>)
    requires
        old(rev_iter).wf(),
        parse_any_spec(old(rev_iter).bytes(), old(rev_iter).pos()) is Some,
    ensures
        final(rev_iter).wf(),
        final(rev_iter).bytes() == old(rev_iter).bytes(),
        final(rev_iter).text() == old(rev_iter).text(),
        decl_is(r, parsed_decl(old(rev_iter).bytes(), old(rev_iter).pos()), old(rev_iter).text()),
        final(rev_iter).pos() == parsed_end(old(rev_iter).bytes(), old(rev_iter).pos()),
    decreases old(rev_iter).pos(), 2int,
{
    match rev_iter.peek() {
        Some(TokKind::Ident) => parse_ident(rev_iter),
        Some(TokKind::RAngle) => parse_template(rev_iter),
        Some(TokKind::RSquare) => parse_array(rev_iter),
        Some(TokKind::Asterisk) => parse_pointer(rev_iter),
        _ => {
            proof {
                assert(false);
            }
            Decl::Ident("")
        },
    }
}

/// Parses a type declaration, reading it from the end.
pub fn parse<'a>(input: &'a str) -> (r: Decl<'a>)
    requires
        is_ascii(input),
        parse_any_spec(input.spec_bytes(), input@.len() as int) is Some,
    ensures
        decl_is(r, parsed_decl(input.spec_bytes(), input@.len() as int), input@),
{
    let tokenizer = Tokenizer::new(input);
    let mut tokens = RevTokens::new(tokenizer);
    parse_any(&mut tokens)
}

} // verus!
