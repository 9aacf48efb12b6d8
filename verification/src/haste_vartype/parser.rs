//! Parses a variable type into an expression: identifiers, templates (`a< b >`), arrays
//! (`a[n]`) and pointers (`a*`).

use crate::haste_vartype::error::Error;
use crate::haste_vartype::tokenizer::{
    byte_offset, fits_spans, is_digit, lemma_byte_offset_monotone, lemma_next_token_advances,
    next_token_spec, token_matches, SpecKind, SpecToken, Token, TokenKind, Tokenizer,
};
use vstd::prelude::*;
use vstd::string::StrSliceExecFns;

verus! {

/// A literal.
#[derive(Debug, PartialEq, Eq)]
pub enum Lit<'a> {
    Str(&'a str),
    Num(usize),
}

/// A parsed variable type.
#[derive(Debug, PartialEq, Eq)]
pub enum Expr<'a> {
    Ident(&'a str),
    Lit(Lit<'a>),
    Pointer(Box<Expr<'a>>),
    Template { expr: Box<Expr<'a>>, arg: Box<Expr<'a>> },
    Array { expr: Box<Expr<'a>>, len: Box<Expr<'a>> },
}

/// An expression in terms of the input: identifiers are ranges of character indices.
pub enum SpecExpr {
    Ident(int, int),
    Num(nat),
    Pointer(Box<SpecExpr>),
    Template(Box<SpecExpr>, Box<SpecExpr>),
    Array(Box<SpecExpr>, Box<SpecExpr>),
}

/// `e` is the expression `se` of the input `text`.
pub open spec fn expr_is(e: Expr, se: SpecExpr, text: Seq<char>) -> bool
    decreases se,
{
    match (e, se) {
        (Expr::Ident(x), SpecExpr::Ident(a, b)) => x@ == text.subrange(a, b),
        (Expr::Lit(Lit::Num(n)), SpecExpr::Num(m)) => n == m,
        (Expr::Pointer(x), SpecExpr::Pointer(y)) => expr_is(*x, *y, text),
        (Expr::Template { expr, arg }, SpecExpr::Template(y, z)) => expr_is(*expr, *y, text)
            && expr_is(*arg, *z, text),
        (Expr::Array { expr, len }, SpecExpr::Array(y, z)) => expr_is(*expr, *y, text) && expr_is(
            *len,
            *z,
            text,
        ),
        _ => false,
    }
}

/// The value of a run of decimal digits.
pub open spec fn decimal(s: Seq<char>) -> nat
    decreases s.len(),
{
    if s.len() == 0 {
        0
    } else {
        decimal(s.drop_last()) * 10 + (s.last() as u32 - 48) as nat
    }
}

/// The error for a token that does not fit: its byte offset.
pub open spec fn unexpected(text: Seq<char>, st: SpecToken) -> Error {
    Error::UnexpectedToken(byte_offset(text, st.1) as u16)
}

/// The token that must come at `p`: the end of the input and a character that starts no token
/// are errors.
pub open spec fn expect_spec(text: Seq<char>, p: int) -> Result<(SpecToken, int), Error> {
    match next_token_spec(text, p) {
        None => Err(Error::UnexpectedEof),
        Some((Err(c), _)) => Err(Error::UnknownChar(c)),
        Some((Ok(st), q)) => Ok((st, q)),
    }
}

/// Parses an expression from character index `p`: an identifier, then what
/// [`parse_rest_spec`] reads after it. Gives the expression and where parsing stopped.
pub open spec fn parse_expr_spec(text: Seq<char>, p: int) -> Result<(SpecExpr, int), Error>
    decreases text.len() - p, 1int,
{
    match expect_spec(text, p) {
        Err(e) => Err(e),
        Ok((st, q)) => if st.0 != SpecKind::Ident {
            Err(unexpected(text, st))
        } else if p < q <= text.len() {
            parse_rest_spec(text, SpecExpr::Ident(st.1, st.2), q)
        } else {
            Err(Error::UnexpectedEof)
        },
    }
}

/// Reads the suffixes of the expression `e` from `q` on: `< arg >` makes a template, `[len]`
/// an array (of a named or decimal length), `*` a pointer. Stops before `>` or `]`, and at the
/// end of the input (then at its end).
pub open spec fn parse_rest_spec(text: Seq<char>, e: SpecExpr, q: int) -> Result<(SpecExpr, int), Error>
    decreases text.len() - q, 0int,
{
    match next_token_spec(text, q) {
        None => Ok((e, text.len() as int)),
        Some((Err(c), _)) => Err(Error::UnknownChar(c)),
        Some((Ok(st), q2)) => if !(q < q2 <= text.len()) {
            Err(Error::UnexpectedEof)
        } else if st.0 == SpecKind::LAngle {
            match parse_expr_spec(text, q2) {
                Err(err) => Err(err),
                Ok((arg, q3)) => match expect_spec(text, q3) {
                    Err(err) => Err(err),
                    Ok((st3, q4)) => if st3.0 != SpecKind::RAngle {
                        Err(unexpected(text, st3))
                    } else if q < q4 <= text.len() {
                        parse_rest_spec(
                            text,
                            SpecExpr::Template(Box::new(e), Box::new(arg)),
                            q4,
                        )
                    } else {
                        Err(Error::UnexpectedEof)
                    },
                },
            }
        } else if st.0 == SpecKind::LSquare {
            match expect_spec(text, q2) {
                Err(err) => Err(err),
                Ok((st2, q3)) => {
                    let len = if st2.0 == SpecKind::Ident {
                        Ok(SpecExpr::Ident(st2.1, st2.2))
                    } else if st2.0 == SpecKind::Lit && decimal(text.subrange(st2.1, st2.2))
                        <= usize::MAX {
                        Ok(SpecExpr::Num(decimal(text.subrange(st2.1, st2.2))))
                    } else {
                        Err(unexpected(text, st2))
                    };
                    match len {
                        Err(err) => Err(err),
                        Ok(l) => match expect_spec(text, q3) {
                            Err(err) => Err(err),
                            Ok((st4, q4)) => if st4.0 != SpecKind::RSquare {
                                Err(unexpected(text, st4))
                            } else if q < q4 <= text.len() {
                                parse_rest_spec(
                                    text,
                                    SpecExpr::Array(Box::new(e), Box::new(l)),
                                    q4,
                                )
                            } else {
                                Err(Error::UnexpectedEof)
                            },
                        },
                    }
                },
            }
        } else if st.0 == SpecKind::Asterisk {
            parse_rest_spec(text, SpecExpr::Pointer(Box::new(e)), q2)
        } else if st.0 == SpecKind::RAngle || st.0 == SpecKind::RSquare {
            Ok((e, q))
        } else {
            Err(unexpected(text, st))
        },
    }
}

/// What [`parse`] gives for `input`: see [`parse_expr_spec`].
pub open spec fn parse_result_is(r: Result<Expr, Error>, text: Seq<char>) -> bool {
    match parse_expr_spec(text, 0) {
        Ok((se, _)) => r matches Ok(e) && expr_is(e, se, text),
        Err(err) => r == Err::<Expr, Error>(err),
    }
}

/// Parsing moves forward, and stays inside the input.
pub proof fn lemma_parse_positions(text: Seq<char>, e: SpecExpr, p: int)
    requires
        0 <= p <= text.len(),
    ensures
        parse_expr_spec(text, p) matches Ok(r) ==> p < r.1 <= text.len(),
        parse_rest_spec(text, e, p) matches Ok(r) ==> p <= r.1 <= text.len(),
    decreases text.len() - p,
{
    if next_token_spec(text, p) is Some {
        lemma_next_token_advances(text, p);
        let q = (next_token_spec(text, p)->0).1;
        match next_token_spec(text, p) {
            Some((Ok(st), _)) => {
                if st.0 == SpecKind::Ident {
                    lemma_parse_positions(text, SpecExpr::Ident(st.1, st.2), q);
                }
                if st.0 == SpecKind::LAngle {
                    lemma_parse_positions(text, e, q);
                    if let Ok((arg, q3)) = parse_expr_spec(text, q) {
                        if let Ok((st3, q4)) = expect_spec(text, q3) {
                            lemma_next_token_advances(text, q3);
                            lemma_parse_positions(
                                text,
                                SpecExpr::Template(Box::new(e), Box::new(arg)),
                                q4,
                            );
                        }
                    }
                } else if st.0 == SpecKind::LSquare {
                    if let Ok((st2, q3)) = expect_spec(text, q) {
                        lemma_next_token_advances(text, q);
                        if let Ok((st4, q4)) = expect_spec(text, q3) {
                            lemma_next_token_advances(text, q3);
                            let l = if st2.0 == SpecKind::Ident {
                                SpecExpr::Ident(st2.1, st2.2)
                            } else {
                                SpecExpr::Num(decimal(text.subrange(st2.1, st2.2)))
                            };
                            lemma_parse_positions(
                                text,
                                SpecExpr::Array(Box::new(e), Box::new(l)),
                                q4,
                            );
                        }
                    }
                } else if st.0 == SpecKind::Asterisk {
                    lemma_parse_positions(text, SpecExpr::Pointer(Box::new(e)), q);
                }
            },
            _ => {},
        }
    }
}

/// A prefix of a run of digits has no greater value.
proof fn lemma_decimal_prefix(s: Seq<char>, i: int)
    requires
        0 <= i <= s.len(),
    ensures
        decimal(s.subrange(0, i)) <= decimal(s),
    decreases s.len(),
{
    if i < s.len() {
        lemma_decimal_prefix(s.drop_last(), i);
        assert(s.drop_last().subrange(0, i) =~= s.subrange(0, i));
    } else {
        assert(s.subrange(0, i) =~= s);
    }
}

/// The `usize` that a run of digits spells, or `None` where it is too large.
fn parse_usize(lit: &str) -> (r: Option<usize>)
    requires
        forall|i: int| 0 <= i < lit@.len() ==> is_digit(#[trigger] lit@[i]),
    ensures
        decimal(lit@) <= usize::MAX ==> r == Some(decimal(lit@) as usize),
        decimal(lit@) > usize::MAX ==> r is None,
{
    let n = lit.unicode_len();
    let mut v: usize = 0;
    let mut i: usize = 0;
    while i < n
        invariant
            n == lit@.len(),
            i <= n,
            v == decimal(lit@.subrange(0, i as int)),
            forall|k: int| 0 <= k < lit@.len() ==> is_digit(#[trigger] lit@[k]),
        decreases n - i,
    {
        let c = lit.get_char(i);
        proof {
            assert(is_digit(lit@[i as int]));
            assert(lit@.subrange(0, i + 1).drop_last() =~= lit@.subrange(0, i as int));
            lemma_decimal_prefix(lit@, i + 1);
        }
        let d = (c as u32 - 48) as usize;
        let next = match v.checked_mul(10) {
            Some(m) => m.checked_add(d),
            None => None,
        };
        match next {
            Some(x) => {
                v = x;
            },
            None => {
                return None;
            },
        }
        i = i + 1;
    }
    proof {
        assert(lit@.subrange(0, i as int) =~= lit@);
    }
    Some(v)
}

/// The tokens of the input, with one token that can be put back.
struct Parser<'a> {
    tokenizer: Tokenizer<'a>,
    prev_token: Option<Token<'a>>,
    prev_from: Ghost<int>,
}

impl<'a> Parser<'a> {
    /// Where the next token is read from.
    closed spec fn pos(&self) -> int {
        if self.prev_token is Some {
            self.prev_from@
        } else {
            self.tokenizer.index()
        }
    }

    closed spec fn text(&self) -> Seq<char> {
        self.tokenizer.text()
    }

    /// A token put back is the token read from where it was put back.
    closed spec fn wf(&self) -> bool {
        &&& self.tokenizer.wf()
        &&& fits_spans(self.text())
        &&& 0 <= self.pos() <= self.text().len()
        &&& (self.prev_token matches Some(t) ==> next_token_spec(self.text(), self.prev_from@)
            matches Some((Ok(st), q)) && token_matches(t, st, self.text()) && q
            == self.tokenizer.index())
    }

    fn new(input: &'a str) -> (r: Self)
        requires
            fits_spans(input@),
        ensures
            r.wf(),
            r.text() == input@,
            r.pos() == 0,
    {
        Parser { tokenizer: Tokenizer::new(input), prev_token: None, prev_from: Ghost(0) }
    }

    /// The next token, or `None` at the end of the input.
    fn next_token(&mut self) -> (r: Result<Option<Token<'a>>, Error>)
        requires
            old(self).wf(),
        ensures
            final(self).wf(),
            final(self).text() == old(self).text(),
            match next_token_spec(old(self).text(), old(self).pos()) {
                None => r == Ok::<Option<Token<'a>>, Error>(None) && final(self).pos()
                    == old(self).text().len(),
                Some((Err(c), _)) => r == Err::<Option<Token<'a>>, Error>(Error::UnknownChar(c)),
                Some((Ok(st), q)) => r matches Ok(Some(t)) && token_matches(t, st, old(self).text())
                    && final(self).pos() == q,
            },
            final(self).prev_token is None,
    {
        proof {
            self.tokenizer.lemma_wf();
        }
        let r = match self.prev_token.take() {
            Some(token) => Ok(Some(token)),
            None => match self.tokenizer.next() {
                None => Ok(None),
                Some(Ok(token)) => Ok(Some(token)),
                Some(Err(e)) => Err(e),
            },
        };
        proof {
            self.tokenizer.lemma_wf();
        }
        r
    }

    /// Puts back the token just read from `from`.
    fn put_back(&mut self, token: Token<'a>, Ghost(from): Ghost<int>)
        requires
            old(self).wf(),
            old(self).prev_token is None,
            0 <= from <= old(self).text().len(),
            next_token_spec(old(self).text(), from) matches Some((Ok(st), q)) && token_matches(
                token,
                st,
                old(self).text(),
            ) && q == old(self).pos(),
        ensures
            final(self).wf(),
            final(self).text() == old(self).text(),
            final(self).pos() == from,
    {
        self.prev_token = Some(token);
        self.prev_from = Ghost(from);
    }

    /// The next token, which must be of kind `want` (of any kind where `want` is `None`).
    fn expect_token(&mut self, want: Option<SpecKind>) -> (r: Result<Token<'a>, Error>)
        requires
            old(self).wf(),
        ensures
            final(self).wf(),
            final(self).text() == old(self).text(),
            match expect_spec(old(self).text(), old(self).pos()) {
                Err(e) => r == Err::<Token<'a>, Error>(e),
                Ok((st, q)) => if want is None || want == Some(st.0) {
                    r matches Ok(t) && token_matches(t, st, old(self).text()) && final(self).pos()
                        == q
                } else {
                    r == Err::<Token<'a>, Error>(unexpected(old(self).text(), st))
                },
            },
    {
        match self.next_token() {
            Err(e) => Err(e),
            Ok(None) => Err(Error::UnexpectedEof),
            Ok(Some(token)) => {
                let kind = kind_of(&token);
                if want.is_none() || want == Some(kind) {
                    Ok(token)
                } else {
                    Err(Error::UnexpectedToken(token.span.start))
                }
            },
        }
    }

    /// Parses an expression: see [`parse_expr_spec`].
    fn parse(&mut self) -> (r: Result<Expr<'a>, Error>)
        requires
            old(self).wf(),
        ensures
            final(self).wf(),
            final(self).text() == old(self).text(),
            match parse_expr_spec(old(self).text(), old(self).pos()) {
                Ok((se, q)) => r matches Ok(e) && expr_is(e, se, old(self).text())
                    && final(self).pos() == q,
                Err(err) => r == Err::<Expr<'a>, Error>(err),
            },
        decreases old(self).text().len() - old(self).pos(),
    {
        let ghost t = self.text();
        let ghost p0 = self.pos();
        proof {
            if next_token_spec(t, p0) is Some {
                lemma_next_token_advances(t, p0);
            }
        }
        let first = match self.expect_token(Some(SpecKind::Ident)) {
            Ok(token) => token,
            Err(e) => return Err(e),
        };
        let ident = match first.kind {
            TokenKind::Ident(ident) => ident,
            _ => {
                proof {
                    assert(false);
                }
                return Err(Error::UnexpectedEof);
            },
        };
        let mut expr = Expr::Ident(ident);
        let ghost mut se = SpecExpr::Ident(
            (expect_spec(t, p0)->Ok_0).0.1,
            (expect_spec(t, p0)->Ok_0).0.2,
        );
        loop
            invariant
                self.wf(),
                self.text() == t,
                t == old(self).text(),
                p0 == old(self).pos(),
                p0 < self.pos() <= t.len(),
                expr_is(expr, se, t),
                parse_expr_spec(t, p0) == parse_rest_spec(t, se, self.pos()),
            ensures
                self.wf(),
                self.text() == t,
                expr_is(expr, se, t),
                parse_expr_spec(t, p0) == Ok::<(SpecExpr, int), Error>((se, self.pos())),
            decreases t.len() - self.pos(),
        {
            let ghost q = self.pos();
            proof {
                if next_token_spec(t, q) is Some {
                    lemma_next_token_advances(t, q);
                }
            }
            let next = match self.next_token() {
                Err(e) => return Err(e),
                Ok(None) => break,
                Ok(Some(next)) => next,
            };
            let ghost st = (next_token_spec(t, q)->0).0->Ok_0;
            let ghost q2 = self.pos();
            match next.kind {
                TokenKind::LAngle => {
                    proof {
                        lemma_parse_positions(t, se, q2);
                    }
                    let arg = match self.parse() {
                        Ok(arg) => arg,
                        Err(e) => return Err(e),
                    };
                    let ghost sarg = (parse_expr_spec(t, q2)->Ok_0).0;
                    let ghost q3 = self.pos();
                    proof {
                        if next_token_spec(t, q3) is Some {
                            lemma_next_token_advances(t, q3);
                        }
                    }
                    match self.expect_token(Some(SpecKind::RAngle)) {
                        Ok(_) => {},
                        Err(e) => return Err(e),
                    }
                    expr = Expr::Template { expr: Box::new(expr), arg: Box::new(arg) };
                    proof {
                        se = SpecExpr::Template(Box::new(se), Box::new(sarg));
                        assert(expr_is(expr, se, t));
                    }
                },
                TokenKind::LSquare => {
                    let ghost q3_from = self.pos();
                    proof {
                        if next_token_spec(t, q3_from) is Some {
                            lemma_next_token_advances(t, q3_from);
                        }
                    }
                    let identorlit = match self.expect_token(None) {
                        Ok(token) => token,
                        Err(e) => return Err(e),
                    };
                    let ghost st2 = (expect_spec(t, q3_from)->Ok_0).0;
                    let ghost sl;
                    let len = match identorlit.kind {
                        TokenKind::Ident(ident) => {
                            proof {
                                sl = SpecExpr::Ident(st2.1, st2.2);
                                assert(ident@ == t.subrange(st2.1, st2.2));
                                assert(expr_is(Expr::Ident(ident), sl, t));
                            }
                            Expr::Ident(ident)
                        },
                        TokenKind::Lit(lit) => {
                            proof {
                                lemma_lit_digits(t, q3_from);
                            }
                            match parse_usize(lit) {
                                Some(num) => {
                                    proof {
                                        sl = SpecExpr::Num(num as nat);
                                    }
                                    Expr::Lit(Lit::Num(num))
                                },
                                None => return Err(Error::UnexpectedToken(identorlit.span.start)),
                            }
                        },
                        _ => return Err(Error::UnexpectedToken(identorlit.span.start)),
                    };
                    assert(expr_is(len, sl, t));
                    let ghost q4_from = self.pos();
                    proof {
                        if next_token_spec(t, q4_from) is Some {
                            lemma_next_token_advances(t, q4_from);
                        }
                    }
                    match self.expect_token(Some(SpecKind::RSquare)) {
                        Ok(_) => {},
                        Err(e) => return Err(e),
                    }
                    expr = Expr::Array { expr: Box::new(expr), len: Box::new(len) };
                    proof {
                        se = SpecExpr::Array(Box::new(se), Box::new(sl));
                        assert(expr_is(expr, se, t));
                    }
                },
                TokenKind::Asterisk => {
                    expr = Expr::Pointer(Box::new(expr));
                    proof {
                        se = SpecExpr::Pointer(Box::new(se));
                        assert(expr_is(expr, se, t));
                    }
                },
                TokenKind::RAngle | TokenKind::RSquare => {
                    self.put_back(next, Ghost(q));
                    break;
                },
                _ => return Err(Error::UnexpectedToken(next.span.start)),
            }
        }
        Ok(expr)
    }
}

/// The kind of a token.
fn kind_of(t: &Token) -> (r: SpecKind)
    ensures
        match t.kind {
            TokenKind::LAngle => r == SpecKind::LAngle,
            TokenKind::RAngle => r == SpecKind::RAngle,
            TokenKind::LSquare => r == SpecKind::LSquare,
            TokenKind::RSquare => r == SpecKind::RSquare,
            TokenKind::Asterisk => r == SpecKind::Asterisk,
            TokenKind::Ident(_) => r == SpecKind::Ident,
            TokenKind::Lit(_) => r == SpecKind::Lit,
        },
{
    match t.kind {
        TokenKind::LAngle => SpecKind::LAngle,
        TokenKind::RAngle => SpecKind::RAngle,
        TokenKind::LSquare => SpecKind::LSquare,
        TokenKind::RSquare => SpecKind::RSquare,
        TokenKind::Asterisk => SpecKind::Asterisk,
        TokenKind::Ident(_) => SpecKind::Ident,
        TokenKind::Lit(_) => SpecKind::Lit,
    }
}

/// A number token is made of digits.
proof fn lemma_lit_digits(text: Seq<char>, p: int)
    requires
        next_token_spec(text, p) matches Some((Ok(st), _)) && st.0 == SpecKind::Lit,
    ensures
        ({
            let st = (next_token_spec(text, p)->0).0->Ok_0;
            forall|i: int|
                0 <= i < st.2 - st.1 ==> is_digit(#[trigger] text.subrange(st.1, st.2)[i])
        }),
    decreases text.len() - p,
{
    let c = text[p];
    if crate::haste_vartype::tokenizer::punct(c) is Some {
    } else if crate::haste_vartype::tokenizer::is_alpha(c) {
    } else if is_digit(c) {
        let e = crate::haste_vartype::tokenizer::digits_end(text, p + 1);
        lemma_digits_run(text, p + 1);
        assert forall|i: int| 0 <= i < e - p implies is_digit(#[trigger] text.subrange(p, e)[i]) by {
            assert(text.subrange(p, e)[i] == text[p + i]);
        }
    } else if crate::haste_vartype::tokenizer::is_space(c) {
        lemma_lit_digits(text, crate::haste_vartype::tokenizer::space_end(text, p + 1));
    }
}

/// The characters of a run of digits are digits.
proof fn lemma_digits_run(text: Seq<char>, p: int)
    requires
        0 <= p <= text.len(),
    ensures
        p <= crate::haste_vartype::tokenizer::digits_end(text, p) <= text.len(),
        forall|i: int|
            p <= i < crate::haste_vartype::tokenizer::digits_end(text, p) ==> is_digit(
                #[trigger] text[i],
            ),
    decreases text.len() - p,
{
    if 0 <= p < text.len() && is_digit(text[p]) {
        lemma_digits_run(text, p + 1);
    }
}

/// Parses a variable type: see [`parse_expr_spec`] (what follows a complete expression from a
/// `>` or `]` on is not read).
pub fn parse<'a>(input: &'a str) -> (r: Result<Expr<'a>, Error>)
    requires
        fits_spans(input@),
    ensures
        parse_result_is(r, input@),
{
    let mut parser = Parser::new(input);
    parser.parse()
}

} // verus!
