use vstd::prelude::*;
use vstd::string::{is_ascii, StrSliceExecFns, StringSliceAdditionalSpecFns};

verus! {

broadcast use vstd::string::group_string_axioms;

/// A token of a type declaration.
#[derive(Debug, PartialEq)]
pub enum Token<'a> {
    Ident(&'a str),
    Number(&'a str),
    LAngle,
    RAngle,
    LSquare,
    RSquare,
    Asterisk,
}

/// The kind of a token, without its text.
#[derive(Debug, Clone, Copy, PartialEq, Eq, Structural)]
pub enum TokKind {
    Ident,
    Number,
    LAngle,
    RAngle,
    LSquare,
    RSquare,
    Asterisk,
}

/// A token as a kind and the byte range `[start, end)` of the input it covers.
pub type SpecTok = (TokKind, int, int);

/// An ASCII letter or digit.
pub open spec fn is_alnum(b: u8) -> bool {
    (48 <= b <= 57) || (65 <= b <= 90) || (97 <= b <= 122)
}

/// An ASCII digit.
pub open spec fn is_digit(b: u8) -> bool {
    48 <= b <= 57
}

/// A byte that may continue an identifier or number: letter, digit or `_`.
pub open spec fn is_word(b: u8) -> bool {
    is_alnum(b) || b == 95
}

/// The kind of a one-byte token (`<`, `>`, `[`, `]`, `*`).
pub open spec fn punct_kind(b: u8) -> Option<TokKind> {
    if b == 60 {
        Some(TokKind::LAngle)
    } else if b == 62 {
        Some(TokKind::RAngle)
    } else if b == 91 {
        Some(TokKind::LSquare)
    } else if b == 93 {
        Some(TokKind::RSquare)
    } else if b == 42 {
        Some(TokKind::Asterisk)
    } else {
        None
    }
}

/// The end of the run of word bytes that starts at `p`.
pub open spec fn word_end(s: Seq<u8>, p: int) -> int
    decreases s.len() - p,
{
    if 0 <= p < s.len() && is_word(s[p]) {
        word_end(s, p + 1)
    } else {
        p
    }
}

/// The start of the run of word bytes that ends at `e`.
pub open spec fn word_start(s: Seq<u8>, e: int) -> int
    decreases e,
{
    if 0 < e <= s.len() && is_word(s[e - 1]) {
        word_start(s, e - 1)
    } else {
        e
    }
}

/// The next token read forward from byte `p` (spaces are skipped), and the byte after it.
/// `None` at the end of the input, or where a byte that starts no token is met.
pub open spec fn fwd_token(s: Seq<u8>, p: int) -> Option<(SpecTok, int)>
    decreases s.len() - p,
{
    if p < 0 || p >= s.len() {
        None
    } else if is_alnum(s[p]) {
        let e = word_end(s, p + 1);
        let kind = if is_digit(s[p]) {
            TokKind::Number
        } else {
            TokKind::Ident
        };
        Some(((kind, p, e), e))
    } else if punct_kind(s[p]) is Some {
        Some(((punct_kind(s[p])->0, p, p + 1), p + 1))
    } else if s[p] == 32 {
        fwd_token(s, p + 1)
    } else {
        None
    }
}

/// Reading forward from `p` meets the end of the input or the start of a token before it
/// meets a byte that starts no token (which the tokenizer does not accept).
pub open spec fn fwd_ok(s: Seq<u8>, p: int) -> bool
    decreases s.len() - p,
{
    if p < 0 || p >= s.len() {
        true
    } else if is_alnum(s[p]) || punct_kind(s[p]) is Some {
        true
    } else if s[p] == 32 {
        fwd_ok(s, p + 1)
    } else {
        false
    }
}

/// The next token read backward from byte `e` (the token ends at or before `e`), and its start.
/// A word's kind is decided by its first byte. `None` at the start of the input, or where a
/// byte that ends no token is met.
pub open spec fn bwd_token(s: Seq<u8>, e: int) -> Option<(SpecTok, int)>
    decreases e,
{
    if e <= 0 || e > s.len() {
        None
    } else if is_alnum(s[e - 1]) {
        let st = word_start(s, e - 1);
        let kind = if is_digit(s[st]) {
            TokKind::Number
        } else {
            TokKind::Ident
        };
        Some(((kind, st, e), st))
    } else if punct_kind(s[e - 1]) is Some {
        Some(((punct_kind(s[e - 1])->0, e - 1, e), e - 1))
    } else if s[e - 1] == 32 {
        bwd_token(s, e - 1)
    } else {
        None
    }
}

/// Reading backward from `e` meets the start of the input or the end of a token before it
/// meets a byte that ends no token.
pub open spec fn bwd_ok(s: Seq<u8>, e: int) -> bool
    decreases e,
{
    if e <= 0 || e > s.len() {
        true
    } else if is_alnum(s[e - 1]) || punct_kind(s[e - 1]) is Some {
        true
    } else if s[e - 1] == 32 {
        bwd_ok(s, e - 1)
    } else {
        false
    }
}

/// Reading forward from `p` to the end never meets a byte that starts no token.
pub open spec fn fwd_drain_ok(s: Seq<u8>, p: int) -> bool
    decreases s.len() - p,
{
    &&& fwd_ok(s, p)
    &&& match fwd_token(s, p) {
        Some((_, q)) => p < q <= s.len() && fwd_drain_ok(s, q),
        None => true,
    }
}

/// Reading backward from `e` to the start never meets a byte that ends no token.
pub open spec fn bwd_drain_ok(s: Seq<u8>, e: int) -> bool
    decreases e,
{
    &&& bwd_ok(s, e)
    &&& match bwd_token(s, e) {
        Some((_, st)) => 0 <= st < e && bwd_drain_ok(s, st),
        None => true,
    }
}

/// Each bracket character and the asterisk is a token of its own, named after it, read the
/// same forward and backward: `<` and `>` are angle brackets, `[` and `]` square brackets, `*`
/// an asterisk.
pub proof fn lemma_punctuation_tokens(s: Seq<u8>, p: int)
    requires
        0 <= p < s.len(),
    ensures
        s[p] == '<' as u8 ==> fwd_token(s, p) == Some(((TokKind::LAngle, p, p + 1), p + 1))
            && bwd_token(s, p + 1) == Some(((TokKind::LAngle, p, p + 1), p)),
        s[p] == '>' as u8 ==> fwd_token(s, p) == Some(((TokKind::RAngle, p, p + 1), p + 1))
            && bwd_token(s, p + 1) == Some(((TokKind::RAngle, p, p + 1), p)),
        s[p] == '[' as u8 ==> fwd_token(s, p) == Some(((TokKind::LSquare, p, p + 1), p + 1))
            && bwd_token(s, p + 1) == Some(((TokKind::LSquare, p, p + 1), p)),
        s[p] == ']' as u8 ==> fwd_token(s, p) == Some(((TokKind::RSquare, p, p + 1), p + 1))
            && bwd_token(s, p + 1) == Some(((TokKind::RSquare, p, p + 1), p)),
        s[p] == '*' as u8 ==> fwd_token(s, p) == Some(((TokKind::Asterisk, p, p + 1), p + 1))
            && bwd_token(s, p + 1) == Some(((TokKind::Asterisk, p, p + 1), p)),
{
}

/// The tokens read forward from byte `p` that end by byte `e`, in order.
pub open spec fn fwd_upto(s: Seq<u8>, p: int, e: int) -> Seq<SpecTok>
    decreases e - p,
{
    if p >= e {
        Seq::empty()
    } else {
        match fwd_token(s, p) {
            Some((t, q)) => if p < q <= e {
                seq![t] + fwd_upto(s, q, e)
            } else {
                Seq::empty()
            },
            None => Seq::empty(),
        }
    }
}

/// The tokens of the input read forward, in order, until the tokenizer stops.
pub open spec fn fwd_tokens(s: Seq<u8>) -> Seq<SpecTok> {
    fwd_upto(s, 0, s.len() as int)
}

/// The tokens read backward from byte `e`, in the order they are read.
pub open spec fn bwd_tokens(s: Seq<u8>, e: int) -> Seq<SpecTok>
    decreases e,
{
    match bwd_token(s, e) {
        Some((t, st)) => if 0 <= st < e {
            seq![t] + bwd_tokens(s, st)
        } else {
            Seq::empty()
        },
        None => Seq::empty(),
    }
}

/// A byte that the tokenizer accepts: a word byte, a one-byte token or a space.
pub open spec fn byte_ok(b: u8) -> bool {
    is_word(b) || punct_kind(b) is Some || b == 32
}

/// Every byte is accepted, and every run of word bytes begins and ends with a letter or digit.
pub open spec fn tokens_well_formed(s: Seq<u8>) -> bool {
    forall|i: int|
        0 <= i < s.len() ==> {
            &&& byte_ok(#[trigger] s[i])
            &&& is_word(s[i]) && (i == 0 || !is_word(s[i - 1])) ==> is_alnum(s[i])
            &&& is_word(s[i]) && (i + 1 == s.len() || !is_word(s[i + 1])) ==> is_alnum(s[i])
        }
}

/// Byte `i` is not inside a word: no word byte stands on both sides of it.
pub open spec fn at_boundary(s: Seq<u8>, i: int) -> bool {
    i <= 0 || i >= s.len() || !(is_word(s[i - 1]) && is_word(s[i]))
}

/// The run of word bytes from `q` ends at `word_end`, at the end of the input or before a byte
/// that is no word byte.
proof fn lemma_word_end(s: Seq<u8>, q: int)
    requires
        0 <= q <= s.len(),
    ensures
        q <= word_end(s, q) <= s.len(),
        forall|i: int| q <= i < word_end(s, q) ==> is_word(#[trigger] s[i]),
        word_end(s, q) == s.len() || !is_word(s[word_end(s, q)]),
    decreases s.len() - q,
{
    if q < s.len() && is_word(s[q]) {
        lemma_word_end(s, q + 1);
    }
}

/// The run of word bytes that ends at `e` starts at `word_start`, at the start of the input or
/// after a byte that is no word byte.
proof fn lemma_word_start(s: Seq<u8>, e: int)
    requires
        0 <= e <= s.len(),
    ensures
        0 <= word_start(s, e) <= e,
        forall|i: int| word_start(s, e) <= i < e ==> is_word(#[trigger] s[i]),
        word_start(s, e) == 0 || !is_word(s[word_start(s, e) - 1]),
    decreases e,
{
    if 0 < e && is_word(s[e - 1]) {
        lemma_word_start(s, e - 1);
    }
}

/// From a word byte at `q`, the run goes on to `m` where every byte up to `m` is a word byte and
/// `m` ends it.
proof fn lemma_word_end_at(s: Seq<u8>, q: int, m: int)
    requires
        0 <= q <= m <= s.len(),
        forall|i: int| q <= i < m ==> is_word(#[trigger] s[i]),
        m == s.len() || !is_word(s[m]),
    ensures
        word_end(s, q) == m,
    decreases m - q,
{
    if q < m {
        lemma_word_end_at(s, q + 1, m);
    }
}

/// Reading forward from `p` up to `e` is reading up to `m` and then on from `m`, where `p`, `m`
/// and `e` are boundaries.
proof fn lemma_fwd_split(s: Seq<u8>, p: int, m: int, e: int)
    requires
        tokens_well_formed(s),
        0 <= p <= m <= e <= s.len(),
        at_boundary(s, p),
        at_boundary(s, m),
        at_boundary(s, e),
    ensures
        fwd_upto(s, p, e) == fwd_upto(s, p, m) + fwd_upto(s, m, e),
    decreases m - p,
{
    if p == m {
        assert(fwd_upto(s, p, m) =~= Seq::<SpecTok>::empty());
        assert(fwd_upto(s, p, e) =~= Seq::<SpecTok>::empty() + fwd_upto(s, m, e));
    } else {
        assert(byte_ok(s[p]));
        if is_alnum(s[p]) {
            lemma_word_end(s, p + 1);
            let q = word_end(s, p + 1);
            if q > m {
                assert(is_word(s[m - 1]) && is_word(s[m]));
            }
            assert(q <= m);
            assert(at_boundary(s, q));
            lemma_fwd_split(s, q, m, e);
            assert(fwd_upto(s, p, e) =~= fwd_upto(s, p, m) + fwd_upto(s, m, e));
        } else if punct_kind(s[p]) is Some {
            lemma_fwd_split(s, p + 1, m, e);
            assert(fwd_upto(s, p, e) =~= fwd_upto(s, p, m) + fwd_upto(s, m, e));
        } else if s[p] == 32 {
            lemma_fwd_space(s, p, m);
            lemma_fwd_space(s, p, e);
            lemma_fwd_split(s, p + 1, m, e);
        } else {
            assert(is_word(s[p]) && !is_alnum(s[p]));
            assert(false);
        }
    }
}

/// A space at `p` before the cutoff `e` is skipped.
proof fn lemma_fwd_space(s: Seq<u8>, p: int, e: int)
    requires
        0 <= p < e,
        p < s.len(),
        s[p] == 32,
    ensures
        fwd_upto(s, p, e) == fwd_upto(s, p + 1, e),
{
    assert(fwd_token(s, p) == fwd_token(s, p + 1));
    if p + 1 < e {
        match fwd_token(s, p + 1) {
            Some((t, q)) => {
                lemma_fwd_token_moves(s, p + 1);
            },
            None => {},
        }
    } else {
        match fwd_token(s, p + 1) {
            Some((t, q)) => {
                lemma_fwd_token_moves(s, p + 1);
            },
            None => {},
        }
    }
}

/// A token read forward from `p` ends within the input.
proof fn lemma_fwd_token_end(s: Seq<u8>, p: int)
    ensures
        fwd_token(s, p) matches Some((t, q)) ==> q <= s.len(),
    decreases s.len() - p,
{
    if 0 <= p < s.len() {
        if is_alnum(s[p]) {
            lemma_word_end(s, p + 1);
        } else if punct_kind(s[p]) is None && s[p] == 32 {
            lemma_fwd_token_end(s, p + 1);
        }
    }
}

/// A token read forward from `p` ends after `p`.
proof fn lemma_fwd_token_moves(s: Seq<u8>, p: int)
    ensures
        fwd_token(s, p) matches Some((t, q)) ==> p < q,
    decreases s.len() - p,
{
    if 0 <= p < s.len() {
        if is_alnum(s[p]) {
            lemma_word_end(s, p + 1);
        } else if punct_kind(s[p]) is None && s[p] == 32 {
            lemma_fwd_token_moves(s, p + 1);
        }
    }
}

/// Reading backward from a boundary `e` gives the tokens that reading forward gives up to `e`,
/// in reverse order.
proof fn lemma_bwd_reverses_fwd_upto(s: Seq<u8>, e: int)
    requires
        tokens_well_formed(s),
        0 <= e <= s.len(),
        at_boundary(s, e),
    ensures
        bwd_tokens(s, e) == fwd_upto(s, 0, e).reverse(),
    decreases e,
{
    if e == 0 {
        assert(fwd_upto(s, 0, 0).reverse() =~= Seq::<SpecTok>::empty());
    } else {
        let b = s[e - 1];
        assert(byte_ok(s[e - 1]));
        if b == 32 {
            lemma_bwd_reverses_fwd_upto(s, e - 1);
            lemma_fwd_split(s, 0, e - 1, e);
            lemma_fwd_space(s, e - 1, e);
            assert(fwd_upto(s, e, e) =~= Seq::<SpecTok>::empty());
            assert(fwd_upto(s, 0, e) =~= fwd_upto(s, 0, e - 1));
            lemma_bwd_space(s, e);
        } else if punct_kind(b) is Some {
            lemma_bwd_reverses_fwd_upto(s, e - 1);
            lemma_fwd_split(s, 0, e - 1, e);
            let t = (punct_kind(b)->0, e - 1, e);
            assert(fwd_upto(s, e, e) =~= Seq::<SpecTok>::empty());
            assert(fwd_upto(s, e - 1, e) =~= seq![t]);
            assert((fwd_upto(s, 0, e - 1) + seq![t]).reverse() =~= seq![t] + fwd_upto(s, 0, e - 1).reverse());
        } else {
            assert(is_word(b));
            assert(is_alnum(b));
            lemma_word_start(s, e - 1);
            let st = word_start(s, e - 1);
            assert(at_boundary(s, st));
            if st > 0 {
                assert(!is_word(s[st - 1]));
            }
            assert(is_alnum(s[st]));
            lemma_bwd_reverses_fwd_upto(s, st);
            lemma_fwd_split(s, 0, st, e);
            lemma_word_end_at(s, st + 1, e);
            let kind = if is_digit(s[st]) {
                TokKind::Number
            } else {
                TokKind::Ident
            };
            let t = (kind, st, e);
            assert(fwd_upto(s, e, e) =~= Seq::<SpecTok>::empty());
            assert(fwd_upto(s, st, e) =~= seq![t]);
            assert((fwd_upto(s, 0, st) + seq![t]).reverse() =~= seq![t] + fwd_upto(s, 0, st).reverse());
        }
    }
}

/// A space before `e` is skipped backward.
proof fn lemma_bwd_space(s: Seq<u8>, e: int)
    requires
        0 < e <= s.len(),
        s[e - 1] == 32,
    ensures
        bwd_tokens(s, e) == bwd_tokens(s, e - 1),
{
    assert(bwd_token(s, e) == bwd_token(s, e - 1));
    lemma_bwd_token_moves(s, e - 1);
}

/// A token read backward from `e` starts before `e`.
proof fn lemma_bwd_token_moves(s: Seq<u8>, e: int)
    ensures
        bwd_token(s, e) matches Some((t, st)) ==> 0 <= st < e,
    decreases e,
{
    if 0 < e <= s.len() {
        if is_alnum(s[e - 1]) {
            lemma_word_start(s, e - 1);
        } else if punct_kind(s[e - 1]) is None && s[e - 1] == 32 {
            lemma_bwd_token_moves(s, e - 1);
        }
    }
}

/// Reading a well formed declaration backward gives the tokens that reading it forward gives,
/// in reverse order: the backward parser sees the same tokens as a forward reader.
pub proof fn lemma_backward_tokens_reverse_forward(s: Seq<u8>)
    requires
        tokens_well_formed(s),
    ensures
        bwd_tokens(s, s.len() as int) == fwd_tokens(s).reverse(),
{
    lemma_bwd_reverses_fwd_upto(s, s.len() as int);
}

/// In a well formed declaration, reading forward from a boundary meets a token start or the end.
proof fn lemma_fwd_ok_at_boundary(s: Seq<u8>, p: int)
    requires
        tokens_well_formed(s),
        0 <= p <= s.len(),
        at_boundary(s, p),
    ensures
        fwd_ok(s, p),
        fwd_token(s, p) matches Some((t, q)) ==> at_boundary(s, q),
    decreases s.len() - p,
{
    if p < s.len() {
        assert(byte_ok(s[p]));
        if is_alnum(s[p]) {
            lemma_word_end(s, p + 1);
        } else if punct_kind(s[p]) is Some {
        } else if s[p] == 32 {
            lemma_fwd_ok_at_boundary(s, p + 1);
        } else {
            assert(is_word(s[p]) && !is_alnum(s[p]));
            if p > 0 {
                assert(!is_word(s[p - 1]));
            }
        }
    }
}

/// In a well formed declaration, reading backward from a boundary meets a token end or the
/// start.
proof fn lemma_bwd_ok_at_boundary(s: Seq<u8>, e: int)
    requires
        tokens_well_formed(s),
        0 <= e <= s.len(),
        at_boundary(s, e),
    ensures
        bwd_ok(s, e),
        bwd_token(s, e) matches Some((t, st)) ==> at_boundary(s, st),
    decreases e,
{
    if e > 0 {
        assert(byte_ok(s[e - 1]));
        if is_alnum(s[e - 1]) {
            lemma_word_start(s, e - 1);
        } else if punct_kind(s[e - 1]) is Some {
        } else if s[e - 1] == 32 {
            lemma_bwd_ok_at_boundary(s, e - 1);
        } else {
            assert(is_word(s[e - 1]) && !is_alnum(s[e - 1]));
            if e < s.len() {
                assert(!is_word(s[e]));
            }
        }
    }
}

/// In a well formed declaration, reading forward from a boundary to the end meets no byte that
/// starts no token.
proof fn lemma_fwd_drain_ok(s: Seq<u8>, p: int)
    requires
        tokens_well_formed(s),
        0 <= p <= s.len(),
        at_boundary(s, p),
    ensures
        fwd_drain_ok(s, p),
    decreases s.len() - p,
{
    lemma_fwd_ok_at_boundary(s, p);
    lemma_fwd_token_moves(s, p);
    lemma_fwd_token_end(s, p);
    if let Some((_, q)) = fwd_token(s, p) {
        lemma_fwd_drain_ok(s, q);
    }
}

/// In a well formed declaration, reading backward from a boundary to the start meets no byte
/// that ends no token.
proof fn lemma_bwd_drain_ok(s: Seq<u8>, e: int)
    requires
        tokens_well_formed(s),
        0 <= e <= s.len(),
        at_boundary(s, e),
    ensures
        bwd_drain_ok(s, e),
    decreases e,
{
    lemma_bwd_ok_at_boundary(s, e);
    lemma_bwd_token_moves(s, e);
    if let Some((_, st)) = bwd_token(s, e) {
        lemma_bwd_drain_ok(s, st);
    }
}

/// A well formed declaration can be read to its end from the front and to its start from the
/// back without meeting a byte that the tokenizer rejects.
pub proof fn lemma_well_formed_reads_through(s: Seq<u8>)
    requires
        tokens_well_formed(s),
    ensures
        fwd_drain_ok(s, 0),
        bwd_drain_ok(s, s.len() as int),
{
    lemma_fwd_drain_ok(s, 0);
    lemma_bwd_drain_ok(s, s.len() as int);
}

/// `t` is the token `sp` of the input `text`.
pub open spec fn token_is(t: Token, sp: SpecTok, text: Seq<char>) -> bool {
    match t {
        Token::Ident(x) => sp.0 == TokKind::Ident && x@ == text.subrange(sp.1, sp.2),
        Token::Number(x) => sp.0 == TokKind::Number && x@ == text.subrange(sp.1, sp.2),
        Token::LAngle => sp.0 == TokKind::LAngle,
        Token::RAngle => sp.0 == TokKind::RAngle,
        Token::LSquare => sp.0 == TokKind::LSquare,
        Token::RSquare => sp.0 == TokKind::RSquare,
        Token::Asterisk => sp.0 == TokKind::Asterisk,
    }
}

/// `a` and `b` are the same token: the same kind and, for a word, the same text.
pub open spec fn same_token(a: Token, b: Token) -> bool {
    match (a, b) {
        (Token::Ident(x), Token::Ident(y)) => x@ == y@,
        (Token::Number(x), Token::Number(y)) => x@ == y@,
        (Token::LAngle, Token::LAngle) => true,
        (Token::RAngle, Token::RAngle) => true,
        (Token::LSquare, Token::LSquare) => true,
        (Token::RSquare, Token::RSquare) => true,
        (Token::Asterisk, Token::Asterisk) => true,
        _ => false,
    }
}

/// Two tokens that stand for the same token of one input are the same token.
proof fn lemma_token_is_same(a: Token, b: Token, sp: SpecTok, text: Seq<char>)
    requires
        token_is(a, sp, text),
        token_is(b, sp, text),
    ensures
        same_token(a, b),
{
}

/// Collecting a well formed declaration from the back gives the tokens that collecting it
/// from the front gives, in reverse order: `fwd` and `bwd` are what
/// [`Tokenizer::collect_tokens`] and [`Tokenizer::collect_tokens_rev`] return on a fresh
/// tokenizer over the bytes `s` and the text `text`.
pub proof fn lemma_collected_backward_reverses_forward(
    s: Seq<u8>,
    text: Seq<char>,
    fwd: Seq<Token>,
    bwd: Seq<Token>,
)
    requires
        tokens_well_formed(s),
        fwd.len() == fwd_tokens(s).len(),
        forall|i: int| 0 <= i < fwd.len() ==> token_is(#[trigger] fwd[i], fwd_tokens(s)[i], text),
        bwd.len() == bwd_tokens(s, s.len() as int).len(),
        forall|i: int|
            0 <= i < bwd.len() ==> token_is(#[trigger] bwd[i], bwd_tokens(s, s.len() as int)[i], text),
    ensures
        bwd.len() == fwd.len(),
        forall|i: int| 0 <= i < bwd.len() ==> same_token(#[trigger] bwd[i], fwd[fwd.len() - 1 - i]),
{
    lemma_backward_tokens_reverse_forward(s);
    assert forall|i: int| 0 <= i < bwd.len() implies same_token(#[trigger] bwd[i], fwd[fwd.len() - 1 - i]) by {
        let j = fwd.len() - 1 - i;
        assert(bwd_tokens(s, s.len() as int)[i] == fwd_tokens(s)[j]);
        assert(token_is(fwd[j], fwd_tokens(s)[j], text));
        lemma_token_is_same(bwd[i], fwd[j], fwd_tokens(s)[j], text);
    }
}

/// Splits an ASCII type declaration into tokens, from the front (`next`) or from the back
/// (`next_back`).
pub struct Tokenizer<'a> {
    input: &'a str,
    bytes: &'a [u8],
    fwd_pos: usize,
    bwd_pos: usize,
}

/// Whether `b` is an ASCII letter or digit.
fn byte_is_alnum(b: u8) -> (r: bool)
    ensures
        r == is_alnum(b),
{
    (48 <= b && b <= 57) || (65 <= b && b <= 90) || (97 <= b && b <= 122)
}

/// Whether `b` may continue a word.
fn byte_is_word(b: u8) -> (r: bool)
    ensures
        r == is_word(b),
{
    byte_is_alnum(b) || b == 95
}

/// The kind of a one-byte token.
fn byte_punct_kind(b: u8) -> (r: Option<TokKind>)
    ensures
        r == punct_kind(b),
{
    if b == 60 {
        Some(TokKind::LAngle)
    } else if b == 62 {
        Some(TokKind::RAngle)
    } else if b == 91 {
        Some(TokKind::LSquare)
    } else if b == 93 {
        Some(TokKind::RSquare)
    } else if b == 42 {
        Some(TokKind::Asterisk)
    } else {
        None
    }
}

impl<'a> Tokenizer<'a> {
    /// The input's bytes.
    pub closed spec fn bytes_view(&self) -> Seq<u8> {
        self.bytes@
    }

    /// The input's characters.
    pub closed spec fn text(&self) -> Seq<char> {
        self.input@
    }

    /// Where forward reading goes on.
    pub closed spec fn fwd(&self) -> int {
        self.fwd_pos as int
    }

    /// Where backward reading goes on (tokens end at or before it).
    pub closed spec fn bwd(&self) -> int {
        self.bwd_pos as int
    }

    /// The input is ASCII, its bytes are its characters, and both positions lie inside it.
    pub closed spec fn wf(&self) -> bool {
        &&& is_ascii(self.input)
        &&& self.bytes@ == self.input.spec_bytes()
        &&& self.bytes@.len() == self.input@.len()
        &&& self.fwd_pos <= self.bytes@.len()
        &&& self.bwd_pos <= self.bytes@.len()
    }

    /// Both positions lie inside the input.
    pub proof fn lemma_wf_bounds(&self)
        requires
            self.wf(),
        ensures
            0 <= self.fwd() <= self.bytes_view().len(),
            0 <= self.bwd() <= self.bytes_view().len(),
            self.bytes_view().len() == self.text().len(),
    {
    }

    /// The input is ASCII and its bytes are its characters.
    pub proof fn lemma_text_ascii(&self)
        requires
            self.wf(),
        ensures
            vstd::utf8::is_ascii_chars(self.text()),
            self.bytes_view() =~= Seq::new(self.text().len(), |i| self.text()[i] as u8),
    {
        vstd::string::is_ascii_spec_bytes(self.input);
    }

    /// A tokenizer at both ends of `input`.
    pub fn new(input: &'a str) -> (r: Self)
        requires
            is_ascii(input),
        ensures
            r.wf(),
            r.text() == input@,
            r.bytes_view() == input.spec_bytes(),
            r.bytes_view().len() == input@.len(),
            r.fwd() == 0,
            r.bwd() == input@.len(),
    {
        let bytes = input.as_bytes();
        Tokenizer { input, bytes, fwd_pos: 0, bwd_pos: bytes.len() }
    }

    /// The next token from the front, or `None` at the end of the input.
    pub fn next(&mut self) -> (r: Option<Token<'a>>)
        requires
            old(self).wf(),
            fwd_ok(old(self).bytes_view(), old(self).fwd()),
        ensures
            final(self).wf(),
            final(self).bytes_view() == old(self).bytes_view(),
            final(self).text() == old(self).text(),
            final(self).bwd() == old(self).bwd(),
            match fwd_token(old(self).bytes_view(), old(self).fwd()) {
                None => r is None && final(self).fwd() == old(self).bytes_view().len(),
                Some(t) => r is Some && token_is(r->0, t.0, old(self).text()) && final(self).fwd()
                    == t.1,
            },
    {
        let ghost s = self.bytes@;
        while self.fwd_pos < self.bytes.len()
            invariant
                self.wf(),
                self.bytes@ == s,
                s == old(self).bytes_view(),
                self.input@ == old(self).text(),
                self.bwd() == old(self).bwd(),
                fwd_ok(s, self.fwd_pos as int),
                fwd_token(s, old(self).fwd()) == fwd_token(s, self.fwd_pos as int),
            decreases s.len() - self.fwd_pos,
        {
            let p = self.fwd_pos;
            let b = self.bytes[p];
            if byte_is_alnum(b) {
                let mut e = p + 1;
                while e < self.bytes.len() && byte_is_word(self.bytes[e])
                    invariant
                        self.wf(),
                        self.bytes@ == s,
                        p < e <= s.len(),
                        word_end(s, p + 1) == word_end(s, e as int),
                    decreases s.len() - e,
                {
                    e = e + 1;
                }
                let text = self.input.substring_ascii(p, e);
                self.fwd_pos = e;
                if 48 <= b && b <= 57 {
                    return Some(Token::Number(text));
                } else {
                    return Some(Token::Ident(text));
                }
            }
            match byte_punct_kind(b) {
                Some(kind) => {
                    self.fwd_pos = p + 1;
                    return Some(
                        match kind {
                            TokKind::LAngle => Token::LAngle,
                            TokKind::RAngle => Token::RAngle,
                            TokKind::LSquare => Token::LSquare,
                            TokKind::RSquare => Token::RSquare,
                            _ => Token::Asterisk,
                        },
                    );
                },
                None => {},
            }
            self.fwd_pos = p + 1;
        }
        None
    }

    /// The next token from the back, or `None` at the start of the input.
    pub fn next_back(&mut self) -> (r: Option<Token<'a>>)
        requires
            old(self).wf(),
            bwd_ok(old(self).bytes_view(), old(self).bwd()),
        ensures
            final(self).wf(),
            final(self).bytes_view() == old(self).bytes_view(),
            final(self).text() == old(self).text(),
            final(self).fwd() == old(self).fwd(),
            match bwd_token(old(self).bytes_view(), old(self).bwd()) {
                None => r is None && final(self).bwd() == 0,
                Some(t) => r is Some && token_is(r->0, t.0, old(self).text()) && final(self).bwd()
                    == t.1,
            },
    {
        let ghost s = self.bytes@;
        while self.bwd_pos > 0
            invariant
                self.wf(),
                self.bytes@ == s,
                s == old(self).bytes_view(),
                self.input@ == old(self).text(),
                self.fwd() == old(self).fwd(),
                bwd_ok(s, self.bwd_pos as int),
                bwd_token(s, old(self).bwd()) == bwd_token(s, self.bwd_pos as int),
            decreases self.bwd_pos,
        {
            let e = self.bwd_pos;
            let b = self.bytes[e - 1];
            if byte_is_alnum(b) {
                let mut st = e - 1;
                while st > 0 && byte_is_word(self.bytes[st - 1])
                    invariant
                        self.wf(),
                        self.bytes@ == s,
                        0 <= st < e <= s.len(),
                        word_start(s, e - 1) == word_start(s, st as int),
                    decreases st,
                {
                    st = st - 1;
                }
                let text = self.input.substring_ascii(st, e);
                self.bwd_pos = st;
                let first = self.bytes[st];
                if 48 <= first && first <= 57 {
                    return Some(Token::Number(text));
                } else {
                    return Some(Token::Ident(text));
                }
            }
            match byte_punct_kind(b) {
                Some(kind) => {
                    self.bwd_pos = e - 1;
                    return Some(
                        match kind {
                            TokKind::LAngle => Token::LAngle,
                            TokKind::RAngle => Token::RAngle,
                            TokKind::LSquare => Token::LSquare,
                            TokKind::RSquare => Token::RSquare,
                            _ => Token::Asterisk,
                        },
                    );
                },
                None => {},
            }
            self.bwd_pos = e - 1;
        }
        None
    }

    /// The tokens from the front to the end, in order: what collecting the tokenizer gives.
    pub fn collect_tokens(&mut self) -> (r: Vec<Token<'a>>)
        requires
            old(self).wf(),
            fwd_drain_ok(old(self).bytes_view(), old(self).fwd()),
        ensures
            final(self).wf(),
            final(self).bytes_view() == old(self).bytes_view(),
            final(self).text() == old(self).text(),
            final(self).bwd() == old(self).bwd(),
            final(self).fwd() == old(self).bytes_view().len(),
            r@.len() == fwd_upto(old(self).bytes_view(), old(self).fwd(), old(self).bytes_view().len() as int).len(),
            forall|i: int|
                0 <= i < r@.len() ==> token_is(
                    #[trigger] r@[i],
                    fwd_upto(old(self).bytes_view(), old(self).fwd(), old(self).bytes_view().len() as int)[i],
                    old(self).text(),
                ),
    {
        let ghost s = self.bytes@;
        let ghost n = s.len() as int;
        let ghost all = fwd_upto(s, self.fwd_pos as int, n);
        let ghost mut done: Seq<SpecTok> = Seq::empty();
        let mut out: Vec<Token<'a>> = Vec::new();
        proof {
            assert(all =~= done + fwd_upto(s, self.fwd_pos as int, n));
        }
        loop
            invariant
                self.wf(),
                self.bytes@ == s,
                n == s.len(),
                s == old(self).bytes_view(),
                self.input@ == old(self).text(),
                self.bwd() == old(self).bwd(),
                fwd_drain_ok(s, self.fwd_pos as int),
                all == fwd_upto(s, old(self).fwd(), n),
                all == done + fwd_upto(s, self.fwd_pos as int, n),
                out@.len() == done.len(),
                forall|i: int| 0 <= i < out@.len() ==> token_is(#[trigger] out@[i], done[i], old(self).text()),
            ensures
                self.wf(),
                self.bytes@ == s,
                self.input@ == old(self).text(),
                self.bwd() == old(self).bwd(),
                self.fwd() == n,
                all == done,
                out@.len() == done.len(),
                forall|i: int| 0 <= i < out@.len() ==> token_is(#[trigger] out@[i], done[i], old(self).text()),
            decreases n - self.fwd_pos,
        {
            let ghost p = self.fwd_pos as int;
            proof {
                lemma_fwd_token_end(s, p);
            }
            match self.next() {
                Some(t) => {
                    proof {
                        let (st, q) = fwd_token(s, p)->0;
                        assert(fwd_upto(s, p, n) == seq![st] + fwd_upto(s, q, n));
                        assert(all =~= done.push(st) + fwd_upto(s, q, n));
                        done = done.push(st);
                    }
                    out.push(t);
                },
                None => {
                    proof {
                        assert(fwd_upto(s, p, n) =~= Seq::<SpecTok>::empty());
                        assert(all =~= done);
                    }
                    return out;
                },
            }
        }
    }

    /// The tokens from the back to the start, in the order they are read: what collecting the
    /// reversed tokenizer gives.
    pub fn collect_tokens_rev(&mut self) -> (r: Vec<Token<'a>>)
        requires
            old(self).wf(),
            bwd_drain_ok(old(self).bytes_view(), old(self).bwd()),
        ensures
            final(self).wf(),
            final(self).bytes_view() == old(self).bytes_view(),
            final(self).text() == old(self).text(),
            final(self).fwd() == old(self).fwd(),
            final(self).bwd() == 0,
            r@.len() == bwd_tokens(old(self).bytes_view(), old(self).bwd()).len(),
            forall|i: int|
                0 <= i < r@.len() ==> token_is(
                    #[trigger] r@[i],
                    bwd_tokens(old(self).bytes_view(), old(self).bwd())[i],
                    old(self).text(),
                ),
            tokens_well_formed(old(self).bytes_view()) && old(self).bwd() == old(
                self,
            ).bytes_view().len() ==> {
                let f = fwd_tokens(old(self).bytes_view());
                &&& r@.len() == f.len()
                &&& forall|i: int|
                    0 <= i < r@.len() ==> token_is(#[trigger] r@[i], f[f.len() - 1 - i], old(self).text())
            },
    {
        let ghost s = self.bytes@;
        proof {
            if tokens_well_formed(s) {
                lemma_backward_tokens_reverse_forward(s);
            }
        }
        let ghost all = bwd_tokens(s, self.bwd_pos as int);
        let ghost mut done: Seq<SpecTok> = Seq::empty();
        let mut out: Vec<Token<'a>> = Vec::new();
        proof {
            assert(all =~= done + bwd_tokens(s, self.bwd_pos as int));
        }
        loop
            invariant
                self.wf(),
                self.bytes@ == s,
                s == old(self).bytes_view(),
                self.input@ == old(self).text(),
                self.fwd() == old(self).fwd(),
                bwd_drain_ok(s, self.bwd_pos as int),
                all == bwd_tokens(s, old(self).bwd()),
                tokens_well_formed(s) && old(self).bwd() == s.len() ==> all == fwd_tokens(s).reverse(),
                all == done + bwd_tokens(s, self.bwd_pos as int),
                out@.len() == done.len(),
                forall|i: int| 0 <= i < out@.len() ==> token_is(#[trigger] out@[i], done[i], old(self).text()),
            ensures
                self.wf(),
                self.bytes@ == s,
                self.input@ == old(self).text(),
                self.fwd() == old(self).fwd(),
                self.bwd() == 0,
                all == done,
                out@.len() == done.len(),
                forall|i: int| 0 <= i < out@.len() ==> token_is(#[trigger] out@[i], done[i], old(self).text()),
            decreases self.bwd_pos,
        {
            let ghost e = self.bwd_pos as int;
            match self.next_back() {
                Some(t) => {
                    proof {
                        let (st, b) = bwd_token(s, e)->0;
                        assert(bwd_tokens(s, e) == seq![st] + bwd_tokens(s, b));
                        assert(all =~= done.push(st) + bwd_tokens(s, b));
                        done = done.push(st);
                    }
                    out.push(t);
                },
                None => {
                    proof {
                        assert(bwd_tokens(s, e) =~= Seq::<SpecTok>::empty());
                        assert(all =~= done);
                        if tokens_well_formed(s) && old(self).bwd() == s.len() {
                            let f = fwd_tokens(s);
                            assert forall|k: int| 0 <= k < out@.len() implies token_is(
                                #[trigger] out@[k],
                                f[f.len() - 1 - k],
                                old(self).text(),
                            ) by {
                                assert(done[k] == f.reverse()[k]);
                            }
                        }
                    }
                    return out;
                },
            }
        }
    }
}

} // verus!
