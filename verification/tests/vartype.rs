use haste::haste_vartype::{parse, Error, Expr, Lit, Span, Token, TokenKind, Tokenizer};

fn tokens(input: &str) -> Vec<Result<Token<'_>, Error>> {
    let mut tokenizer = Tokenizer::new(input);
    let mut out = Vec::new();
    while let Some(t) = tokenizer.next() {
        out.push(t);
    }
    out
}

fn tok(kind: TokenKind<'_>, start: u16, end: u16) -> Result<Token<'_>, Error> {
    Ok(Token { kind, span: Span { start, end } })
}

#[test]
fn tokenizer_it_works() {
    const INPUT: &str = r#"
uint64[256]
CDOTAGameManager*
CNetworkUtlVectorBase< CHandle< CBasePlayerController > >
CHandle< CDOTASpecGraphPlayerData >[24]
CDOTA_AbilityDraftAbilityState[MAX_ABILITY_DRAFT_ABILITIES]
            "#;

    let expected = vec![
        tok(TokenKind::Ident("uint64"), 1, 7),
        tok(TokenKind::LSquare, 7, 8),
        tok(TokenKind::Lit("256"), 8, 11),
        tok(TokenKind::RSquare, 11, 12),
        tok(TokenKind::Ident("CDOTAGameManager"), 13, 29),
        tok(TokenKind::Asterisk, 29, 30),
        tok(TokenKind::Ident("CNetworkUtlVectorBase"), 31, 52),
        tok(TokenKind::LAngle, 52, 53),
        tok(TokenKind::Ident("CHandle"), 54, 61),
        tok(TokenKind::LAngle, 61, 62),
        tok(TokenKind::Ident("CBasePlayerController"), 63, 84),
        tok(TokenKind::RAngle, 85, 86),
        tok(TokenKind::RAngle, 87, 88),
        tok(TokenKind::Ident("CHandle"), 89, 96),
        tok(TokenKind::LAngle, 96, 97),
        tok(TokenKind::Ident("CDOTASpecGraphPlayerData"), 98, 122),
        tok(TokenKind::RAngle, 123, 124),
        tok(TokenKind::LSquare, 124, 125),
        tok(TokenKind::Lit("24"), 125, 127),
        tok(TokenKind::RSquare, 127, 128),
        tok(TokenKind::Ident("CDOTA_AbilityDraftAbilityState"), 129, 159),
        tok(TokenKind::LSquare, 159, 160),
        tok(TokenKind::Ident("MAX_ABILITY_DRAFT_ABILITIES"), 160, 187),
        tok(TokenKind::RSquare, 187, 188),
    ];
    assert_eq!(tokens(INPUT), expected);
}

#[test]
fn unexpected_eof() {
    assert_eq!(parse(""), Err(Error::UnexpectedEof));
}

#[test]
fn unexpected_token() {
    assert_eq!(parse("42"), Err(Error::UnexpectedToken(0)));
}

#[test]
fn parser_it_works() {
    const INPUTS: [&'static str; 5] = [
        "uint64[256]",
        "CDOTAGameManager*",
        "CNetworkUtlVectorBase< CHandle< CBasePlayerController > >",
        "CHandle< CDOTASpecGraphPlayerData >[24]",
        "CDOTA_AbilityDraftAbilityState[MAX_ABILITY_DRAFT_ABILITIES]",
    ];
    let outputs: Vec<Result<Expr<'static>, Error>> = INPUTS.iter().map(|input| parse(input)).collect();
    let expected: Vec<Result<Expr<'static>, Error>> = vec![
        Ok(Expr::Array {
            expr: Box::new(Expr::Ident("uint64")),
            len: Box::new(Expr::Lit(Lit::Num(256))),
        }),
        Ok(Expr::Pointer(Box::new(Expr::Ident("CDOTAGameManager")))),
        Ok(Expr::Template {
            expr: Box::new(Expr::Ident("CNetworkUtlVectorBase")),
            arg: Box::new(Expr::Template {
                expr: Box::new(Expr::Ident("CHandle")),
                arg: Box::new(Expr::Ident("CBasePlayerController")),
            }),
        }),
        Ok(Expr::Array {
            expr: Box::new(Expr::Template {
                expr: Box::new(Expr::Ident("CHandle")),
                arg: Box::new(Expr::Ident("CDOTASpecGraphPlayerData")),
            }),
            len: Box::new(Expr::Lit(Lit::Num(24))),
        }),
        Ok(Expr::Array {
            expr: Box::new(Expr::Ident("CDOTA_AbilityDraftAbilityState")),
            len: Box::new(Expr::Ident("MAX_ABILITY_DRAFT_ABILITIES")),
        }),
    ];
    assert_eq!(outputs, expected);
}

#[test]
fn vartype_unknown_char_is_reported_and_passed_over() {
    assert_eq!(
        tokens("a$b"),
        vec![tok(TokenKind::Ident("a"), 0, 1), Err(Error::UnknownChar('$')), tok(TokenKind::Ident("b"), 2, 3)]
    );
    assert_eq!(parse("a $"), Err(Error::UnknownChar('$')));
}

#[test]
fn vartype_spans_are_byte_offsets() {
    // 'é' takes two bytes in UTF-8, and the no-break space (U+00A0) is white space.
    assert_eq!(
        tokens("é\u{a0}x1_y"),
        vec![Err(Error::UnknownChar('é')), tok(TokenKind::Ident("x1_y"), 4, 8)]
    );
}

#[test]
fn vartype_parser_errors() {
    assert_eq!(parse("a<b"), Err(Error::UnexpectedEof));
    assert_eq!(parse("a<b]"), Err(Error::UnexpectedToken(3)));
    assert_eq!(parse("a[<]"), Err(Error::UnexpectedToken(2)));
    assert_eq!(parse("a b"), Err(Error::UnexpectedToken(2)));
    assert_eq!(parse("u[99999999999999999999999]"), Err(Error::UnexpectedToken(2)));
}

#[test]
fn vartype_parse_stops_before_a_closing_bracket() {
    assert_eq!(parse("a]"), Ok(Expr::Ident("a")));
    assert_eq!(parse("a*>x"), Ok(Expr::Pointer(Box::new(Expr::Ident("a")))));
}

#[test]
fn vartype_span_to_joins_ranges() {
    let a = Span::new(1, 3);
    let b = Span::new(5, 9);
    assert_eq!(a.to(b), Span { start: 1, end: 9 });
    let c = Span::new(10, 12);
    assert_eq!(a.to(b).to(c), a.to(b.to(c)));
}

#[test]
fn prev_char_gives_the_character_consumed_last() {
    let mut t = Tokenizer::new("aé b");
    assert_eq!(t.prev_char(), None);
    assert_eq!(t.next_char(), Some('a'));
    assert_eq!(t.prev_char(), Some('a'));
    assert_eq!(t.prev_char(), Some('a'));
    assert_eq!(t.eat_while(|c| c != ' '), 1);
    assert_eq!(t.prev_char(), Some('é'));
    assert_eq!(t.next_char(), Some(' '));
    assert_eq!(t.prev_char(), Some(' '));
}

#[test]
fn prev_char_on_a_text_longer_than_the_spans_reach() {
    let long = "a".repeat(70000) + "b";
    let mut tokenizer = Tokenizer::new(&long);
    assert_eq!(tokenizer.prev_char(), None);
    assert_eq!(tokenizer.eat_while(|c| c == 'a'), 70000);
    assert_eq!(tokenizer.prev_char(), Some('a'));
    assert_eq!(tokenizer.next_char(), Some('b'));
    assert_eq!(tokenizer.prev_char(), Some('b'));
    assert_eq!(tokenizer.next_char(), None);
    assert_eq!(tokenizer.prev_char(), Some('b'));
}
