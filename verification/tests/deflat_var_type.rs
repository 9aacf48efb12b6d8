use haste::haste_dota2_deflat::var_type::{parse, ArrayLength, Decl, Token, Tokenizer};

fn lex(input: &str) -> Vec<Token<'_>> {
    let mut tokenizer = Tokenizer::new(input);
    let mut tokens = Vec::new();
    while let Some(token) = tokenizer.next() {
        tokens.push(token);
    }
    tokens
}

#[test]
fn test_primitive() {
    let input = "bool";
    assert_eq!(lex(input), vec![Token::Ident("bool"),]);
    assert_eq!(parse(input), Decl::Ident("bool"));
}

#[test]
fn test_template() {
    let input = "CHandle< CBaseAnimatingActivity >";
    assert_eq!(
        lex(input),
        vec![
            Token::Ident("CHandle"),
            Token::LAngle,
            Token::Ident("CBaseAnimatingActivity"),
            Token::RAngle,
        ]
    );
    assert_eq!(
        parse(input),
        Decl::Template {
            ident: "CHandle",
            argument: Box::new(Decl::Ident("CBaseAnimatingActivity"))
        }
    );
}

#[test]
fn test_array() {
    let input = "uint64[256]";
    assert_eq!(
        lex(input),
        vec![
            Token::Ident("uint64"),
            Token::LSquare,
            Token::Number("256"),
            Token::RSquare,
        ]
    );
    assert_eq!(
        parse(input),
        Decl::Array {
            decl: Box::new(Decl::Ident("uint64")),
            length: ArrayLength::Number(256)
        }
    );
}

#[test]
fn test_pointer() {
    let input = "CDOTAGameManager*";
    assert_eq!(
        lex(input),
        vec![Token::Ident("CDOTAGameManager"), Token::Asterisk]
    );
    assert_eq!(
        parse(input),
        Decl::Pointer(Box::new(Decl::Ident("CDOTAGameManager")))
    );
}

#[test]
fn test_nested_template() {
    let input = "CNetworkUtlVectorBase< CHandle< CBasePlayerController > >";
    assert_eq!(
        lex(input),
        vec![
            Token::Ident("CNetworkUtlVectorBase"),
            Token::LAngle,
            Token::Ident("CHandle"),
            Token::LAngle,
            Token::Ident("CBasePlayerController"),
            Token::RAngle,
            Token::RAngle
        ]
    );
    assert_eq!(
        parse(input),
        Decl::Template {
            ident: "CNetworkUtlVectorBase",
            argument: Box::new(Decl::Template {
                ident: "CHandle",
                argument: Box::new(Decl::Ident("CBasePlayerController"))
            })
        }
    );
}

#[test]
fn test_template_array() {
    let input = "CHandle< CDOTASpecGraphPlayerData >[24]";
    assert_eq!(
        lex(input),
        vec![
            Token::Ident("CHandle"),
            Token::LAngle,
            Token::Ident("CDOTASpecGraphPlayerData"),
            Token::RAngle,
            Token::LSquare,
            Token::Number("24"),
            Token::RSquare
        ]
    );
    assert_eq!(
        parse(input),
        Decl::Array {
            decl: Box::new(Decl::Template {
                ident: "CHandle",
                argument: Box::new(Decl::Ident("CDOTASpecGraphPlayerData"))
            }),
            length: ArrayLength::Number(24)
        }
    );
}

#[test]
fn test_array_with_constant_length() {
    let input = "CDOTA_AbilityDraftAbilityState[MAX_ABILITY_DRAFT_ABILITIES]";
    assert_eq!(
        lex(input),
        vec![
            Token::Ident("CDOTA_AbilityDraftAbilityState"),
            Token::LSquare,
            Token::Ident("MAX_ABILITY_DRAFT_ABILITIES"),
            Token::RSquare
        ],
    );
    assert_eq!(
        parse(input),
        Decl::Array {
            decl: Box::new(Decl::Ident("CDOTA_AbilityDraftAbilityState")),
            length: ArrayLength::Ident("MAX_ABILITY_DRAFT_ABILITIES")
        }
    );
}

#[test]
fn deflat_tokens_read_from_the_back() {
    let mut tokenizer = Tokenizer::new("a< b >[12]");
    assert_eq!(tokenizer.next_back(), Some(Token::RSquare));
    assert_eq!(tokenizer.next_back(), Some(Token::Number("12")));
    assert_eq!(tokenizer.next_back(), Some(Token::LSquare));
    assert_eq!(tokenizer.next_back(), Some(Token::RAngle));
    assert_eq!(tokenizer.next_back(), Some(Token::Ident("b")));
    assert_eq!(tokenizer.next_back(), Some(Token::LAngle));
    assert_eq!(tokenizer.next_back(), Some(Token::Ident("a")));
    assert_eq!(tokenizer.next_back(), None);
}

#[test]
fn deflat_pointer_to_array() {
    assert_eq!(
        parse("int32[4]*"),
        Decl::Pointer(Box::new(Decl::Array {
            decl: Box::new(Decl::Ident("int32")),
            length: ArrayLength::Number(4)
        }))
    );
}

#[test]
fn reading_backward_gives_the_forward_tokens_reversed() {
    for input in [
        "CNetworkUtlVectorBase< CHandle< CBasePlayerController > >",
        "uint64[256]",
        "CDOTAGameManager*",
        "  int32[ MAX_ABILITY_DRAFT_ABILITIES ] ",
        "m_vec_2d",
    ] {
        let mut tokenizer = Tokenizer::new(input);
        let mut backward = Vec::new();
        while let Some(token) = tokenizer.next_back() {
            backward.push(token);
        }
        let mut forward = lex(input);
        forward.reverse();
        assert_eq!(backward, forward, "{}", input);
    }
}

#[test]
fn collecting_backward_gives_the_collected_forward_tokens_reversed() {
    for input in [
        "CNetworkUtlVectorBase< CHandle< CBasePlayerController > >",
        "uint64[256]",
        "CDOTAGameManager*",
        "  int32[ MAX_ABILITY_DRAFT_ABILITIES ] ",
        "",
    ] {
        let forward = Tokenizer::new(input).collect_tokens();
        let mut backward = Tokenizer::new(input).collect_tokens_rev();
        backward.reverse();
        assert_eq!(backward, forward, "{}", input);
        assert_eq!(forward, lex(input), "{}", input);
    }
    let tokens = Tokenizer::new("uint64[256]").collect_tokens_rev();
    assert_eq!(tokens, vec![Token::RSquare, Token::Number("256"), Token::LSquare, Token::Ident("uint64")]);
}
