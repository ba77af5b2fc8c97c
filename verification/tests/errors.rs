use backwards_compat::error::{CompatError, Expectation, Place};
use backwards_compat::parse::{BackwardsCompatInput, Piece, SynAnswer};
use backwards_compat::tag::VersionTag;
use backwards_compat::text::IntTextError;
use backwards_compat::token::{Delimiter, LitKind, Tok};

fn ident(s: &str) -> Tok {
    Tok::Ident(s.to_string())
}

fn punct(c: char) -> Tok {
    Tok::Punct(c, false)
}

fn int_lit(digits: &str) -> Tok {
    Tok::Literal(LitKind::Int(digits.to_string()), digits.to_string())
}

fn string(v: &str) -> Tok {
    Tok::Literal(LitKind::Str(v.to_string()), format!("{:?}", v))
}

fn body(inner: Vec<Tok>) -> Tok {
    Tok::Group(Delimiter::Brace, inner)
}

#[test]
fn malformed_integer_digits() {
    let empty = vec![int_lit("")];
    assert!(matches!(
        VersionTag::parse(&empty, 0),
        Err(CompatError::IntLiteral(IntTextError::Empty))
    ));
    let bad = vec![int_lit("1x")];
    let e = VersionTag::parse(&bad, 0).unwrap_err();
    assert!(matches!(e, CompatError::IntLiteral(IntTextError::InvalidDigit)));
    assert_eq!(e.message(), "invalid digit found in string");
    assert_eq!(
        CompatError::IntLiteral(IntTextError::Empty).message(),
        "cannot parse integer from empty string"
    );
}

#[test]
fn version_tag_parse_forms() {
    let ts = vec![int_lit("12"), string("a.b"), ident("v1"), ident("fn"), punct('-')];
    assert_eq!(VersionTag::parse(&ts, 0).unwrap(), VersionTag::Int(12));
    assert_eq!(VersionTag::parse(&ts, 1).unwrap(), VersionTag::String("a.b".to_string()));
    assert!(matches!(VersionTag::parse(&ts, 2), Err(CompatError::IdentVersionKey)));
    assert!(matches!(VersionTag::parse(&ts, 3), Err(CompatError::ExpectedVersionLiteral)));
    assert!(matches!(VersionTag::parse(&ts, 4), Err(CompatError::ExpectedVersionLiteral)));
    assert!(matches!(VersionTag::parse(&ts, 5), Err(CompatError::ExpectedVersionLiteral)));
}

#[test]
fn identifier_expected_where_compat_belongs() {
    let ts = vec![int_lit("1"), ident("T"), body(vec![])];
    let e = BackwardsCompatInput::parse(&ts).unwrap_err();
    assert!(matches!(e.error, CompatError::Expected(Expectation::Identifier, false)));
    assert_eq!(e.message(), "expected identifier");
    assert!(matches!(&e.place, Place::Token(p) if p == &vec![0]));
}

#[test]
fn rejected_attribute_content_carries_syn_message() {
    let ts = vec![
        punct('#'),
        Tok::Group(Delimiter::Bracket, vec![punct('='), ident("x")]),
        ident("compat"),
        ident("T"),
        body(vec![int_lit("1"), punct(':'), ident("A")]),
    ];
    let e = BackwardsCompatInput::parse(&ts).unwrap_err();
    assert!(matches!(&e.place, Place::Tokens(p, 0, 2) if p == &vec![1]));
    match &e.error {
        CompatError::Rejected(m) => {
            assert!(!m.is_empty());
            assert_eq!(&e.message(), m);
        }
        other => panic!("unexpected error {:?}", other),
    }
}

#[test]
fn every_message_with_text() {
    assert_eq!(
        CompatError::ExpectedCompat("foo".to_string()).message(),
        "expected `compat`, found `foo`"
    );
    assert_eq!(
        CompatError::UnknownCurrentVersion(VersionTag::String("x".to_string())).message(),
        "version `x` does not match any declared version"
    );
    assert_eq!(
        CompatError::SelfLoop(VersionTag::Int(4)).message(),
        "self-loop transition in version `4`"
    );
    assert_eq!(
        CompatError::MissingTarget(VersionTag::Int(5)).message(),
        "target version `5` does not exist"
    );
    assert_eq!(
        CompatError::Cycle(VersionTag::String("b".to_string())).message(),
        "cycle detected in backwards_compat migration graph starting at version `b`"
    );
    assert_eq!(CompatError::Rejected("boom".to_string()).message(), "boom");
    assert_eq!(CompatError::Expected(Expectation::Colon, false).message(), "expected `:`");
    assert_eq!(
        CompatError::Expected(Expectation::CurlyBraces, true).message(),
        "unexpected end of input, expected curly braces"
    );
    assert_eq!(
        CompatError::UnexpectedToken(Delimiter::Bracket).message(),
        "unexpected token, expected `]`"
    );
    assert_eq!(CompatError::UnexpectedToken(Delimiter::Invisible).message(), "unexpected token");
}

#[test]
fn hand_built_tokens_parse() {
    // #[version = 2] compat T { 1: A => 2, 2: B }
    let ts = vec![
        punct('#'),
        Tok::Group(Delimiter::Bracket, vec![ident("version"), punct('='), int_lit("2")]),
        ident("compat"),
        ident("T"),
        body(vec![
            int_lit("1"),
            punct(':'),
            ident("A"),
            Tok::Punct('=', true),
            punct('>'),
            int_lit("2"),
            punct(','),
            int_lit("2"),
            punct(':'),
            ident("B"),
        ]),
    ];
    let p = BackwardsCompatInput::parse(&ts).unwrap();
    assert_eq!(p.current_version, VersionTag::Int(2));
    assert_eq!(p.versions[0].explicit_next, Some(VersionTag::Int(2)));
    assert_eq!(p.versions[1].explicit_next, None);
    assert_eq!(p.vis, "");
}

fn answer(piece: Piece, text: &str, verdict: Option<&str>) -> SynAnswer {
    SynAnswer { piece, text: text.to_string(), verdict: verdict.map(|m| m.to_string()) }
}

#[test]
fn given_answers_decide_the_pieces() {
    // compat T { 1: A }
    let ts = vec![ident("compat"), ident("T"), body(vec![int_lit("1"), punct(':'), ident("A")])];
    let mut answers = vec![
        answer(Piece::Vis, "compat T {1 : A}", Some("unexpected token")),
        answer(Piece::Vis, "compat T", Some("unexpected token")),
        answer(Piece::Vis, "compat", Some("unexpected token")),
        answer(Piece::Type, "T {1 : A}", Some("unexpected token")),
    ];
    let p = BackwardsCompatInput::parse_with_answers(&ts, &answers).unwrap();
    assert_eq!(p.vis, "");
    assert_eq!(p.target_ty, "T");
    assert_eq!(p.versions[0].ty, "A");
    answers.push(answer(Piece::Type, "A", Some("no such type")));
    let e = BackwardsCompatInput::parse_with_answers(&ts, &answers).unwrap_err();
    assert_eq!(e.message(), "no such type");
    // with nothing listed, the visibility takes all the tokens
    let e = BackwardsCompatInput::parse_with_answers(&ts, &vec![]).unwrap_err();
    assert!(matches!(e.error, CompatError::Expected(Expectation::Identifier, true)));
    assert!(matches!(&e.place, Place::End(p) if p.is_empty()));
}

#[test]
fn literal_tokens_are_read_by_syn() {
    match Tok::literal("0x10".to_string()) {
        Tok::Literal(LitKind::Int(d), raw) => {
            assert_eq!(d, "16");
            assert_eq!(raw, "0x10");
        }
        other => panic!("not an integer literal: {:?}", other),
    }
    match Tok::literal(r#""a\"b""#.to_string()) {
        Tok::Literal(LitKind::Str(v), _) => assert_eq!(v, "a\"b"),
        other => panic!("not a string literal: {:?}", other),
    }
    assert!(matches!(Tok::literal("1.5".to_string()), Tok::Literal(LitKind::Other, _)));
}
