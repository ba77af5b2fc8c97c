use backwards_compat::error::{Located, Place};
use backwards_compat::parse::BackwardsCompatInput;
use backwards_compat::tag::VersionTag;
use backwards_compat::token::{Delimiter, Tok};
use proc_macro2::{Spacing, TokenStream, TokenTree};

fn convert(ts: TokenStream) -> Vec<Tok> {
    ts.into_iter()
        .map(|tt| match tt {
            TokenTree::Group(g) => {
                let d = match g.delimiter() {
                    proc_macro2::Delimiter::Parenthesis => Delimiter::Parenthesis,
                    proc_macro2::Delimiter::Brace => Delimiter::Brace,
                    proc_macro2::Delimiter::Bracket => Delimiter::Bracket,
                    proc_macro2::Delimiter::None => Delimiter::Invisible,
                };
                Tok::Group(d, convert(g.stream()))
            }
            TokenTree::Ident(i) => Tok::Ident(i.to_string()),
            TokenTree::Punct(p) => Tok::Punct(p.as_char(), p.spacing() == Spacing::Joint),
            TokenTree::Literal(l) => Tok::literal(l.to_string()),
        })
        .collect()
}

fn toks(text: &str) -> Vec<Tok> {
    convert(text.parse::<TokenStream>().unwrap())
}

fn parse(text: &str) -> Result<BackwardsCompatInput, Located> {
    BackwardsCompatInput::parse(&toks(text))
}

fn parse_err(text: &str) -> String {
    match parse(text) {
        Ok(p) => panic!("expected an error, parsed {:?}", p),
        Err(e) => e.message(),
    }
}

fn s(v: &str) -> VersionTag {
    VersionTag::String(v.to_string())
}

#[test]
fn test_parse_valid_compat_with_integers() {
    let parsed = parse(
        r#"
        #[version = 3]
        pub compat TargetModel {
            1: ModelV1 => 2,
            2: ModelV2 => 3,
        }
        "#,
    )
    .unwrap();
    assert_eq!(parsed.tag_field, "version");
    assert_eq!(parsed.current_version, VersionTag::Int(3));
    assert_eq!(parsed.versions.len(), 2);
    assert_eq!(parsed.versions[0].tag, VersionTag::Int(1));
    assert_eq!(parsed.versions[0].explicit_next.as_ref().unwrap(), &VersionTag::Int(2));
    assert_eq!(parsed.versions[1].tag, VersionTag::Int(2));
    assert_eq!(parsed.versions[1].explicit_next.as_ref().unwrap(), &VersionTag::Int(3));
    assert!(!parsed.dump);
    assert!(parsed.error_ty.is_none());
}

#[test]
fn test_parse_valid_compat_with_strings() {
    let parsed = parse(
        r#"
        #[tag = "schema"]
        #[version = "v3"]
        #[dump]
        compat TargetModel {
            "v1": ModelV1 => "v2",
            #[fallible]
            "v2": ModelV2 => "v3",
        }
        "#,
    )
    .unwrap();
    assert_eq!(parsed.tag_field, "schema");
    assert_eq!(parsed.current_version, s("v3"));
    assert_eq!(parsed.versions.len(), 2);
    assert_eq!(parsed.versions[0].tag, s("v1"));
    assert_eq!(parsed.versions[0].explicit_next.as_ref().unwrap(), &s("v2"));
    assert!(!parsed.versions[0].fallible);
    assert_eq!(parsed.versions[1].tag, s("v2"));
    assert!(parsed.versions[1].fallible);
    assert!(parsed.dump);
}

#[test]
fn test_parse_error_ty() {
    let parsed = parse(
        r#"
        #[version = 2]
        #[error = MyError]
        pub compat TargetModel {
            1: ModelV1,
        }
        "#,
    )
    .unwrap();
    assert!(parsed.error_ty.is_some());
}

#[test]
fn test_default_current_version() {
    let parsed = parse(
        r#"
        pub compat TargetModel {
            1: ModelV1,
            2: ModelV2,
        }
        "#,
    )
    .unwrap();
    assert_eq!(parsed.current_version, VersionTag::Int(2));
}

#[test]
fn test_empty_versions_error() {
    let msg = parse_err("compat TargetModel {}");
    assert_eq!(msg, "at least one version entry must be declared");
}

#[test]
fn test_duplicate_version_tag_error() {
    let msg = parse_err(
        r#"
        #[version = 3]
        compat TargetModel {
            1: ModelV1,
            1: ModelV1Dup,
        }
        "#,
    );
    assert_eq!(msg, "duplicate version tag `1`");
}

#[test]
fn test_version_matches_current_allowed() {
    let parsed = parse(
        r#"
        #[version = 3]
        compat TargetModel {
            1: ModelV1,
            3: ModelV3,
        }
        "#,
    )
    .unwrap();
    assert_eq!(parsed.current_version, VersionTag::Int(3));
    assert_eq!(parsed.versions.len(), 2);
}

#[test]
fn test_invalid_current_version_error() {
    let msg = parse_err(
        r#"
        #[version = 99]
        compat TargetModel {
            1: ModelV1 => 2,
            2: ModelV2 => 1,
        }
        "#,
    );
    assert_eq!(msg, "version `99` does not match any declared version");
}

#[test]
fn test_ident_version_key_error() {
    let msg = parse_err(
        r#"
        #[version = 3]
        compat TargetModel {
            v1: ModelV1,
        }
        "#,
    );
    assert_eq!(
        msg,
        "version keys must be string or integer literals (e.g. 1 or \"1\"), not identifiers like v1"
    );
}

#[test]
fn test_obsolete_attributes_error() {
    let obsolete_attrs = vec![
        "#[untagged]",
        "#[tagged = \"foo\"]",
        "#[untagged_enum]",
        "#[target = Foo]",
        "#[content = \"bar\"]",
    ];

    for attr in obsolete_attrs {
        let text = format!(
            "{}\n#[version = 2]\ncompat TargetModel {{\n    1: ModelV1,\n}}",
            attr
        );
        assert!(parse(&text).is_err(), "Expected error for obsolete attribute");
    }
}

#[test]
fn obsolete_attribute_messages() {
    let cases = vec![
        ("#[untagged]", "#[untagged] is obsolete and no longer supported"),
        ("#[tagged = \"foo\"]", "#[tagged] is obsolete and no longer supported"),
        ("#[untagged_enum]", "#[untagged_enum] is obsolete and no longer supported"),
        ("#[untagged_name]", "#[untagged_enum] is obsolete and no longer supported"),
        (
            "#[target = Foo]",
            "#[target] is obsolete; specify the target type with `compat TargetType` syntax",
        ),
        ("#[content = \"bar\"]", "#[content] is obsolete and no longer supported"),
    ];
    for (attr, expected) in cases {
        let text = format!("{} compat T {{ 1: A }}", attr);
        assert_eq!(parse_err(&text), expected);
    }
}

#[test]
fn old_enum_syntax_is_refused() {
    let msg = parse_err("pub enum UserVersion { v1 = UserV1, v2 = UserV2 }");
    assert_eq!(
        msg,
        "expected `compat`, found `enum`. The macro syntax has changed to `compat TargetModel { ... }`"
    );
}

#[test]
fn other_identifier_in_place_of_compat() {
    assert_eq!(parse_err("versions T { 1: A }"), "expected `compat`, found `versions`");
    assert_eq!(parse_err("struct T { 1: A }"), "expected identifier, found keyword `struct`");
}

#[test]
fn duplicate_version_attribute() {
    let msg = parse_err("#[version = 1, version = 2] compat T { 1: A, 2: B }");
    assert_eq!(msg, "duplicate #[version = ...] attribute");
}

#[test]
fn version_attribute_without_value() {
    let msg = parse_err("#[version] compat T { 1: A }");
    assert_eq!(
        msg,
        "#[version] attribute requires a value, e.g. #[version = 1] or #[version = \"1\"]"
    );
}

#[test]
fn error_attribute_without_type() {
    let msg = parse_err("#[error] compat T { 1: A }");
    assert_eq!(msg, "expected type for error attribute, e.g. #[error = CustomError]");
}

#[test]
fn parenthesized_attribute_forms() {
    let parsed = parse(
        r#"#[tag("kind"), version(2), error(Box<MyError>)] compat T { 1: A, 2: B }"#,
    )
    .unwrap();
    assert_eq!(parsed.tag_field, "kind");
    assert_eq!(parsed.current_version, VersionTag::Int(2));
    assert_eq!(parsed.error_ty.unwrap(), "Box < MyError >");
}

#[test]
fn bare_tag_attribute_resets_to_version() {
    let parsed = parse(r#"#[tag = "a", tag] compat T { 1: A }"#).unwrap();
    assert_eq!(parsed.tag_field, "version");
}

#[test]
fn leftover_token_in_parentheses() {
    let msg = parse_err(r#"#[version(1 2)] compat T { 1: A }"#);
    assert_eq!(msg, "unexpected token, expected `)`");
}

#[test]
fn trailing_tokens_after_body() {
    let msg = parse_err("compat T { 1: A } extra");
    assert_eq!(msg, "unexpected token");
}

#[test]
fn other_attributes_are_handed_on() {
    let parsed = parse(
        r#"
        #[derive(Debug), serde(rename_all = "snake_case")]
        compat T {
            #[serde(alias = "one")]
            1: A,
            #[try_into]
            2: B;
        }
        "#,
    )
    .unwrap();
    assert_eq!(parsed.outer_attrs, vec!["derive (Debug)", "serde (rename_all = \"snake_case\")"]);
    assert_eq!(parsed.versions[0].outer_attrs, vec!["serde (alias = \"one\")"]);
    assert!(!parsed.versions[0].fallible);
    assert!(parsed.versions[1].fallible);
    assert!(parsed.versions[1].outer_attrs.is_empty());
}

#[test]
fn visibility_and_types_are_kept_as_text() {
    let parsed = parse(
        "pub(crate) compat Config<T> { 1: Vec<(u8, T)> => 2, 2: std::collections::HashMap<String, u32> }",
    )
    .unwrap();
    assert_eq!(parsed.vis, "pub (crate)");
    assert_eq!(parsed.target_ty, "Config < T >");
    assert_eq!(parsed.versions[0].ty, "Vec < (u8 , T) >");
    assert_eq!(parsed.versions[1].ty, "std :: collections :: HashMap < String , u32 >");
    assert!(parsed.vis.len() > 0);
}

#[test]
fn integer_tag_too_large() {
    let msg = parse_err("compat T { 18446744073709551616: A }");
    assert_eq!(msg, "number too large to fit in target type");
    let parsed = parse("compat T { 18446744073709551615: A }").unwrap();
    assert_eq!(parsed.versions[0].tag, VersionTag::Int(u64::MAX));
}

#[test]
fn hexadecimal_tag_reads_as_its_value() {
    let parsed = parse("compat T { 0x10: A }").unwrap();
    assert_eq!(parsed.versions[0].tag, VersionTag::Int(16));
}

#[test]
fn integer_and_string_tags_collide() {
    let msg = parse_err(r#"compat T { 1: A, "1": B }"#);
    assert_eq!(msg, "duplicate version tag `1`");
}

#[test]
fn missing_colon_and_bad_key() {
    assert_eq!(parse_err("compat T { 1 A }"), "expected `:`");
    assert_eq!(
        parse_err("compat T { true: A }"),
        "expected integer or string literal for version tag"
    );
}

#[test]
fn invalid_type_is_refused_by_syn() {
    assert!(parse("compat T { 1: A B }").is_err());
    assert!(parse("compat T { 1: , }").is_err());
}

#[test]
fn missing_braces_and_brackets() {
    assert_eq!(parse_err("compat T"), "unexpected end of input, expected curly braces");
    assert_eq!(parse_err("# compat T { 1: A }"), "expected square brackets");
    assert_eq!(parse_err(r#"#[tag = 1] compat T { 1: A }"#), "expected string literal");
}

#[test]
fn current_version_named_by_transition_or_implicit() {
    // named by a transition only
    let parsed = parse("#[version = 5] compat T { 1: A => 5 }").unwrap();
    assert_eq!(parsed.current_version, VersionTag::Int(5));
    // the last entry has no transition: any current version is accepted
    let parsed = parse("#[version = 9] compat T { 1: A }").unwrap();
    assert_eq!(parsed.current_version, VersionTag::Int(9));
}

#[test]
fn end_of_input_is_reported() {
    assert_eq!(
        parse_err(r#"#[tag()] compat T { 1: A }"#),
        "unexpected end of input, expected string literal"
    );
    assert_eq!(
        parse_err(r#"#[tag =] compat T { 1: A }"#),
        "unexpected end of input, expected string literal"
    );
    assert_eq!(parse_err("pub"), "unexpected end of input, expected identifier");
    assert_eq!(parse_err("compat T { 1: A # }"), "unexpected end of input, expected square brackets");
    assert_eq!(parse_err("compat T { 1 A }"), "expected `:`");
}

#[test]
fn attribute_content_ends_where_syn_stops() {
    let parsed = parse(r#"#[doc = f::<A, B>()] compat T { 1: A }"#).unwrap();
    assert_eq!(parsed.outer_attrs, vec!["doc = f ::< A , B > ()"]);
    let parsed = parse("#[a b] compat T { 1: A }").unwrap();
    assert_eq!(parsed.outer_attrs, vec!["a", "b"]);
    let parsed = parse("#[error = Vec<A, B>, dump] compat T { 1: A }").unwrap();
    assert_eq!(parsed.error_ty, Some("Vec < A , B >".to_string()));
    assert!(parsed.dump);
}

#[test]
fn entries_need_no_separators() {
    let parsed = parse("compat T { 1: A 2: Vec<B> => 3 3: C }").unwrap();
    assert_eq!(parsed.versions.len(), 3);
    assert_eq!(parsed.versions[0].ty, "A");
    assert_eq!(parsed.versions[1].ty, "Vec < B >");
    assert_eq!(parsed.versions[1].explicit_next, Some(VersionTag::Int(3)));
    assert_eq!(parsed.versions[2].ty, "C");
}

#[test]
fn target_type_ends_where_syn_stops() {
    assert_eq!(parse_err("compat Foo Bar {}"), "expected curly braces");
}

#[test]
fn restricted_visibility_is_checked_by_syn() {
    let expected = syn::parse_str::<syn::Visibility>("pub(in 1)").unwrap_err().to_string();
    assert_eq!(parse_err("pub(in 1) compat T { 1: A }"), expected);
    assert_eq!(parse_err("pub(in a b) compat T { 1: A }"), "unexpected token, expected `)`");
    let parsed = parse("pub(in crate::m) compat T { 1: A }").unwrap();
    assert_eq!(parsed.vis, "pub (in crate :: m)");
    let parsed = parse("pub (crate::A) compat T { 1: A }");
    assert!(parsed.is_err());
}

#[test]
fn leftover_in_entry_attribute() {
    assert_eq!(
        parse_err("compat T { #[fallible x] 1: A }"),
        "unexpected token, expected `]`"
    );
}

fn place(text: &str) -> Place {
    parse(text).unwrap_err().place
}

#[test]
fn errors_point_where_the_reader_stands() {
    // the duplicate tag: body (token 2), entry tag at index 4
    assert!(matches!(place("compat T { 1: A, 1: B }"), Place::Token(p) if p == vec![2, 4]));
    // the current version written in `#[version = 9]`
    assert!(matches!(place("#[version = 9] compat T { 1: A => 2, 2: B => 1 }"), Place::Token(p) if p == vec![1, 2]));
    // an identifier where a tag belongs
    assert!(matches!(place("compat T { v1: A }"), Place::Token(p) if p == vec![2, 0]));
    // the end of the input where braces belong
    assert!(matches!(place("compat T"), Place::End(p) if p.is_empty()));
    // the end of the attribute group where a string literal belongs
    assert!(matches!(place("#[tag =] compat T { 1: A }"), Place::End(p) if p == vec![1]));
    // the obsolete attribute's name
    assert!(matches!(place("#[untagged] compat T { 1: A }"), Place::Token(p) if p == vec![1, 0]));
    // no versions: the target type's tokens
    assert!(matches!(place("compat T<U> {}"), Place::Tokens(p, 1, 5) if p.is_empty()));
    // the token left over inside parentheses
    assert!(matches!(place("#[version(1 2)] compat T { 1: A }"), Place::Token(p) if p == vec![1, 1, 1]));
}

#[test]
fn parsed_places_of_tags() {
    let parsed = parse("#[version(2)] compat T { 1: A => 2, 2: B }").unwrap();
    assert_eq!(parsed.versions[0].tag_place, vec![4, 0]);
    assert_eq!(parsed.versions[0].next_place, vec![4, 5]);
    assert_eq!(parsed.versions[1].tag_place, vec![4, 7]);
    assert!(parsed.versions[1].next_place.is_empty());
    assert_eq!(parsed.current_version_place, vec![1, 1, 0]);
    assert_eq!(parsed.target_span, (3, 4));
    let parsed = parse("compat T { 1: A, 2: B }").unwrap();
    assert_eq!(parsed.current_version_place, vec![2, 4]);
}

#[test]
fn empty_invisible_groups_after_the_body_are_passed_over() {
    let mut ts = toks("compat T { 1: A }");
    ts.push(Tok::Group(Delimiter::Invisible, vec![Tok::Group(Delimiter::Invisible, vec![])]));
    assert!(BackwardsCompatInput::parse(&ts).is_ok());
    ts.push(Tok::Group(Delimiter::Invisible, vec![Tok::Ident("x".to_string())]));
    let e = BackwardsCompatInput::parse(&ts).unwrap_err();
    assert_eq!(e.message(), "unexpected token");
    assert!(matches!(e.place, Place::Token(p) if p == vec![4]));
}
