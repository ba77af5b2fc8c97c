use backwards_compat::codegen::{generate_backwards_compat, CodegenPlan, ErrorType};
use backwards_compat::dag::{resolve_dag, DagPlan};
use backwards_compat::error::Place;
use backwards_compat::parse::BackwardsCompatInput;
use backwards_compat::tag::VersionTag;
use backwards_compat::token::{Delimiter, Tok};
use proc_macro2::{Spacing, TokenStream, TokenTree};

fn convert(ts: TokenStream) -> Vec<Tok> {
    ts.into_iter()
        .map(|tt| match tt {
            TokenTree::Group(g) => {
                let d = match g.delimiter() {
                    proc_macro2::Delimiter::Parenthesis => Delimiter::Parenthesis,
                    proc_macro2::Delimiter::Brace => Delimiter::Brace,
                    proc_macro2::Delimiter::Bracket => Delimiter::Bracket,
                    proc_macro2::Delimiter::None => Delimiter::Invisible,
                };
                Tok::Group(d, convert(g.stream()))
            }
            TokenTree::Ident(i) => Tok::Ident(i.to_string()),
            TokenTree::Punct(p) => Tok::Punct(p.as_char(), p.spacing() == Spacing::Joint),
            TokenTree::Literal(l) => Tok::literal(l.to_string()),
        })
        .collect()
}

fn input(text: &str) -> BackwardsCompatInput {
    BackwardsCompatInput::parse(&convert(text.parse::<TokenStream>().unwrap())).unwrap()
}

fn dag(text: &str) -> DagPlan {
    resolve_dag(&input(text)).unwrap()
}

fn dag_err(text: &str) -> String {
    match resolve_dag(&input(text)) {
        Ok(p) => panic!("expected an error, resolved {:?}", p),
        Err(e) => e.message(),
    }
}

fn plan(text: &str) -> CodegenPlan {
    let i = input(text);
    let d = resolve_dag(&i).unwrap();
    generate_backwards_compat(&i, d)
}

/// The path of version `i` as (from, to, fallible) triples.
fn path(d: &DagPlan, i: usize) -> Vec<(String, String, bool)> {
    d.paths[i].steps.iter().map(|s| (s.from_ty.clone(), s.to_ty.clone(), s.fallible)).collect()
}

fn step(from: &str, to: &str, fallible: bool) -> (String, String, bool) {
    (from.to_string(), to.to_string(), fallible)
}

const JUMP: &str = r#"
    #[tag = "version"]
    compat MyModel {
        1: JumpV1 => 3,
        2: JumpV2 => 3,
        3: JumpV3,
    }
"#;

const TELEMETRY: &str = r#"
    #[tag = "version"]
    compat TelemetryEvent {
        1: TelemetryV1 => 2,
        #[fallible]
        2: TelemetryV2 => 4,
        3: TelemetryV3 => 4,
        4: TelemetryV4,
    }
"#;

const STRING_KEYS: &str = r#"
    #[tag = "version"]
    compat AppConfig {
        "0.1": AppConfigV0_1,
        "1.0": AppConfigV1_0,
        "2.0": AppConfigV2_0,
    }
"#;

const FALLIBLE: &str = r#"
    #[tag = "version", version = 2, error = MigrationError]
    compat ServerConfig {
        #[fallible] 1: ServerConfigV1,
        #[fallible] 2: ServerConfigV2,
    }
"#;

#[test]
fn plan_dag_jump_from_v1_bypasses_v2() {
    let d = dag(JUMP);
    assert_eq!(
        path(&d, 0),
        vec![step("JumpV1", "JumpV3", false), step("JumpV3", "MyModel", false)]
    );
}

#[test]
fn plan_dag_jump_from_v2_and_v3() {
    let d = dag(JUMP);
    assert_eq!(
        path(&d, 1),
        vec![step("JumpV2", "JumpV3", false), step("JumpV3", "MyModel", false)]
    );
    assert_eq!(path(&d, 2), vec![step("JumpV3", "MyModel", false)]);
    assert_eq!(d.paths[0].tag, VersionTag::Int(1));
    assert_eq!(d.paths[2].tag, VersionTag::Int(3));
}

#[test]
fn plan_dag_jump_serialization_emits_target_version() {
    let d = dag(JUMP);
    assert_eq!(d.latest_variant_idx, 2);
    assert_eq!(d.latest_wire_ty, "JumpV3");
    assert!(!d.target_is_wire);
    let p = plan(JUMP);
    assert_eq!(p.latest_variant, Some(2));
    assert_eq!(p.variants[2].tag_string, "3");
}

#[test]
fn plan_multi_hop_with_fallible_branch() {
    let d = dag(TELEMETRY);
    assert_eq!(
        path(&d, 0),
        vec![
            step("TelemetryV1", "TelemetryV2", false),
            step("TelemetryV2", "TelemetryV4", true),
            step("TelemetryV4", "TelemetryEvent", false),
        ]
    );
    assert_eq!(
        path(&d, 1),
        vec![step("TelemetryV2", "TelemetryV4", true), step("TelemetryV4", "TelemetryEvent", false)]
    );
    assert_eq!(
        path(&d, 2),
        vec![step("TelemetryV3", "TelemetryV4", false), step("TelemetryV4", "TelemetryEvent", false)]
    );
    assert_eq!(path(&d, 3), vec![step("TelemetryV4", "TelemetryEvent", false)]);
    let p = plan(TELEMETRY);
    assert!(p.is_fallible);
    assert!(matches!(p.error_ty, ErrorType::Boxed));
    assert_eq!(p.variants[3].tag_string, "4");
    assert_eq!(p.latest_variant, Some(3));
}

#[test]
fn plan_string_keys_chain() {
    let d = dag(STRING_KEYS);
    assert_eq!(
        path(&d, 0),
        vec![
            step("AppConfigV0_1", "AppConfigV1_0", false),
            step("AppConfigV1_0", "AppConfigV2_0", false),
            step("AppConfigV2_0", "AppConfig", false),
        ]
    );
    let p = plan(STRING_KEYS);
    assert_eq!(p.latest_variant, Some(2));
    assert_eq!(p.variants[2].tag_string, "2.0");
    assert_eq!(p.variants[0].tag_string, "0.1");
    assert!(!p.is_fallible);
    assert!(matches!(p.error_ty, ErrorType::Infallible));
    assert!(p.default_derive);
}

#[test]
fn plan_fallible_chain_with_custom_error() {
    let d = dag(FALLIBLE);
    assert_eq!(
        path(&d, 0),
        vec![step("ServerConfigV1", "ServerConfigV2", true), step("ServerConfigV2", "ServerConfig", true)]
    );
    let p = plan(FALLIBLE);
    assert!(p.is_fallible);
    match &p.error_ty {
        ErrorType::Custom(t) => assert_eq!(t, "MigrationError"),
        other => panic!("unexpected error type {:?}", other),
    }
    assert_eq!(p.tag_field, "version");
    assert_eq!(p.latest_variant, Some(1));
    assert_eq!(p.variants[1].tag_string, "2");
}

#[test]
fn target_is_written_when_current_version_is_not_declared() {
    let d = dag("#[version = 3] compat Model { 1: V1, 2: V2 }");
    assert!(d.target_is_wire);
    assert_eq!(d.latest_variant_idx, 2);
    assert_eq!(d.latest_wire_ty, "Model");
    // 1 -> 2 -> target
    assert_eq!(path(&d, 0), vec![step("V1", "V2", false), step("V2", "Model", false)]);
    let p = plan("#[version = 3] compat Model { 1: V1, 2: V2 }");
    assert_eq!(p.latest_variant, None);
}

#[test]
fn current_version_in_the_middle_is_terminal() {
    let d = dag("#[version = 2] compat Model { 1: V1, 2: V2, 3: V3 }");
    assert_eq!(path(&d, 1), vec![step("V2", "Model", false)]);
    // the last version migrates back to the current version
    assert_eq!(path(&d, 2), vec![step("V3", "V2", false), step("V2", "Model", false)]);
}

#[test]
fn self_loop_is_refused() {
    assert_eq!(
        dag_err("compat Model { 1: V1 => 1, 2: V2 }"),
        "self-loop transition in version `1`"
    );
}

#[test]
fn missing_target_is_refused() {
    assert_eq!(
        dag_err("compat Model { 1: V1 => 7, 2: V2 }"),
        "target version `7` does not exist"
    );
}

#[test]
fn cycle_is_refused() {
    assert_eq!(
        dag_err("#[version = 3] compat Model { 1: V1 => 2, 2: V2 => 1, 3: V3 }"),
        "cycle detected in backwards_compat migration graph starting at version `1`"
    );
    assert_eq!(
        dag_err("#[version = 3] compat Model { 1: V1, 2: V2 => 3, 3: V3 => 2 }"),
        "cycle detected in backwards_compat migration graph starting at version `1`"
    );
}

#[test]
fn no_versions_is_refused() {
    let i = BackwardsCompatInput {
        outer_attrs: vec![],
        vis: String::new(),
        target_ty: "Model".to_string(),
        target_span: (1, 2),
        tag_field: "version".to_string(),
        current_version: VersionTag::Int(1),
        current_version_place: vec![],
        error_ty: None,
        dump: false,
        versions: vec![],
    };
    let e = resolve_dag(&i).unwrap_err();
    assert_eq!(e.message(), "at least one version entry must be declared");
    assert!(matches!(&e.place, Place::Tokens(p, 1, 2) if p.is_empty()));
}

#[test]
fn derives_are_split_from_other_attributes() {
    let p = plan(
        r#"#[derive(Debug, PartialEq), serde(deny_unknown_fields), derive_more] compat M { 1: A }"#,
    );
    assert_eq!(p.derives, vec!["derive (Debug , PartialEq)"]);
    assert_eq!(p.other_attrs, vec!["serde (deny_unknown_fields)", "derive_more"]);
    assert!(!p.default_derive);
}

#[test]
fn error_type_without_fallible_step() {
    let p = plan("#[error = E] compat M { 1: A }");
    assert!(p.is_fallible);
    assert!(matches!(&p.error_ty, ErrorType::Custom(t) if t == "E"));
}

#[test]
fn variant_attributes_and_types_follow_entries() {
    let p = plan(r#"compat M { #[serde(alias = "x")] 1: A, 2: B }"#);
    assert_eq!(p.variants.len(), 2);
    assert_eq!(p.variants[0].ty, "A");
    assert_eq!(p.variants[0].attrs, vec!["serde (alias = \"x\")"]);
    assert_eq!(p.variants[1].steps.len(), 1);
    assert_eq!(p.variants[0].steps.len(), 2);
    assert_eq!(p.target_ty, "M");
}

#[test]
fn paths_keep_the_tags_of_their_versions() {
    let d = dag(JUMP);
    assert_eq!(d.paths[0].tag, VersionTag::Int(1));
    assert_eq!(d.paths[2].tag, VersionTag::Int(3));
    let d = dag(r#"compat T { "1.0": A, "2.0": B }"#);
    assert_eq!(d.paths[0].tag, VersionTag::String("1.0".to_string()));
    assert_eq!(d.paths[1].tag, VersionTag::String("2.0".to_string()));
}

#[test]
fn graph_errors_point_at_their_tags() {
    // compat T { 1: A => 1 }: the `=>` target is the body's token 4
    let i = input("compat T { 1: A => 1 }");
    let e = resolve_dag(&i).unwrap_err();
    assert_eq!(e.message(), "self-loop transition in version `1`");
    assert!(matches!(&e.place, Place::Token(p) if p == &vec![2, 5]));
    let i = input("compat T { 1: A => 9, 2: B }");
    let e = resolve_dag(&i).unwrap_err();
    assert_eq!(e.message(), "target version `9` does not exist");
    assert!(matches!(&e.place, Place::Token(p) if p == &vec![2, 5]));
    let i = input("#[version = 3] compat T { 1: A => 2, 2: B => 1, 3: C }");
    let e = resolve_dag(&i).unwrap_err();
    assert!(e.message().starts_with("cycle detected"));
    assert!(matches!(&e.place, Place::Token(p) if p == &vec![4, 0]));
}
