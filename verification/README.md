# backwards_compat

Declarative schema versioning for Serde, with its planning logic verified in
Verus.

A declaration such as

```text
#[tag = "version", version = 3]
compat AppConfig {
    1: AppConfigV1 => 3,   // jumps straight to version 3
    #[fallible]
    2: AppConfigV2,        // migrates to the next version, may fail
    3: AppConfigV3,
}
```

is read into a checked description (`parse`), its migration graph is resolved
into one path per version (`dag`), and the pieces of the generated code are
decided (`codegen`). The `app/` crate turns tokens into the library's tokens
and writes the generated Rust code.

## Layout

- `src/text.rs`: decimal text of integers, reading decimal digits.
- `src/tag.rs`: version tags and when two tags name the same version.
- `src/token.rs`: the token model of a declaration and its text.
- `src/syntax.rs`: the calls into `syn` that judge Rust types, attribute
  contents and visibilities; `syn` also decides where each of them ends.
- `src/parse.rs`: the grammar of a declaration and its checks.
- `src/dag.rs`: transitions, the refusal of self-loops, missing targets and
  cycles, and the migration paths; laws about paths.
- `src/codegen.rs`: variants, conversion chains, fallibility, error type and
  attributes of the generated code.
- `src/error.rs`: errors, their messages, and the place in the tokens that
  each error points at.
- `app/lib.rs`: the expansion entry point and the code writer.
