//! Errors of reading a compatibility declaration and of resolving its graph.
use vstd::prelude::*;
use crate::tag::{tag_text, VersionTag};
use crate::text::{append_string, IntTextError};
use crate::token::Delimiter;
use vstd::string::StringExecFns;

verus! {

/// What went wrong, without the text that some errors carry.
#[derive(Debug, Clone, Copy, PartialEq, Eq, Structural)]
pub enum ErrorKind {
    IdentVersionKey,
    ExpectedVersionLiteral,
    IntEmpty,
    IntInvalidDigit,
    IntOverflow,
    DuplicateVersionAttr,
    VersionAttrNeedsValue,
    ErrorAttrNeedsType,
    ObsoleteUntagged,
    ObsoleteTagged,
    ObsoleteUntaggedEnum,
    ObsoleteTarget,
    ObsoleteContent,
    EnumSyntax,
    ExpectedCompat,
    Expected(Expectation, bool),
    UnexpectedToken(Delimiter),
    KeywordNotIdent,
    Rejected,
    NoVersions,
    UnknownCurrentVersion,
    DuplicateTag,
    SelfLoop,
    MissingTarget,
    Cycle,
}

/// What a piece of the declaration was expected to be.
#[derive(Debug, Clone, Copy, PartialEq, Eq, Structural)]
pub enum Expectation {
    StringLiteral,
    Identifier,
    SquareBrackets,
    CurlyBraces,
    Colon,
}

/// An error of reading a compatibility declaration or of resolving its graph.
#[derive(Debug)]
pub enum CompatError {
    /// A version key was written as an identifier.
    IdentVersionKey,
    /// A version key is neither an integer nor a string literal.
    ExpectedVersionLiteral,
    /// An integer version key does not fit in a `u64`.
    IntLiteral(IntTextError),
    /// `#[version = ...]` was given twice.
    DuplicateVersionAttr,
    /// `#[version]` was given without a value.
    VersionAttrNeedsValue,
    /// `#[error]` was given without a type.
    ErrorAttrNeedsType,
    ObsoleteUntagged,
    ObsoleteTagged,
    ObsoleteUntaggedEnum,
    ObsoleteTarget,
    ObsoleteContent,
    /// The old `enum` syntax was used.
    EnumSyntax,
    /// Another identifier stands where `compat` belongs.
    ExpectedCompat(String),
    /// Something else stands where the expected piece belongs; the flag tells
    /// whether the error reports that the input (or the enclosing group) ended
    /// there.
    Expected(Expectation, bool),
    /// A token is left over where nothing more may stand: inside a group with
    /// this delimiter, or at the top level (`Invisible`).
    UnexpectedToken(Delimiter),
    /// A keyword stands where an identifier belongs.
    KeywordNotIdent(String),
    /// The type or attribute parser rejected a piece, with its message.
    Rejected(String),
    /// The declaration has no version entry.
    NoVersions,
    /// `#[version = ...]` names no version of the declaration.
    UnknownCurrentVersion(VersionTag),
    /// Two entries have matching tags.
    DuplicateTag(VersionTag),
    /// A transition leads back to its own version.
    SelfLoop(VersionTag),
    /// A transition leads to a version that is not declared.
    MissingTarget(VersionTag),
    /// Following the transitions from a version never reaches the target.
    Cycle(VersionTag),
}

/// Where an error points in the tokens of a declaration. A path is an index
/// into the top-level tokens, then an index into the group found there, and
/// so on.
#[derive(Debug)]
pub enum Place {
    /// The token at the path (for a group, its opening delimiter).
    Token(Vec<usize>),
    /// The end of the group at the path; the end of the input for the empty
    /// path.
    End(Vec<usize>),
    /// The tokens `lo..hi` of the group at the path (of the input for the
    /// empty path).
    Tokens(Vec<usize>, usize, usize),
}

/// The value of a place.
pub enum PlaceView {
    Token(Seq<usize>),
    End(Seq<usize>),
    Tokens(Seq<usize>, int, int),
}

impl View for Place {
    type V = PlaceView;

    open spec fn view(&self) -> PlaceView {
        match self {
            Place::Token(p) => PlaceView::Token(p@),
            Place::End(p) => PlaceView::End(p@),
            Place::Tokens(p, lo, hi) => PlaceView::Tokens(p@, *lo as int, *hi as int),
        }
    }
}

/// An error, and where in the declaration it points.
#[derive(Debug)]
pub struct Located {
    pub error: CompatError,
    pub place: Place,
}

/// The kind of an error, the text it carries, and where it points.
pub type Failure = (ErrorKind, Seq<char>, PlaceView);

/// The value of a located error.
pub open spec fn located_view(e: Located) -> Failure {
    (error_kind(e.error), error_detail(e.error), e.place@)
}

/// The kind of an error.
pub open spec fn error_kind(e: CompatError) -> ErrorKind {
    match e {
        CompatError::IdentVersionKey => ErrorKind::IdentVersionKey,
        CompatError::ExpectedVersionLiteral => ErrorKind::ExpectedVersionLiteral,
        CompatError::IntLiteral(IntTextError::Empty) => ErrorKind::IntEmpty,
        CompatError::IntLiteral(IntTextError::InvalidDigit) => ErrorKind::IntInvalidDigit,
        CompatError::IntLiteral(IntTextError::Overflow) => ErrorKind::IntOverflow,
        CompatError::DuplicateVersionAttr => ErrorKind::DuplicateVersionAttr,
        CompatError::VersionAttrNeedsValue => ErrorKind::VersionAttrNeedsValue,
        CompatError::ErrorAttrNeedsType => ErrorKind::ErrorAttrNeedsType,
        CompatError::ObsoleteUntagged => ErrorKind::ObsoleteUntagged,
        CompatError::ObsoleteTagged => ErrorKind::ObsoleteTagged,
        CompatError::ObsoleteUntaggedEnum => ErrorKind::ObsoleteUntaggedEnum,
        CompatError::ObsoleteTarget => ErrorKind::ObsoleteTarget,
        CompatError::ObsoleteContent => ErrorKind::ObsoleteContent,
        CompatError::EnumSyntax => ErrorKind::EnumSyntax,
        CompatError::ExpectedCompat(_) => ErrorKind::ExpectedCompat,
        CompatError::Expected(x, end) => ErrorKind::Expected(x, end),
        CompatError::UnexpectedToken(d) => ErrorKind::UnexpectedToken(d),
        CompatError::KeywordNotIdent(_) => ErrorKind::KeywordNotIdent,
        CompatError::Rejected(_) => ErrorKind::Rejected,
        CompatError::NoVersions => ErrorKind::NoVersions,
        CompatError::UnknownCurrentVersion(_) => ErrorKind::UnknownCurrentVersion,
        CompatError::DuplicateTag(_) => ErrorKind::DuplicateTag,
        CompatError::SelfLoop(_) => ErrorKind::SelfLoop,
        CompatError::MissingTarget(_) => ErrorKind::MissingTarget,
        CompatError::Cycle(_) => ErrorKind::Cycle,
    }
}

/// The text that an error carries (a tag's text, a found identifier, or an
/// outside message); empty for the errors that carry none.
pub open spec fn error_detail(e: CompatError) -> Seq<char> {
    match e {
        CompatError::ExpectedCompat(s) => s@,
        CompatError::KeywordNotIdent(s) => s@,
        CompatError::Rejected(s) => s@,
        CompatError::UnknownCurrentVersion(t) => tag_text(t),
        CompatError::DuplicateTag(t) => tag_text(t),
        CompatError::SelfLoop(t) => tag_text(t),
        CompatError::MissingTarget(t) => tag_text(t),
        CompatError::Cycle(t) => tag_text(t),
        _ => Seq::empty(),
    }
}

/// The kind of an error and the text it carries.
pub open spec fn error_view(e: CompatError) -> (ErrorKind, Seq<char>) {
    (error_kind(e), error_detail(e))
}

/// What the message says was expected.
pub open spec fn expectation_text(x: Expectation) -> Seq<char> {
    match x {
        Expectation::StringLiteral => "expected string literal"@,
        Expectation::Identifier => "expected identifier"@,
        Expectation::SquareBrackets => "expected square brackets"@,
        Expectation::CurlyBraces => "expected curly braces"@,
        Expectation::Colon => "expected `:`"@,
    }
}

/// The message for a token left over inside a group with delimiter `d`.
pub open spec fn unexpected_token_text(d: Delimiter) -> Seq<char> {
    match d {
        Delimiter::Parenthesis => "unexpected token, expected `)`"@,
        Delimiter::Brace => "unexpected token, expected `}`"@,
        Delimiter::Bracket => "unexpected token, expected `]`"@,
        Delimiter::Invisible => "unexpected token"@,
    }
}

fn expectation_message(x: Expectation) -> (r: &'static str)
    ensures
        r@ == expectation_text(x),
{
    match x {
        Expectation::StringLiteral => "expected string literal",
        Expectation::Identifier => "expected identifier",
        Expectation::SquareBrackets => "expected square brackets",
        Expectation::CurlyBraces => "expected curly braces",
        Expectation::Colon => "expected `:`",
    }
}

/// The fixed text of an error, for the errors whose message carries no other text.
pub open spec fn fixed_message(k: ErrorKind) -> Seq<char> {
    match k {
        ErrorKind::IdentVersionKey => "version keys must be string or integer literals (e.g. 1 or \"1\"), not identifiers like v1"@,
        ErrorKind::ExpectedVersionLiteral => "expected integer or string literal for version tag"@,
        ErrorKind::IntEmpty => "cannot parse integer from empty string"@,
        ErrorKind::IntInvalidDigit => "invalid digit found in string"@,
        ErrorKind::IntOverflow => "number too large to fit in target type"@,
        ErrorKind::DuplicateVersionAttr => "duplicate #[version = ...] attribute"@,
        ErrorKind::VersionAttrNeedsValue => "#[version] attribute requires a value, e.g. #[version = 1] or #[version = \"1\"]"@,
        ErrorKind::ErrorAttrNeedsType => "expected type for error attribute, e.g. #[error = CustomError]"@,
        ErrorKind::ObsoleteUntagged => "#[untagged] is obsolete and no longer supported"@,
        ErrorKind::ObsoleteTagged => "#[tagged] is obsolete and no longer supported"@,
        ErrorKind::ObsoleteUntaggedEnum => "#[untagged_enum] is obsolete and no longer supported"@,
        ErrorKind::ObsoleteTarget => "#[target] is obsolete; specify the target type with `compat TargetType` syntax"@,
        ErrorKind::ObsoleteContent => "#[content] is obsolete and no longer supported"@,
        ErrorKind::EnumSyntax => "expected `compat`, found `enum`. The macro syntax has changed to `compat TargetModel { ... }`"@,
        ErrorKind::Expected(x, end) => if end {
            "unexpected end of input, "@ + expectation_text(x)
        } else {
            expectation_text(x)
        },
        ErrorKind::UnexpectedToken(d) => unexpected_token_text(d),
        ErrorKind::NoVersions => "at least one version entry must be declared"@,
        _ => Seq::empty(),
    }
}

/// The text before and after the carried text, for the errors that carry one.
pub open spec fn message_frame(k: ErrorKind) -> (Seq<char>, Seq<char>) {
    match k {
        ErrorKind::ExpectedCompat => ("expected `compat`, found `"@, "`"@),
        ErrorKind::KeywordNotIdent => ("expected identifier, found keyword `"@, "`"@),
        ErrorKind::UnknownCurrentVersion => ("version `"@, "` does not match any declared version"@),
        ErrorKind::DuplicateTag => ("duplicate version tag `"@, "`"@),
        ErrorKind::SelfLoop => ("self-loop transition in version `"@, "`"@),
        ErrorKind::MissingTarget => ("target version `"@, "` does not exist"@),
        ErrorKind::Cycle => (
            "cycle detected in backwards_compat migration graph starting at version `"@,
            "`"@,
        ),
        _ => (Seq::empty(), Seq::empty()),
    }
}

/// The errors whose message frames the text they carry.
pub open spec fn carries_text(k: ErrorKind) -> bool {
    k == ErrorKind::ExpectedCompat || k == ErrorKind::KeywordNotIdent || k
        == ErrorKind::UnknownCurrentVersion || k == ErrorKind::DuplicateTag || k
        == ErrorKind::SelfLoop || k == ErrorKind::MissingTarget || k == ErrorKind::Cycle
}

/// The message of an error.
pub open spec fn message_text(e: CompatError) -> Seq<char> {
    let k = error_kind(e);
    if k == ErrorKind::Rejected {
        error_detail(e)
    } else if carries_text(k) {
        message_frame(k).0 + error_detail(e) + message_frame(k).1
    } else {
        fixed_message(k)
    }
}

fn framed(before: &str, detail: &String, after: &str) -> (r: String)
    ensures
        r@ == before@ + detail@ + after@,
{
    let mut s = before.to_owned();
    append_string(&mut s, detail);
    s.append(after);
    s
}

impl Located {
    /// The message of the error.
    pub fn message(&self) -> (r: String)
        ensures
            r@ == message_text(self.error),
    {
        self.error.message()
    }
}

impl CompatError {
    /// The message of the error.
    pub fn message(&self) -> (r: String)
        ensures
            r@ == message_text(*self),
    {
        match self {
            CompatError::IdentVersionKey => "version keys must be string or integer literals (e.g. 1 or \"1\"), not identifiers like v1".to_owned(),
            CompatError::ExpectedVersionLiteral => "expected integer or string literal for version tag".to_owned(),
            CompatError::IntLiteral(IntTextError::Empty) => "cannot parse integer from empty string".to_owned(),
            CompatError::IntLiteral(IntTextError::InvalidDigit) => "invalid digit found in string".to_owned(),
            CompatError::IntLiteral(IntTextError::Overflow) => "number too large to fit in target type".to_owned(),
            CompatError::DuplicateVersionAttr => "duplicate #[version = ...] attribute".to_owned(),
            CompatError::VersionAttrNeedsValue => "#[version] attribute requires a value, e.g. #[version = 1] or #[version = \"1\"]".to_owned(),
            CompatError::ErrorAttrNeedsType => "expected type for error attribute, e.g. #[error = CustomError]".to_owned(),
            CompatError::ObsoleteUntagged => "#[untagged] is obsolete and no longer supported".to_owned(),
            CompatError::ObsoleteTagged => "#[tagged] is obsolete and no longer supported".to_owned(),
            CompatError::ObsoleteUntaggedEnum => "#[untagged_enum] is obsolete and no longer supported".to_owned(),
            CompatError::ObsoleteTarget => "#[target] is obsolete; specify the target type with `compat TargetType` syntax".to_owned(),
            CompatError::ObsoleteContent => "#[content] is obsolete and no longer supported".to_owned(),
            CompatError::EnumSyntax => "expected `compat`, found `enum`. The macro syntax has changed to `compat TargetModel { ... }`".to_owned(),
            CompatError::ExpectedCompat(s) => framed("expected `compat`, found `", s, "`"),
            CompatError::Expected(x, end) => {
                if *end {
                    let mut s = "unexpected end of input, ".to_owned();
                    s.append(expectation_message(*x));
                    s
                } else {
                    expectation_message(*x).to_owned()
                }
            },
            CompatError::UnexpectedToken(Delimiter::Parenthesis) => "unexpected token, expected `)`".to_owned(),
            CompatError::UnexpectedToken(Delimiter::Brace) => "unexpected token, expected `}`".to_owned(),
            CompatError::UnexpectedToken(Delimiter::Bracket) => "unexpected token, expected `]`".to_owned(),
            CompatError::UnexpectedToken(Delimiter::Invisible) => "unexpected token".to_owned(),
            CompatError::KeywordNotIdent(s) => framed("expected identifier, found keyword `", s, "`"),
            CompatError::Rejected(m) => m.clone(),
            CompatError::NoVersions => "at least one version entry must be declared".to_owned(),
            CompatError::UnknownCurrentVersion(t) => framed(
                "version `",
                &t.to_tag_string(),
                "` does not match any declared version",
            ),
            CompatError::DuplicateTag(t) => framed("duplicate version tag `", &t.to_tag_string(), "`"),
            CompatError::SelfLoop(t) => framed(
                "self-loop transition in version `",
                &t.to_tag_string(),
                "`",
            ),
            CompatError::MissingTarget(t) => framed(
                "target version `",
                &t.to_tag_string(),
                "` does not exist",
            ),
            CompatError::Cycle(t) => framed(
                "cycle detected in backwards_compat migration graph starting at version `",
                &t.to_tag_string(),
                "`",
            ),
        }
    }
}

} // verus!
