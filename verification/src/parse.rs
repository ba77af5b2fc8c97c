//! The grammar of a compatibility declaration:
//!
//! ```text
//! ( '#' '[' item (',' item)* ']' )*  visibility?  'compat'  TargetType  '{' entry* '}'
//! item  := 'tag' ('=' "field" | '(' "field" ')')? | 'version' ('=' TAG | '(' TAG ')')
//!        | 'error' ('=' Type | '(' Type ')') | 'dump' | attribute content
//! entry := ('#' '[' attribute content ']')* TAG ':' Type ('=>' TAG)? (',' | ';')*
//! TAG   := integer literal | string literal
//! ```
//!
//! The visibility, the types and the attribute contents are read by `syn`,
//! which decides where each of them ends; everything else here.
use vstd::prelude::*;
use crate::error::{
    error_view, located_view, CompatError, ErrorKind, Expectation, Failure, Located, Place, PlaceView,
};
use crate::syntax::{
    check_meta_text, check_type_text, check_vis_text, syn_meta_verdict, syn_type_verdict,
    syn_vis_verdict,
};
use crate::tag::{opt_tag_view, tag_text, tag_view_text, TagView, VersionTag};
use crate::text::{copy_string, read_u64, read_u64_spec, text_is, IntTextError};
use crate::token::{
    is_keyword, keyword, leftover_at, leftover_index, toks_text, toks_text_of, Delimiter, LitKind, Tok,
};

verus! {

/// Represents a single version entry inside the compat macro body.
#[derive(Debug)]
pub struct VersionEntry {
    /// The attributes of the entry that are handed on (their content's text).
    pub outer_attrs: Vec<String>,
    pub tag: VersionTag,
    /// Where the tag is written (a path into the declaration's tokens).
    pub tag_place: Vec<usize>,
    /// The text of the entry's type.
    pub ty: String,
    pub fallible: bool,
    pub explicit_next: Option<VersionTag>,
    /// Where the tag after `=>` is written; empty when there is none.
    pub next_place: Vec<usize>,
}

/// Represents the parsed input of a `backwards_compat!` macro invocation.
#[derive(Debug)]
pub struct BackwardsCompatInput {
    /// The attributes of the declaration that are handed on (their content's text).
    pub outer_attrs: Vec<String>,
    /// The text of the declared visibility (empty when none is written).
    pub vis: String,
    /// The text of the target type.
    pub target_ty: String,
    /// The top-level tokens `lo..hi` that the target type is written with.
    pub target_span: (usize, usize),
    pub tag_field: String,
    pub current_version: VersionTag,
    /// Where the current version is written: in `#[version ...]`, or as the
    /// tag of the last entry when no such attribute is given.
    pub current_version_place: Vec<usize>,
    /// The text of the error type, when one is given.
    pub error_ty: Option<String>,
    pub dump: bool,
    pub versions: Vec<VersionEntry>,
}

/// The value of a version entry.
pub struct EntryView {
    pub attrs: Seq<Seq<char>>,
    pub tag: TagView,
    pub tag_place: Seq<usize>,
    pub ty: Seq<char>,
    pub fallible: bool,
    pub next: Option<TagView>,
    pub next_place: Seq<usize>,
}

/// The value of a parsed declaration.
pub struct InputView {
    pub attrs: Seq<Seq<char>>,
    pub vis: Seq<char>,
    pub target_ty: Seq<char>,
    pub target_span: (int, int),
    pub tag_field: Seq<char>,
    pub current: TagView,
    pub current_place: Seq<usize>,
    pub error_ty: Option<Seq<char>>,
    pub dump: bool,
    pub versions: Seq<EntryView>,
}

/// The texts of a list of strings.
pub open spec fn texts(v: Seq<String>) -> Seq<Seq<char>> {
    v.map_values(|s: String| s@)
}

/// The text of an optional string.
pub open spec fn opt_text(o: Option<String>) -> Option<Seq<char>> {
    match o {
        Some(s) => Some(s@),
        None => None,
    }
}

impl View for VersionEntry {
    type V = EntryView;

    open spec fn view(&self) -> EntryView {
        EntryView {
            attrs: texts(self.outer_attrs@),
            tag: self.tag@,
            tag_place: self.tag_place@,
            ty: self.ty@,
            fallible: self.fallible,
            next: opt_tag_view(self.explicit_next),
            next_place: self.next_place@,
        }
    }
}

impl View for BackwardsCompatInput {
    type V = InputView;

    open spec fn view(&self) -> InputView {
        InputView {
            attrs: texts(self.outer_attrs@),
            vis: self.vis@,
            target_ty: self.target_ty@,
            target_span: (self.target_span.0 as int, self.target_span.1 as int),
            tag_field: self.tag_field@,
            current: self.current_version@,
            current_place: self.current_version_place@,
            error_ty: opt_text(self.error_ty),
            dump: self.dump,
            versions: entry_views(self.versions@),
        }
    }
}

/// Tokens left over inside a group: the group's delimiter and where the
/// first of them stands.
pub type Leftover = (Delimiter, PlaceView);

/// The delimiter of the group with tokens left over.
pub open spec fn leftover_delimiter(l: Leftover) -> Delimiter {
    l.0
}

/// Where the first token left over stands.
pub open spec fn leftover_place(l: Leftover) -> PlaceView {
    l.1
}

/// The value of a record of tokens left over.
pub open spec fn leftover_view(o: Option<(Delimiter, Place)>) -> Option<Leftover> {
    match o {
        Some((d, p)) => Some((d, p@)),
        None => None,
    }
}

/// The settings that the declaration's attributes give, as they are read.
pub struct HeaderView {
    pub tag_field: Seq<char>,
    pub version: Option<TagView>,
    pub version_place: Seq<usize>,
    pub error_ty: Option<Seq<char>>,
    pub dump: bool,
    pub forwarded: Seq<Seq<char>>,
    /// The first delimited group in which tokens were left over; this is
    /// reported once the whole declaration has been read without another
    /// error.
    pub pending: Option<Leftover>,
}

/// The settings that the declaration's attributes give, as they are read.
pub struct HeaderAttrs {
    pub tag_field: String,
    pub version: Option<VersionTag>,
    pub version_place: Vec<usize>,
    pub error_ty: Option<String>,
    pub dump: bool,
    pub forwarded: Vec<String>,
    pub pending: Option<(Delimiter, Place)>,
}

impl View for HeaderAttrs {
    type V = HeaderView;

    open spec fn view(&self) -> HeaderView {
        HeaderView {
            tag_field: self.tag_field@,
            version: opt_tag_view(self.version),
            version_place: self.version_place@,
            error_ty: opt_text(self.error_ty),
            dump: self.dump,
            forwarded: texts(self.forwarded@),
            pending: leftover_view(self.pending),
        }
    }
}

/// The settings before any attribute is read.
pub open spec fn initial_header() -> HeaderView {
    HeaderView {
        tag_field: "version"@,
        version: None,
        version_place: Seq::empty(),
        error_ty: None,
        dump: false,
        forwarded: Seq::empty(),
        pending: None,
    }
}

/// An error that carries no text, pointing at `at`.
pub open spec fn fault(k: ErrorKind, at: PlaceView) -> Failure {
    (k, Seq::empty(), at)
}

/// The token `i` of the group at path `at`.
pub open spec fn token_place(at: Seq<usize>, i: int) -> PlaceView {
    PlaceView::Token(at.push(i as usize))
}

/// Where a reader of the group `c` (at path `at`) stands at `c[i]`: that
/// token, or the end of the group when none is left.
pub open spec fn cursor_place(at: Seq<usize>, c: Seq<Tok>, i: int) -> PlaceView {
    if 0 <= i < c.len() {
        token_place(at, i)
    } else {
        PlaceView::End(at)
    }
}

/// The tokens of the group `c` (at path `at`) from `c[p]` to its end.
pub open spec fn rest_place(at: Seq<usize>, c: Seq<Tok>, p: int) -> PlaceView {
    PlaceView::Tokens(at, p, c.len() as int)
}

/// The version tag written at `c[p]` in the group at path `at`, or the error,
/// pointing where a reader stands there.
pub open spec fn tag_spec(at: Seq<usize>, c: Seq<Tok>, p: int) -> Result<TagView, Failure> {
    match tag_token_spec(c, p) {
        Ok(t) => Ok(t),
        Err((k, d)) => Err((k, d, cursor_place(at, c, p))),
    }
}

/// The tokens left over in the group `inner` (at path `at`) from `inner[k]`
/// on, if any is not passed over.
pub open spec fn leftover_in(at: Seq<usize>, inner: Seq<Tok>, k: int, d: Delimiter) -> Option<
    Leftover,
> {
    let j = leftover_at(inner, k);
    if j < inner.len() {
        Some((d, token_place(at, j)))
    } else {
        None
    }
}

/// The error kind of a malformed integer literal.
pub open spec fn int_fault(e: IntTextError) -> ErrorKind {
    match e {
        IntTextError::Empty => ErrorKind::IntEmpty,
        IntTextError::InvalidDigit => ErrorKind::IntInvalidDigit,
        IntTextError::Overflow => ErrorKind::IntOverflow,
    }
}

/// `ts[p]` is the punctuation character `c`.
pub open spec fn punct_at(ts: Seq<Tok>, p: int, c: char) -> bool {
    0 <= p < ts.len() && (ts[p] matches Tok::Punct(x, _) && x == c)
}

/// `ts[p]` is the punctuation character `c`, joined to the next one.
pub open spec fn joint_punct_at(ts: Seq<Tok>, p: int, c: char) -> bool {
    0 <= p < ts.len() && (ts[p] matches Tok::Punct(x, true) && x == c)
}

/// The name of the identifier at `ts[p]`, if it is one.
pub open spec fn ident_at(ts: Seq<Tok>, p: int) -> Option<Seq<char>> {
    if 0 <= p < ts.len() {
        match ts[p] {
            Tok::Ident(s) => Some(s@),
            _ => None,
        }
    } else {
        None
    }
}

/// The value of the string literal at `ts[p]`, if it is one.
pub open spec fn str_lit_at(ts: Seq<Tok>, p: int) -> Option<Seq<char>> {
    if 0 <= p < ts.len() {
        match ts[p] {
            Tok::Literal(LitKind::Str(s), _) => Some(s@),
            _ => None,
        }
    } else {
        None
    }
}

/// `ts[p]` is a group with delimiter `d`.
pub open spec fn group_at(ts: Seq<Tok>, p: int, d: Delimiter) -> bool {
    0 <= p < ts.len() && (ts[p] matches Tok::Group(x, _) && x == d)
}

/// The tokens inside a group.
pub open spec fn group_inner(t: Tok) -> Seq<Tok> {
    match t {
        Tok::Group(_, v) => v@,
        _ => Seq::empty(),
    }
}

/// The version tag written at `ts[p]`.
pub open spec fn tag_token_spec(ts: Seq<Tok>, p: int) -> Result<TagView, (ErrorKind, Seq<char>)> {
    if 0 <= p < ts.len() {
        match ts[p] {
            Tok::Ident(s) => if is_keyword(s@) {
                Err((ErrorKind::ExpectedVersionLiteral, Seq::<char>::empty()))
            } else {
                Err((ErrorKind::IdentVersionKey, Seq::<char>::empty()))
            },
            Tok::Literal(LitKind::Int(d), _) => match read_u64_spec(d@) {
                Ok(v) => Ok(TagView::Int(v)),
                Err(e) => Err((int_fault(e), Seq::<char>::empty())),
            },
            Tok::Literal(LitKind::Str(s), _) => Ok(TagView::Str(s@)),
            _ => Err((ErrorKind::ExpectedVersionLiteral, Seq::<char>::empty())),
        }
    } else {
        Err((ErrorKind::ExpectedVersionLiteral, Seq::<char>::empty()))
    }
}

/// What `syn` is asked to read at a place of a declaration.
#[derive(Debug, Clone, Copy, PartialEq, Eq, Structural)]
pub enum Piece {
    /// A type.
    Type,
    /// The content of an attribute.
    Meta,
    /// A visibility, which may be empty.
    Vis,
}

/// The answers of `syn`: for each kind of piece and each text, `None` when
/// `syn` accepts the whole text as such a piece, else its error message.
pub type Answers = spec_fn(Piece, Seq<char>) -> Option<Seq<char>>;

/// What `syn` itself answers.
pub open spec fn syn_answers() -> Answers {
    |k: Piece, text: Seq<char>|
        match k {
            Piece::Type => syn_type_verdict(text),
            Piece::Meta => syn_meta_verdict(text),
            Piece::Vis => syn_vis_verdict(text),
        }
}

/// An answer of `syn` given by hand: what it says of `text` read as `piece`.
#[derive(Debug)]
pub struct SynAnswer {
    pub piece: Piece,
    pub text: String,
    /// `None` for acceptance, else the error message.
    pub verdict: Option<String>,
}

/// What the list `a`, from `a[i]` on, says of `text` read as `k`: the verdict
/// of its first answer for them, or acceptance where it says nothing.
pub open spec fn given_verdict(a: Seq<SynAnswer>, i: int, k: Piece, text: Seq<char>) -> Option<
    Seq<char>,
>
    decreases a.len() - i,
{
    if i < 0 || i >= a.len() {
        None
    } else if a[i].piece == k && a[i].text@ == text {
        opt_text(a[i].verdict)
    } else {
        given_verdict(a, i + 1, k, text)
    }
}

/// The answers that the list `a` gives.
pub open spec fn given_answers(a: Seq<SynAnswer>) -> Answers {
    |k: Piece, text: Seq<char>| given_verdict(a, 0, k, text)
}

/// The error that `syn` gives for a token left over after what it read.
pub open spec fn leftover_message() -> Seq<char> {
    "unexpected token"@
}

/// The largest `e`, from `e` down to `lo`, such that `c[p..e]` is accepted whole.
pub open spec fn longest_accepted(sv: Answers, k: Piece, c: Seq<Tok>, p: int, e: int, lo: int) -> Option<
    int,
>
    decreases e - lo + 1,
{
    if e < lo {
        None
    } else if sv(k, span_text(c, p, e)) is None {
        Some(e)
    } else {
        longest_accepted(sv, k, c, p, e - 1, lo)
    }
}

/// The shortest piece of kind `k` from `p` on: a visibility may be empty.
pub open spec fn shortest_end(k: Piece, p: int) -> int {
    if k == Piece::Vis {
        p
    } else {
        p + 1
    }
}

/// Where the piece of kind `k` that starts at `c[p]` ends, as `syn` reads it
/// from there to the end of `c`: at the end when it accepts all of it; when it
/// stops at a token left over, after the longest piece that it accepts whole;
/// else its error.
pub open spec fn piece_end(sv: Answers, k: Piece, c: Seq<Tok>, p: int) -> Result<int, Seq<char>> {
    match sv(k, span_text(c, p, c.len() as int)) {
        None => Ok(c.len() as int),
        Some(m) => if m == leftover_message() {
            match longest_accepted(sv, k, c, p, c.len() - 1, shortest_end(k, p)) {
                Some(e) => Ok(e),
                None => Err(m),
            }
        } else {
            Err(m)
        },
    }
}

/// The text of `ts[lo..hi]`.
pub open spec fn span_text(ts: Seq<Tok>, lo: int, hi: int) -> Seq<char> {
    toks_text(ts.subrange(lo, hi))
}

/// The first tokens left over inside a group stay reported; `later` counts
/// only when none was before.
pub open spec fn first_leftover(before: Option<Leftover>, later: Option<Leftover>) -> Option<
    Leftover,
> {
    if before is Some {
        before
    } else {
        later
    }
}

/// A header item that is handed on as attribute content.
pub open spec fn meta_item_spec(
    sv: Answers,
    at: Seq<usize>,
    c: Seq<Tok>,
    p: int,
    st: HeaderView,
) -> Result<(HeaderView, int), Failure> {
    match piece_end(sv, Piece::Meta, c, p) {
        Err(m) => Err((ErrorKind::Rejected, m, rest_place(at, c, p))),
        Ok(q) => Ok((HeaderView { forwarded: st.forwarded.push(span_text(c, p, q)), ..st }, q)),
    }
}

/// The item `tag`, `tag = "field"` or `tag("field")`, whose name is at `c[p]`.
pub open spec fn tag_item_spec(at: Seq<usize>, c: Seq<Tok>, p: int, st: HeaderView) -> Result<
    (HeaderView, int),
    Failure,
> {
    let q = p + 1;
    if punct_at(c, q, '=') {
        match str_lit_at(c, q + 1) {
            Some(v) => Ok((HeaderView { tag_field: v, ..st }, q + 2)),
            None => Err(
                fault(
                    ErrorKind::Expected(Expectation::StringLiteral, q + 1 >= c.len()),
                    cursor_place(at, c, q + 1),
                ),
            ),
        }
    } else if group_at(c, q, Delimiter::Parenthesis) {
        let inner = group_inner(c[q]);
        let gp = at.push(q as usize);
        match str_lit_at(inner, 0) {
            Some(v) => Ok(
                (
                    HeaderView {
                        tag_field: v,
                        pending: first_leftover(
                            st.pending,
                            leftover_in(gp, inner, 1, Delimiter::Parenthesis),
                        ),
                        ..st
                    },
                    q + 1,
                ),
            ),
            None => Err(
                fault(
                    ErrorKind::Expected(Expectation::StringLiteral, inner.len() == 0),
                    cursor_place(gp, inner, 0),
                ),
            ),
        }
    } else {
        Ok((HeaderView { tag_field: "version"@, ..st }, q))
    }
}

/// The item `version = TAG` or `version(TAG)`, whose name is at `c[p]`.
pub open spec fn version_item_spec(at: Seq<usize>, c: Seq<Tok>, p: int, st: HeaderView) -> Result<
    (HeaderView, int),
    Failure,
> {
    let q = p + 1;
    if st.version is Some {
        Err(fault(ErrorKind::DuplicateVersionAttr, token_place(at, p)))
    } else if punct_at(c, q, '=') {
        match tag_spec(at, c, q + 1) {
            Ok(t) => Ok(
                (HeaderView { version: Some(t), version_place: at.push((q + 1) as usize), ..st }, q
                    + 2),
            ),
            Err(e) => Err(e),
        }
    } else if group_at(c, q, Delimiter::Parenthesis) {
        let inner = group_inner(c[q]);
        let gp = at.push(q as usize);
        match tag_spec(gp, inner, 0) {
            Ok(t) => Ok(
                (
                    HeaderView {
                        version: Some(t),
                        version_place: gp.push(0),
                        pending: first_leftover(
                            st.pending,
                            leftover_in(gp, inner, 1, Delimiter::Parenthesis),
                        ),
                        ..st
                    },
                    q + 1,
                ),
            ),
            Err(e) => Err(e),
        }
    } else {
        Err(fault(ErrorKind::VersionAttrNeedsValue, token_place(at, p)))
    }
}

/// The item `error = Type` or `error(Type)`, whose name is at `c[p]`.
pub open spec fn error_item_spec(
    sv: Answers,
    at: Seq<usize>,
    c: Seq<Tok>,
    p: int,
    st: HeaderView,
) -> Result<(HeaderView, int), Failure> {
    let q = p + 1;
    if punct_at(c, q, '=') {
        match piece_end(sv, Piece::Type, c, q + 1) {
            Err(m) => Err((ErrorKind::Rejected, m, rest_place(at, c, q + 1))),
            Ok(e) => Ok((HeaderView { error_ty: Some(span_text(c, q + 1, e)), ..st }, e)),
        }
    } else if group_at(c, q, Delimiter::Parenthesis) {
        let inner = group_inner(c[q]);
        let gp = at.push(q as usize);
        match piece_end(sv, Piece::Type, inner, 0) {
            Err(m) => Err((ErrorKind::Rejected, m, rest_place(gp, inner, 0))),
            Ok(e) => Ok(
                (
                    HeaderView {
                        error_ty: Some(span_text(inner, 0, e)),
                        pending: first_leftover(
                            st.pending,
                            leftover_in(gp, inner, e, Delimiter::Parenthesis),
                        ),
                        ..st
                    },
                    q + 1,
                ),
            ),
        }
    } else {
        Err(fault(ErrorKind::ErrorAttrNeedsType, token_place(at, p)))
    }
}

/// The header item that starts at `c[p]`, before the `,` that may follow it.
pub open spec fn header_item_body_spec(
    sv: Answers,
    at: Seq<usize>,
    c: Seq<Tok>,
    p: int,
    st: HeaderView,
) -> Result<(HeaderView, int), Failure> {
    match ident_at(c, p) {
        Some(s) => if is_keyword(s) {
            meta_item_spec(sv, at, c, p, st)
        } else if s == "tag"@ {
            tag_item_spec(at, c, p, st)
        } else if s == "version"@ {
            version_item_spec(at, c, p, st)
        } else if s == "error"@ {
            error_item_spec(sv, at, c, p, st)
        } else if s == "dump"@ {
            Ok((HeaderView { dump: true, ..st }, p + 1))
        } else if s == "untagged"@ {
            Err(fault(ErrorKind::ObsoleteUntagged, token_place(at, p)))
        } else if s == "tagged"@ {
            Err(fault(ErrorKind::ObsoleteTagged, token_place(at, p)))
        } else if s == "untagged_enum"@ || s == "untagged_name"@ {
            Err(fault(ErrorKind::ObsoleteUntaggedEnum, token_place(at, p)))
        } else if s == "target"@ {
            Err(fault(ErrorKind::ObsoleteTarget, token_place(at, p)))
        } else if s == "content"@ {
            Err(fault(ErrorKind::ObsoleteContent, token_place(at, p)))
        } else {
            meta_item_spec(sv, at, c, p, st)
        },
        None => meta_item_spec(sv, at, c, p, st),
    }
}

/// The header item that starts at `c[p]`, with the `,` that may follow it.
pub open spec fn header_item_spec(
    sv: Answers,
    at: Seq<usize>,
    c: Seq<Tok>,
    p: int,
    st: HeaderView,
) -> Result<(HeaderView, int), Failure> {
    match header_item_body_spec(sv, at, c, p, st) {
        Ok((st2, q)) => Ok(
            (
                st2,
                if punct_at(c, q, ',') {
                    q + 1
                } else {
                    q
                },
            ),
        ),
        Err(e) => Err(e),
    }
}

/// The items of one header attribute (the group at path `at`), from `c[p]` on.
pub open spec fn header_items_spec(
    sv: Answers,
    at: Seq<usize>,
    c: Seq<Tok>,
    p: int,
    st: HeaderView,
) -> Result<HeaderView, Failure>
    decreases c.len() - p,
{
    if p < 0 || p >= c.len() {
        Ok(st)
    } else {
        match header_item_spec(sv, at, c, p, st) {
            Err(e) => Err(e),
            Ok((st2, q)) => if p < q <= c.len() {
                header_items_spec(sv, at, c, q, st2)
            } else {
                Ok(st2)
            },
        }
    }
}

/// The attributes of the declaration, from `ts[p]` on: the settings and
/// where they end.
pub open spec fn header_spec(sv: Answers, ts: Seq<Tok>, p: int, st: HeaderView) -> Result<
    (HeaderView, int),
    Failure,
>
    decreases ts.len() - p,
{
    if p >= 0 && punct_at(ts, p, '#') {
        if group_at(ts, p + 1, Delimiter::Bracket) {
            match header_items_spec(sv, seq![(p + 1) as usize], group_inner(ts[p + 1]), 0, st) {
                Ok(st2) => header_spec(sv, ts, p + 2, st2),
                Err(e) => Err(e),
            }
        } else {
            Err(
                fault(
                    ErrorKind::Expected(Expectation::SquareBrackets, p + 1 >= ts.len()),
                    cursor_place(Seq::empty(), ts, p + 1),
                ),
            )
        }
    } else {
        Ok((st, p))
    }
}

/// What the attributes of an entry give: whether it is fallible, the
/// attribute contents handed on, and the first group with tokens left over.
pub struct AttrView {
    pub fallible: bool,
    pub forwarded: Seq<Seq<char>>,
    pub pending: Option<Leftover>,
}

/// The attribute content `inner` marks its entry fallible: its path is the
/// single name `fallible` or `try_into`.
pub open spec fn marks_fallible(inner: Seq<Tok>) -> bool {
    (ident_at(inner, 0) == Some("fallible"@) || ident_at(inner, 0) == Some("try_into"@))
        && !punct_at(inner, 1, ':')
}

/// The attributes of an entry, from `c[p]` on, in the body at path `at`.
pub open spec fn entry_attrs_spec(
    sv: Answers,
    at: Seq<usize>,
    c: Seq<Tok>,
    p: int,
    acc: AttrView,
) -> Result<(AttrView, int), Failure>
    decreases c.len() - p,
{
    if p >= 0 && punct_at(c, p, '#') {
        if group_at(c, p + 1, Delimiter::Bracket) {
            let inner = group_inner(c[p + 1]);
            let gp = at.push((p + 1) as usize);
            match piece_end(sv, Piece::Meta, inner, 0) {
                Err(m) => Err((ErrorKind::Rejected, m, rest_place(gp, inner, 0))),
                Ok(e) => entry_attrs_spec(
                    sv,
                    at,
                    c,
                    p + 2,
                    AttrView {
                        fallible: acc.fallible || marks_fallible(inner),
                        forwarded: if marks_fallible(inner) {
                            acc.forwarded
                        } else {
                            acc.forwarded.push(span_text(inner, 0, e))
                        },
                        pending: first_leftover(
                            acc.pending,
                            leftover_in(gp, inner, e, Delimiter::Bracket),
                        ),
                    },
                ),
            }
        } else {
            Err(
                fault(
                    ErrorKind::Expected(Expectation::SquareBrackets, p + 1 >= c.len()),
                    cursor_place(at, c, p + 1),
                ),
            )
        }
    } else {
        Ok((acc, p))
    }
}

/// The position after the `,` and `;` that start at `c[p]`.
pub open spec fn skip_separators(c: Seq<Tok>, p: int) -> int
    decreases c.len() - p,
{
    if p >= 0 && (punct_at(c, p, ',') || punct_at(c, p, ';')) {
        skip_separators(c, p + 1)
    } else {
        p
    }
}

/// The entry that starts at `c[p]` in the body at path `at`: its value, where
/// it ends, and the first group with tokens left over so far.
pub open spec fn entry_spec(
    sv: Answers,
    at: Seq<usize>,
    c: Seq<Tok>,
    p: int,
    pending: Option<Leftover>,
) -> Result<(EntryView, int, Option<Leftover>), Failure> {
    match entry_attrs_spec(
        sv,
        at,
        c,
        p,
        AttrView { fallible: false, forwarded: Seq::empty(), pending },
    ) {
        Err(e) => Err(e),
        Ok((acc, q)) => match tag_spec(at, c, q) {
            Err(e) => Err(e),
            Ok(tag) => if !punct_at(c, q + 1, ':') {
                Err(
                    fault(
                        ErrorKind::Expected(Expectation::Colon, false),
                        cursor_place(at, c, q + 1),
                    ),
                )
            } else {
                match piece_end(sv, Piece::Type, c, q + 2) {
                    Err(m) => Err((ErrorKind::Rejected, m, rest_place(at, c, q + 2))),
                    Ok(e) => {
                        let ty = span_text(c, q + 2, e);
                        if joint_punct_at(c, e, '=') && punct_at(c, e + 1, '>') {
                            match tag_spec(at, c, e + 2) {
                                Err(er) => Err(er),
                                Ok(nt) => Ok(
                                    (
                                        EntryView {
                                            attrs: acc.forwarded,
                                            tag,
                                            tag_place: at.push(q as usize),
                                            ty,
                                            fallible: acc.fallible,
                                            next: Some(nt),
                                            next_place: at.push((e + 2) as usize),
                                        },
                                        skip_separators(c, e + 3),
                                        acc.pending,
                                    ),
                                ),
                            }
                        } else {
                            Ok(
                                (
                                    EntryView {
                                        attrs: acc.forwarded,
                                        tag,
                                        tag_place: at.push(q as usize),
                                        ty,
                                        fallible: acc.fallible,
                                        next: None,
                                        next_place: Seq::empty(),
                                    },
                                    skip_separators(c, e),
                                    acc.pending,
                                ),
                            )
                        }
                    },
                }
            },
        },
    }
}

/// The entries from `c[p]` on in the body at path `at`, after the entries
/// `acc` read before.
pub open spec fn entries_spec(
    sv: Answers,
    at: Seq<usize>,
    c: Seq<Tok>,
    p: int,
    acc: Seq<EntryView>,
    pending: Option<Leftover>,
) -> Result<(Seq<EntryView>, Option<Leftover>), Failure>
    decreases c.len() - p,
{
    if p < 0 || p >= c.len() {
        Ok((acc, pending))
    } else {
        match entry_spec(sv, at, c, p, pending) {
            Err(e) => Err(e),
            Ok((ev, q, pd)) => if p < q <= c.len() {
                entries_spec(sv, at, c, q, acc.push(ev), pd)
            } else {
                Ok((acc.push(ev), pd))
            },
        }
    }
}

/// Two tag values name the same version.
pub open spec fn views_match(a: TagView, b: TagView) -> bool {
    tag_view_text(a) == tag_view_text(b)
}

/// A declared current version `v` is accepted: an entry has its tag, a
/// transition leads to it, or the last entry has no explicit transition.
pub open spec fn current_allowed(es: Seq<EntryView>, v: TagView) -> bool {
    ||| exists|i: int| 0 <= i < es.len() && views_match(#[trigger] es[i].tag, v)
    ||| exists|i: int|
        0 <= i < es.len() && (#[trigger] es[i].next matches Some(nt) && views_match(nt, v))
    ||| es.last().next is None
}

/// Entry `i` repeats the tag of an earlier entry.
pub open spec fn dup_at(es: Seq<EntryView>, i: int) -> bool {
    0 <= i < es.len() && exists|j: int| 0 <= j < i && views_match(#[trigger] es[j].tag, es[i].tag)
}

/// Entry `i` is the first that repeats an earlier tag.
pub open spec fn first_dup_at(es: Seq<EntryView>, i: int) -> bool {
    dup_at(es, i) && forall|k: int| 0 <= k < i ==> !dup_at(es, k)
}

/// The checks that follow the reading of the tokens `ts`: the target type is
/// written with `ts[lo..hi]` and the body is `ts[hi]`; `pending` is the first
/// group in which tokens were left over.
pub open spec fn finish_spec(
    h: HeaderView,
    ts: Seq<Tok>,
    vis: Seq<char>,
    lo: int,
    hi: int,
    es: Seq<EntryView>,
    pending: Option<Leftover>,
) -> Result<InputView, Failure> {
    if es.len() == 0 {
        Err(fault(ErrorKind::NoVersions, PlaceView::Tokens(Seq::empty(), lo, hi)))
    } else if h.version is Some && !current_allowed(es, h.version->0) {
        Err(
            (
                ErrorKind::UnknownCurrentVersion,
                tag_view_text(h.version->0),
                PlaceView::Token(h.version_place),
            ),
        )
    } else if exists|i: int| dup_at(es, i) {
        Err(
            (
                ErrorKind::DuplicateTag,
                tag_view_text(es[choose|i: int| first_dup_at(es, i)].tag),
                PlaceView::Token(es[choose|i: int| first_dup_at(es, i)].tag_place),
            ),
        )
    } else if pending is Some {
        Err(fault(ErrorKind::UnexpectedToken(leftover_delimiter(pending->0)), leftover_place(pending->0)))
    } else if leftover_at(ts, hi + 1) < ts.len() {
        Err(
            fault(
                ErrorKind::UnexpectedToken(Delimiter::Invisible),
                token_place(Seq::empty(), leftover_at(ts, hi + 1)),
            ),
        )
    } else {
        Ok(
            InputView {
                attrs: h.forwarded,
                vis,
                target_ty: span_text(ts, lo, hi),
                target_span: (lo, hi),
                tag_field: h.tag_field,
                current: match h.version {
                    Some(v) => v,
                    None => es.last().tag,
                },
                current_place: match h.version {
                    Some(v) => h.version_place,
                    None => es.last().tag_place,
                },
                error_ty: h.error_ty,
                dump: h.dump,
                versions: es,
            },
        )
    }
}

/// What reading the tokens of a whole declaration gives, with the answers
/// `sv` for the types, attribute contents and visibility that `syn` reads.
pub open spec fn parse_spec_with(sv: Answers, ts: Seq<Tok>) -> Result<InputView, Failure> {
    let top = Seq::<usize>::empty();
    match header_spec(sv, ts, 0, initial_header()) {
        Err(e) => Err(e),
        Ok((h, p)) => match piece_end(sv, Piece::Vis, ts, p) {
            Err(m) => Err((ErrorKind::Rejected, m, rest_place(top, ts, p))),
            Ok(v) => if ident_at(ts, v) == Some("enum"@) {
                Err(fault(ErrorKind::EnumSyntax, token_place(top, v)))
            } else {
                match ident_at(ts, v) {
                    None => Err(
                        fault(
                            ErrorKind::Expected(Expectation::Identifier, v >= ts.len()),
                            cursor_place(top, ts, v),
                        ),
                    ),
                    Some(name) => if is_keyword(name) {
                        Err((ErrorKind::KeywordNotIdent, name, token_place(top, v)))
                    } else if name != "compat"@ {
                        Err((ErrorKind::ExpectedCompat, name, token_place(top, v)))
                    } else {
                        match piece_end(sv, Piece::Type, ts, v + 1) {
                            Err(m) => Err((ErrorKind::Rejected, m, rest_place(top, ts, v + 1))),
                            Ok(te) => if !group_at(ts, te, Delimiter::Brace) {
                                Err(
                                    fault(
                                        ErrorKind::Expected(
                                            Expectation::CurlyBraces,
                                            te >= ts.len(),
                                        ),
                                        cursor_place(top, ts, te),
                                    ),
                                )
                            } else {
                                match entries_spec(
                                    sv,
                                    seq![te as usize],
                                    group_inner(ts[te]),
                                    0,
                                    Seq::empty(),
                                    h.pending,
                                ) {
                                    Err(e) => Err(e),
                                    Ok((es, pending)) => finish_spec(
                                        h,
                                        ts,
                                        span_text(ts, p, v),
                                        v + 1,
                                        te,
                                        es,
                                        pending,
                                    ),
                                }
                            },
                        }
                    },
                }
            },
        },
    }
}

/// What reading the tokens of a whole declaration gives, with `syn`'s own
/// answers.
pub open spec fn parse_spec(ts: Seq<Tok>) -> Result<InputView, Failure> {
    parse_spec_with(syn_answers(), ts)
}

/// The value of a list of entries.
pub open spec fn entry_views(v: Seq<VersionEntry>) -> Seq<EntryView> {
    v.map_values(|e: VersionEntry| e@)
}

proof fn lemma_texts_push(v: Seq<String>, s: String)
    ensures
        texts(v.push(s)) == texts(v).push(s@),
{
    assert(texts(v.push(s)) =~= texts(v).push(s@));
}

proof fn lemma_entry_views_push(v: Seq<VersionEntry>, e: VersionEntry)
    ensures
        entry_views(v.push(e)) == entry_views(v).push(e@),
{
    assert(entry_views(v.push(e)) =~= entry_views(v).push(e@));
}

fn is_punct(ts: &Vec<Tok>, p: usize, c: char) -> (b: bool)
    ensures
        b == punct_at(ts@, p as int, c),
{
    if p < ts.len() {
        match &ts[p] {
            Tok::Punct(x, _) => *x == c,
            _ => false,
        }
    } else {
        false
    }
}

fn is_joint_punct(ts: &Vec<Tok>, p: usize, c: char) -> (b: bool)
    ensures
        b == joint_punct_at(ts@, p as int, c),
{
    if p < ts.len() {
        match &ts[p] {
            Tok::Punct(x, true) => *x == c,
            _ => false,
        }
    } else {
        false
    }
}

fn is_group(ts: &Vec<Tok>, p: usize, d: Delimiter) -> (b: bool)
    ensures
        b == group_at(ts@, p as int, d),
{
    if p < ts.len() {
        match &ts[p] {
            Tok::Group(x, _) => *x == d,
            _ => false,
        }
    } else {
        false
    }
}

fn ident_is(ts: &Vec<Tok>, p: usize, lit: &str) -> (b: bool)
    ensures
        b == (ident_at(ts@, p as int) == Some(lit@)),
{
    if p < ts.len() {
        match &ts[p] {
            Tok::Ident(s) => text_is(s, lit),
            _ => false,
        }
    } else {
        false
    }
}

/// The version tag written at `ts[p]`.
fn tag_at(ts: &Vec<Tok>, p: usize) -> (r: Result<VersionTag, CompatError>)
    ensures
        match r {
            Ok(t) => tag_token_spec(ts@, p as int) == Ok::<TagView, (ErrorKind, Seq<char>)>(t@),
            Err(e) => tag_token_spec(ts@, p as int) == Err::<TagView, (ErrorKind, Seq<char>)>(
                error_view(e),
            ),
        },
{
    if p >= ts.len() {
        return Err(CompatError::ExpectedVersionLiteral);
    }
    match &ts[p] {
        Tok::Ident(s) => {
            if keyword(s) {
                Err(CompatError::ExpectedVersionLiteral)
            } else {
                Err(CompatError::IdentVersionKey)
            }
        },
        Tok::Literal(LitKind::Int(d), _) => match read_u64(d) {
            Ok(v) => Ok(VersionTag::Int(v)),
            Err(e) => Err(CompatError::IntLiteral(e)),
        },
        Tok::Literal(LitKind::Str(s), _) => Ok(VersionTag::String(copy_string(s))),
        _ => Err(CompatError::ExpectedVersionLiteral),
    }
}

/// The answers that the exec functions follow: `syn`'s own, or those of a
/// given list.
spec fn source(given: Option<&Vec<SynAnswer>>) -> Answers {
    match given {
        None => syn_answers(),
        Some(a) => given_answers(a@),
    }
}

/// What `syn`, or the given list, answers of `text` read as `k`.
fn ask(given: Option<&Vec<SynAnswer>>, k: Piece, text: &String) -> (r: Option<String>)
    ensures
        opt_text(r) == source(given)(k, text@),
{
    match given {
        None => {
            let r = match k {
                Piece::Type => check_type_text(text),
                Piece::Meta => check_meta_text(text),
                Piece::Vis => check_vis_text(text),
            };
            assert(opt_text(r) == source(given)(k, text@));
            r
        },
        Some(a) => {
            assert(source(given)(k, text@) == given_verdict(a@, 0, k, text@));
            let mut i: usize = 0;
            while i < a.len()
                invariant
                    i <= a@.len(),
                    given == Some(a),
                    source(given)(k, text@) == given_verdict(a@, 0, k, text@),
                    given_verdict(a@, 0, k, text@) == given_verdict(a@, i as int, k, text@),
                decreases a@.len() - i,
            {
                if a[i].piece == k && a[i].text == *text {
                    let r = match &a[i].verdict {
                        Some(m) => Some(copy_string(m)),
                        None => None,
                    };
                    assert(given_verdict(a@, i as int, k, text@) == opt_text(a@[i as int].verdict));
                    assert(opt_text(r) == opt_text(a@[i as int].verdict));
                    return r;
                }
                i = i + 1;
            }
            None
        },
    }
}

/// Where the piece of kind `k` that starts at `c[p]` ends, or the error.
fn find_piece_end(given: Option<&Vec<SynAnswer>>, k: Piece, c: &Vec<Tok>, p: usize) -> (r: Result<
    usize,
    String,
>)
    requires
        p <= c@.len(),
    ensures
        match r {
            Ok(e) => piece_end(source(given), k, c@, p as int) == Ok::<int, Seq<char>>(e as int)
                && p <= e <= c@.len() && (p < c@.len() ==> shortest_end(k, p as int) <= e),
            Err(m) => piece_end(source(given), k, c@, p as int) == Err::<int, Seq<char>>(m@),
        },
{
    let ghost sv = source(given);
    let n = c.len();
    let whole = toks_text_of(c, p, n);
    match ask(given, k, &whole) {
        None => Ok(n),
        Some(m) => {
            if !text_is(&m, "unexpected token") || p == n {
                return Err(m);
            }
            let lo: usize = if k == Piece::Vis {
                p
            } else {
                p + 1
            };
            let mut e: usize = n;
            while e > lo
                invariant
                    p < n == c@.len(),
                    lo == shortest_end(k, p as int),
                    lo <= e <= n,
                    sv == source(given),
                    sv(k, span_text(c@, p as int, n as int)) == Some(m@),
                    m@ == leftover_message(),
                    longest_accepted(sv, k, c@, p as int, n - 1, lo as int) == longest_accepted(
                        sv,
                        k,
                        c@,
                        p as int,
                        e - 1,
                        lo as int,
                    ),
                decreases e,
            {
                let t = toks_text_of(c, p, e - 1);
                if ask(given, k, &t).is_none() {
                    assert(sv(k, span_text(c@, p as int, e - 1)) is None);
                    assert(longest_accepted(sv, k, c@, p as int, e - 1, lo as int) == Some(
                        (e - 1) as int,
                    ));
                    return Ok(e - 1);
                }
                e = e - 1;
            }
            Err(m)
        },
    }
}

/// A copy of the path `at`.
pub(crate) fn path_copy(at: &Vec<usize>) -> (r: Vec<usize>)
    ensures
        r@ == at@,
{
    let mut r: Vec<usize> = Vec::new();
    let mut k: usize = 0;
    while k < at.len()
        invariant
            k <= at@.len(),
            r@ == at@.subrange(0, k as int),
        decreases at@.len() - k,
    {
        r.push(at[k]);
        k = k + 1;
    }
    assert(at@.subrange(0, at@.len() as int) =~= at@);
    r
}

/// The path `at` with `i` added.
fn path_push(at: &Vec<usize>, i: usize) -> (r: Vec<usize>)
    ensures
        r@ == at@.push(i),
{
    let mut r = path_copy(at);
    r.push(i);
    r
}

/// The token `i` of the group at path `at`.
fn token_place_of(at: &Vec<usize>, i: usize) -> (r: Place)
    ensures
        r@ == token_place(at@, i as int),
{
    Place::Token(path_push(at, i))
}

/// Where a reader of the group `c` (at path `at`) stands at `c[i]`.
fn cursor_place_of(at: &Vec<usize>, c: &Vec<Tok>, i: usize) -> (r: Place)
    ensures
        r@ == cursor_place(at@, c@, i as int),
{
    if i < c.len() {
        token_place_of(at, i)
    } else {
        Place::End(path_copy(at))
    }
}

/// The tokens of the group `c` (at path `at`) from `c[p]` to its end.
fn rest_place_of(at: &Vec<usize>, c: &Vec<Tok>, p: usize) -> (r: Place)
    ensures
        r@ == rest_place(at@, c@, p as int),
{
    Place::Tokens(path_copy(at), p, c.len())
}

/// The version tag written at `c[p]` in the group at path `at`.
fn tag_of(at: &Vec<usize>, c: &Vec<Tok>, p: usize) -> (r: Result<VersionTag, Located>)
    ensures
        match r {
            Ok(t) => tag_spec(at@, c@, p as int) == Ok::<TagView, Failure>(t@),
            Err(e) => tag_spec(at@, c@, p as int) == Err::<TagView, Failure>(located_view(e)),
        },
{
    match tag_at(c, p) {
        Ok(t) => Ok(t),
        Err(e) => Err(Located { error: e, place: cursor_place_of(at, c, p) }),
    }
}

/// The tokens left over in the group `inner` (at path `gp`) from `inner[k]` on.
fn leftover_in_of(gp: &Vec<usize>, inner: &Vec<Tok>, k: usize, d: Delimiter) -> (r: Option<
    (Delimiter, Place),
>)
    requires
        k <= inner@.len(),
    ensures
        leftover_view(r) == leftover_in(gp@, inner@, k as int, d),
{
    let j = leftover_index(inner, k);
    if j < inner.len() {
        Some((d, token_place_of(gp, j)))
    } else {
        None
    }
}

/// A header item handed on as attribute content.
fn meta_item(
    given: Option<&Vec<SynAnswer>>,
    at: &Vec<usize>,
    c: &Vec<Tok>,
    p: usize,
    st: HeaderAttrs,
) -> (r: Result<(HeaderAttrs, usize), Located>)
    requires
        p < c@.len(),
    ensures
        match r {
            Ok((h, q)) => meta_item_spec(source(given), at@, c@, p as int, st@) == Ok::<
                (HeaderView, int),
                Failure,
            >((h@, q as int)) && p < q <= c@.len(),
            Err(e) => meta_item_spec(source(given), at@, c@, p as int, st@) == Err::<
                (HeaderView, int),
                Failure,
            >(located_view(e)),
        },
{
    match find_piece_end(given, Piece::Meta, c, p) {
        Err(m) => Err(Located { error: CompatError::Rejected(m), place: rest_place_of(at, c, p) }),
        Ok(q) => {
            let text = toks_text_of(c, p, q);
            let mut st = st;
            proof {
                lemma_texts_push(st.forwarded@, text);
            }
            st.forwarded.push(text);
            Ok((st, q))
        },
    }
}

/// The item `tag ...`, whose name is at `c[p]`.
fn tag_item(at: &Vec<usize>, c: &Vec<Tok>, p: usize, st: HeaderAttrs) -> (r: Result<
    (HeaderAttrs, usize),
    Located,
>)
    requires
        p < c@.len(),
    ensures
        match r {
            Ok((h, q)) => tag_item_spec(at@, c@, p as int, st@) == Ok::<
                (HeaderView, int),
                Failure,
            >((h@, q as int)) && p < q <= c@.len(),
            Err(e) => tag_item_spec(at@, c@, p as int, st@) == Err::<(HeaderView, int), Failure>(
                located_view(e),
            ),
        },
{
    let _len = c.len();
    let q = p + 1;
    let mut st = st;
    if is_punct(c, q, '=') {
        if q + 1 < c.len() {
            match &c[q + 1] {
                Tok::Literal(LitKind::Str(v), _) => {
                    st.tag_field = copy_string(v);
                    return Ok((st, q + 2));
                },
                _ => {},
            }
        }
        Err(
            Located {
                error: CompatError::Expected(Expectation::StringLiteral, q + 1 >= c.len()),
                place: cursor_place_of(at, c, q + 1),
            },
        )
    } else if is_group(c, q, Delimiter::Parenthesis) {
        let gp = path_push(at, q);
        match &c[q] {
            Tok::Group(_, inner) => {
                if inner.len() > 0 {
                    match &inner[0] {
                        Tok::Literal(LitKind::Str(v), _) => {
                            st.tag_field = copy_string(v);
                            if st.pending.is_none() {
                                st.pending = leftover_in_of(&gp, inner, 1, Delimiter::Parenthesis);
                            }
                            return Ok((st, q + 1));
                        },
                        _ => {},
                    }
                }
                Err(
                    Located {
                        error: CompatError::Expected(Expectation::StringLiteral, inner.len() == 0),
                        place: cursor_place_of(&gp, inner, 0),
                    },
                )
            },
            _ => Err(
                Located {
                    error: CompatError::Expected(Expectation::StringLiteral, false),
                    place: token_place_of(at, q),
                },
            ),
        }
    } else {
        st.tag_field = "version".to_owned();
        Ok((st, q))
    }
}

/// The item `version ...`, whose name is at `c[p]`.
fn version_item(at: &Vec<usize>, c: &Vec<Tok>, p: usize, st: HeaderAttrs) -> (r: Result<
    (HeaderAttrs, usize),
    Located,
>)
    requires
        p < c@.len(),
    ensures
        match r {
            Ok((h, q)) => version_item_spec(at@, c@, p as int, st@) == Ok::<
                (HeaderView, int),
                Failure,
            >((h@, q as int)) && p < q <= c@.len(),
            Err(e) => version_item_spec(at@, c@, p as int, st@) == Err::<
                (HeaderView, int),
                Failure,
            >(located_view(e)),
        },
{
    let _len = c.len();
    let q = p + 1;
    let mut st = st;
    if st.version.is_some() {
        return Err(
            Located { error: CompatError::DuplicateVersionAttr, place: token_place_of(at, p) },
        );
    }
    if is_punct(c, q, '=') {
        match tag_of(at, c, q + 1) {
            Ok(t) => {
                st.version = Some(t);
                st.version_place = path_push(at, q + 1);
                Ok((st, q + 2))
            },
            Err(e) => Err(e),
        }
    } else if is_group(c, q, Delimiter::Parenthesis) {
        let gp = path_push(at, q);
        match &c[q] {
            Tok::Group(_, inner) => {
                match tag_of(&gp, inner, 0) {
                    Ok(t) => {
                        st.version = Some(t);
                        st.version_place = path_push(&gp, 0);
                        if st.pending.is_none() {
                            st.pending = leftover_in_of(&gp, inner, 1, Delimiter::Parenthesis);
                        }
                        Ok((st, q + 1))
                    },
                    Err(e) => Err(e),
                }
            },
            _ => Err(
                Located { error: CompatError::VersionAttrNeedsValue, place: token_place_of(at, p) },
            ),
        }
    } else {
        Err(Located { error: CompatError::VersionAttrNeedsValue, place: token_place_of(at, p) })
    }
}

/// The item `error ...`, whose name is at `c[p]`.
fn error_item(
    given: Option<&Vec<SynAnswer>>,
    at: &Vec<usize>,
    c: &Vec<Tok>,
    p: usize,
    st: HeaderAttrs,
) -> (r: Result<(HeaderAttrs, usize), Located>)
    requires
        p < c@.len(),
    ensures
        match r {
            Ok((h, q)) => error_item_spec(source(given), at@, c@, p as int, st@) == Ok::<
                (HeaderView, int),
                Failure,
            >((h@, q as int)) && p < q <= c@.len(),
            Err(e) => error_item_spec(source(given), at@, c@, p as int, st@) == Err::<
                (HeaderView, int),
                Failure,
            >(located_view(e)),
        },
{
    let _len = c.len();
    let q = p + 1;
    let mut st = st;
    if is_punct(c, q, '=') {
        match find_piece_end(given, Piece::Type, c, q + 1) {
            Err(m) => Err(
                Located { error: CompatError::Rejected(m), place: rest_place_of(at, c, q + 1) },
            ),
            Ok(e) => {
                st.error_ty = Some(toks_text_of(c, q + 1, e));
                Ok((st, e))
            },
        }
    } else if is_group(c, q, Delimiter::Parenthesis) {
        let gp = path_push(at, q);
        match &c[q] {
            Tok::Group(_, inner) => {
                match find_piece_end(given, Piece::Type, inner, 0) {
                    Err(m) => Err(
                        Located {
                            error: CompatError::Rejected(m),
                            place: rest_place_of(&gp, inner, 0),
                        },
                    ),
                    Ok(e) => {
                        st.error_ty = Some(toks_text_of(inner, 0, e));
                        if st.pending.is_none() {
                            st.pending = leftover_in_of(&gp, inner, e, Delimiter::Parenthesis);
                        }
                        Ok((st, q + 1))
                    },
                }
            },
            _ => Err(
                Located { error: CompatError::ErrorAttrNeedsType, place: token_place_of(at, p) },
            ),
        }
    } else {
        Err(Located { error: CompatError::ErrorAttrNeedsType, place: token_place_of(at, p) })
    }
}

/// The header item that starts at `c[p]`, with the `,` that may follow it.
fn header_item(
    given: Option<&Vec<SynAnswer>>,
    at: &Vec<usize>,
    c: &Vec<Tok>,
    p: usize,
    st: HeaderAttrs,
) -> (r: Result<(HeaderAttrs, usize), Located>)
    requires
        p < c@.len(),
    ensures
        match r {
            Ok((h, q)) => header_item_spec(source(given), at@, c@, p as int, st@) == Ok::<
                (HeaderView, int),
                Failure,
            >((h@, q as int)) && p < q <= c@.len(),
            Err(e) => header_item_spec(source(given), at@, c@, p as int, st@) == Err::<
                (HeaderView, int),
                Failure,
            >(located_view(e)),
        },
{
    let _len = c.len();
    let ghost st0 = st@;
    let body = match &c[p] {
        Tok::Ident(s) => {
            if keyword(s) {
                meta_item(given, at, c, p, st)
            } else if text_is(s, "tag") {
                tag_item(at, c, p, st)
            } else if text_is(s, "version") {
                version_item(at, c, p, st)
            } else if text_is(s, "error") {
                error_item(given, at, c, p, st)
            } else if text_is(s, "dump") {
                let mut st = st;
                st.dump = true;
                Ok((st, p + 1))
            } else if text_is(s, "untagged") {
                Err(Located { error: CompatError::ObsoleteUntagged, place: token_place_of(at, p) })
            } else if text_is(s, "tagged") {
                Err(Located { error: CompatError::ObsoleteTagged, place: token_place_of(at, p) })
            } else if text_is(s, "untagged_enum") || text_is(s, "untagged_name") {
                Err(
                    Located {
                        error: CompatError::ObsoleteUntaggedEnum,
                        place: token_place_of(at, p),
                    },
                )
            } else if text_is(s, "target") {
                Err(Located { error: CompatError::ObsoleteTarget, place: token_place_of(at, p) })
            } else if text_is(s, "content") {
                Err(Located { error: CompatError::ObsoleteContent, place: token_place_of(at, p) })
            } else {
                meta_item(given, at, c, p, st)
            }
        },
        _ => meta_item(given, at, c, p, st),
    };
    assert(match body {
        Ok((h, q)) => header_item_body_spec(source(given), at@, c@, p as int, st0) == Ok::<
            (HeaderView, int),
            Failure,
        >((h@, q as int)) && p < q <= c@.len(),
        Err(e) => header_item_body_spec(source(given), at@, c@, p as int, st0) == Err::<
            (HeaderView, int),
            Failure,
        >(located_view(e)),
    });
    match body {
        Ok((h, q)) => {
            if is_punct(c, q, ',') {
                Ok((h, q + 1))
            } else {
                Ok((h, q))
            }
        },
        Err(e) => Err(e),
    }
}

/// The items of one header attribute, the group at path `at`.
fn header_items(
    given: Option<&Vec<SynAnswer>>,
    at: &Vec<usize>,
    c: &Vec<Tok>,
    st: HeaderAttrs,
) -> (r: Result<HeaderAttrs, Located>)
    ensures
        match r {
            Ok(h) => header_items_spec(source(given), at@, c@, 0, st@) == Ok::<HeaderView, Failure>(
                h@,
            ),
            Err(e) => header_items_spec(source(given), at@, c@, 0, st@) == Err::<
                HeaderView,
                Failure,
            >(located_view(e)),
        },
{
    let ghost start = st@;
    let mut acc = st;
    let mut p: usize = 0;
    while p < c.len()
        invariant
            p <= c@.len(),
            start == st@,
            header_items_spec(source(given), at@, c@, 0, start) == header_items_spec(
                source(given),
                at@,
                c@,
                p as int,
                acc@,
            ),
        decreases c@.len() - p,
    {
        match header_item(given, at, c, p, acc) {
            Ok((h, q)) => {
                acc = h;
                p = q;
            },
            Err(e) => {
                return Err(e);
            },
        }
    }
    Ok(acc)
}

/// The attributes of the declaration, from `ts[0]` on.
fn header(given: Option<&Vec<SynAnswer>>, ts: &Vec<Tok>) -> (r: Result<
    (HeaderAttrs, usize),
    Located,
>)
    ensures
        match r {
            Ok((h, q)) => header_spec(source(given), ts@, 0, initial_header()) == Ok::<
                (HeaderView, int),
                Failure,
            >((h@, q as int)) && q <= ts@.len(),
            Err(e) => header_spec(source(given), ts@, 0, initial_header()) == Err::<
                (HeaderView, int),
                Failure,
            >(located_view(e)),
        },
{
    let mut st = HeaderAttrs {
        tag_field: "version".to_owned(),
        version: None,
        version_place: Vec::new(),
        error_ty: None,
        dump: false,
        forwarded: Vec::new(),
        pending: None,
    };
    assert(texts(st.forwarded@) =~= Seq::<Seq<char>>::empty());
    assert(st@ == initial_header());
    let top: Vec<usize> = Vec::new();
    let mut p: usize = 0;
    let _len = ts.len();
    while is_punct(ts, p, '#')
        invariant
            p <= ts@.len(),
            ts@.len() <= usize::MAX,
            top@ == Seq::<usize>::empty(),
            header_spec(source(given), ts@, 0, initial_header()) == header_spec(
                source(given),
                ts@,
                p as int,
                st@,
            ),
        decreases ts@.len() - p,
    {
        if !is_group(ts, p + 1, Delimiter::Bracket) {
            return Err(
                Located {
                    error: CompatError::Expected(Expectation::SquareBrackets, p + 1 >= ts.len()),
                    place: cursor_place_of(&top, ts, p + 1),
                },
            );
        }
        let gp = path_push(&top, p + 1);
        assert(gp@ == seq![(p + 1) as usize]);
        match &ts[p + 1] {
            Tok::Group(_, inner) => match header_items(given, &gp, inner, st) {
                Ok(h) => {
                    st = h;
                },
                Err(e) => {
                    return Err(e);
                },
            },
            _ => {
                return Err(
                    Located {
                        error: CompatError::Expected(Expectation::SquareBrackets, false),
                        place: token_place_of(&top, p + 1),
                    },
                );
            },
        }
        p = p + 2;
    }
    Ok((st, p))
}

/// What the attributes of an entry give, as they are read.
struct EntryAttrs {
    fallible: bool,
    forwarded: Vec<String>,
    pending: Option<(Delimiter, Place)>,
}

impl View for EntryAttrs {
    type V = AttrView;

    closed spec fn view(&self) -> AttrView {
        AttrView {
            fallible: self.fallible,
            forwarded: texts(self.forwarded@),
            pending: leftover_view(self.pending),
        }
    }
}

/// The attributes of the entry that starts at `c[p]`, in the body at path `at`.
fn entry_attrs(
    given: Option<&Vec<SynAnswer>>,
    at: &Vec<usize>,
    c: &Vec<Tok>,
    p: usize,
    pending: Option<(Delimiter, Place)>,
) -> (r: Result<(EntryAttrs, usize), Located>)
    requires
        p <= c@.len(),
    ensures
        match r {
            Ok((a, q)) => entry_attrs_spec(
                source(given),
                at@,
                c@,
                p as int,
                AttrView { fallible: false, forwarded: Seq::empty(), pending: leftover_view(pending) },
            ) == Ok::<(AttrView, int), Failure>((a@, q as int)) && p <= q <= c@.len(),
            Err(e) => entry_attrs_spec(
                source(given),
                at@,
                c@,
                p as int,
                AttrView { fallible: false, forwarded: Seq::empty(), pending: leftover_view(pending) },
            ) == Err::<(AttrView, int), Failure>(located_view(e)),
        },
{
    let _len = c.len();
    let ghost pv = leftover_view(pending);
    let mut acc = EntryAttrs { fallible: false, forwarded: Vec::new(), pending };
    assert(texts(acc.forwarded@) =~= Seq::<Seq<char>>::empty());
    assert(acc@ == AttrView { fallible: false, forwarded: Seq::empty(), pending: pv });
    let mut k: usize = p;
    while is_punct(c, k, '#')
        invariant
            p <= k <= c@.len(),
            c@.len() <= usize::MAX,
            pv == leftover_view(pending),
            entry_attrs_spec(
                source(given),
                at@,
                c@,
                p as int,
                AttrView { fallible: false, forwarded: Seq::empty(), pending: pv },
            ) == entry_attrs_spec(source(given), at@, c@, k as int, acc@),
        decreases c@.len() - k,
    {
        if !is_group(c, k + 1, Delimiter::Bracket) {
            return Err(
                Located {
                    error: CompatError::Expected(Expectation::SquareBrackets, k + 1 >= c.len()),
                    place: cursor_place_of(at, c, k + 1),
                },
            );
        }
        let gp = path_push(at, k + 1);
        match &c[k + 1] {
            Tok::Group(_, inner) => {
                let e = match find_piece_end(given, Piece::Meta, inner, 0) {
                    Err(m) => {
                        return Err(
                            Located {
                                error: CompatError::Rejected(m),
                                place: rest_place_of(&gp, inner, 0),
                            },
                        );
                    },
                    Ok(e) => e,
                };
                let text = toks_text_of(inner, 0, e);
                let fallible_mark = (ident_is(inner, 0, "fallible") || ident_is(inner, 0, "try_into"))
                    && !is_punct(inner, 1, ':');
                acc.fallible = acc.fallible || fallible_mark;
                if acc.pending.is_none() {
                    acc.pending = leftover_in_of(&gp, inner, e, Delimiter::Bracket);
                }
                if !fallible_mark {
                    proof {
                        lemma_texts_push(acc.forwarded@, text);
                    }
                    acc.forwarded.push(text);
                }
            },
            _ => {
                return Err(
                    Located {
                        error: CompatError::Expected(Expectation::SquareBrackets, false),
                        place: token_place_of(at, k + 1),
                    },
                );
            },
        }
        k = k + 2;
    }
    Ok((acc, k))
}

/// The position after the `,` and `;` that start at `c[p]`.
fn skip_seps(c: &Vec<Tok>, p: usize) -> (q: usize)
    requires
        p <= c@.len(),
    ensures
        q as int == skip_separators(c@, p as int),
        p <= q <= c@.len(),
{
    let _len = c.len();
    let mut k = p;
    while is_punct(c, k, ',') || is_punct(c, k, ';')
        invariant
            p <= k <= c@.len(),
            c@.len() <= usize::MAX,
            skip_separators(c@, p as int) == skip_separators(c@, k as int),
        decreases c@.len() - k,
    {
        k = k + 1;
    }
    k
}

/// The entry that starts at `c[p]` in the body at path `at`.
fn entry(
    given: Option<&Vec<SynAnswer>>,
    at: &Vec<usize>,
    c: &Vec<Tok>,
    p: usize,
    pending: Option<(Delimiter, Place)>,
) -> (r: Result<(VersionEntry, usize, Option<(Delimiter, Place)>), Located>)
    requires
        p < c@.len(),
    ensures
        match r {
            Ok((ev, q, pd)) => entry_spec(source(given), at@, c@, p as int, leftover_view(pending))
                == Ok::<(EntryView, int, Option<Leftover>), Failure>(
                (ev@, q as int, leftover_view(pd)),
            ) && p < q <= c@.len(),
            Err(e) => entry_spec(source(given), at@, c@, p as int, leftover_view(pending)) == Err::<
                (EntryView, int, Option<Leftover>),
                Failure,
            >(located_view(e)),
        },
{
    let _len = c.len();
    let (acc, q) = match entry_attrs(given, at, c, p, pending) {
        Ok(x) => x,
        Err(e) => {
            return Err(e);
        },
    };
    let tag = match tag_of(at, c, q) {
        Ok(t) => t,
        Err(e) => {
            return Err(e);
        },
    };
    if !is_punct(c, q + 1, ':') {
        return Err(
            Located {
                error: CompatError::Expected(Expectation::Colon, false),
                place: cursor_place_of(at, c, q + 1),
            },
        );
    }
    let e = match find_piece_end(given, Piece::Type, c, q + 2) {
        Err(m) => {
            return Err(
                Located { error: CompatError::Rejected(m), place: rest_place_of(at, c, q + 2) },
            );
        },
        Ok(e) => e,
    };
    let ty = toks_text_of(c, q + 2, e);
    let tag_place = path_push(at, q);
    if is_joint_punct(c, e, '=') && is_punct(c, e + 1, '>') {
        let nt = match tag_of(at, c, e + 2) {
            Ok(t) => t,
            Err(er) => {
                return Err(er);
            },
        };
        let end = skip_seps(c, e + 3);
        let ev = VersionEntry {
            outer_attrs: acc.forwarded,
            tag,
            tag_place,
            ty,
            fallible: acc.fallible,
            explicit_next: Some(nt),
            next_place: path_push(at, e + 2),
        };
        Ok((ev, end, acc.pending))
    } else {
        let end = skip_seps(c, e);
        let ev = VersionEntry {
            outer_attrs: acc.forwarded,
            tag,
            tag_place,
            ty,
            fallible: acc.fallible,
            explicit_next: None,
            next_place: Vec::new(),
        };
        Ok((ev, end, acc.pending))
    }
}

/// The entries of the declaration's body, the group at path `at`.
fn entries(
    given: Option<&Vec<SynAnswer>>,
    at: &Vec<usize>,
    c: &Vec<Tok>,
    pending: Option<(Delimiter, Place)>,
) -> (r: Result<(Vec<VersionEntry>, Option<(Delimiter, Place)>), Located>)
    ensures
        match r {
            Ok((es, pd)) => entries_spec(
                source(given),
                at@,
                c@,
                0,
                Seq::empty(),
                leftover_view(pending),
            ) == Ok::<(Seq<EntryView>, Option<Leftover>), Failure>(
                (entry_views(es@), leftover_view(pd)),
            ),
            Err(e) => entries_spec(
                source(given),
                at@,
                c@,
                0,
                Seq::empty(),
                leftover_view(pending),
            ) == Err::<(Seq<EntryView>, Option<Leftover>), Failure>(located_view(e)),
        },
{
    let ghost pv = leftover_view(pending);
    let mut es: Vec<VersionEntry> = Vec::new();
    let mut pd = pending;
    let mut p: usize = 0;
    assert(entry_views(es@) =~= Seq::<EntryView>::empty());
    while p < c.len()
        invariant
            p <= c@.len(),
            pv == leftover_view(pending),
            entries_spec(source(given), at@, c@, 0, Seq::empty(), pv) == entries_spec(
                source(given),
                at@,
                c@,
                p as int,
                entry_views(es@),
                leftover_view(pd),
            ),
        decreases c@.len() - p,
    {
        let (ev, q, pd2) = match entry(given, at, c, p, pd) {
            Ok(x) => x,
            Err(e) => {
                return Err(e);
            },
        };
        proof {
            lemma_entry_views_push(es@, ev);
        }
        es.push(ev);
        pd = pd2;
        p = q;
    }
    Ok((es, pd))
}

/// Whether the declared current version `v` is accepted.
fn current_is_allowed(es: &Vec<VersionEntry>, v: &VersionTag) -> (b: bool)
    requires
        es@.len() > 0,
    ensures
        b == current_allowed(entry_views(es@), v@),
{
    let ghost ev = entry_views(es@);
    let n = es.len();
    let mut i: usize = 0;
    while i < n
        invariant
            n == es@.len(),
            ev == entry_views(es@),
            0 <= i <= n,
            forall|j: int| 0 <= j < i ==> !views_match(#[trigger] ev[j].tag, v@),
            forall|j: int|
                0 <= j < i ==> !(#[trigger] ev[j].next matches Some(nt) && views_match(nt, v@)),
        decreases n - i,
    {
        if es[i].tag.matches(v) {
            assert(views_match(ev[i as int].tag, v@));
            return true;
        }
        match &es[i].explicit_next {
            Some(nt) => {
                if nt.matches(v) {
                    assert(ev[i as int].next matches Some(x) && views_match(x, v@));
                    return true;
                }
            },
            None => {},
        }
        i = i + 1;
    }
    es[n - 1].explicit_next.is_none()
}

/// The first entry that repeats the tag of an earlier entry.
fn first_duplicate(es: &Vec<VersionEntry>) -> (r: Option<usize>)
    ensures
        match r {
            Some(i) => first_dup_at(entry_views(es@), i as int) && i < es@.len(),
            None => !exists|i: int| dup_at(entry_views(es@), i),
        },
{
    let ghost ev = entry_views(es@);
    let n = es.len();
    let mut i: usize = 0;
    while i < n
        invariant
            n == es@.len(),
            ev == entry_views(es@),
            0 <= i <= n,
            forall|k: int| 0 <= k < i ==> !dup_at(ev, k),
        decreases n - i,
    {
        let mut j: usize = 0;
        while j < i
            invariant
                n == es@.len(),
                ev == entry_views(es@),
                0 <= j <= i < n,
                forall|k: int| 0 <= k < i ==> !dup_at(ev, k),
                forall|k: int| 0 <= k < j ==> !views_match(#[trigger] ev[k].tag, ev[i as int].tag),
            decreases i - j,
        {
            if es[i].tag.matches(&es[j].tag) {
                assert(views_match(ev[j as int].tag, ev[i as int].tag));
                assert(dup_at(ev, i as int));
                return Some(i);
            }
            j = j + 1;
        }
        assert(!dup_at(ev, i as int));
        i = i + 1;
    }
    None
}

/// The checks that follow the reading of the tokens, and the parsed declaration.
fn finish(
    h: HeaderAttrs,
    ts: &Vec<Tok>,
    vis: String,
    lo: usize,
    hi: usize,
    es: Vec<VersionEntry>,
    pending: Option<(Delimiter, Place)>,
) -> (r: Result<BackwardsCompatInput, Located>)
    requires
        lo <= hi < ts@.len(),
    ensures
        match r {
            Ok(x) => finish_spec(
                h@,
                ts@,
                vis@,
                lo as int,
                hi as int,
                entry_views(es@),
                leftover_view(pending),
            ) == Ok::<InputView, Failure>(x@),
            Err(e) => finish_spec(
                h@,
                ts@,
                vis@,
                lo as int,
                hi as int,
                entry_views(es@),
                leftover_view(pending),
            ) == Err::<InputView, Failure>(located_view(e)),
        },
{
    let ghost ev = entry_views(es@);
    let top: Vec<usize> = Vec::new();
    if es.len() == 0 {
        return Err(Located { error: CompatError::NoVersions, place: Place::Tokens(top, lo, hi) });
    }
    match &h.version {
        Some(v) => {
            if !current_is_allowed(&es, v) {
                return Err(
                    Located {
                        error: CompatError::UnknownCurrentVersion(v.copy()),
                        place: Place::Token(path_copy(&h.version_place)),
                    },
                );
            }
        },
        None => {},
    }
    match first_duplicate(&es) {
        Some(i) => {
            assert forall|k: int| first_dup_at(ev, k) implies k == i by {
                if k < i {
                    assert(!dup_at(ev, k));
                } else if k > i {
                    assert(!dup_at(ev, i as int));
                }
            }
            return Err(
                Located {
                    error: CompatError::DuplicateTag(es[i].tag.copy()),
                    place: Place::Token(path_copy(&es[i].tag_place)),
                },
            );
        },
        None => {},
    }
    match pending {
        Some((d, place)) => {
            return Err(Located { error: CompatError::UnexpectedToken(d), place });
        },
        None => {},
    }
    let _len = ts.len();
    let j = leftover_index(ts, hi + 1);
    if j < ts.len() {
        return Err(
            Located {
                error: CompatError::UnexpectedToken(Delimiter::Invisible),
                place: token_place_of(&top, j),
            },
        );
    }
    let current_version = match &h.version {
        Some(v) => v.copy(),
        None => es[es.len() - 1].tag.copy(),
    };
    let current_version_place = match &h.version {
        Some(_) => path_copy(&h.version_place),
        None => path_copy(&es[es.len() - 1].tag_place),
    };
    let target_ty = toks_text_of(ts, lo, hi);
    let HeaderAttrs { tag_field, version: _, version_place: _, error_ty, dump, forwarded, pending: _ } =
        h;
    Ok(
        BackwardsCompatInput {
            outer_attrs: forwarded,
            vis,
            target_ty,
            target_span: (lo, hi),
            tag_field,
            current_version,
            current_version_place,
            error_ty,
            dump,
            versions: es,
        },
    )
}

/// Reads a declaration, with the answers of `syn` or of the given list.
fn parse_from(given: Option<&Vec<SynAnswer>>, ts: &Vec<Tok>) -> (r: Result<
    BackwardsCompatInput,
    Located,
>)
    ensures
        match r {
            Ok(x) => parse_spec_with(source(given), ts@) == Ok::<InputView, Failure>(x@),
            Err(e) => parse_spec_with(source(given), ts@) == Err::<InputView, Failure>(
                located_view(e),
            ),
        },
{
    let _len = ts.len();
    let top: Vec<usize> = Vec::new();
    assert(top@ == Seq::<usize>::empty());
    let (mut h, p) = match header(given, ts) {
        Ok(x) => x,
        Err(e) => {
            return Err(e);
        },
    };
    let v = match find_piece_end(given, Piece::Vis, ts, p) {
        Err(m) => {
            return Err(
                Located { error: CompatError::Rejected(m), place: rest_place_of(&top, ts, p) },
            );
        },
        Ok(v) => v,
    };
    if ident_is(ts, v, "enum") {
        return Err(Located { error: CompatError::EnumSyntax, place: token_place_of(&top, v) });
    }
    if v >= ts.len() {
        return Err(
            Located {
                error: CompatError::Expected(Expectation::Identifier, true),
                place: cursor_place_of(&top, ts, v),
            },
        );
    }
    match &ts[v] {
        Tok::Ident(name) => {
            if keyword(name) {
                return Err(
                    Located {
                        error: CompatError::KeywordNotIdent(copy_string(name)),
                        place: token_place_of(&top, v),
                    },
                );
            }
            if !text_is(name, "compat") {
                return Err(
                    Located {
                        error: CompatError::ExpectedCompat(copy_string(name)),
                        place: token_place_of(&top, v),
                    },
                );
            }
        },
        _ => {
            return Err(
                Located {
                    error: CompatError::Expected(Expectation::Identifier, false),
                    place: cursor_place_of(&top, ts, v),
                },
            );
        },
    }
    let te = match find_piece_end(given, Piece::Type, ts, v + 1) {
        Err(m) => {
            return Err(
                Located { error: CompatError::Rejected(m), place: rest_place_of(&top, ts, v + 1) },
            );
        },
        Ok(te) => te,
    };
    if !is_group(ts, te, Delimiter::Brace) {
        return Err(
            Located {
                error: CompatError::Expected(Expectation::CurlyBraces, te >= ts.len()),
                place: cursor_place_of(&top, ts, te),
            },
        );
    }
    let ghost h0 = h@;
    let hp = h.pending.take();
    assert(leftover_view(hp) == h0.pending);
    let body_path = path_push(&top, te);
    assert(body_path@ == seq![te as usize]);
    let (es, pending) = match &ts[te] {
        Tok::Group(_, inner) => match entries(given, &body_path, inner, hp) {
            Ok(x) => x,
            Err(e) => {
                return Err(e);
            },
        },
        _ => {
            return Err(
                Located {
                    error: CompatError::Expected(Expectation::CurlyBraces, false),
                    place: token_place_of(&top, te),
                },
            );
        },
    };
    let vis = toks_text_of(ts, p, v);
    finish(h, ts, vis, v + 1, te, es, pending)
}

impl VersionTag {
    /// Reads the version tag written at `ts[p]`: an integer literal (which
    /// must fit in a `u64`) or a string literal; an identifier or anything
    /// else is refused.
    pub fn parse(ts: &Vec<Tok>, p: usize) -> (r: Result<VersionTag, CompatError>)
        ensures
            match r {
                Ok(t) => tag_token_spec(ts@, p as int) == Ok::<TagView, (ErrorKind, Seq<char>)>(
                    t@,
                ),
                Err(e) => tag_token_spec(ts@, p as int) == Err::<TagView, (ErrorKind, Seq<char>)>(
                    error_view(e),
                ),
            },
    {
        tag_at(ts, p)
    }
}

impl BackwardsCompatInput {
    /// Reads a compatibility declaration from its tokens, and checks it: the
    /// declaration has at least one entry, no two entries have matching tags,
    /// and a declared current version names a version of the declaration.
    /// The types, attribute contents and visibility are read by `syn`. An
    /// error comes with where it points in the tokens.
    pub fn parse(ts: &Vec<Tok>) -> (r: Result<BackwardsCompatInput, Located>)
        ensures
            match r {
                Ok(x) => parse_spec(ts@) == Ok::<InputView, Failure>(x@),
                Err(e) => parse_spec(ts@) == Err::<InputView, Failure>(located_view(e)),
            },
    {
        parse_from(None, ts)
    }

    /// Reads a compatibility declaration as `parse` does, where `syn`'s
    /// answers are the ones that `answers` lists: the first answer for a kind
    /// of piece and a text decides, and a text that no answer lists is
    /// accepted.
    pub fn parse_with_answers(ts: &Vec<Tok>, answers: &Vec<SynAnswer>) -> (r: Result<
        BackwardsCompatInput,
        Located,
    >)
        ensures
            match r {
                Ok(x) => parse_spec_with(given_answers(answers@), ts@) == Ok::<InputView, Failure>(
                    x@,
                ),
                Err(e) => parse_spec_with(given_answers(answers@), ts@) == Err::<
                    InputView,
                    Failure,
                >(located_view(e)),
            },
    {
        parse_from(Some(answers), ts)
    }
}

/// The attributes read for an entry from `c[p]` on are the `#[...]` groups at
/// `c[p]`, `c[p + 2]`, ... up to where its tag stands (`q`); the entry is
/// fallible exactly when it already was or one of those attributes, in any
/// position, is a `fallible` or `try_into` marker.
pub proof fn law_entry_fallible_iff_some_marker(
    sv: Answers,
    at: Seq<usize>,
    c: Seq<Tok>,
    p: int,
    acc: AttrView,
    a: AttrView,
    q: int,
)
    requires
        0 <= p,
        entry_attrs_spec(sv, at, c, p, acc) == Ok::<(AttrView, int), Failure>((a, q)),
    ensures
        p <= q,
        (q - p) % 2 == 0,
        forall|k: int|
            p <= k < q && (k - p) % 2 == 0 ==> punct_at(c, k, '#') && group_at(
                c,
                k + 1,
                Delimiter::Bracket,
            ),
        a.fallible == (acc.fallible || exists|k: int|
            p <= k < q && (k - p) % 2 == 0 && #[trigger] marks_fallible(group_inner(c[k + 1]))),
    decreases c.len() - p,
{
    if p >= 0 && punct_at(c, p, '#') && group_at(c, p + 1, Delimiter::Bracket) {
        let inner = group_inner(c[p + 1]);
        let e = piece_end(sv, Piece::Meta, inner, 0)->Ok_0;
        let gp = at.push((p + 1) as usize);
        let acc2 = AttrView {
            fallible: acc.fallible || marks_fallible(inner),
            forwarded: if marks_fallible(inner) {
                acc.forwarded
            } else {
                acc.forwarded.push(span_text(inner, 0, e))
            },
            pending: first_leftover(acc.pending, leftover_in(gp, inner, e, Delimiter::Bracket)),
        };
        assert(entry_attrs_spec(sv, at, c, p + 2, acc2) == Ok::<(AttrView, int), Failure>((a, q)));
        law_entry_fallible_iff_some_marker(sv, at, c, p + 2, acc2, a, q);
        if marks_fallible(group_inner(c[p + 1])) {
            assert(p <= p < q && (p - p) % 2 == 0);
        }
        if exists|k: int|
            p + 2 <= k < q && (k - (p + 2)) % 2 == 0 && #[trigger] marks_fallible(
                group_inner(c[k + 1]),
            ) {
            let k = choose|k: int|
                p + 2 <= k < q && (k - (p + 2)) % 2 == 0 && #[trigger] marks_fallible(
                    group_inner(c[k + 1]),
                );
            assert(p <= k < q && (k - p) % 2 == 0);
        }
        if exists|k: int|
            p <= k < q && (k - p) % 2 == 0 && #[trigger] marks_fallible(group_inner(c[k + 1])) {
            let k = choose|k: int|
                p <= k < q && (k - p) % 2 == 0 && #[trigger] marks_fallible(
                    group_inner(c[k + 1]),
                );
            if k != p {
                assert(p + 2 <= k < q && (k - (p + 2)) % 2 == 0);
            }
        }
        assert forall|k: int| p <= k < q && (k - p) % 2 == 0 implies punct_at(c, k, '#')
            && group_at(c, k + 1, Delimiter::Bracket) by {
            if k != p {
                assert(p + 2 <= k < q && (k - (p + 2)) % 2 == 0);
            }
        }
    } else {
        assert(q == p);
    }
}

/// A parsed entry that starts at `c[p]` has its tag at some `c[t]` after the
/// `#[...]` attributes at `c[p]`, `c[p + 2]`, ...; it is fallible exactly when
/// one of those attributes, in any position, is a `fallible` or `try_into`
/// marker, whatever the other attributes are.
pub proof fn law_parsed_entry_fallible(
    sv: Answers,
    at: Seq<usize>,
    c: Seq<Tok>,
    p: int,
    pending: Option<Leftover>,
    ev: EntryView,
    q: int,
    pd: Option<Leftover>,
)
    requires
        0 <= p,
        entry_spec(sv, at, c, p, pending) == Ok::<
            (EntryView, int, Option<Leftover>),
            Failure,
        >((ev, q, pd)),
    ensures
        exists|t: int|
            #![trigger at.push(t as usize)]
            p <= t && (t - p) % 2 == 0 && ev.tag_place == at.push(t as usize) && (forall|k: int|
                p <= k < t && (k - p) % 2 == 0 ==> punct_at(c, k, '#') && group_at(
                    c,
                    k + 1,
                    Delimiter::Bracket,
                )) && ev.fallible == (exists|k: int|
                p <= k < t && (k - p) % 2 == 0 && #[trigger] marks_fallible(
                    group_inner(c[k + 1]),
                )),
{
    let acc0 = AttrView { fallible: false, forwarded: Seq::empty(), pending };
    let (a, t) = entry_attrs_spec(sv, at, c, p, acc0)->Ok_0;
    law_entry_fallible_iff_some_marker(sv, at, c, p, acc0, a, t);
    assert(ev.tag_place == at.push(t as usize));
}

/// An entry attribute marks the entry fallible exactly when its path is the
/// single name `fallible` or `try_into`: `#[fallible]`, `#[try_into]` and
/// forms with arguments do; a longer path or another name does not.
pub proof fn law_fallibility_markers(inner: Seq<Tok>)
    ensures
        (ident_at(inner, 0) == Some("fallible"@) || ident_at(inner, 0) == Some("try_into"@))
            && !punct_at(inner, 1, ':') ==> marks_fallible(inner),
        ident_at(inner, 0) != Some("fallible"@) && ident_at(inner, 0) != Some("try_into"@)
            ==> !marks_fallible(inner),
        punct_at(inner, 1, ':') ==> !marks_fallible(inner),
{
}

/// An accepted declaration has at least one version, no two versions with
/// matching tags, and a current version that is either a declared version, the
/// target of a transition, or (when none is declared) the last entry's tag.
pub proof fn law_accepted_declaration_is_valid(ts: Seq<Tok>, x: InputView)
    requires
        parse_spec(ts) == Ok::<InputView, Failure>(x),
    ensures
        x.versions.len() > 0,
        forall|i: int, j: int|
            0 <= i < j < x.versions.len() ==> !views_match(
                #[trigger] x.versions[i].tag,
                #[trigger] x.versions[j].tag,
            ),
        current_allowed(x.versions, x.current) || x.current == x.versions.last().tag,
{
    assert forall|i: int, j: int| 0 <= i < j < x.versions.len() implies !views_match(
        #[trigger] x.versions[i].tag,
        #[trigger] x.versions[j].tag,
    ) by {
        if views_match(x.versions[i].tag, x.versions[j].tag) {
            assert(dup_at(x.versions, j));
        }
    }
}

} // verus!
