//! Version tags: the keys that name the declared schema versions.
use vstd::prelude::*;
use crate::text::{copy_string, decimal_text, lemma_decimal_text_injective, u64_to_text};

verus! {

/// A version tag, which is either an integer or a string literal.
#[derive(Debug, Clone, Eq, Hash)]
pub enum VersionTag {
    Int(u64),
    String(String),
}

impl PartialEq for VersionTag {
    fn eq(&self, other: &VersionTag) -> (r: bool) {
        match (self, other) {
            (VersionTag::Int(a), VersionTag::Int(b)) => *a == *b,
            (VersionTag::String(a), VersionTag::String(b)) => *a == *b,
            _ => false,
        }
    }
}

impl vstd::std_specs::cmp::PartialEqSpecImpl for VersionTag {
    open spec fn obeys_eq_spec() -> bool {
        true
    }

    open spec fn eq_spec(&self, other: &VersionTag) -> bool {
        self@ == other@
    }
}

/// The mathematical value of a tag.
pub enum TagView {
    Int(u64),
    Str(Seq<char>),
}

impl View for VersionTag {
    type V = TagView;

    open spec fn view(&self) -> TagView {
        match self {
            VersionTag::Int(i) => TagView::Int(*i),
            VersionTag::String(s) => TagView::Str(s@),
        }
    }
}

/// The value of an optional tag.
pub open spec fn opt_tag_view(t: Option<VersionTag>) -> Option<TagView> {
    match t {
        Some(t) => Some(t@),
        None => None,
    }
}

/// The text of a tag value.
pub open spec fn tag_view_text(t: TagView) -> Seq<char> {
    match t {
        TagView::Int(i) => decimal_text(i as nat),
        TagView::Str(s) => s,
    }
}

/// The text that a tag stands for on the wire.
pub open spec fn tag_text(t: VersionTag) -> Seq<char> {
    match t {
        VersionTag::Int(i) => decimal_text(i as nat),
        VersionTag::String(s) => s@,
    }
}

/// Two tags name the same version when their texts agree.
pub open spec fn tags_match(a: VersionTag, b: VersionTag) -> bool {
    tag_text(a) == tag_text(b)
}

impl VersionTag {
    /// Returns the string representation of the version tag.
    pub fn to_tag_string(&self) -> (r: String)
        ensures
            r@ == tag_text(*self),
    {
        match self {
            VersionTag::Int(i) => u64_to_text(*i),
            VersionTag::String(s) => copy_string(s),
        }
    }

    /// Checks if two version tags represent the same tag value (either exact match or
    /// matching string representation).
    pub fn matches(&self, other: &VersionTag) -> (b: bool)
        ensures
            b == tags_match(*self, *other),
    {
        match (self, other) {
            (VersionTag::Int(a), VersionTag::Int(b)) => {
                proof {
                    if tags_match(*self, *other) {
                        lemma_decimal_text_injective(*a as nat, *b as nat);
                    }
                }
                *a == *b
            },
            (VersionTag::String(a), VersionTag::String(b)) => *a == *b,
            _ => {
                let x = self.to_tag_string();
                let y = other.to_tag_string();
                x == y
            },
        }
    }

    /// The text that `Display` shows for the tag: the same as its tag string.
    pub fn to_display_string(&self) -> (r: String)
        ensures
            r@ == tag_text(*self),
    {
        self.to_tag_string()
    }

    /// A copy of the tag.
    pub fn copy(&self) -> (r: VersionTag)
        ensures
            r@ == self@,
            tag_text(r) == tag_text(*self),
    {
        match self {
            VersionTag::Int(i) => VersionTag::Int(*i),
            VersionTag::String(s) => VersionTag::String(copy_string(s)),
        }
    }
}

/// Matching is reflexive: every tag matches itself.
pub proof fn law_matches_reflexive(a: VersionTag)
    ensures
        tags_match(a, a),
{
}

/// Matching is symmetric.
pub proof fn law_matches_symmetric(a: VersionTag, b: VersionTag)
    ensures
        tags_match(a, b) == tags_match(b, a),
{
}

/// Matching is transitive.
pub proof fn law_matches_transitive(a: VersionTag, b: VersionTag, c: VersionTag)
    requires
        tags_match(a, b),
        tags_match(b, c),
    ensures
        tags_match(a, c),
{
}

/// Two integer tags match exactly when they hold the same number.
pub proof fn law_int_tags_match_iff_equal(a: u64, b: u64)
    ensures
        tags_match(VersionTag::Int(a), VersionTag::Int(b)) <==> a == b,
{
    if tags_match(VersionTag::Int(a), VersionTag::Int(b)) {
        lemma_decimal_text_injective(a as nat, b as nat);
    }
}

/// An integer tag matches a string tag exactly when the string is the
/// integer's decimal text (so `1` and `"1"` name the same version).
pub proof fn law_int_matches_its_decimal_string(a: u64, s: String)
    ensures
        tags_match(VersionTag::Int(a), VersionTag::String(s)) <==> s@ == decimal_text(a as nat),
{
}

} // verus!
