//! What the generated code is made of: the versioned enum's variants, the
//! conversion chain of each variant into the target model, whether the
//! conversion may fail and with which error type, and the attributes that the
//! enum carries.
use vstd::prelude::*;
use vstd::string::StrSliceExecFns;
use crate::dag::{
    dag_resolved, first_match, is_first_match, law_path_chains, next_seq, DagPlan, MigrationStep,
};
use crate::parse::{texts, BackwardsCompatInput};
use crate::tag::tag_text;
use crate::text::{copy_string, text_is};

verus! {

/// The error type of a fallible upgrade.
#[derive(Debug)]
pub enum ErrorType {
    /// The error type that the declaration names (its text).
    Custom(String),
    /// A boxed `dyn std::error::Error + Send + Sync`.
    Boxed,
    /// `core::convert::Infallible`: the upgrade cannot fail.
    Infallible,
}

/// The value of an error type choice.
pub enum ErrorTypeView {
    Custom(Seq<char>),
    Boxed,
    Infallible,
}

impl View for ErrorType {
    type V = ErrorTypeView;

    open spec fn view(&self) -> ErrorTypeView {
        match self {
            ErrorType::Custom(s) => ErrorTypeView::Custom(s@),
            ErrorType::Boxed => ErrorTypeView::Boxed,
            ErrorType::Infallible => ErrorTypeView::Infallible,
        }
    }
}

/// One variant of the versioned enum.
#[derive(Debug)]
pub struct VariantPlan {
    /// The tag that names the variant on the wire.
    pub tag_string: String,
    /// The text of the variant's type.
    pub ty: String,
    /// The attributes handed on to the variant (their content's text).
    pub attrs: Vec<String>,
    /// The conversions from the variant's type to the target model.
    pub steps: Vec<MigrationStep>,
}

/// What the generated code is made of.
#[derive(Debug)]
pub struct CodegenPlan {
    pub vis: String,
    pub target_ty: String,
    pub tag_field: String,
    /// Whether upgrading may fail.
    pub is_fallible: bool,
    pub error_ty: ErrorType,
    /// The `derive` attributes of the declaration (their content's text).
    pub derives: Vec<String>,
    /// Whether `derive(Debug, Clone)` is added because none is given.
    pub default_derive: bool,
    /// The other attributes of the declaration (their content's text).
    pub other_attrs: Vec<String>,
    pub variants: Vec<VariantPlan>,
    /// The variant written on serialization, or `None` when the current
    /// version names no declared version: then no variant carries its tag and
    /// nothing is written through a version.
    pub latest_variant: Option<usize>,
    /// The text of the type that is written on serialization.
    pub latest_wire_ty: String,
    pub dump: bool,
}

/// The attribute content `t` is a `derive` attribute (its path is the single
/// identifier `derive`).
pub open spec fn is_derive_text(t: Seq<char>) -> bool {
    t == "derive"@ || (t.len() > 7 && t.subrange(0, 7) == "derive "@ && t[7] != ':')
}

/// The attribute content that is not a `derive`.
pub open spec fn is_other_text(t: Seq<char>) -> bool {
    !is_derive_text(t)
}

/// Whether the attribute content `t` is a `derive` attribute.
pub fn is_derive_attr(t: &String) -> (b: bool)
    ensures
        b == is_derive_text(t@),
{
    if text_is(t, "derive") {
        return true;
    }
    let s = t.as_str();
    let n = s.unicode_len();
    if n <= 7 {
        return false;
    }
    let prefix = s.substring_char(0, 7).to_owned();
    text_is(&prefix, "derive ") && s.get_char(7) != ':'
}

/// Some version of the declaration is fallible.
pub open spec fn any_fallible(input: BackwardsCompatInput) -> bool {
    exists|i: int| 0 <= i < input.versions@.len() && #[trigger] input.versions@[i].fallible
}

/// Upgrading may fail: some version is fallible, or an error type is given.
pub open spec fn upgrade_is_fallible(input: BackwardsCompatInput) -> bool {
    any_fallible(input) || input.error_ty is Some
}

/// The error type of the upgrade.
pub open spec fn error_type_of(input: BackwardsCompatInput) -> ErrorTypeView {
    match input.error_ty {
        Some(t) => ErrorTypeView::Custom(t@),
        None => if upgrade_is_fallible(input) {
            ErrorTypeView::Boxed
        } else {
            ErrorTypeView::Infallible
        },
    }
}

/// `plan` is what the code generated for `input`, with the resolved graph
/// `dag`, is made of.
pub open spec fn plan_of(input: BackwardsCompatInput, dag: DagPlan, plan: CodegenPlan) -> bool {
    let vs = input.versions@;
    let attrs = texts(input.outer_attrs@);
    &&& plan.vis@ == input.vis@
    &&& plan.target_ty@ == input.target_ty@
    &&& plan.tag_field@ == input.tag_field@
    &&& plan.is_fallible == upgrade_is_fallible(input)
    &&& plan.error_ty@ == error_type_of(input)
    &&& texts(plan.derives@) == attrs.filter(|t: Seq<char>| is_derive_text(t))
    &&& texts(plan.other_attrs@) == attrs.filter(|t: Seq<char>| is_other_text(t))
    &&& plan.default_derive == (plan.derives@.len() == 0)
    &&& plan.variants@.len() == vs.len()
    &&& forall|i: int|
        0 <= i < vs.len() ==> {
            &&& (#[trigger] plan.variants@[i]).tag_string@ == tag_text(vs[i].tag)
            &&& plan.variants@[i].ty@ == vs[i].ty@
            &&& texts(plan.variants@[i].attrs@) == texts(vs[i].outer_attrs@)
            &&& plan.variants@[i].steps@ == dag.paths@[i].steps@
        }
    &&& plan.latest_variant == if dag.target_is_wire {
        None
    } else {
        Some(dag.latest_variant_idx)
    }
    &&& plan.latest_wire_ty@ == dag.latest_wire_ty@
    &&& plan.dump == input.dump
}

fn copy_texts(v: &Vec<String>) -> (r: Vec<String>)
    ensures
        texts(r@) == texts(v@),
{
    let mut r: Vec<String> = Vec::new();
    let mut i: usize = 0;
    while i < v.len()
        invariant
            i <= v@.len(),
            texts(r@) == texts(v@.take(i as int)),
        decreases v@.len() - i,
    {
        let s = copy_string(&v[i]);
        proof {
            assert(v@.take(i + 1) =~= v@.take(i as int).push(v@[i as int]));
            assert(texts(r@.push(s)) =~= texts(r@).push(s@));
            assert(texts(v@.take(i as int).push(v@[i as int])) =~= texts(v@.take(i as int)).push(
                v@[i as int]@,
            ));
        }
        r.push(s);
        i = i + 1;
    }
    assert(v@.take(v@.len() as int) =~= v@);
    r
}

/// Whether some version is fallible.
fn has_fallible(input: &BackwardsCompatInput) -> (b: bool)
    ensures
        b == any_fallible(*input),
{
    let mut i: usize = 0;
    while i < input.versions.len()
        invariant
            i <= input.versions@.len(),
            forall|j: int| 0 <= j < i ==> !(#[trigger] input.versions@[j].fallible),
        decreases input.versions@.len() - i,
    {
        if input.versions[i].fallible {
            return true;
        }
        i = i + 1;
    }
    false
}

/// Computes what the generated code is made of: one variant per version, named
/// by its tag and converted along its migration path; whether the upgrade may
/// fail, and with which error type (the given one, else a boxed error when a
/// version is fallible, else `Infallible`); the `derive` attributes apart from
/// the others, with `derive(Debug, Clone)` added when none is given.
pub fn generate_backwards_compat(input: &BackwardsCompatInput, dag: DagPlan) -> (plan: CodegenPlan)
    requires
        dag_resolved(*input, dag),
    ensures
        plan_of(*input, dag, plan),
{
    let ghost dag0 = dag;
    let is_fallible = has_fallible(input) || input.error_ty.is_some();
    let error_ty = match &input.error_ty {
        Some(t) => ErrorType::Custom(copy_string(t)),
        None => if is_fallible {
            ErrorType::Boxed
        } else {
            ErrorType::Infallible
        },
    };

    // Split the attributes into derives and the others.
    let ghost attrs = texts(input.outer_attrs@);
    let mut derives: Vec<String> = Vec::new();
    let mut other_attrs: Vec<String> = Vec::new();
    let mut i: usize = 0;
    while i < input.outer_attrs.len()
        invariant
            i <= input.outer_attrs@.len(),
            attrs == texts(input.outer_attrs@),
            texts(derives@) == attrs.take(i as int).filter(|t: Seq<char>| is_derive_text(t)),
            texts(other_attrs@) == attrs.take(i as int).filter(|t: Seq<char>| is_other_text(t)),
        decreases input.outer_attrs@.len() - i,
    {
        reveal_with_fuel(Seq::<_>::filter, 1);
        let a = copy_string(&input.outer_attrs[i]);
        assert(attrs.take(i + 1).drop_last() =~= attrs.take(i as int));
        assert(attrs.take(i + 1).last() == a@);
        if is_derive_attr(&a) {
            proof {
                assert(texts(derives@.push(a)) =~= texts(derives@).push(a@));
            }
            derives.push(a);
        } else {
            proof {
                assert(texts(other_attrs@.push(a)) =~= texts(other_attrs@).push(a@));
            }
            other_attrs.push(a);
        }
        i = i + 1;
    }
    assert(attrs.take(input.outer_attrs@.len() as int) =~= attrs);
    let default_derive = derives.len() == 0;

    // One variant per version, converted along its path.
    let DagPlan { paths, latest_wire_ty, latest_variant_idx, target_is_wire } = dag;
    let mut paths = paths;
    let n = input.versions.len();
    let mut variants: Vec<VariantPlan> = Vec::new();
    let mut k: usize = 0;
    while k < n
        invariant
            n == input.versions@.len(),
            n == dag0.paths@.len(),
            k <= n,
            paths@ == dag0.paths@.skip(k as int),
            variants@.len() == k,
            forall|j: int|
                0 <= j < k ==> {
                    &&& (#[trigger] variants@[j]).tag_string@ == tag_text(input.versions@[j].tag)
                    &&& variants@[j].ty@ == input.versions@[j].ty@
                    &&& texts(variants@[j].attrs@) == texts(input.versions@[j].outer_attrs@)
                    &&& variants@[j].steps@ == dag0.paths@[j].steps@
                },
        decreases n - k,
    {
        let path = paths.remove(0);
        assert(path == dag0.paths@[k as int]);
        assert(paths@ =~= dag0.paths@.skip(k + 1));
        let v = &input.versions[k];
        let vp = VariantPlan {
            tag_string: v.tag.to_tag_string(),
            ty: copy_string(&v.ty),
            attrs: copy_texts(&v.outer_attrs),
            steps: path.steps,
        };
        variants.push(vp);
        k = k + 1;
    }

    let latest_variant = if target_is_wire {
        None
    } else {
        Some(latest_variant_idx)
    };

    CodegenPlan {
        vis: copy_string(&input.vis),
        target_ty: copy_string(&input.target_ty),
        tag_field: copy_string(&input.tag_field),
        is_fallible,
        error_ty,
        derives,
        default_derive,
        other_attrs,
        variants,
        latest_variant,
        latest_wire_ty,
        dump: input.dump,
    }
}

/// Serialization writes the current version: when the current version is a
/// declared version, the variant written is that version, and the tag it

/// The generated upgrade may fail exactly when some declared version (the
/// first one included) is marked fallible or an error type is given. With an
/// error type, that type is used; without one, a fallible upgrade boxes its
/// errors and an infallible one uses `Infallible`.
pub proof fn law_fallibility_of_plan(input: BackwardsCompatInput, dag: DagPlan, plan: CodegenPlan)
    requires
        plan_of(input, dag, plan),
    ensures
        plan.is_fallible <==> ((exists|i: int|
            0 <= i < input.versions@.len() && (#[trigger] input.versions@[i]).fallible)
            || input.error_ty is Some),
        forall|i: int|
            0 <= i < input.versions@.len() && (#[trigger] input.versions@[i]).fallible
                ==> plan.is_fallible,
        input.error_ty is None && plan.is_fallible ==> plan.error_ty@ == ErrorTypeView::Boxed,
        input.error_ty is None && !plan.is_fallible ==> plan.error_ty@
            == ErrorTypeView::Infallible,
        input.error_ty matches Some(t) ==> plan.error_ty@ == ErrorTypeView::Custom(t@),
{
    assert forall|i: int|
        0 <= i < input.versions@.len() && (#[trigger] input.versions@[i]).fallible implies plan.is_fallible by {
        assert(any_fallible(input));
    }
}

/// writes is the current version's text.
pub proof fn law_serialization_writes_current_version(
    input: BackwardsCompatInput,
    dag: DagPlan,
    plan: CodegenPlan,
    t: int,
)
    requires
        dag_resolved(input, dag),
        plan_of(input, dag, plan),
        first_match(input.versions@, input.current_version) == Some(t),
    ensures
        plan.latest_variant == Some(t as usize),
        plan.variants@[t].tag_string@ == tag_text(input.current_version),
        plan.latest_wire_ty@ == input.versions@[t].ty@,
{
    let vs = input.versions@;
    assert(is_first_match(vs, input.current_version, choose|i: int| is_first_match(vs, input.current_version, i)));
    assert(0 <= t < vs.len());
    assert(plan.variants@[t].tag_string@ == tag_text(vs[t].tag));
}

/// Every variant upgrades along a chain of conversions that starts at the
/// variant's own type, where each conversion yields the type the next one
/// takes, and that ends in the target model.
pub proof fn law_upgrade_reaches_target(input: BackwardsCompatInput, dag: DagPlan, plan: CodegenPlan, i: int)
    requires
        dag_resolved(input, dag),
        plan_of(input, dag, plan),
        0 <= i < input.versions@.len(),
    ensures
        plan.variants@[i].steps@.len() >= 1,
        plan.variants@[i].steps@[0].from_ty@ == plan.variants@[i].ty@,
        plan.variants@[i].steps@.last().to_ty@ == plan.target_ty@,
        forall|m: int|
            0 <= m < plan.variants@[i].steps@.len() - 1 ==> (#[trigger] plan.variants@[i].steps@[m]).to_ty@
                == plan.variants@[i].steps@[m + 1].from_ty@,
{
    let vs = input.versions@;
    let next = next_seq(vs, input.current_version);
    assert(tag_text(dag.paths@[i].tag) == tag_text(vs[i].tag));
    assert(plan.variants@[i].ty@ == vs[i].ty@);
    law_path_chains(vs, next, input.target_ty@, i, dag.paths@[i].steps@);
}

} // verus!
