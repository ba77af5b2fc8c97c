//! Resolution of the migration graph: which version each declared version
//! migrates to next, the rejection of self-loops, missing targets and cycles,
//! and the migration path from every version to the target model.
use vstd::prelude::*;
use crate::error::{error_detail, error_kind, CompatError, ErrorKind, Located, Place, PlaceView};
use crate::parse::{path_copy, BackwardsCompatInput, VersionEntry};
use crate::tag::{tag_text, tags_match, VersionTag};
use crate::text::copy_string;
use std::collections::HashSet;

verus! {

/// One conversion of a migration path.
#[derive(Debug)]
pub struct MigrationStep {
    /// The text of the type converted from.
    pub from_ty: String,
    /// The text of the type converted to.
    pub to_ty: String,
    /// Whether the conversion may fail.
    pub fallible: bool,
}

/// The migration path from one declared version to the target model.
#[derive(Debug)]
pub struct ResolvedPath {
    pub tag: VersionTag,
    pub steps: Vec<MigrationStep>,
}

/// The resolved migration graph.
#[derive(Debug)]
pub struct DagPlan {
    /// One path per declared version, in declaration order.
    pub paths: Vec<ResolvedPath>,
    /// The type that is written when the target model is serialized.
    pub latest_wire_ty: String,
    /// The index of the version that is written, or the number of versions
    /// when the target model itself is written.
    pub latest_variant_idx: usize,
    /// Whether the target model itself is written.
    pub target_is_wire: bool,
}

/// Where a version migrates to next.
#[derive(Debug, Clone, Copy, PartialEq, Eq, Structural)]
pub enum NextTarget {
    /// The version converts into the target model.
    TerminalTarget,
    /// The version converts into the version of this index.
    VersionIndex(usize),
}

/// `i` is the first index of `vs` whose tag matches `t`.
pub open spec fn is_first_match(vs: Seq<VersionEntry>, t: VersionTag, i: int) -> bool {
    &&& 0 <= i < vs.len()
    &&& tags_match(vs[i].tag, t)
    &&& forall|j: int| 0 <= j < i ==> !tags_match(#[trigger] vs[j].tag, t)
}

/// The first index of `vs` whose tag matches `t`, if any.
pub open spec fn first_match(vs: Seq<VersionEntry>, t: VersionTag) -> Option<int> {
    if exists|i: int| is_first_match(vs, t, i) {
        Some(choose|i: int| is_first_match(vs, t, i))
    } else {
        None
    }
}

/// The declared transition of version `i`, or the fault (kind and the text it
/// carries) that rejects the declaration there.
pub open spec fn next_spec(vs: Seq<VersionEntry>, cur: VersionTag, i: int) -> Result<
    NextTarget,
    (ErrorKind, Seq<char>),
> {
    let v = vs[i];
    let ci = first_match(vs, cur);
    match v.explicit_next {
        Some(nt) => if tags_match(nt, v.tag) {
            Err((ErrorKind::SelfLoop, tag_text(v.tag)))
        } else if tags_match(nt, cur) {
            match ci {
                Some(t) => if t == i {
                    Err((ErrorKind::SelfLoop, tag_text(v.tag)))
                } else {
                    Ok(NextTarget::VersionIndex(t as usize))
                },
                None => Ok(NextTarget::TerminalTarget),
            }
        } else {
            match first_match(vs, nt) {
                Some(t) => Ok(NextTarget::VersionIndex(t as usize)),
                None => Err((ErrorKind::MissingTarget, tag_text(nt))),
            }
        },
        None => if tags_match(v.tag, cur) {
            Ok(NextTarget::TerminalTarget)
        } else if i + 1 < vs.len() {
            Ok(NextTarget::VersionIndex((i + 1) as usize))
        } else {
            match ci {
                Some(t) => if t != i {
                    Ok(NextTarget::VersionIndex(t as usize))
                } else {
                    Ok(NextTarget::TerminalTarget)
                },
                None => Ok(NextTarget::TerminalTarget),
            }
        },
    }
}

/// The declaration is rejected at version `i`.
pub open spec fn fault_at(vs: Seq<VersionEntry>, cur: VersionTag, i: int) -> bool {
    0 <= i < vs.len() && next_spec(vs, cur, i) is Err
}

/// `i` is the first version at which the declaration is rejected.
pub open spec fn first_fault_at(vs: Seq<VersionEntry>, cur: VersionTag, i: int) -> bool {
    fault_at(vs, cur, i) && forall|j: int| 0 <= j < i ==> !fault_at(vs, cur, j)
}

/// The transitions of all versions (meaningful where none is rejected).
pub open spec fn next_seq(vs: Seq<VersionEntry>, cur: VersionTag) -> Seq<NextTarget> {
    Seq::new(vs.len(), |i: int| next_spec(vs, cur, i)->Ok_0)
}

/// The version that `j` migrates to, if it migrates to a version.
pub open spec fn succ(next: Seq<NextTarget>, j: int) -> Option<int> {
    if 0 <= j < next.len() {
        match next[j] {
            NextTarget::VersionIndex(t) => Some(t as int),
            NextTarget::TerminalTarget => None,
        }
    } else {
        None
    }
}

/// The version reached from `i` after `k` transitions, or `None` once the
/// target model has been reached.
pub open spec fn walk(next: Seq<NextTarget>, i: int, k: nat) -> Option<int>
    decreases k,
{
    if k == 0 {
        Some(i)
    } else {
        match walk(next, i, (k - 1) as nat) {
            Some(j) => succ(next, j),
            None => None,
        }
    }
}

/// Following the transitions from `i` reaches the target model.
pub open spec fn terminates(next: Seq<NextTarget>, i: int) -> bool {
    exists|k: nat| #[trigger] walk(next, i, k) is None
}

/// Every transition leads to a version of the graph.
pub open spec fn next_wf(next: Seq<NextTarget>) -> bool {
    forall|j: int|
        0 <= j < next.len() ==> match #[trigger] next[j] {
            NextTarget::VersionIndex(t) => t < next.len(),
            NextTarget::TerminalTarget => true,
        }
}

/// `i` is the first version from which the target model is never reached.
pub open spec fn first_cycle_at(next: Seq<NextTarget>, i: int) -> bool {
    &&& 0 <= i < next.len()
    &&& !terminates(next, i)
    &&& forall|j: int| 0 <= j < i ==> terminates(next, j)
}

/// Step `m` of `steps` converts the version that `m` transitions from `i`
/// reach into the one that the next transition reaches, or, for the last step,
/// into the target model.
pub open spec fn path_step_ok(
    vs: Seq<VersionEntry>,
    next: Seq<NextTarget>,
    target: Seq<char>,
    i: int,
    steps: Seq<MigrationStep>,
    m: int,
) -> bool {
    &&& walk(next, i, m as nat) is Some
    &&& 0 <= walk(next, i, m as nat)->0 < vs.len()
    &&& steps[m].from_ty@ == vs[walk(next, i, m as nat)->0].ty@
    &&& steps[m].fallible == vs[walk(next, i, m as nat)->0].fallible
    &&& steps[m].to_ty@ == if m + 1 < steps.len() {
        vs[walk(next, i, (m + 1) as nat)->0].ty@
    } else {
        target
    }
}

/// `steps` is the migration path from version `i`: it visits the versions
/// reached from `i` in order, converting each into the next one, and the
/// last into the target model.
pub open spec fn path_correct(
    vs: Seq<VersionEntry>,
    next: Seq<NextTarget>,
    target: Seq<char>,
    i: int,
    steps: Seq<MigrationStep>,
) -> bool {
    &&& steps.len() >= 1
    &&& walk(next, i, steps.len()) is None
    &&& forall|m: int| 0 <= m < steps.len() ==> #[trigger] path_step_ok(vs, next, target, i, steps, m)
}

/// `plan` is the resolved migration graph of `input`: one path per version,
/// in declaration order, and the version written on serialization.
pub open spec fn dag_resolved(input: BackwardsCompatInput, plan: DagPlan) -> bool {
    let vs = input.versions@;
    let cur = input.current_version;
    let next = next_seq(vs, cur);
    &&& vs.len() > 0
    &&& forall|i: int| 0 <= i < vs.len() ==> terminates(next, i)
    &&& next_wf(next)
    &&& plan.paths@.len() == vs.len()
    &&& forall|i: int|
        #![trigger plan.paths@[i]]
        0 <= i < vs.len() ==> {
            &&& plan.paths@[i].tag@ == vs[i].tag@
            &&& tag_text(plan.paths@[i].tag) == tag_text(vs[i].tag)
            &&& path_correct(vs, next, input.target_ty@, i, plan.paths@[i].steps@)
        }
    &&& match first_match(vs, cur) {
        Some(t) => {
            &&& plan.latest_wire_ty@ == vs[t].ty@
            &&& plan.latest_variant_idx == t
            &&& !plan.target_is_wire
        },
        None => {
            &&& plan.latest_wire_ty@ == input.target_ty@
            &&& plan.latest_variant_idx == vs.len()
            &&& plan.target_is_wire
        },
    }
}

/// Once the target model is reached, the walk stays there.
pub proof fn lemma_walk_none_absorbing(next: Seq<NextTarget>, i: int, a: nat, b: nat)
    requires
        a <= b,
        walk(next, i, a) is None,
    ensures
        walk(next, i, b) is None,
    decreases b,
{
    if b > a {
        lemma_walk_none_absorbing(next, i, a, (b - 1) as nat);
    }
}

/// Walking `a + m` steps from `i` is walking `m` steps from where `a` steps lead.
pub proof fn lemma_walk_shift(next: Seq<NextTarget>, i: int, a: nat, m: nat)
    requires
        walk(next, i, a) is Some,
    ensures
        walk(next, i, a + m) == walk(next, walk(next, i, a)->0, m),
    decreases m,
{
    if m > 0 {
        lemma_walk_shift(next, i, a, (m - 1) as nat);
        assert(walk(next, i, a + m) == match walk(next, i, (a + m - 1) as nat) {
            Some(j) => succ(next, j),
            None => None,
        });
    }
}

proof fn lemma_walk_loop_forever(next: Seq<NextTarget>, j: int, p: nat, m: nat)
    requires
        p > 0,
        walk(next, j, p) == Some(j),
    ensures
        walk(next, j, m) is Some,
    decreases m,
{
    if m < p {
        if walk(next, j, m) is None {
            lemma_walk_none_absorbing(next, j, m, p);
        }
    } else {
        lemma_walk_loop_forever(next, j, p, (m - p) as nat);
        lemma_walk_shift(next, j, p, (m - p) as nat);
    }
}

/// A walk that visits some version twice never reaches the target model.
pub proof fn lemma_repeat_never_terminates(next: Seq<NextTarget>, i: int, a: nat, b: nat)
    requires
        a < b,
        walk(next, i, a) is Some,
        walk(next, i, a) == walk(next, i, b),
    ensures
        !terminates(next, i),
{
    let j = walk(next, i, a)->0;
    let p = (b - a) as nat;
    lemma_walk_shift(next, i, a, p);
    assert forall|k: nat| #[trigger] walk(next, i, k) is Some by {
        if k <= a {
            if walk(next, i, k) is None {
                lemma_walk_none_absorbing(next, i, k, a);
            }
        } else {
            lemma_walk_shift(next, i, a, (k - a) as nat);
            lemma_walk_loop_forever(next, j, p, (k - a) as nat);
        }
    }
}

/// The number of set flags.
pub open spec fn count_true(s: Seq<bool>) -> nat
    decreases s.len(),
{
    if s.len() == 0 {
        0
    } else {
        count_true(s.drop_last()) + if s.last() {
            1nat
        } else {
            0nat
        }
    }
}

proof fn lemma_count_true_bound(s: Seq<bool>)
    ensures
        count_true(s) <= s.len(),
    decreases s.len(),
{
    if s.len() > 0 {
        lemma_count_true_bound(s.drop_last());
    }
}

proof fn lemma_count_true_set(s: Seq<bool>, j: int)
    requires
        0 <= j < s.len(),
        !s[j],
    ensures
        count_true(s.update(j, true)) == count_true(s) + 1,
    decreases s.len(),
{
    if j == s.len() - 1 {
        assert(s.update(j, true).drop_last() =~= s.drop_last());
    } else {
        assert(s.update(j, true).drop_last() =~= s.drop_last().update(j, true));
        lemma_count_true_set(s.drop_last(), j);
    }
}

proof fn lemma_count_true_single(n: nat, i: int)
    requires
        0 <= i < n,
    ensures
        count_true(Seq::new(n, |j: int| false).update(i, true)) == 1,
{
    lemma_count_all_false(n);
    lemma_count_true_set(Seq::new(n, |j: int| false), i);
}

proof fn lemma_count_all_false(n: nat)
    ensures
        count_true(Seq::new(n, |j: int| false)) == 0,
    decreases n,
{
    if n > 0 {
        assert(Seq::new(n, |j: int| false).drop_last() =~= Seq::new((n - 1) as nat, |j: int| false));
        lemma_count_all_false((n - 1) as nat);
    }
}

/// The first index of `vs` whose tag matches `t`.
pub fn position(vs: &Vec<VersionEntry>, t: &VersionTag) -> (r: Option<usize>)
    ensures
        match r {
            Some(i) => first_match(vs@, *t) == Some(i as int),
            None => first_match(vs@, *t) is None,
        },
        r is None ==> forall|j: int| 0 <= j < vs@.len() ==> !tags_match(#[trigger] vs@[j].tag, *t),
{
    let mut k: usize = 0;
    while k < vs.len()
        invariant
            0 <= k <= vs@.len(),
            forall|j: int| 0 <= j < k ==> !tags_match(#[trigger] vs@[j].tag, *t),
        decreases vs@.len() - k,
    {
        if vs[k].tag.matches(t) {
            assert(is_first_match(vs@, *t, k as int));
            assert forall|i: int| is_first_match(vs@, *t, i) implies i == k by {
                if i < k {
                    assert(!tags_match(vs@[i].tag, *t));
                } else if i > k {
                    assert(!tags_match(vs@[k as int].tag, *t));
                }
            }
            return Some(k);
        }
        k = k + 1;
    }
    assert(!exists|i: int| is_first_match(vs@, *t, i));
    None
}

fn fault_error(kind: ErrorKind, tag: &VersionTag) -> (e: CompatError)
    requires
        kind == ErrorKind::SelfLoop || kind == ErrorKind::MissingTarget || kind
            == ErrorKind::Cycle,
    ensures
        error_kind(e) == kind,
        error_detail(e) == tag_text(*tag),
{
    let t = tag.copy();
    match kind {
        ErrorKind::SelfLoop => CompatError::SelfLoop(t),
        ErrorKind::MissingTarget => CompatError::MissingTarget(t),
        _ => CompatError::Cycle(t),
    }
}

/// The transition of version `i`, or the error that rejects it.
fn next_target_of(
    vs: &Vec<VersionEntry>,
    cur: &VersionTag,
    current_idx: Option<usize>,
    i: usize,
) -> (r: Result<NextTarget, CompatError>)
    requires
        0 <= i < vs@.len(),
        match current_idx {
            Some(t) => first_match(vs@, *cur) == Some(t as int),
            None => first_match(vs@, *cur) is None,
        },
    ensures
        match r {
            Ok(nt) => next_spec(vs@, *cur, i as int) == Ok::<NextTarget, (ErrorKind, Seq<char>)>(
                nt,
            ),
            Err(e) => next_spec(vs@, *cur, i as int) == Err::<NextTarget, (ErrorKind, Seq<char>)>(
                (error_kind(e), error_detail(e)),
            ),
        },
{
    let n = vs.len();
    let v = &vs[i];
    match &v.explicit_next {
        Some(next_tag) => {
            if next_tag.matches(&v.tag) {
                return Err(fault_error(ErrorKind::SelfLoop, &v.tag));
            }
            if next_tag.matches(cur) {
                match current_idx {
                    Some(target_idx) => {
                        if target_idx == i {
                            Err(fault_error(ErrorKind::SelfLoop, &v.tag))
                        } else {
                            Ok(NextTarget::VersionIndex(target_idx))
                        }
                    },
                    None => Ok(NextTarget::TerminalTarget),
                }
            } else {
                let p = position(vs, next_tag);
                match p {
                    Some(target_idx) => Ok(NextTarget::VersionIndex(target_idx)),
                    None => Err(fault_error(ErrorKind::MissingTarget, next_tag)),
                }
            }
        },
        None => {
            if v.tag.matches(cur) {
                Ok(NextTarget::TerminalTarget)
            } else if i < n - 1 {
                Ok(NextTarget::VersionIndex(i + 1))
            } else {
                match current_idx {
                    Some(target_idx) => {
                        if target_idx != i {
                            Ok(NextTarget::VersionIndex(target_idx))
                        } else {
                            Ok(NextTarget::TerminalTarget)
                        }
                    },
                    None => Ok(NextTarget::TerminalTarget),
                }
            }
        },
    }
}

/// Whether following the transitions from `i` reaches the target model.
fn walk_terminates(next: &Vec<NextTarget>, i: usize) -> (b: bool)
    requires
        next_wf(next@),
        0 <= i < next@.len(),
    ensures
        b == terminates(next@, i as int),
{
    broadcast use vstd::std_specs::hash::group_hash_axioms;

    let n = next.len();
    let mut visited: HashSet<usize> = HashSet::new();
    visited.insert(i);
    let ghost mut seen: Seq<bool> = Seq::new(n as nat, |j: int| false).update(i as int, true);
    proof {
        lemma_count_true_single(n as nat, i as int);
    }
    let mut curr: usize = i;
    let ghost mut steps: nat = 0;
    assert(walk(next@, i as int, 0) == Some(i as int));
    loop
        invariant
            n == next@.len(),
            next_wf(next@),
            0 <= i < n,
            seen.len() == n,
            count_true(seen) == steps + 1,
            0 <= curr < n,
            walk(next@, i as int, steps) == Some(curr as int),
            forall|u: usize| #[trigger] visited@.contains(u) ==> u < n,
            forall|x: int| 0 <= x < n ==> (visited@.contains(x as usize) <==> #[trigger] seen[x]),
            forall|x: int|
                0 <= x < n ==> (#[trigger] seen[x] <==> exists|a: nat|
                    a <= steps && #[trigger] walk(next@, i as int, a) == Some(x)),
        decreases n - steps,
    {
        proof {
            lemma_count_true_bound(seen);
        }
        match next[curr] {
            NextTarget::TerminalTarget => {
                assert(walk(next@, i as int, steps + 1) is None);
                return true;
            },
            NextTarget::VersionIndex(t) => {
                assert(t < n);
                assert(walk(next@, i as int, steps + 1) == Some(t as int));
                let ghost old_visited = visited@;
                if !visited.insert(t) {
                    proof {
                        assert(seen[t as int]);
                        let a = choose|a: nat|
                            a <= steps && #[trigger] walk(next@, i as int, a) == Some(t as int);
                        lemma_repeat_never_terminates(next@, i as int, a, steps + 1);
                    }
                    return false;
                }
                proof {
                    assert(!seen[t as int]);
                    lemma_count_true_set(seen, t as int);
                }
                let ghost old_seen = seen;
                proof {
                    seen = seen.update(t as int, true);
                }
                curr = t;
                proof {
                    steps = steps + 1;
                    assert forall|x: int| 0 <= x < n implies (visited@.contains(x as usize)
                        <==> #[trigger] seen[x]) by {
                        if x != t {
                            assert(old_visited.contains(x as usize) <==> old_seen[x]);
                        }
                    }
                    assert forall|x: int| 0 <= x < n implies (#[trigger] seen[x] <==> exists|a: nat|
                        a <= steps && #[trigger] walk(next@, i as int, a) == Some(x)) by {
                        if x == t {
                            assert(walk(next@, i as int, steps) == Some(x));
                        } else {
                            assert(seen[x] == old_seen[x]);
                            if exists|a: nat| a <= steps && #[trigger] walk(next@, i as int, a) == Some(x) {
                                let a = choose|a: nat| a <= steps && #[trigger] walk(next@, i as int, a) == Some(x);
                                assert(a != steps);
                                assert(a <= steps - 1);
                            }
                        }
                    }
                }
            },
        }
    }
}

/// The migration path from version `i`.
fn build_path(
    vs: &Vec<VersionEntry>,
    next: &Vec<NextTarget>,
    target: &String,
    i: usize,
) -> (steps: Vec<MigrationStep>)
    requires
        next@.len() == vs@.len(),
        next_wf(next@),
        0 <= i < next@.len(),
        terminates(next@, i as int),
    ensures
        path_correct(vs@, next@, target@, i as int, steps@),
{
    let ghost kmax = choose|k: nat| #[trigger] walk(next@, i as int, k) is None;
    let mut steps: Vec<MigrationStep> = Vec::new();
    let mut curr: usize = i;
    let ghost mut m: nat = 0;
    loop
        invariant
            next@.len() == vs@.len(),
            next_wf(next@),
            0 <= i < next@.len(),
            walk(next@, i as int, kmax) is None,
            0 <= curr < next@.len(),
            walk(next@, i as int, m) == Some(curr as int),
            m < kmax,
            steps@.len() == m,
            forall|q: int|
                0 <= q < m ==> {
                    &&& #[trigger] walk(next@, i as int, q as nat) is Some
                    &&& 0 <= walk(next@, i as int, q as nat)->0 < vs@.len()
                    &&& steps@[q].from_ty@ == vs@[walk(next@, i as int, q as nat)->0].ty@
                    &&& steps@[q].fallible == vs@[walk(next@, i as int, q as nat)->0].fallible
                    &&& walk(next@, i as int, (q + 1) as nat) is Some
                    &&& steps@[q].to_ty@ == vs@[walk(next@, i as int, (q + 1) as nat)->0].ty@
                },
        decreases kmax - m,
    {
        let from_ty = copy_string(&vs[curr].ty);
        let fallible = vs[curr].fallible;
        match next[curr] {
            NextTarget::TerminalTarget => {
                let to_ty = copy_string(target);
                let ghost prev = steps@;
                steps.push(MigrationStep { from_ty, to_ty, fallible });
                assert(walk(next@, i as int, m + 1) is None);
                assert forall|q: int| 0 <= q < steps@.len() implies #[trigger] path_step_ok(
                    vs@,
                    next@,
                    target@,
                    i as int,
                    steps@,
                    q,
                ) by {
                    if q < m {
                        assert(steps@[q] == prev[q]);
                    }
                }
                return steps;
            },
            NextTarget::VersionIndex(t) => {
                let to_ty = copy_string(&vs[t].ty);
                steps.push(MigrationStep { from_ty, to_ty, fallible });
                assert(walk(next@, i as int, m + 1) == Some(t as int));
                curr = t;
                proof {
                    m = m + 1;
                    if m >= kmax {
                        lemma_walk_none_absorbing(next@, i as int, kmax, m);
                    }
                }
            },
        }
    }
}

/// Resolves the migration graph of a declaration: the transition of each
/// version, the rejection of self-loops, missing targets and cycles, and the
/// migration path from each version to the target model.
pub fn resolve_dag(input: &BackwardsCompatInput) -> (r: Result<DagPlan, Located>)
    ensures
        ({
            let vs = input.versions@;
            let cur = input.current_version;
            let next = next_seq(vs, cur);
            &&& r is Ok <==> (vs.len() > 0 && (forall|i: int| !fault_at(vs, cur, i)) && forall|
                i: int,
            | 0 <= i < vs.len() ==> terminates(next, i))
            &&& vs.len() == 0 ==> (r matches Err(e) && error_kind(e.error) == ErrorKind::NoVersions
                && e.place@ == PlaceView::Tokens(
                Seq::empty(),
                input.target_span.0 as int,
                input.target_span.1 as int,
            ))
            &&& (vs.len() > 0 && exists|i: int| fault_at(vs, cur, i)) ==> exists|i: int|
                first_fault_at(vs, cur, i) && (r matches Err(e) && next_spec(vs, cur, i) == Err::<
                    NextTarget,
                    (ErrorKind, Seq<char>),
                >((error_kind(e.error), error_detail(e.error))) && e.place@ == PlaceView::Token(
                    vs[i].next_place@,
                ))
            &&& (vs.len() > 0 && (forall|i: int| !fault_at(vs, cur, i)) && exists|i: int|
                0 <= i < vs.len() && !terminates(next, i)) ==> exists|i: int|
                first_cycle_at(next, i) && (r matches Err(e) && error_kind(e.error)
                    == ErrorKind::Cycle && error_detail(e.error) == tag_text(vs[i].tag)
                    && e.place@ == PlaceView::Token(vs[i].tag_place@))
            &&& r matches Ok(plan) ==> dag_resolved(*input, plan)
        }),
{
    let ghost vs = input.versions@;
    let ghost cur = input.current_version;
    let versions = &input.versions;
    let n = versions.len();
    if n == 0 {
        return Err(
            Located {
                error: CompatError::NoVersions,
                place: Place::Tokens(Vec::new(), input.target_span.0, input.target_span.1),
            },
        );
    }
    let current_idx_opt = position(versions, &input.current_version);

    // Determine the next step for each version
    let mut next_targets: Vec<NextTarget> = Vec::new();
    let mut i: usize = 0;
    while i < n
        invariant
            n == vs.len(),
            vs == input.versions@,
            versions@ == vs,
            cur == input.current_version,
            0 <= i <= n,
            match current_idx_opt {
                Some(t) => first_match(vs, cur) == Some(t as int),
                None => first_match(vs, cur) is None,
            },
            next_targets@.len() == i,
            forall|j: int| 0 <= j < i ==> !fault_at(vs, cur, j),
            forall|j: int|
                0 <= j < i ==> next_spec(vs, cur, j) == Ok::<NextTarget, (ErrorKind, Seq<char>)>(
                    #[trigger] next_targets@[j],
                ),
        decreases n - i,
    {
        match next_target_of(versions, &input.current_version, current_idx_opt, i) {
            Ok(nt) => {
                next_targets.push(nt);
            },
            Err(e) => {
                assert(first_fault_at(vs, cur, i as int));
                return Err(Located { error: e, place: Place::Token(path_copy(&versions[i].next_place)) });
            },
        }
        i = i + 1;
    }
    let ghost next = next_seq(vs, cur);
    assert(next_targets@ =~= next);
    assert forall|i: int| !fault_at(vs, cur, i) by {
    }
    // every transition stays inside the graph
    assert forall|j: int| 0 <= j < next.len() implies match #[trigger] next[j] {
        NextTarget::VersionIndex(t) => t < next.len(),
        NextTarget::TerminalTarget => true,
    } by {
        match first_match(vs, cur) {
            Some(t) => {
                assert(is_first_match(vs, cur, choose|i: int| is_first_match(vs, cur, i)));
            },
            None => {},
        }
        match vs[j].explicit_next {
            Some(nt) => match first_match(vs, nt) {
                Some(t) => {
                    assert(is_first_match(vs, nt, choose|i: int| is_first_match(vs, nt, i)));
                },
                None => {},
            },
            None => {},
        }
    }

    // Cycle detection & dead-end detection
    let mut i: usize = 0;
    while i < n
        invariant
            n == vs.len(),
            vs == input.versions@,
            versions@ == vs,
            next_targets@ == next,
            next == next_seq(vs, cur),
            cur == input.current_version,
            forall|j: int| !fault_at(vs, cur, j),
            next_wf(next),
            0 <= i <= n,
            forall|j: int| 0 <= j < i ==> terminates(next, j),
        decreases n - i,
    {
        if !walk_terminates(&next_targets, i) {
            assert(first_cycle_at(next, i as int));
            return Err(
                Located {
                    error: fault_error(ErrorKind::Cycle, &versions[i].tag),
                    place: Place::Token(path_copy(&versions[i].tag_place)),
                },
            );
        }
        i = i + 1;
    }

    // Build resolved paths
    let mut paths: Vec<ResolvedPath> = Vec::new();
    let mut i: usize = 0;
    while i < n
        invariant
            n == vs.len(),
            vs == input.versions@,
            versions@ == vs,
            next_targets@ == next,
            next == next_seq(vs, cur),
            cur == input.current_version,
            forall|j: int| !fault_at(vs, cur, j),
            next_wf(next),
            0 <= i <= n,
            forall|j: int| 0 <= j < n ==> terminates(next, j),
            paths@.len() == i,
            forall|j: int|
                #![trigger paths@[j]]
                0 <= j < i ==> {
                    &&& paths@[j].tag@ == vs[j].tag@
                    &&& tag_text(paths@[j].tag) == tag_text(vs[j].tag)
                    &&& path_correct(vs, next, input.target_ty@, j, paths@[j].steps@)
                },
        decreases n - i,
    {
        let steps = build_path(versions, &next_targets, &input.target_ty, i);
        paths.push(ResolvedPath { tag: versions[i].tag.copy(), steps });
        i = i + 1;
    }

    let (latest_wire_ty, latest_variant_idx, target_is_wire) = match current_idx_opt {
        Some(idx) => (copy_string(&versions[idx].ty), idx, false),
        None => (copy_string(&input.target_ty), n, true),
    };

    Ok(DagPlan { paths, latest_wire_ty, latest_variant_idx, target_is_wire })
}

/// A migration path starts at its own version's type, each step converts into
/// the type that the next step converts from, and the last step converts into
/// the target model.
pub proof fn law_path_chains(
    vs: Seq<VersionEntry>,
    next: Seq<NextTarget>,
    target: Seq<char>,
    i: int,
    steps: Seq<MigrationStep>,
)
    requires
        0 <= i < vs.len(),
        path_correct(vs, next, target, i, steps),
    ensures
        steps[0].from_ty@ == vs[i].ty@,
        steps.last().to_ty@ == target,
        forall|m: int| 0 <= m < steps.len() - 1 ==> (#[trigger] steps[m]).to_ty@ == steps[m + 1].from_ty@,
{
    assert(path_step_ok(vs, next, target, i, steps, 0));
    assert(path_step_ok(vs, next, target, i, steps, steps.len() - 1));
    assert forall|m: int| 0 <= m < steps.len() - 1 implies (#[trigger] steps[m]).to_ty@ == steps[m
        + 1].from_ty@ by {
        assert(path_step_ok(vs, next, target, i, steps, m));
        assert(path_step_ok(vs, next, target, i, steps, m + 1));
    }
}

/// A migration path visits no version twice.
pub proof fn law_path_visits_no_version_twice(
    vs: Seq<VersionEntry>,
    next: Seq<NextTarget>,
    target: Seq<char>,
    i: int,
    steps: Seq<MigrationStep>,
)
    requires
        path_correct(vs, next, target, i, steps),
    ensures
        forall|a: nat, b: nat|
            a < b < steps.len() ==> #[trigger] walk(next, i, a) != #[trigger] walk(next, i, b),
{
    assert(terminates(next, i)) by {
        assert(walk(next, i, steps.len()) is None);
    }
    assert forall|a: nat, b: nat| a < b < steps.len() implies #[trigger] walk(next, i, a)
        != #[trigger] walk(next, i, b) by {
        assert(path_step_ok(vs, next, target, i, steps, a as int));
        if walk(next, i, a) == walk(next, i, b) {
            lemma_repeat_never_terminates(next, i, a, b);
        }
    }
}

/// The current version, when it has no explicit transition, converts straight
/// into the target model: its path is a single step.
pub proof fn law_current_version_converts_directly(input: BackwardsCompatInput, plan: DagPlan, t: int)
    requires
        dag_resolved(input, plan),
        first_match(input.versions@, input.current_version) == Some(t),
        input.versions@[t].explicit_next is None,
    ensures
        plan.paths@[t].steps@.len() == 1,
        plan.paths@[t].steps@[0].from_ty@ == input.versions@[t].ty@,
        plan.paths@[t].steps@[0].to_ty@ == input.target_ty@,
{
    let vs = input.versions@;
    let cur = input.current_version;
    let next = next_seq(vs, cur);
    assert(is_first_match(vs, cur, choose|i: int| is_first_match(vs, cur, i)));
    assert(0 <= t < vs.len());
    assert(next[t] == NextTarget::TerminalTarget);
    let steps = plan.paths@[t].steps@;
    assert(tag_text(plan.paths@[t].tag) == tag_text(vs[t].tag));
    assert(path_correct(vs, next, input.target_ty@, t, steps));
    assert(walk(next, t, 0) == Some(t));
    assert(walk(next, t, 1) is None);
    if steps.len() > 1 {
        assert(path_step_ok(vs, next, input.target_ty@, t, steps, 1));
    }
    assert(path_step_ok(vs, next, input.target_ty@, t, steps, 0));
}

/// A version whose explicit transition names the current version, when no
/// declared version has the current version's tag (the current version is the
/// target model itself), converts straight into the target model: its path is
/// a single step from its own type to the target type.
pub proof fn law_jump_to_undeclared_current_is_direct(
    input: BackwardsCompatInput,
    plan: DagPlan,
    i: int,
    nt: VersionTag,
)
    requires
        dag_resolved(input, plan),
        0 <= i < input.versions@.len(),
        input.versions@[i].explicit_next == Some(nt),
        tags_match(nt, input.current_version),
        forall|j: int|
            0 <= j < input.versions@.len() ==> !tags_match(
                #[trigger] input.versions@[j].tag,
                input.current_version,
            ),
    ensures
        plan.paths@[i].steps@.len() == 1,
        plan.paths@[i].steps@[0].from_ty@ == input.versions@[i].ty@,
        plan.paths@[i].steps@[0].to_ty@ == input.target_ty@,
{
    let vs = input.versions@;
    let cur = input.current_version;
    let next = next_seq(vs, cur);
    assert(!exists|k: int| is_first_match(vs, cur, k));
    assert(first_match(vs, cur) is None);
    assert(!tags_match(nt, vs[i].tag)) by {
        assert(!tags_match(vs[i].tag, cur));
    }
    assert(next[i] == NextTarget::TerminalTarget);
    let steps = plan.paths@[i].steps@;
    assert(path_correct(vs, next, input.target_ty@, i, steps));
    assert(walk(next, i, 0) == Some(i));
    assert(walk(next, i, 1) is None);
    if steps.len() > 1 {
        assert(path_step_ok(vs, next, input.target_ty@, i, steps, 1));
    }
    assert(path_step_ok(vs, next, input.target_ty@, i, steps, 0));
}

/// A version whose explicit transition names the current version, when the
/// current version is declared (first at `t`, another version), migrates to
/// that declared version: its path's first step converts into `t`'s type.
pub proof fn law_jump_to_declared_current(
    input: BackwardsCompatInput,
    plan: DagPlan,
    i: int,
    nt: VersionTag,
    t: int,
)
    requires
        dag_resolved(input, plan),
        0 <= i < input.versions@.len(),
        input.versions@[i].explicit_next == Some(nt),
        !tags_match(nt, input.versions@[i].tag),
        tags_match(nt, input.current_version),
        0 <= t < input.versions@.len(),
        t != i,
        tags_match(input.versions@[t].tag, input.current_version),
        forall|j: int| 0 <= j < t ==> !tags_match(#[trigger] input.versions@[j].tag, input.current_version),
    ensures
        plan.paths@[i].steps@[0].from_ty@ == input.versions@[i].ty@,
        plan.paths@[i].steps@[0].to_ty@ == input.versions@[t].ty@,
        plan.paths@[i].steps@.len() >= 2,
{
    let vs = input.versions@;
    let cur = input.current_version;
    let next = next_seq(vs, cur);
    assert(is_first_match(vs, cur, t));
    assert(first_match(vs, cur) == Some(t)) by {
        let k = choose|k: int| is_first_match(vs, cur, k);
        assert(is_first_match(vs, cur, k));
        if k < t {
            assert(!tags_match(vs[k].tag, cur));
        }
        if t < k {
            assert(!tags_match(vs[t].tag, cur));
        }
    }
    assert(next[i] == NextTarget::VersionIndex(t as usize));
    let steps = plan.paths@[i].steps@;
    assert(path_correct(vs, next, input.target_ty@, i, steps));
    assert(walk(next, i, 0) == Some(i));
    assert(walk(next, i, 1) == Some(t));
    assert(path_step_ok(vs, next, input.target_ty@, i, steps, 0));
    if steps.len() == 1 {
        assert(walk(next, i, 1) is None);
    }
}

/// The last version, without an explicit transition and other than the
/// current version, migrates to the current version when that one is declared
/// (first at `t`), and converts straight into the target model otherwise.
pub proof fn law_last_version_goes_to_current(input: BackwardsCompatInput, plan: DagPlan)
    requires
        dag_resolved(input, plan),
        input.versions@.len() > 0,
        input.versions@.last().explicit_next is None,
        !tags_match(input.versions@.last().tag, input.current_version),
    ensures
        ({
            let vs = input.versions@;
            let i = vs.len() - 1;
            let steps = plan.paths@[i].steps@;
            &&& steps[0].from_ty@ == vs[i].ty@
            &&& (forall|j: int| 0 <= j < vs.len() ==> !tags_match(#[trigger] vs[j].tag, input.current_version))
                ==> steps.len() == 1 && steps[0].to_ty@ == input.target_ty@
            &&& forall|t: int|
                0 <= t < vs.len() && tags_match(vs[t].tag, input.current_version) && (forall|j: int|
                    0 <= j < t ==> !tags_match(#[trigger] vs[j].tag, input.current_version))
                    ==> #[trigger] vs[t].ty@ == steps[0].to_ty@
        }),
{
    let vs = input.versions@;
    let cur = input.current_version;
    let next = next_seq(vs, cur);
    let i = vs.len() - 1;
    let steps = plan.paths@[i].steps@;
    assert(path_correct(vs, next, input.target_ty@, i, steps));
    assert(walk(next, i, 0) == Some(i));
    assert(path_step_ok(vs, next, input.target_ty@, i, steps, 0));
    if forall|j: int| 0 <= j < vs.len() ==> !tags_match(#[trigger] vs[j].tag, cur) {
        assert(!exists|k: int| is_first_match(vs, cur, k));
        assert(next[i] == NextTarget::TerminalTarget);
        assert(walk(next, i, 1) is None);
        if steps.len() > 1 {
            assert(path_step_ok(vs, next, input.target_ty@, i, steps, 1));
        }
    }
    assert forall|t: int|
        0 <= t < vs.len() && tags_match(vs[t].tag, cur) && (forall|j: int|
            0 <= j < t ==> !tags_match(#[trigger] vs[j].tag, cur)) implies #[trigger] vs[t].ty@
        == steps[0].to_ty@ by {
        assert(is_first_match(vs, cur, t));
        let k = choose|k: int| is_first_match(vs, cur, k);
        assert(is_first_match(vs, cur, k));
        if k < t {
            assert(!tags_match(vs[k].tag, cur));
        }
        if t < k {
            assert(!tags_match(vs[t].tag, cur));
        }
        assert(first_match(vs, cur) == Some(t));
        assert(t != i);
        assert(next[i] == NextTarget::VersionIndex(t as usize));
        assert(walk(next, i, 1) == Some(t));
        if steps.len() == 1 {
            assert(walk(next, i, 1) is None);
        }
    }
}

/// A version with no explicit transition that is neither the current version
/// nor the last one migrates to the version declared after it.
pub proof fn law_default_transition_is_next_version(vs: Seq<VersionEntry>, cur: VersionTag, i: int)
    requires
        0 <= i < vs.len() - 1,
        vs[i].explicit_next is None,
        !tags_match(vs[i].tag, cur),
    ensures
        next_spec(vs, cur, i) == Ok::<NextTarget, (ErrorKind, Seq<char>)>(
            NextTarget::VersionIndex((i + 1) as usize),
        ),
{
}

/// An explicit transition `=> t` (to a tag that is neither the version's own
/// nor the current version's) migrates to the first version whose tag matches
/// `t`, skipping the versions in between; it is refused when no version has
/// that tag.
pub proof fn law_explicit_transition_jumps(vs: Seq<VersionEntry>, cur: VersionTag, i: int, nt: VersionTag)
    requires
        0 <= i < vs.len(),
        vs[i].explicit_next == Some(nt),
        !tags_match(nt, vs[i].tag),
        !tags_match(nt, cur),
    ensures
        match first_match(vs, nt) {
            Some(t) => next_spec(vs, cur, i) == Ok::<NextTarget, (ErrorKind, Seq<char>)>(
                NextTarget::VersionIndex(t as usize),
            ),
            None => next_spec(vs, cur, i) == Err::<NextTarget, (ErrorKind, Seq<char>)>(
                (ErrorKind::MissingTarget, tag_text(nt)),
            ),
        },
{
}

/// A transition to the version's own tag is refused as a self-loop.
pub proof fn law_self_transition_refused(vs: Seq<VersionEntry>, cur: VersionTag, i: int, nt: VersionTag)
    requires
        0 <= i < vs.len(),
        vs[i].explicit_next == Some(nt),
        tags_match(nt, vs[i].tag),
    ensures
        next_spec(vs, cur, i) == Err::<NextTarget, (ErrorKind, Seq<char>)>(
            (ErrorKind::SelfLoop, tag_text(vs[i].tag)),
        ),
{
}

proof fn lemma_terminates_through(next: Seq<NextTarget>, j: int, s: int)
    requires
        succ(next, j) == Some(s),
        terminates(next, s),
    ensures
        terminates(next, j),
{
    let k = choose|k: nat| #[trigger] walk(next, s, k) is None;
    assert(walk(next, j, 0) == Some(j));
    assert(walk(next, j, 1) == Some(s));
    lemma_walk_shift(next, j, 1, k);
    assert(walk(next, j, 1 + k) is None);
}

proof fn lemma_terminal_terminates(next: Seq<NextTarget>, j: int)
    requires
        0 <= j < next.len(),
        next[j] == NextTarget::TerminalTarget,
    ensures
        terminates(next, j),
{
    assert(walk(next, j, 0) == Some(j));
    assert(walk(next, j, 1) is None);
}

proof fn lemma_chain_after_current(vs: Seq<VersionEntry>, cur: VersionTag, j: int)
    requires
        0 <= j < vs.len() <= usize::MAX,
        forall|i: int| 0 <= i < vs.len() ==> (#[trigger] vs[i]).explicit_next is None,
        match first_match(vs, cur) {
            Some(t) => t <= j,
            None => true,
        },
    ensures
        terminates(next_seq(vs, cur), j),
    decreases vs.len() - j,
{
    let next = next_seq(vs, cur);
    let v = vs[j];
    assert(v.explicit_next is None);
    if tags_match(v.tag, cur) {
        lemma_terminal_terminates(next, j);
    } else if j + 1 < vs.len() {
        lemma_chain_after_current(vs, cur, j + 1);
        lemma_terminates_through(next, j, j + 1);
    } else {
        match first_match(vs, cur) {
            Some(t) => {
                assert(is_first_match(vs, cur, choose|i: int| is_first_match(vs, cur, i)));
                assert(t != j);
                assert(vs[t].explicit_next is None);
                lemma_terminal_terminates(next, t);
                lemma_terminates_through(next, j, t);
            },
            None => {
                lemma_terminal_terminates(next, j);
            },
        }
    }
}

proof fn lemma_chain_before_current(vs: Seq<VersionEntry>, cur: VersionTag, j: int, t: int)
    requires
        0 <= j < t,
        vs.len() <= usize::MAX,
        forall|i: int| 0 <= i < vs.len() ==> (#[trigger] vs[i]).explicit_next is None,
        first_match(vs, cur) == Some(t),
        is_first_match(vs, cur, t),
    ensures
        terminates(next_seq(vs, cur), j),
    decreases t - j,
{
    let next = next_seq(vs, cur);
    assert(!tags_match(vs[j].tag, cur));
    assert(vs[j].explicit_next is None);
    if j + 1 == t {
        lemma_chain_after_current(vs, cur, t);
    } else {
        lemma_chain_before_current(vs, cur, j + 1, t);
    }
    lemma_terminates_through(next, j, j + 1);
}

/// A declaration without explicit transitions (a sequential chain
/// `1 -> 2 -> ... -> N`) always resolves: no version is refused, and the
/// migration from every version reaches the target model.
pub proof fn law_sequential_chain_resolves(vs: Seq<VersionEntry>, cur: VersionTag)
    requires
        0 < vs.len() <= usize::MAX,
        forall|i: int| 0 <= i < vs.len() ==> (#[trigger] vs[i]).explicit_next is None,
    ensures
        forall|i: int| !fault_at(vs, cur, i),
        forall|i: int| 0 <= i < vs.len() ==> terminates(next_seq(vs, cur), i),
{
    assert forall|i: int| !fault_at(vs, cur, i) by {
        if 0 <= i < vs.len() {
            assert(vs[i].explicit_next is None);
        }
    }
    assert forall|i: int| 0 <= i < vs.len() implies terminates(next_seq(vs, cur), i) by {
        match first_match(vs, cur) {
            Some(t) => {
                assert(is_first_match(vs, cur, choose|i: int| is_first_match(vs, cur, i)));
                if i < t {
                    lemma_chain_before_current(vs, cur, i, t);
                } else {
                    lemma_chain_after_current(vs, cur, i);
                }
            },
            None => {
                lemma_chain_after_current(vs, cur, i);
            },
        }
    }
}

} // verus!
