use vstd::prelude::*;
use crate::classify::{is_match, VerdictKind, VerdictRecord};
use crate::kinds::BugClass;
use crate::bytes::bytes_eq;
use crate::text::{slice_of, views_of};

verus! {

/// The number of verdicts that satisfy `keep`.
pub open spec fn count_where(vs: Seq<VerdictRecord>, keep: spec_fn(VerdictRecord) -> bool) -> nat
    decreases vs.len(),
{
    if vs.len() == 0 {
        0
    } else {
        count_where(vs.drop_last(), keep) + if keep(vs.last()) { 1nat } else { 0nat }
    }
}

/// The case ids, in order, of the verdicts that satisfy `keep`.
pub open spec fn ids_where(vs: Seq<VerdictRecord>, keep: spec_fn(VerdictRecord) -> bool) -> Seq<u64>
    decreases vs.len(),
{
    if vs.len() == 0 {
        Seq::empty()
    } else {
        let rest = ids_where(vs.drop_last(), keep);
        if keep(vs.last()) {
            rest.push(vs.last().case_id)
        } else {
            rest
        }
    }
}

/// Whether a verdict fails the run: it is no match and its case is not an
/// accepted flaky one.
pub open spec fn fails_run(v: VerdictRecord, accepted_flaky: Seq<u64>) -> bool {
    !is_match(v.kind) && !accepted_flaky.contains(v.case_id)
}

proof fn lemma_count_bound(vs: Seq<VerdictRecord>, keep: spec_fn(VerdictRecord) -> bool)
    ensures
        count_where(vs, keep) <= vs.len(),
    decreases vs.len(),
{
    if vs.len() > 0 {
        lemma_count_bound(vs.drop_last(), keep);
    }
}

/// The number of verdicts of a given kind.
pub fn count_kind(vs: &[VerdictRecord], k: VerdictKind) -> (r: usize)
    ensures
        r == count_where(vs@, |v: VerdictRecord| v.kind == k),
{
    let ghost keep = |v: VerdictRecord| v.kind == k;
    let mut r: usize = 0;
    let mut i: usize = 0;
    while i < vs.len()
        invariant
            0 <= i <= vs@.len(),
            keep == (|v: VerdictRecord| v.kind == k),
            r == count_where(vs@.subrange(0, i as int), keep),
        decreases vs@.len() - i,
    {
        assert(vs@.subrange(0, i + 1).drop_last() =~= vs@.subrange(0, i as int));
        proof {
            lemma_count_bound(vs@.subrange(0, i as int), keep);
        }
        if vs[i].kind == k {
            r = r + 1;
        }
        i = i + 1;
    }
    assert(vs@.subrange(0, i as int) =~= vs@);
    r
}

/// Whether a verdict's case declares class `c`.
fn verdict_declares(v: &VerdictRecord, c: BugClass) -> (r: bool)
    ensures
        r == v.expected_classes@.contains(c),
{
    let mut i: usize = 0;
    while i < v.expected_classes.len()
        invariant
            0 <= i <= v.expected_classes@.len(),
            forall|k: int| 0 <= k < i ==> v.expected_classes@[k] != c,
        decreases v.expected_classes@.len() - i,
    {
        if v.expected_classes[i] == c {
            return true;
        }
        i = i + 1;
    }
    false
}

/// The number of verdicts whose case declares class `c`.
pub fn count_class(vs: &[VerdictRecord], c: BugClass) -> (r: usize)
    ensures
        r == count_where(vs@, |v: VerdictRecord| v.expected_classes@.contains(c)),
{
    let ghost keep = |v: VerdictRecord| v.expected_classes@.contains(c);
    let mut r: usize = 0;
    let mut i: usize = 0;
    while i < vs.len()
        invariant
            0 <= i <= vs@.len(),
            keep == (|v: VerdictRecord| v.expected_classes@.contains(c)),
            r == count_where(vs@.subrange(0, i as int), keep),
        decreases vs@.len() - i,
    {
        assert(vs@.subrange(0, i + 1).drop_last() =~= vs@.subrange(0, i as int));
        proof {
            lemma_count_bound(vs@.subrange(0, i as int), keep);
        }
        if verdict_declares(&vs[i], c) {
            r = r + 1;
        }
        i = i + 1;
    }
    assert(vs@.subrange(0, i as int) =~= vs@);
    r
}

fn id_listed(ids: &[u64], id: u64) -> (r: bool)
    ensures
        r == ids@.contains(id),
{
    let mut i: usize = 0;
    while i < ids.len()
        invariant
            0 <= i <= ids@.len(),
            forall|k: int| 0 <= k < i ==> ids@[k] != id,
        decreases ids@.len() - i,
    {
        if ids[i] == id {
            return true;
        }
        i = i + 1;
    }
    false
}

/// The ids, in report order, of the cases that fail the run.
pub fn failing_ids(vs: &[VerdictRecord], accepted_flaky: &[u64]) -> (r: Vec<u64>)
    ensures
        r@ == ids_where(vs@, |v: VerdictRecord| fails_run(v, accepted_flaky@)),
{
    let ghost keep = |v: VerdictRecord| fails_run(v, accepted_flaky@);
    let mut r: Vec<u64> = Vec::new();
    let mut i: usize = 0;
    while i < vs.len()
        invariant
            0 <= i <= vs@.len(),
            keep == (|v: VerdictRecord| fails_run(v, accepted_flaky@)),
            r@ == ids_where(vs@.subrange(0, i as int), keep),
        decreases vs@.len() - i,
    {
        assert(vs@.subrange(0, i + 1).drop_last() =~= vs@.subrange(0, i as int));
        if !vs[i].matched() && !id_listed(accepted_flaky, vs[i].case_id) {
            r.push(vs[i].case_id);
        }
        i = i + 1;
    }
    assert(vs@.subrange(0, i as int) =~= vs@);
    r
}

proof fn lemma_no_ids_none_fail(vs: Seq<VerdictRecord>, keep: spec_fn(VerdictRecord) -> bool)
    ensures
        ids_where(vs, keep).len() == 0 <==> forall|i: int| 0 <= i < vs.len() ==> !keep(#[trigger] vs[i]),
    decreases vs.len(),
{
    if vs.len() > 0 {
        lemma_no_ids_none_fail(vs.drop_last(), keep);
        if ids_where(vs, keep).len() == 0 {
            assert forall|i: int| 0 <= i < vs.len() implies !keep(#[trigger] vs[i]) by {
                if i < vs.len() - 1 {
                    assert(vs.drop_last()[i] == vs[i]);
                }
            }
        } else {
            if forall|i: int| 0 <= i < vs.len() ==> !keep(#[trigger] vs[i]) {
                assert forall|i: int| 0 <= i < vs.drop_last().len() implies !keep(#[trigger] vs.drop_last()[i]) by {
                    assert(vs.drop_last()[i] == vs[i]);
                }
                assert(!keep(vs[vs.len() - 1]));
            }
        }
    }
}

/// The corpus-level tally of one run.
pub struct Summary {
    pub total: usize,
    pub matched: usize,
    pub attested: usize,
    pub mismatched: usize,
    pub build_failed: usize,
    /// Counts of cases by declared class, one entry for each class.
    pub by_class: Vec<(BugClass, usize)>,
    /// The cases that fail the run, in report order.
    pub failing: Vec<u64>,
    /// Whether the run as a whole passes.
    pub passed: bool,
}

/// The classes in the order in which a summary lists them.
pub open spec fn class_order() -> Seq<BugClass> {
    seq![
        BugClass::SendSyncVariance,
        BugClass::PanicSafety,
        BugClass::UninitExposure,
        BugClass::InconsistencyAmplification,
        BugClass::Other,
    ]
}

/// Tallies the verdicts of one run, given in report order, with the ids
/// of the cases whose flakiness is accepted.
pub fn summarize(vs: &[VerdictRecord], accepted_flaky: &[u64]) -> (s: Summary)
    ensures
        s.total == vs@.len(),
        s.matched == count_where(vs@, |v: VerdictRecord| v.kind == VerdictKind::Matched),
        s.attested == count_where(vs@, |v: VerdictRecord| v.kind == VerdictKind::Attested),
        s.mismatched == count_where(vs@, |v: VerdictRecord| v.kind == VerdictKind::Mismatched),
        s.build_failed == count_where(vs@, |v: VerdictRecord| v.kind == VerdictKind::BuildFailed),
        s.by_class@.len() == 5,
        forall|i: int| 0 <= i < 5 ==> #[trigger] s.by_class@[i] == (class_order()[i], count_where(
            vs@,
            |v: VerdictRecord| v.expected_classes@.contains(class_order()[i]),
        ) as usize),
        s.failing@ == ids_where(vs@, |v: VerdictRecord| fails_run(v, accepted_flaky@)),
        s.passed == forall|i: int| 0 <= i < vs@.len() ==> !fails_run(#[trigger] vs@[i], accepted_flaky@),
{
    let mut by_class: Vec<(BugClass, usize)> = Vec::new();
    by_class.push((BugClass::SendSyncVariance, count_class(vs, BugClass::SendSyncVariance)));
    by_class.push((BugClass::PanicSafety, count_class(vs, BugClass::PanicSafety)));
    by_class.push((BugClass::UninitExposure, count_class(vs, BugClass::UninitExposure)));
    by_class.push((BugClass::InconsistencyAmplification, count_class(vs, BugClass::InconsistencyAmplification)));
    by_class.push((BugClass::Other, count_class(vs, BugClass::Other)));
    let failing = failing_ids(vs, accepted_flaky);
    proof {
        lemma_no_ids_none_fail(vs@, |v: VerdictRecord| fails_run(v, accepted_flaky@));
    }
    let passed = failing.len() == 0;
    Summary {
        total: vs.len(),
        matched: count_kind(vs, VerdictKind::Matched),
        attested: count_kind(vs, VerdictKind::Attested),
        mismatched: count_kind(vs, VerdictKind::Mismatched),
        build_failed: count_kind(vs, VerdictKind::BuildFailed),
        by_class,
        failing,
        passed,
    }
}

/// Two verdicts on the same case whose observed outcomes differ.
pub open spec fn differs(a: VerdictRecord, b: VerdictRecord) -> bool {
    a.case_id == b.case_id && a.observed_outcome_kind != b.observed_outcome_kind
}

/// The ids of the flaky cases among the first `n` positions of two runs.
pub open spec fn flaky_upto(a: Seq<VerdictRecord>, b: Seq<VerdictRecord>, n: int) -> Seq<u64>
    decreases n,
{
    if n <= 0 {
        Seq::empty()
    } else {
        let rest = flaky_upto(a, b, n - 1);
        if differs(a[n - 1], b[n - 1]) {
            rest.push(a[n - 1].case_id)
        } else {
            rest
        }
    }
}

/// The ids, in report order, of the cases whose outcome differs between two
/// runs reported in the same order.
pub fn flaky_ids(first: &[VerdictRecord], second: &[VerdictRecord]) -> (r: Vec<u64>)
    ensures
        r@ == flaky_upto(first@, second@, if first@.len() <= second@.len() { first@.len() as int } else { second@.len() as int }),
{
    let n: usize = if first.len() <= second.len() { first.len() } else { second.len() };
    let mut r: Vec<u64> = Vec::new();
    let mut i: usize = 0;
    while i < n
        invariant
            n <= first@.len(),
            n <= second@.len(),
            0 <= i <= n,
            r@ == flaky_upto(first@, second@, i as int),
        decreases n - i,
    {
        if first[i].case_id == second[i].case_id && first[i].observed_outcome_kind != second[i].observed_outcome_kind {
            r.push(first[i].case_id);
        }
        i = i + 1;
    }
    r
}

/// The case ids of a sequence of verdicts, in order.
pub open spec fn verdict_ids(vs: Seq<VerdictRecord>) -> Seq<u64> {
    vs.map_values(|v: VerdictRecord| v.case_id)
}

/// No id occurs twice.
pub open spec fn distinct(ids: Seq<u64>) -> bool {
    forall|i: int, j: int| 0 <= i < j < ids.len() ==> ids[i] != ids[j]
}

fn position_of(vs: &Vec<VerdictRecord>, id: u64) -> (r: Option<usize>)
    ensures
        r matches Some(p) ==> p < vs@.len() && vs@[p as int].case_id == id,
        r is None ==> !verdict_ids(vs@).contains(id),
{
    let mut i: usize = 0;
    while i < vs.len()
        invariant
            0 <= i <= vs@.len(),
            forall|k: int| 0 <= k < i ==> vs@[k].case_id != id,
        decreases vs@.len() - i,
    {
        if vs[i].case_id == id {
            return Some(i);
        }
        i = i + 1;
    }
    assert forall|k: int| 0 <= k < verdict_ids(vs@).len() implies verdict_ids(vs@)[k] != id by {
        assert(verdict_ids(vs@)[k] == vs@[k].case_id);
    }
    None
}

/// Puts the verdicts of a run, given in the order in which their cases
/// finished, into report order: the order of `order`, the registry's.
/// Fails with the first id of `order` that has no verdict left.
pub fn arrange(order: &[u64], finished: Vec<VerdictRecord>) -> (r: Result<Vec<VerdictRecord>, u64>)
    ensures
        r matches Ok(vs) ==> verdict_ids(vs@) == order@ && forall|i: int| 0 <= i < vs@.len() ==> finished@.contains(#[trigger] vs@[i]),
        r matches Err(id) ==> order@.contains(id),
        distinct(order@) && (forall|i: int| 0 <= i < order@.len() ==> verdict_ids(finished@).contains(#[trigger] order@[i])) ==> r is Ok,
{
    let ghost orig = finished@;
    let mut rest = finished;
    let mut out: Vec<VerdictRecord> = Vec::new();
    let mut i: usize = 0;
    while i < order.len()
        invariant
            0 <= i <= order@.len(),
            orig == finished@,
            verdict_ids(out@) == order@.subrange(0, i as int),
            forall|k: int| 0 <= k < out@.len() ==> orig.contains(#[trigger] out@[k]),
            forall|k: int| 0 <= k < rest@.len() ==> orig.contains(#[trigger] rest@[k]),
            distinct(order@) && (forall|k: int| 0 <= k < order@.len() ==> verdict_ids(orig).contains(#[trigger] order@[k]))
                ==> forall|k: int| i <= k < order@.len() ==> verdict_ids(rest@).contains(#[trigger] order@[k]),
        decreases order@.len() - i,
    {
        match position_of(&rest, order[i]) {
            None => {
                proof {
                    assert(order@.contains(order@[i as int]));
                    if distinct(order@) && (forall|k: int| 0 <= k < order@.len() ==> verdict_ids(orig).contains(#[trigger] order@[k])) {
                        assert(verdict_ids(rest@).contains(order@[i as int]));
                    }
                }
                return Err(order[i]);
            },
            Some(p) => {
                let ghost before = rest@;
                let v = rest.remove(p);
                proof {
                    assert(before.contains(before[p as int]));
                    assert forall|k: int| 0 <= k < rest@.len() implies orig.contains(#[trigger] rest@[k]) by {
                        if k < p {
                            assert(rest@[k] == before[k]);
                            assert(before.contains(before[k]));
                        } else {
                            assert(rest@[k] == before[k + 1]);
                            assert(before.contains(before[k + 1]));
                        }
                    }
                    if distinct(order@) && (forall|k: int| 0 <= k < order@.len() ==> verdict_ids(orig).contains(#[trigger] order@[k])) {
                        assert forall|k: int| i + 1 <= k < order@.len() implies verdict_ids(rest@).contains(#[trigger] order@[k]) by {
                            assert(verdict_ids(before).contains(order@[k]));
                            let q = choose|q: int| 0 <= q < verdict_ids(before).len() && verdict_ids(before)[q] == order@[k];
                            assert(order@[k] != order@[i as int]);
                            assert(verdict_ids(before)[q] == before[q].case_id);
                            assert(q != p);
                            if q < p {
                                assert(verdict_ids(rest@)[q] == order@[k]);
                            } else {
                                assert(verdict_ids(rest@)[q - 1] == order@[k]);
                            }
                        }
                    }
                }
                let ghost old_out = out@;
                out.push(v);
                proof {
                    assert(old_out.len() == verdict_ids(old_out).len());
                    assert(out@.len() == i + 1);
                    assert forall|k: int| 0 <= k < out@.len() implies verdict_ids(out@)[k] == order@.subrange(0, i + 1)[k] by {
                        if k < old_out.len() {
                            assert(out@[k] == old_out[k]);
                            assert(verdict_ids(old_out)[k] == old_out[k].case_id);
                        } else {
                            assert(v.case_id == order@[i as int]);
                        }
                    }
                    assert(verdict_ids(out@) =~= order@.subrange(0, i + 1));
                    assert forall|k: int| 0 <= k < out@.len() implies orig.contains(#[trigger] out@[k]) by {
                        if k == out@.len() - 1 {
                            assert(out@[k] == before[p as int]);
                        }
                    }
                }
                i = i + 1;
            },
        }
    }
    assert(order@.subrange(0, i as int) =~= order@);
    Ok(out)
}

/// The order of a report is the registry's: two runs whose cases finished in
/// different orders, once arranged, list the same cases in the same order.
pub proof fn lemma_report_order_fixed(order: Seq<u64>, first: Seq<VerdictRecord>, second: Seq<VerdictRecord>)
    requires
        verdict_ids(first) == order,
        verdict_ids(second) == order,
    ensures
        first.len() == second.len(),
        forall|i: int| 0 <= i < first.len() ==> #[trigger] first[i].case_id == second[i].case_id,
{
    assert(first.len() == verdict_ids(first).len());
    assert(second.len() == verdict_ids(second).len());
    assert forall|i: int| 0 <= i < first.len() implies #[trigger] first[i].case_id == second[i].case_id by {
        assert(verdict_ids(first)[i] == first[i].case_id);
        assert(verdict_ids(second)[i] == second[i].case_id);
    }
}

/// Some verdict's case declares a finding by analyzer `a`.
pub open spec fn named_somewhere(vs: Seq<VerdictRecord>, a: Seq<u8>) -> bool {
    exists|q: int| 0 <= q < vs.len() && names_analyzer(#[trigger] vs[q], a)
}

/// Whether a verdict's case declares a finding by analyzer `a`.
pub open spec fn names_analyzer(v: VerdictRecord, a: Seq<u8>) -> bool {
    views_of(v.expected_analyzers@).contains(a)
}

fn verdict_names(v: &VerdictRecord, a: &[u8]) -> (r: bool)
    ensures
        r == names_analyzer(*v, a@),
{
    let mut i: usize = 0;
    while i < v.expected_analyzers.len()
        invariant
            0 <= i <= v.expected_analyzers@.len(),
            forall|k: int| 0 <= k < i ==> v.expected_analyzers@[k]@ != a@,
        decreases v.expected_analyzers@.len() - i,
    {
        if bytes_eq(v.expected_analyzers[i].as_slice(), a) {
            assert(views_of(v.expected_analyzers@)[i as int] == a@);
            return true;
        }
        i = i + 1;
    }
    assert forall|k: int| 0 <= k < views_of(v.expected_analyzers@).len() implies views_of(v.expected_analyzers@)[k] != a@ by {
        assert(views_of(v.expected_analyzers@)[k] == v.expected_analyzers@[k]@);
    }
    false
}

/// The number of verdicts whose case declares a finding by analyzer `a`.
pub fn count_analyzer(vs: &[VerdictRecord], a: &[u8]) -> (r: usize)
    ensures
        r == count_where(vs@, |v: VerdictRecord| names_analyzer(v, a@)),
{
    let ghost keep = |v: VerdictRecord| names_analyzer(v, a@);
    let mut r: usize = 0;
    let mut i: usize = 0;
    while i < vs.len()
        invariant
            0 <= i <= vs@.len(),
            keep == (|v: VerdictRecord| names_analyzer(v, a@)),
            r == count_where(vs@.subrange(0, i as int), keep),
        decreases vs@.len() - i,
    {
        assert(vs@.subrange(0, i + 1).drop_last() =~= vs@.subrange(0, i as int));
        proof {
            lemma_count_bound(vs@.subrange(0, i as int), keep);
        }
        if verdict_names(&vs[i], a) {
            r = r + 1;
        }
        i = i + 1;
    }
    assert(vs@.subrange(0, i as int) =~= vs@);
    r
}

fn listed_name(names: &Vec<(Vec<u8>, usize)>, a: &[u8]) -> (r: bool)
    ensures
        r == exists|k: int| 0 <= k < names@.len() && (#[trigger] names@[k]).0@ == a@,
{
    let mut i: usize = 0;
    while i < names.len()
        invariant
            0 <= i <= names@.len(),
            forall|k: int| 0 <= k < i ==> (#[trigger] names@[k]).0@ != a@,
        decreases names@.len() - i,
    {
        if bytes_eq(names[i].0.as_slice(), a) {
            return true;
        }
        i = i + 1;
    }
    false
}

/// Counts of verdicts by declared analyzer: one entry for each analyzer
/// that some verdict names, in order of first mention, with the number of
/// verdicts that name it.
pub fn count_by_analyzer(vs: &[VerdictRecord]) -> (r: Vec<(Vec<u8>, usize)>)
    ensures
        forall|i: int, j: int| 0 <= i < j < r@.len() ==> r@[i].0@ != r@[j].0@,
        forall|i: int| 0 <= i < r@.len() ==> (#[trigger] r@[i]).1 == count_where(
            vs@,
            |v: VerdictRecord| names_analyzer(v, r@[i].0@),
        ),
        forall|i: int| #![trigger r@[i]] 0 <= i < r@.len() ==> named_somewhere(vs@, r@[i].0@),
        forall|j: int, a: Seq<u8>| 0 <= j < vs@.len() && #[trigger] names_analyzer(vs@[j], a) ==> exists|i: int|
            0 <= i < r@.len() && (#[trigger] r@[i]).0@ == a,
{
    let mut names: Vec<(Vec<u8>, usize)> = Vec::new();
    let mut j: usize = 0;
    while j < vs.len()
        invariant
            0 <= j <= vs@.len(),
            forall|i: int, k: int| 0 <= i < k < names@.len() ==> names@[i].0@ != names@[k].0@,
            forall|i: int| #![trigger names@[i]] 0 <= i < names@.len() ==> named_somewhere(vs@, names@[i].0@),
            forall|q: int, a: Seq<u8>| 0 <= q < j && #[trigger] names_analyzer(vs@[q], a) ==> exists|i: int|
                0 <= i < names@.len() && (#[trigger] names@[i]).0@ == a,
        decreases vs@.len() - j,
    {
        let v = &vs[j];
        let mut k: usize = 0;
        while k < v.expected_analyzers.len()
            invariant
                0 <= j < vs@.len(),
                *v == vs@[j as int],
                0 <= k <= v.expected_analyzers@.len(),
                forall|i: int, m: int| 0 <= i < m < names@.len() ==> names@[i].0@ != names@[m].0@,
                forall|i: int| #![trigger names@[i]] 0 <= i < names@.len() ==> named_somewhere(vs@, names@[i].0@),
                forall|q: int, a: Seq<u8>| 0 <= q < j && #[trigger] names_analyzer(vs@[q], a) ==> exists|i: int|
                    0 <= i < names@.len() && (#[trigger] names@[i]).0@ == a,
                forall|m: int| #![trigger v.expected_analyzers@[m]] 0 <= m < k ==> exists|i: int| 0 <= i < names@.len() && (#[trigger] names@[i]).0@ == v.expected_analyzers@[m]@,
            decreases v.expected_analyzers@.len() - k,
        {
            let a = &v.expected_analyzers[k];
            assert(views_of(v.expected_analyzers@)[k as int] == a@);
            assert(names_analyzer(vs@[j as int], a@));
            if !listed_name(&names, a.as_slice()) {
                let copy = slice_of(a.as_slice(), 0, a.len());
                let ghost before = names@;
                names.push((copy, 0));
                proof {
                    assert(names@[names@.len() - 1].0@ == a@);
                    assert forall|i: int| #![trigger names@[i]] 0 <= i < names@.len() implies named_somewhere(vs@, names@[i].0@) by {
                        if i < before.len() {
                            assert(names@[i] == before[i]);
                        } else {
                            assert(names_analyzer(vs@[j as int], names@[i].0@));
                        }
                    }
                    assert forall|q: int, b: Seq<u8>| 0 <= q < j && #[trigger] names_analyzer(vs@[q], b) implies exists|i: int|
                        0 <= i < names@.len() && (#[trigger] names@[i]).0@ == b by {
                        let i = choose|i: int| 0 <= i < before.len() && (#[trigger] before[i]).0@ == b;
                        assert(names@[i] == before[i]);
                    }
                    assert forall|m: int| #![trigger v.expected_analyzers@[m]] 0 <= m < k + 1 implies exists|i: int| 0 <= i < names@.len() && (#[trigger] names@[i]).0@ == v.expected_analyzers@[m]@ by {
                        if m < k {
                            let i = choose|i: int| 0 <= i < before.len() && (#[trigger] before[i]).0@ == v.expected_analyzers@[m]@;
                            assert(names@[i] == before[i]);
                        } else {
                            assert(names@[names@.len() - 1].0@ == v.expected_analyzers@[m]@);
                        }
                    }
                }
            }
            k = k + 1;
        }
        proof {
            assert forall|q: int, b: Seq<u8>| 0 <= q < j + 1 && #[trigger] names_analyzer(vs@[q], b) implies exists|i: int|
                0 <= i < names@.len() && (#[trigger] names@[i]).0@ == b by {
                if q == j {
                    let m = choose|m: int| 0 <= m < views_of(v.expected_analyzers@).len() && views_of(v.expected_analyzers@)[m] == b;
                    assert(views_of(v.expected_analyzers@)[m] == v.expected_analyzers@[m]@);
                }
            }
        }
        j = j + 1;
    }
    let mut r: Vec<(Vec<u8>, usize)> = Vec::new();
    let mut i: usize = 0;
    while i < names.len()
        invariant
            0 <= i <= names@.len(),
            r@.len() == i,
            forall|a: int, k: int| 0 <= a < k < names@.len() ==> names@[a].0@ != names@[k].0@,
            forall|a: int| #![trigger names@[a]] 0 <= a < names@.len() ==> named_somewhere(vs@, names@[a].0@),
            forall|q: int, b: Seq<u8>| 0 <= q < vs@.len() && #[trigger] names_analyzer(vs@[q], b) ==> exists|a: int|
                0 <= a < names@.len() && (#[trigger] names@[a]).0@ == b,
            forall|m: int| 0 <= m < i ==> (#[trigger] r@[m]).0@ == names@[m].0@,
            forall|m: int| 0 <= m < i ==> (#[trigger] r@[m]).1 == count_where(
                vs@,
                |v: VerdictRecord| names_analyzer(v, r@[m].0@),
            ),
        decreases names@.len() - i,
    {
        let name = slice_of(names[i].0.as_slice(), 0, names[i].0.len());
        let n = count_analyzer(vs, name.as_slice());
        r.push((name, n));
        i = i + 1;
    }
    proof {
        assert forall|a: int, b: int| 0 <= a < b < r@.len() implies r@[a].0@ != r@[b].0@ by {
            assert(r@[a].0@ == names@[a].0@);
            assert(r@[b].0@ == names@[b].0@);
        }
        assert forall|m: int| #![trigger r@[m]] 0 <= m < r@.len() implies named_somewhere(vs@, r@[m].0@) by {
            assert(r@[m].0@ == names@[m].0@);
        }
        assert forall|j: int, a: Seq<u8>| 0 <= j < vs@.len() && #[trigger] names_analyzer(vs@[j], a) implies exists|m: int|
            0 <= m < r@.len() && (#[trigger] r@[m]).0@ == a by {
            let m = choose|m: int| 0 <= m < names@.len() && (#[trigger] names@[m]).0@ == a;
            assert(r@[m].0@ == names@[m].0@);
        }
    }
    r
}

} // verus!
