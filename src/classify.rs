use vstd::prelude::*;
use crate::bytes::{contains, find_in};
use crate::case::{analyzers_of, classes_of, CaseDescriptor};
use crate::text::views_of;
use crate::kinds::{BugClass, OutcomeKind};

verus! {

/// What one run of a case produced.
pub struct ExecutionResult {
    pub case_id: u64,
    pub outcome_kind: OutcomeKind,
    /// The exit code, or the terminating signal, where there was one.
    pub exit_signal_or_code: Option<i32>,
    /// Standard output and error, cut at the capture limit.
    pub captured_output: Vec<u8>,
    /// Whether output beyond the capture limit was dropped.
    pub truncated: bool,
    pub wall_time_ms: u64,
    /// The case was not run because it carries no reproduction.
    pub skipped: bool,
}

/// The judgment on one case.
#[derive(Clone, Copy, Debug, PartialEq, Eq, Structural)]
pub enum VerdictKind {
    /// An observed outcome agrees with a declared finding.
    Matched,
    /// No reproduction was run: the report alone attests the finding.
    Attested,
    /// The observed outcome agrees with no declared finding.
    Mismatched,
    /// The case could not be built or started.
    BuildFailed,
}

/// The judgment on one case, with what was expected and what was seen.
pub struct VerdictRecord {
    pub case_id: u64,
    pub kind: VerdictKind,
    pub expected_classes: Vec<BugClass>,
    pub expected_analyzers: Vec<Vec<u8>>,
    pub observed_outcome_kind: OutcomeKind,
}

/// The text with which a failed assertion of a case announces itself.
pub open spec fn assertion_marker() -> Seq<u8> {
    seq![
        'a' as u8, 's' as u8, 's' as u8, 'e' as u8, 'r' as u8, 't' as u8, 'i' as u8, 'o' as u8,
        'n' as u8, ' ' as u8, 'f' as u8, 'a' as u8, 'i' as u8, 'l' as u8, 'e' as u8, 'd' as u8,
    ]
}

fn assertion_marker_bytes() -> (r: Vec<u8>)
    ensures
        r@ == assertion_marker(),
{
    let r = vec![
        'a' as u8, 's' as u8, 's' as u8, 'e' as u8, 'r' as u8, 't' as u8, 'i' as u8, 'o' as u8,
        'n' as u8, ' ' as u8, 'f' as u8, 'a' as u8, 'i' as u8, 'l' as u8, 'e' as u8, 'd' as u8,
    ];
    assert(r@ =~= assertion_marker());
    r
}

/// Whether a case's own post-condition check failed, as its output tells.
pub fn postcondition_failed(output: &[u8]) -> (r: bool)
    ensures
        r == contains(output@, assertion_marker()),
{
    let marker = assertion_marker_bytes();
    find_in(output, marker.as_slice())
}

/// Whether an observed outcome is a manifestation of a declared bug class.
/// `post_failed` says whether the case's own post-condition check failed.
pub open spec fn allows(c: BugClass, o: OutcomeKind, post_failed: bool) -> bool {
    match c {
        BugClass::SendSyncVariance | BugClass::UninitExposure => o == OutcomeKind::Crashed || o
            == OutcomeKind::SanitizerFlagged,
        BugClass::PanicSafety => o == OutcomeKind::Panicked && post_failed,
        BugClass::InconsistencyAmplification => o == OutcomeKind::TimedOut,
        BugClass::Other => false,
    }
}

/// Whether an observed outcome agrees with at least one declared class.
pub open spec fn consistent_with(classes: Seq<BugClass>, o: OutcomeKind, post_failed: bool) -> bool {
    exists|i: int| 0 <= i < classes.len() && allows(#[trigger] classes[i], o, post_failed)
}

/// The verdict on a run, by the classifier's rules in order of priority.
pub open spec fn verdict_of(
    skipped: bool,
    classes: Seq<BugClass>,
    o: OutcomeKind,
    post_failed: bool,
) -> VerdictKind {
    if skipped {
        VerdictKind::Attested
    } else if consistent_with(classes, o, post_failed) {
        VerdictKind::Matched
    } else if o == OutcomeKind::BuildFailed {
        VerdictKind::BuildFailed
    } else {
        VerdictKind::Mismatched
    }
}

/// Whether a verdict counts as a match.
pub open spec fn is_match(k: VerdictKind) -> bool {
    k == VerdictKind::Matched || k == VerdictKind::Attested
}

/// Whether an observed outcome is a manifestation of a declared bug class.
pub fn outcome_allowed(c: BugClass, o: OutcomeKind, post_failed: bool) -> (r: bool)
    ensures
        r == allows(c, o, post_failed),
{
    match c {
        BugClass::SendSyncVariance | BugClass::UninitExposure => o == OutcomeKind::Crashed || o
            == OutcomeKind::SanitizerFlagged,
        BugClass::PanicSafety => o == OutcomeKind::Panicked && post_failed,
        BugClass::InconsistencyAmplification => o == OutcomeKind::TimedOut,
        BugClass::Other => false,
    }
}

/// Whether an observed outcome agrees with at least one declared class.
pub fn outcome_consistent(classes: &[BugClass], o: OutcomeKind, post_failed: bool) -> (r: bool)
    ensures
        r == consistent_with(classes@, o, post_failed),
{
    let mut i: usize = 0;
    while i < classes.len()
        invariant
            0 <= i <= classes@.len(),
            forall|j: int| 0 <= j < i ==> !allows(#[trigger] classes@[j], o, post_failed),
        decreases classes@.len() - i,
    {
        if outcome_allowed(classes[i], o, post_failed) {
            return true;
        }
        i = i + 1;
    }
    false
}

/// Judges one run of a case against the findings it declares.
pub fn classify(case: &CaseDescriptor, result: &ExecutionResult) -> (v: VerdictRecord)
    ensures
        v.case_id == case.id,
        v.expected_classes@ == classes_of(case.expected_bugs@),
        views_of(v.expected_analyzers@) == analyzers_of(case.expected_bugs@),
        v.observed_outcome_kind == result.outcome_kind,
        v.kind == verdict_of(
            result.skipped,
            classes_of(case.expected_bugs@),
            result.outcome_kind,
            contains(result.captured_output@, assertion_marker()),
        ),
{
    let classes = case.declared_classes();
    let post_failed = postcondition_failed(result.captured_output.as_slice());
    let kind = if result.skipped {
        VerdictKind::Attested
    } else if outcome_consistent(classes.as_slice(), result.outcome_kind, post_failed) {
        VerdictKind::Matched
    } else if result.outcome_kind == OutcomeKind::BuildFailed {
        VerdictKind::BuildFailed
    } else {
        VerdictKind::Mismatched
    };
    VerdictRecord {
        case_id: case.id,
        kind,
        expected_classes: classes,
        expected_analyzers: case.declared_analyzers(),
        observed_outcome_kind: result.outcome_kind,
    }
}

impl VerdictRecord {
    /// Whether the case counts as matched.
    pub fn matched(&self) -> (r: bool)
        ensures
            r == is_match(self.kind),
    {
        self.kind == VerdictKind::Matched || self.kind == VerdictKind::Attested
    }
}

} // verus!
