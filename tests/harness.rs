use poc_corpus::case::CaseDescriptor;
use poc_corpus::classify::{classify, postcondition_failed, ExecutionResult, VerdictKind, VerdictRecord};
use poc_corpus::metadata::{case_id_from_name, parse_case, MetadataError};
use poc_corpus::poc::{IncorrectIterator, MyRead};
use poc_corpus::registry::{Registry, RegistryError};
use poc_corpus::report::{arrange, count_by_analyzer, flaky_ids, summarize};
use poc_corpus::runner::{plan, skipped_result, step, Action, Event, OutputCapture, RunLimits, RunPlan, Supervision};
use poc_corpus::values::{list_items, parse_decimal, unquoted};
use poc_corpus::{BugClass, OutcomeKind};

const BUNCH: &str = r#"/*!
```rudra-poc
[target]
crate = "bunch"
version = "0.1.0"

[report]
issue_url = "https://github.com/krl/bunch/issues/1"
issue_date = 2020-11-12

[[bugs]]
analyzer = "SendSyncVariance"
bug_class = "SendSyncVariance"
bug_count = 2
```
!*/
fn main() {}
"#;

const ABI_STABLE: &str = r#"/*!
```rudra-poc
[target]
crate = "abi_stable"
version = "0.9.0"
indexed_version = "0.8.3"

[report]
issue_url = "https://github.com/rodrimati1992/abi_stable_crates/issues/44"
issue_date = 2020-12-21
rustsec_url = "https://github.com/RustSec/advisory-db/pull/609"
rustsec_id = "RUSTSEC-2020-0105"

[[bugs]]
analyzer = "UnsafeDataflow"
bug_class = "PanicSafety"
bug_count = 2
rudra_report_locations = [
    "src/std_types/vec/iters.rs:294:5: 312:6",
    "src/std_types/string.rs:613:5: 646:6",
]
```
!*/
#![forbid(unsafe_code)]

fn main() {
    panic!("This issue was reported without PoC");
}
"#;

const BRA: &str = r#"/*!
```rudra-poc
[target]
crate = "bra"
version = "0.1.0"

[test]
analyzers = ["UnsafeDataflow"]
bug_classes = ["UninitExposure"]

[report]
issue_url = "https://github.com/Enet4/bra-rs/issues/1"
issue_date = 2021-01-02
rustsec_url = "https://github.com/RustSec/advisory-db/pull/586"
rustsec_id = "RUSTSEC-2021-0008"
unique_bugs = 1
```
!*/
fn main() {
    panic!("This issue was reported without PoC");
}
"#;

const STACKVECTOR: &str = r#"/*!
```rudra-poc
[target]
crate = "stackvector"
version = "1.0.8"

[report]
issue_date = 2021-02-19
issue_url = "https://github.com/Alexhuszagh/rust-stackvector/issues/2"
rustsec_url = "https://github.com/RustSec/advisory-db/pull/847"

[[bugs]]
analyzer = "UnsafeDataflow"
bug_class = "InconsistencyAmplification"
rudra_report_locations = ["src/lib.rs:896:5: 920:6"]
```
!*/
fn main() {}
"#;

const ARRAY_TOOLS: &str = r#"/*!
```rudra-poc
[target]
crate = "array-tools"
version = "0.2.10"

[test]
cargo_toolchain = "nightly"

[report]
issue_url = "https://github.com/L117/array-tools/issues/2"
issue_date = 2020-12-31

[[bugs]]
analyzer = "UnsafeDataflow"
bug_class = "PanicSafety"
```
!*/
fn main() {
    panic!("This issue was reported without PoC");
}
"#;

fn b(s: &str) -> Vec<u8> {
    s.as_bytes().to_vec()
}

fn parse(id: u64, s: &str) -> CaseDescriptor {
    parse_case(id, s.as_bytes()).unwrap()
}

fn limits() -> RunLimits {
    RunLimits { timeout_ms: 1000, grace_ms: 200, memory_limit_bytes: 1 << 20, capture_limit: 8 }
}

fn result(id: u64, kind: OutcomeKind, output: &str) -> ExecutionResult {
    ExecutionResult {
        case_id: id,
        outcome_kind: kind,
        exit_signal_or_code: None,
        captured_output: b(output),
        truncated: false,
        wall_time_ms: 5,
        skipped: false,
    }
}

fn verdict(id: u64, kind: VerdictKind, observed: OutcomeKind) -> VerdictRecord {
    VerdictRecord {
        case_id: id,
        kind,
        expected_classes: vec![BugClass::PanicSafety],
        expected_analyzers: vec![b("UnsafeDataflow")],
        observed_outcome_kind: observed,
    }
}

#[test]
fn parses_target_report_and_bugs() {
    let d = parse(36, BUNCH);
    assert_eq!(d.id, 36);
    assert_eq!(d.target.name, b("bunch"));
    assert_eq!(d.target.declared_version, b("0.1.0"));
    assert_eq!(d.target.indexed_version, None);
    assert_eq!(d.report.issue_url, b("https://github.com/krl/bunch/issues/1"));
    assert_eq!(d.report.issue_date, Some(b("2020-11-12")));
    assert_eq!(d.expected_bugs.len(), 1);
    assert_eq!(d.expected_bugs[0].analyzer, b("SendSyncVariance"));
    assert_eq!(d.expected_bugs[0].bug_class, BugClass::SendSyncVariance);
    assert_eq!(d.expected_bugs[0].count, Some(2));
    assert!(d.expected_bugs[0].locations.is_empty());
    assert!(!d.hint.no_poc);
}

#[test]
fn parses_multiline_locations_and_optional_report_fields() {
    let d = parse(78, ABI_STABLE);
    assert_eq!(d.target.indexed_version, Some(b("0.8.3")));
    assert_eq!(d.report.rustsec_id, Some(b("RUSTSEC-2020-0105")));
    assert_eq!(d.report.rustsec_url, Some(b("https://github.com/RustSec/advisory-db/pull/609")));
    assert_eq!(
        d.expected_bugs[0].locations,
        vec![b("src/std_types/vec/iters.rs:294:5: 312:6"), b("src/std_types/string.rs:613:5: 646:6")]
    );
    assert_eq!(d.expected_bugs[0].bug_class, BugClass::PanicSafety);
    assert!(d.hint.no_poc);
}

#[test]
fn parses_test_hints_without_bug_tables() {
    let d = parse(86, BRA);
    assert!(d.expected_bugs.is_empty());
    assert!(d.hint.no_poc);
    assert_eq!(d.hint.analyzers, vec![b("UnsafeDataflow")]);
    assert_eq!(d.hint.bug_classes, vec![b("UninitExposure")]);
    assert_eq!(d.report.unique_bugs, Some(1));
    let t = parse(83, ARRAY_TOOLS);
    assert_eq!(t.hint.toolchain, Some(b("nightly")));
}

#[test]
fn parses_single_line_location_list() {
    let d = parse(146, STACKVECTOR);
    assert_eq!(d.expected_bugs[0].locations, vec![b("src/lib.rs:896:5: 920:6")]);
    assert_eq!(d.expected_bugs[0].bug_class, BugClass::InconsistencyAmplification);
    assert_eq!(d.report.issue_url, b("https://github.com/Alexhuszagh/rust-stackvector/issues/2"));
}

#[test]
fn parsing_twice_gives_the_same_descriptor() {
    for (id, text) in [(36u64, BUNCH), (78, ABI_STABLE), (86, BRA), (146, STACKVECTOR)] {
        let a = parse(id, text);
        let c = parse(id, text);
        assert_eq!(a.target.name, c.target.name);
        assert_eq!(a.target.declared_version, c.target.declared_version);
        assert_eq!(a.report.issue_url, c.report.issue_url);
        assert_eq!(a.expected_bugs.len(), c.expected_bugs.len());
        for (x, y) in a.expected_bugs.iter().zip(c.expected_bugs.iter()) {
            assert_eq!(x.analyzer, y.analyzer);
            assert_eq!(x.bug_class, y.bug_class);
            assert_eq!(x.locations, y.locations);
        }
        assert_eq!(a.hint.no_poc, c.hint.no_poc);
    }
}

#[test]
fn missing_block_is_malformed() {
    assert_eq!(parse_case(1, b"fn main() {}").err(), Some(MetadataError::MalformedMetadata));
}

#[test]
fn unclosed_block_is_malformed() {
    let text = "```rudra-poc\n[target]\ncrate = \"x\"\nversion = \"1\"\n[report]\nissue_url = \"u\"\n";
    assert_eq!(parse_case(1, text.as_bytes()).err(), Some(MetadataError::MalformedMetadata));
}

#[test]
fn missing_required_field_is_malformed() {
    let text = BUNCH.replace("crate = \"bunch\"\n", "");
    assert_eq!(parse_case(1, text.as_bytes()).err(), Some(MetadataError::MalformedMetadata));
    let text = BUNCH.replace("issue_url", "issue_link");
    assert_eq!(parse_case(1, text.as_bytes()).err(), Some(MetadataError::MalformedMetadata));
}

#[test]
fn case_without_findings_or_no_poc_mark_is_malformed() {
    let text = BRA.replace("reported without PoC", "reported");
    assert_eq!(parse_case(1, text.as_bytes()).err(), Some(MetadataError::MalformedMetadata));
}

#[test]
fn stray_line_is_malformed() {
    let text = BUNCH.replace("[report]", "report");
    assert_eq!(parse_case(1, text.as_bytes()).err(), Some(MetadataError::MalformedMetadata));
}

#[test]
fn unknown_bug_class_is_other() {
    let text = BUNCH.replace("bug_class = \"SendSyncVariance\"", "bug_class = \"Novel\"");
    assert_eq!(parse(1, &text).expected_bugs[0].bug_class, BugClass::Other);
    assert_eq!(BugClass::from_name(b"UninitExposure"), BugClass::UninitExposure);
    assert_eq!(BugClass::Other.name(), b("Other"));
}

#[test]
fn case_ids_come_from_file_names() {
    assert_eq!(case_id_from_name(b"0036-bunch.rs"), Some(36));
    assert_eq!(case_id_from_name(b"0146-stackvector.rs"), Some(146));
    assert_eq!(case_id_from_name(b"bunch.rs"), None);
    assert_eq!(case_id_from_name(b"x1-bunch.rs"), None);
}

#[test]
fn decimal_values() {
    assert_eq!(parse_decimal(b"18446744073709551615"), Some(u64::MAX));
    assert_eq!(parse_decimal(b"18446744073709551616"), None);
    assert_eq!(parse_decimal(b""), None);
    assert_eq!(parse_decimal(b"12a"), None);
    assert_eq!(unquoted(b"\"abc\""), b("abc"));
    assert_eq!(unquoted(b"2021-01-02"), b("2021-01-02"));
    assert_eq!(list_items(b"[\"a\", \"bc\"]"), vec![b("a"), b("bc")]);
}

#[test]
fn duplicate_ids_are_refused_in_either_order() {
    let first = vec![parse(7, BUNCH), parse(8, BRA), parse(7, STACKVECTOR)];
    assert_eq!(Registry::new(first).err(), Some(RegistryError::DuplicateCaseId(7)));
    let second = vec![parse(7, STACKVECTOR), parse(8, BRA), parse(7, BUNCH)];
    assert_eq!(Registry::new(second).err(), Some(RegistryError::DuplicateCaseId(7)));
}

#[test]
fn registry_lookups_keep_declaration_order() {
    let reg = Registry::new(vec![parse(146, STACKVECTOR), parse(36, BUNCH), parse(78, ABI_STABLE), parse(83, ARRAY_TOOLS)])
        .ok()
        .unwrap();
    assert_eq!(reg.len(), 4);
    assert_eq!(reg.ids(), vec![146, 36, 78, 83]);
    assert_eq!(reg.get(36).map(|c| c.target.name.clone()), Some(b("bunch")));
    assert!(reg.get(99).is_none());
    assert_eq!(reg.ids_with_class(BugClass::PanicSafety), vec![78, 83]);
    assert_eq!(reg.ids_with_analyzer(b"UnsafeDataflow"), vec![146, 78, 83]);
    assert_eq!(reg.case_at(1).id, 36);
}

#[test]
fn no_poc_case_is_skipped_and_attested() {
    for (id, text) in [(78u64, ABI_STABLE), (86, BRA), (83, ARRAY_TOOLS)] {
        let d = parse(id, text);
        assert_eq!(plan(&d), RunPlan::Skip);
        let r = skipped_result(&d);
        assert!(r.skipped);
        assert_eq!(r.outcome_kind, OutcomeKind::Completed);
        let v = classify(&d, &r);
        assert_eq!(v.kind, VerdictKind::Attested);
        assert!(v.matched());
    }
    assert_eq!(plan(&parse(36, BUNCH)), RunPlan::Execute);
}

#[test]
fn timeout_is_reported_and_killed_after_grace() {
    let (s, a) = step(limits(), Supervision::Running, Event::Alive { elapsed_ms: 999, memory_bytes: 10 }, b"");
    assert_eq!((s, a), (Supervision::Running, Action::Wait));
    let (s, a) = step(limits(), s, Event::Alive { elapsed_ms: 1000, memory_bytes: 10 }, b"");
    assert_eq!(a, Action::Terminate);
    assert_eq!(s, Supervision::Terminating { reason: OutcomeKind::TimedOut, since_ms: 1000 });
    let (s, a) = step(limits(), s, Event::Alive { elapsed_ms: 1100, memory_bytes: 10 }, b"");
    assert_eq!(a, Action::Wait);
    let (s, a) = step(limits(), s, Event::Alive { elapsed_ms: 1200, memory_bytes: 10 }, b"");
    assert_eq!(a, Action::ForceKill);
    let (s, a) = step(limits(), s, Event::Exited { code: None, signal: Some(9) }, b"");
    assert_eq!((s, a), (Supervision::Finished, Action::Report(OutcomeKind::TimedOut)));
}

#[test]
fn memory_ceiling_is_a_crash() {
    let (s, a) = step(limits(), Supervision::Running, Event::Alive { elapsed_ms: 10, memory_bytes: (1 << 20) + 1 }, b"");
    assert_eq!(a, Action::Terminate);
    let (_, a) = step(limits(), s, Event::Exited { code: None, signal: Some(9) }, b"");
    assert_eq!(a, Action::Report(OutcomeKind::Crashed));
}

#[test]
fn exits_are_classified() {
    let ex = |code, signal, out: &str| step(limits(), Supervision::Running, Event::Exited { code, signal }, out.as_bytes()).1;
    assert_eq!(ex(Some(0), None, ""), Action::Report(OutcomeKind::Completed));
    assert_eq!(ex(Some(1), None, ""), Action::Report(OutcomeKind::Completed));
    assert_eq!(ex(Some(101), None, ""), Action::Report(OutcomeKind::Panicked));
    assert_eq!(ex(Some(1), None, "thread 'main' panicked at src/main.rs"), Action::Report(OutcomeKind::Panicked));
    assert_eq!(ex(None, Some(11), ""), Action::Report(OutcomeKind::Crashed));
    assert_eq!(ex(Some(1), None, "==1==ERROR: AddressSanitizer: heap-use-after-free"), Action::Report(OutcomeKind::SanitizerFlagged));
}

#[test]
fn cancel_terminates_then_kills_then_discards() {
    let (s, a) = step(limits(), Supervision::Running, Event::Cancel { elapsed_ms: 50 }, b"");
    assert_eq!((s, a), (Supervision::Cancelling { since_ms: 50 }, Action::Terminate));
    let (s, a) = step(limits(), s, Event::Alive { elapsed_ms: 100, memory_bytes: 0 }, b"");
    assert_eq!(a, Action::Wait);
    let (s, a) = step(limits(), s, Event::Alive { elapsed_ms: 250, memory_bytes: 0 }, b"");
    assert_eq!(a, Action::ForceKill);
    let (s, a) = step(limits(), s, Event::Exited { code: None, signal: Some(9) }, b"");
    assert_eq!((s, a), (Supervision::Finished, Action::Discard));
}

#[test]
fn oversized_output_is_truncated_but_kept() {
    let mut c = OutputCapture::new(8);
    c.append(b"hello");
    assert!(!c.truncated);
    c.append(b" world, and much more");
    assert!(c.truncated);
    assert_eq!(c.data, b("hello wo"));
    c.append(b"again");
    assert_eq!(c.data, b("hello wo"));
    assert_eq!(c.limit, 8);
}

#[test]
fn panic_safety_needs_the_case_assertion_to_fail() {
    let d = parse(83, &ARRAY_TOOLS.replace("reported without PoC", "panicked"));
    let failed = result(83, OutcomeKind::Panicked, "thread 'main' panicked at 'Iterator panicked'\nassertion failed: drops == 1");
    assert!(postcondition_failed(&failed.captured_output));
    let v = classify(&d, &failed);
    assert_eq!(v.kind, VerdictKind::Matched);
    assert!(v.matched());
    let passed = result(83, OutcomeKind::Panicked, "thread 'main' panicked at 'Iterator panicked'");
    let v = classify(&d, &passed);
    assert_eq!(v.kind, VerdictKind::Mismatched);
    assert!(!v.matched());
    assert_eq!(v.expected_classes, vec![BugClass::PanicSafety]);
    assert_eq!(v.observed_outcome_kind, OutcomeKind::Panicked);
}

#[test]
fn inconsistency_amplification_timeout_matches() {
    let d = parse(146, STACKVECTOR);
    let v = classify(&d, &result(146, OutcomeKind::TimedOut, "AAAA"));
    assert_eq!(v.kind, VerdictKind::Matched);
    let v = classify(&d, &result(146, OutcomeKind::Completed, ""));
    assert_eq!(v.kind, VerdictKind::Mismatched);
}

#[test]
fn data_race_crash_matches_and_build_failure_is_its_own_verdict() {
    let d = parse(36, BUNCH);
    assert_eq!(classify(&d, &result(36, OutcomeKind::Crashed, "")).kind, VerdictKind::Matched);
    assert_eq!(classify(&d, &result(36, OutcomeKind::SanitizerFlagged, "")).kind, VerdictKind::Matched);
    assert_eq!(classify(&d, &result(36, OutcomeKind::BuildFailed, "")).kind, VerdictKind::BuildFailed);
    assert_eq!(classify(&d, &result(36, OutcomeKind::HungNoProgress, "")).kind, VerdictKind::Mismatched);
}

#[test]
fn report_order_and_counts_do_not_depend_on_completion_order() {
    let order = vec![36u64, 78, 146];
    let run = |ids: [u64; 3]| {
        let vs: Vec<VerdictRecord> = ids
            .iter()
            .map(|&id| match id {
                36 => verdict(36, VerdictKind::Matched, OutcomeKind::Crashed),
                78 => verdict(78, VerdictKind::Attested, OutcomeKind::Completed),
                _ => verdict(146, VerdictKind::Mismatched, OutcomeKind::Completed),
            })
            .collect();
        arrange(&order, vs).ok().unwrap()
    };
    let first = run([146, 36, 78]);
    let second = run([78, 146, 36]);
    let ids = |vs: &Vec<VerdictRecord>| vs.iter().map(|v| v.case_id).collect::<Vec<u64>>();
    assert_eq!(ids(&first), order);
    assert_eq!(ids(&second), order);
    let a = summarize(&first, &[]);
    let c = summarize(&second, &[]);
    assert_eq!((a.total, a.matched, a.attested, a.mismatched, a.build_failed), (3, 1, 1, 1, 0));
    assert_eq!((c.total, c.matched, c.attested, c.mismatched, c.build_failed), (3, 1, 1, 1, 0));
    assert_eq!(a.failing, vec![146]);
    assert_eq!(c.failing, vec![146]);
    assert!(!a.passed);
    assert_eq!(a.by_class[1], (BugClass::PanicSafety, 3));
    assert_eq!(a.by_class[0], (BugClass::SendSyncVariance, 0));
}

#[test]
fn arrange_reports_a_missing_case() {
    let vs = vec![verdict(1, VerdictKind::Matched, OutcomeKind::Crashed)];
    assert_eq!(arrange(&[1, 2], vs).err(), Some(2));
}

#[test]
fn accepted_flaky_case_does_not_fail_the_run() {
    let vs = vec![
        verdict(1, VerdictKind::Matched, OutcomeKind::Crashed),
        verdict(2, VerdictKind::Mismatched, OutcomeKind::Completed),
    ];
    assert!(!summarize(&vs, &[]).passed);
    let s = summarize(&vs, &[2]);
    assert!(s.passed);
    assert!(s.failing.is_empty());
    let vs2 = vec![
        verdict(1, VerdictKind::Matched, OutcomeKind::Crashed),
        verdict(2, VerdictKind::Matched, OutcomeKind::Panicked),
    ];
    assert_eq!(flaky_ids(&vs, &vs2), vec![2]);
    assert!(summarize(&[], &[]).passed);
}

#[test]
fn my_read_overreports_once() {
    let mut r = MyRead::new();
    let mut buf = [7u8; 4];
    assert_eq!(r.read(&mut buf), 256);
    assert_eq!(r.read(&mut buf), 0);
    assert_eq!(r.read(&mut buf), 0);
    assert_eq!(buf, [7u8; 4]);
}

#[test]
fn incorrect_iterator_yields_nineteen_items() {
    let mut it = IncorrectIterator::new();
    assert_eq!(it.size_hint(), (20, Some(0)));
    let mut n = 0;
    while let Some(x) = it.next() {
        assert_eq!(x, 0x41);
        n += 1;
    }
    assert_eq!(n, 19);
    assert_eq!(it.next(), None);
}

#[test]
fn counts_by_analyzer_in_order_of_first_mention() {
    let cases = [parse(36, BUNCH), parse(146, STACKVECTOR), parse(78, ABI_STABLE), parse(86, BRA)];
    let vs: Vec<VerdictRecord> = cases.iter().map(|d| classify(d, &skipped_result(d))).collect();
    assert_eq!(vs[0].expected_analyzers, vec![b("SendSyncVariance")]);
    assert!(vs[3].expected_analyzers.is_empty());
    assert_eq!(count_by_analyzer(&vs), vec![(b("SendSyncVariance"), 1), (b("UnsafeDataflow"), 2)]);
    assert!(count_by_analyzer(&[]).is_empty());
}
