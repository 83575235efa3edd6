use vstd::prelude::*;
use crate::bytes::{bytes_eq, contains, find_in};
use crate::case::{CaseDescriptor, ExecutionHint, ExpectedBug, Report, Target};
use crate::kinds::{class_of_name, BugClass};
use crate::scan::{find_byte, index_of, models, scan, scan_text, Entry, RawEntry, ScanState, Phase};
use crate::text::views_of;
use crate::values::{decimal, list_items, parse_decimal, quoted_items, unquote, unquoted};
use crate::words::{spell, spelling, Word};

verus! {

/// Why the metadata of a case cannot be read.
#[derive(Clone, Copy, Debug, PartialEq, Eq, Structural)]
pub enum MetadataError {
    /// The block is absent or unclosed, holds a line that is not part of
    /// the format, lacks a required field, or the case declares no finding
    /// and is not marked as having no reproduction.
    MalformedMetadata,
}

/// The value of the first entry with this table, bug number and key.
pub open spec fn lookup(es: Seq<RawEntry>, table: Seq<u8>, bug: nat, key: Seq<u8>) -> Option<Seq<u8>>
    decreases es.len(),
{
    if es.len() == 0 {
        None
    } else if es[0].table == table && es[0].bug == bug && es[0].key == key {
        Some(es[0].value)
    } else {
        lookup(es.drop_first(), table, bug, key)
    }
}

/// The raw value of `key` in table `table` (not a `[[bugs]]` table).
pub open spec fn field(s: ScanState, table: Word, key: Word) -> Option<Seq<u8>> {
    lookup(s.entries, spelling(table), 0, spelling(key))
}

/// The raw value of `key` in the `b`-th `[[bugs]]` table, counted from 1.
pub open spec fn bug_field(s: ScanState, b: nat, key: Word) -> Option<Seq<u8>> {
    lookup(s.entries, spelling(Word::Bugs), b, spelling(key))
}

pub open spec fn text_of(o: Option<Seq<u8>>) -> Option<Seq<u8>> {
    match o {
        Some(v) => Some(unquote(v)),
        None => None,
    }
}

pub open spec fn number_of(o: Option<Seq<u8>>) -> Option<u64> {
    match o {
        Some(v) => decimal(v),
        None => None,
    }
}

pub open spec fn list_of(o: Option<Seq<u8>>) -> Seq<Seq<u8>> {
    match o {
        Some(v) => quoted_items(v),
        None => Seq::empty(),
    }
}

pub open spec fn opt_view(o: Option<Vec<u8>>) -> Option<Seq<u8>> {
    match o {
        Some(v) => Some(v@),
        None => None,
    }
}

/// The scan reached the end of a closed block with nothing left open.
pub open spec fn complete(s: ScanState) -> bool {
    s.phase == Phase::After && s.pending is None && !s.bad
}

/// Every `[[bugs]]` table names its analyzer and its class.
pub open spec fn bugs_complete(s: ScanState) -> bool {
    forall|b: nat| 1 <= b <= s.bugs ==> bug_field(s, b, Word::Analyzer) is Some && #[trigger] bug_field(
        s,
        b,
        Word::BugClass,
    ) is Some
}

/// The metadata of a case text can be read.
pub open spec fn readable(src: Seq<u8>) -> bool {
    let s = scan_text(src);
    complete(s) && field(s, Word::Target, Word::Crate) is Some && field(s, Word::Target, Word::Version)
        is Some && field(s, Word::Report, Word::IssueUrl) is Some && bugs_complete(s) && (s.bugs > 0
        || contains(src, spelling(Word::NoPoc)))
}

/// A finding read from the `b`-th `[[bugs]]` table.
pub open spec fn bug_read(e: ExpectedBug, s: ScanState, b: nat) -> bool {
    &&& e.analyzer@ == unquote(bug_field(s, b, Word::Analyzer).unwrap())
    &&& e.bug_class == class_of_name(unquote(bug_field(s, b, Word::BugClass).unwrap()))
    &&& e.count == number_of(bug_field(s, b, Word::BugCount))
    &&& views_of(e.locations@) == list_of(bug_field(s, b, Word::Locations))
}

/// A descriptor is what the metadata of `src` declares, under id `id`.
pub open spec fn describes(d: CaseDescriptor, id: u64, src: Seq<u8>) -> bool {
    let s = scan_text(src);
    &&& d.id == id
    &&& d.target.name@ == unquote(field(s, Word::Target, Word::Crate).unwrap())
    &&& d.target.declared_version@ == unquote(field(s, Word::Target, Word::Version).unwrap())
    &&& opt_view(d.target.indexed_version) == text_of(field(s, Word::Target, Word::IndexedVersion))
    &&& d.report.issue_url@ == unquote(field(s, Word::Report, Word::IssueUrl).unwrap())
    &&& opt_view(d.report.issue_date) == text_of(field(s, Word::Report, Word::IssueDate))
    &&& opt_view(d.report.rustsec_id) == text_of(field(s, Word::Report, Word::RustsecId))
    &&& opt_view(d.report.rustsec_url) == text_of(field(s, Word::Report, Word::RustsecUrl))
    &&& d.report.unique_bugs == number_of(field(s, Word::Report, Word::UniqueBugs))
    &&& d.expected_bugs@.len() == s.bugs
    &&& forall|i: int| 0 <= i < s.bugs ==> bug_read(#[trigger] d.expected_bugs@[i], s, (i + 1) as nat)
    &&& d.hint.no_poc == contains(src, spelling(Word::NoPoc))
    &&& opt_view(d.hint.toolchain) == text_of(field(s, Word::Test, Word::Toolchain))
    &&& views_of(d.hint.analyzers@) == list_of(field(s, Word::Test, Word::Analyzers))
    &&& views_of(d.hint.bug_classes@) == list_of(field(s, Word::Test, Word::BugClasses))
}

proof fn lemma_lookup_step(es: Seq<RawEntry>, i: int, table: Seq<u8>, bug: nat, key: Seq<u8>)
    requires
        0 <= i < es.len(),
    ensures
        lookup(es.subrange(i, es.len() as int), table, bug, key) == (if es[i].table == table
            && es[i].bug == bug && es[i].key == key {
            Some(es[i].value)
        } else {
            lookup(es.subrange(i + 1, es.len() as int), table, bug, key)
        }),
{
    assert(es.subrange(i, es.len() as int).drop_first() =~= es.subrange(i + 1, es.len() as int));
}

fn copy_of(t: &Vec<u8>) -> (r: Vec<u8>)
    ensures
        r@ == t@,
{
    crate::text::slice_of(t.as_slice(), 0, t.len())
}

/// The raw value of the first entry with this table, bug number and key.
fn find_value(es: &Vec<Entry>, table: &[u8], bug: usize, key: &[u8]) -> (r: Option<Vec<u8>>)
    ensures
        opt_view(r) == lookup(models(es@), table@, bug as nat, key@),
{
    let ghost ms = models(es@);
    assert(ms.subrange(0, ms.len() as int) =~= ms);
    let mut i: usize = 0;
    while i < es.len()
        invariant
            0 <= i <= es@.len(),
            ms == models(es@),
            lookup(ms, table@, bug as nat, key@) == lookup(ms.subrange(i as int, ms.len() as int), table@, bug as nat, key@),
        decreases es@.len() - i,
    {
        proof {
            lemma_lookup_step(ms, i as int, table@, bug as nat, key@);
        }
        let e = &es[i];
        assert(ms[i as int] == e.model());
        if bytes_eq(e.table.as_slice(), table) && e.bug == bug && bytes_eq(e.key.as_slice(), key) {
            return Some(copy_of(&e.value));
        }
        i = i + 1;
    }
    assert(ms.subrange(i as int, ms.len() as int) =~= Seq::<RawEntry>::empty());
    None
}

fn text_value(o: Option<Vec<u8>>) -> (r: Option<Vec<u8>>)
    ensures
        opt_view(r) == text_of(opt_view(o)),
{
    match o {
        Some(v) => Some(unquoted(v.as_slice())),
        None => None,
    }
}

fn number_value(o: Option<Vec<u8>>) -> (r: Option<u64>)
    ensures
        r == number_of(opt_view(o)),
{
    match o {
        Some(v) => parse_decimal(v.as_slice()),
        None => None,
    }
}

fn list_value(o: Option<Vec<u8>>) -> (r: Vec<Vec<u8>>)
    ensures
        views_of(r@) == list_of(opt_view(o)),
{
    match o {
        Some(v) => list_items(v.as_slice()),
        None => {
            let r: Vec<Vec<u8>> = Vec::new();
            assert(views_of(r@) =~= Seq::<Seq<u8>>::empty());
            r
        },
    }
}

/// Reads the metadata of one case from its text; `id` is the case's id.
pub fn parse_case(id: u64, src: &[u8]) -> (r: Result<CaseDescriptor, MetadataError>)
    ensures
        r is Ok <==> readable(src@),
        r matches Ok(d) ==> describes(d, id, src@) && d.well_formed(),
        r matches Err(e) ==> e == MetadataError::MalformedMetadata,
{
    let st = scan(src);
    let ghost s = st.model();
    if !(st.phase == Phase::After && st.pending.is_none() && !st.bad) {
        return Err(MetadataError::MalformedMetadata);
    }
    let w_target = spell(Word::Target);
    let w_report = spell(Word::Report);
    let w_test = spell(Word::Test);
    let w_bugs = spell(Word::Bugs);
    let name = match find_value(&st.entries, w_target.as_slice(), 0, spell(Word::Crate).as_slice()) {
        Some(v) => unquoted(v.as_slice()),
        None => {
            return Err(MetadataError::MalformedMetadata);
        },
    };
    let declared_version = match find_value(&st.entries, w_target.as_slice(), 0, spell(Word::Version).as_slice()) {
        Some(v) => unquoted(v.as_slice()),
        None => {
            return Err(MetadataError::MalformedMetadata);
        },
    };
    let issue_url = match find_value(&st.entries, w_report.as_slice(), 0, spell(Word::IssueUrl).as_slice()) {
        Some(v) => unquoted(v.as_slice()),
        None => {
            return Err(MetadataError::MalformedMetadata);
        },
    };
    let mut expected_bugs: Vec<ExpectedBug> = Vec::new();
    let mut b: usize = 0;
    while b < st.bugs
        invariant
            s == st.model(),
            s == scan_text(src@),
            w_bugs@ == spelling(Word::Bugs),
            0 <= b <= st.bugs,
            expected_bugs@.len() == b,
            forall|i: int| 0 <= i < b ==> bug_read(#[trigger] expected_bugs@[i], s, (i + 1) as nat),
            forall|c: nat| 1 <= c <= b ==> bug_field(s, c, Word::Analyzer) is Some && #[trigger] bug_field(
                s,
                c,
                Word::BugClass,
            ) is Some,
        decreases st.bugs - b,
    {
        let n: usize = b + 1;
        let analyzer = match find_value(&st.entries, w_bugs.as_slice(), n, spell(Word::Analyzer).as_slice()) {
            Some(v) => unquoted(v.as_slice()),
            None => {
                assert(bug_field(s, n as nat, Word::Analyzer) is None);
                assert(!bugs_complete(s)) by {
                    if bugs_complete(s) {
                        assert(bug_field(s, n as nat, Word::BugClass) is Some);
                    }
                }
                return Err(MetadataError::MalformedMetadata);
            },
        };
        let class_name = match find_value(&st.entries, w_bugs.as_slice(), n, spell(Word::BugClass).as_slice()) {
            Some(v) => unquoted(v.as_slice()),
            None => {
                assert(bug_field(s, n as nat, Word::BugClass) is None);
                assert(!bugs_complete(s));
                return Err(MetadataError::MalformedMetadata);
            },
        };
        let bug_class = BugClass::from_name(class_name.as_slice());
        let count = number_value(find_value(&st.entries, w_bugs.as_slice(), n, spell(Word::BugCount).as_slice()));
        let locations = list_value(find_value(&st.entries, w_bugs.as_slice(), n, spell(Word::Locations).as_slice()));
        let e = ExpectedBug { analyzer, bug_class, count, locations };
        assert(bug_read(e, s, n as nat));
        expected_bugs.push(e);
        b = n;
    }
    let no_poc = find_in(src, spell(Word::NoPoc).as_slice());
    if b == 0 && !no_poc {
        return Err(MetadataError::MalformedMetadata);
    }
    let target = Target {
        name,
        declared_version,
        indexed_version: text_value(find_value(&st.entries, w_target.as_slice(), 0, spell(Word::IndexedVersion).as_slice())),
    };
    let report = Report {
        issue_url,
        issue_date: text_value(find_value(&st.entries, w_report.as_slice(), 0, spell(Word::IssueDate).as_slice())),
        rustsec_id: text_value(find_value(&st.entries, w_report.as_slice(), 0, spell(Word::RustsecId).as_slice())),
        rustsec_url: text_value(find_value(&st.entries, w_report.as_slice(), 0, spell(Word::RustsecUrl).as_slice())),
        unique_bugs: number_value(find_value(&st.entries, w_report.as_slice(), 0, spell(Word::UniqueBugs).as_slice())),
    };
    let hint = ExecutionHint {
        no_poc,
        toolchain: text_value(find_value(&st.entries, w_test.as_slice(), 0, spell(Word::Toolchain).as_slice())),
        analyzers: list_value(find_value(&st.entries, w_test.as_slice(), 0, spell(Word::Analyzers).as_slice())),
        bug_classes: list_value(find_value(&st.entries, w_test.as_slice(), 0, spell(Word::BugClasses).as_slice())),
    };
    Ok(CaseDescriptor { id, target, report, expected_bugs, hint })
}

/// Two descriptors declare the same things.
pub open spec fn same_case(a: CaseDescriptor, b: CaseDescriptor) -> bool {
    &&& a.id == b.id
    &&& a.target.name@ == b.target.name@
    &&& a.target.declared_version@ == b.target.declared_version@
    &&& opt_view(a.target.indexed_version) == opt_view(b.target.indexed_version)
    &&& a.report.issue_url@ == b.report.issue_url@
    &&& opt_view(a.report.issue_date) == opt_view(b.report.issue_date)
    &&& opt_view(a.report.rustsec_id) == opt_view(b.report.rustsec_id)
    &&& opt_view(a.report.rustsec_url) == opt_view(b.report.rustsec_url)
    &&& a.report.unique_bugs == b.report.unique_bugs
    &&& a.expected_bugs@.len() == b.expected_bugs@.len()
    &&& forall|i: int| 0 <= i < a.expected_bugs@.len() ==> {
        let x = #[trigger] a.expected_bugs@[i];
        let y = b.expected_bugs@[i];
        x.analyzer@ == y.analyzer@ && x.bug_class == y.bug_class && x.count == y.count
            && views_of(x.locations@) == views_of(y.locations@)
    }
    &&& a.hint.no_poc == b.hint.no_poc
    &&& opt_view(a.hint.toolchain) == opt_view(b.hint.toolchain)
    &&& views_of(a.hint.analyzers@) == views_of(b.hint.analyzers@)
    &&& views_of(a.hint.bug_classes@) == views_of(b.hint.bug_classes@)
}

/// Reading is a function of the text: two reads of the same metadata
/// under the same id give descriptors that declare the same things.
pub proof fn lemma_parse_deterministic(a: CaseDescriptor, b: CaseDescriptor, id: u64, src: Seq<u8>)
    requires
        describes(a, id, src),
        describes(b, id, src),
    ensures
        same_case(a, b),
{
    let s = scan_text(src);
    assert forall|i: int| 0 <= i < a.expected_bugs@.len() implies {
        let x = #[trigger] a.expected_bugs@[i];
        let y = b.expected_bugs@[i];
        x.analyzer@ == y.analyzer@ && x.bug_class == y.bug_class && x.count == y.count
            && views_of(x.locations@) == views_of(y.locations@)
    } by {
        assert(bug_read(a.expected_bugs@[i], s, (i + 1) as nat));
        assert(bug_read(b.expected_bugs@[i], s, (i + 1) as nat));
    }
}

/// The id that a case file's name gives: the decimal number before its
/// first `-`.
pub open spec fn id_of_name(name: Seq<u8>) -> Option<u64> {
    let p = index_of(name, '-' as u8);
    if p < 0 {
        None
    } else {
        decimal(name.take(p))
    }
}

/// Reads the id of a case from its file name, such as `0036-bunch.rs`.
pub fn case_id_from_name(name: &[u8]) -> (r: Option<u64>)
    ensures
        r == id_of_name(name@),
{
    match find_byte(name, '-' as u8) {
        Some(p) => {
            let digits = crate::text::slice_of(name, 0, p);
            assert(name@.subrange(0, p as int) == name@.take(p as int));
            parse_decimal(digits.as_slice())
        },
        None => None,
    }
}

} // verus!
