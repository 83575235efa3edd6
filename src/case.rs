use vstd::prelude::*;
use crate::kinds::BugClass;
use crate::text::{slice_of, views_of};

verus! {

/// The library that a case targets.
pub struct Target {
    pub name: Vec<u8>,
    pub declared_version: Vec<u8>,
    pub indexed_version: Option<Vec<u8>>,
}

/// Where and when the defect was reported.
pub struct Report {
    pub issue_url: Vec<u8>,
    pub issue_date: Option<Vec<u8>>,
    pub rustsec_id: Option<Vec<u8>>,
    pub rustsec_url: Option<Vec<u8>>,
    pub unique_bugs: Option<u64>,
}

/// One finding that the case declares.
pub struct ExpectedBug {
    pub analyzer: Vec<u8>,
    pub bug_class: BugClass,
    pub count: Option<u64>,
    pub locations: Vec<Vec<u8>>,
}

/// How the case is to be run.
pub struct ExecutionHint {
    /// The case carries no reproduction and is attested by its report alone.
    pub no_poc: bool,
    pub toolchain: Option<Vec<u8>>,
    pub analyzers: Vec<Vec<u8>>,
    pub bug_classes: Vec<Vec<u8>>,
}

/// Everything that the metadata of one case declares.
pub struct CaseDescriptor {
    pub id: u64,
    pub target: Target,
    pub report: Report,
    pub expected_bugs: Vec<ExpectedBug>,
    pub hint: ExecutionHint,
}

/// The declared bug classes of a sequence of findings, in order.
pub open spec fn classes_of(bugs: Seq<ExpectedBug>) -> Seq<BugClass> {
    bugs.map_values(|b: ExpectedBug| b.bug_class)
}

/// The declared analyzers of a sequence of findings, in order.
pub open spec fn analyzers_of(bugs: Seq<ExpectedBug>) -> Seq<Seq<u8>> {
    bugs.map_values(|b: ExpectedBug| b.analyzer@)
}

impl CaseDescriptor {
    /// A case either declares a finding or carries no reproduction.
    pub open spec fn well_formed(&self) -> bool {
        self.expected_bugs@.len() > 0 || self.hint.no_poc
    }

    /// The bug classes that this case declares, in order.
    pub fn declared_classes(&self) -> (r: Vec<BugClass>)
        ensures
            r@ == classes_of(self.expected_bugs@),
    {
        let mut r: Vec<BugClass> = Vec::new();
        let mut i: usize = 0;
        while i < self.expected_bugs.len()
            invariant
                0 <= i <= self.expected_bugs@.len(),
                r@ == classes_of(self.expected_bugs@.subrange(0, i as int)),
            decreases self.expected_bugs@.len() - i,
        {
            r.push(self.expected_bugs[i].bug_class);
            assert(classes_of(self.expected_bugs@.subrange(0, i + 1)) =~= classes_of(
                self.expected_bugs@.subrange(0, i as int),
            ).push(self.expected_bugs@[i as int].bug_class));
            i = i + 1;
        }
        assert(self.expected_bugs@.subrange(0, i as int) =~= self.expected_bugs@);
        r
    }

    /// The analyzers that this case declares, in order.
    pub fn declared_analyzers(&self) -> (r: Vec<Vec<u8>>)
        ensures
            views_of(r@) == analyzers_of(self.expected_bugs@),
    {
        let mut r: Vec<Vec<u8>> = Vec::new();
        let mut i: usize = 0;
        while i < self.expected_bugs.len()
            invariant
                0 <= i <= self.expected_bugs@.len(),
                views_of(r@) == analyzers_of(self.expected_bugs@.subrange(0, i as int)),
            decreases self.expected_bugs@.len() - i,
        {
            let a = &self.expected_bugs[i].analyzer;
            let copy = slice_of(a.as_slice(), 0, a.len());
            assert(copy@ == self.expected_bugs@[i as int].analyzer@);
            let ghost before = r@;
            r.push(copy);
            assert(views_of(r@) =~= views_of(before).push(copy@));
            assert(analyzers_of(self.expected_bugs@.subrange(0, i + 1)) =~= analyzers_of(
                self.expected_bugs@.subrange(0, i as int),
            ).push(self.expected_bugs@[i as int].analyzer@));
            i = i + 1;
        }
        assert(self.expected_bugs@.subrange(0, i as int) =~= self.expected_bugs@);
        r
    }
}

} // verus!
