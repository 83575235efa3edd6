use vstd::prelude::*;
use crate::bytes::bytes_eq;
use crate::case::{analyzers_of, classes_of, CaseDescriptor};
use crate::kinds::BugClass;

verus! {

/// Why a set of cases cannot form a registry.
#[derive(Clone, Copy, Debug, PartialEq, Eq, Structural)]
pub enum RegistryError {
    /// Two cases carry this id.
    DuplicateCaseId(u64),
}

/// The ids of a sequence of cases, in order.
pub open spec fn ids_of(cases: Seq<CaseDescriptor>) -> Seq<u64> {
    cases.map_values(|c: CaseDescriptor| c.id)
}

/// Two distinct positions of `ids` hold the same id.
pub open spec fn has_duplicate(ids: Seq<u64>) -> bool {
    exists|i: int, j: int| 0 <= i < j < ids.len() && ids[i] == ids[j]
}

/// The ids, in order, of the cases that satisfy `keep`.
pub open spec fn ids_where(cases: Seq<CaseDescriptor>, keep: spec_fn(CaseDescriptor) -> bool) -> Seq<u64>
    decreases cases.len(),
{
    if cases.len() == 0 {
        Seq::empty()
    } else {
        let rest = ids_where(cases.drop_last(), keep);
        if keep(cases.last()) {
            rest.push(cases.last().id)
        } else {
            rest
        }
    }
}

/// Whether a case declares a finding of class `c`.
pub open spec fn declares_class(case: CaseDescriptor, c: BugClass) -> bool {
    classes_of(case.expected_bugs@).contains(c)
}

/// Whether a case declares a finding by analyzer `a`.
pub open spec fn declares_analyzer(case: CaseDescriptor, a: Seq<u8>) -> bool {
    analyzers_of(case.expected_bugs@).contains(a)
}

/// All cases of a corpus run, indexed by id, in declaration order.
pub struct Registry {
    cases: Vec<CaseDescriptor>,
}

impl Registry {
    /// The cases in declaration order.
    pub closed spec fn cases(&self) -> Seq<CaseDescriptor> {
        self.cases@
    }

    pub open spec fn well_formed(&self) -> bool {
        !has_duplicate(ids_of(self.cases()))
    }

    /// Builds a registry, refusing any set in which two cases share an id.
    pub fn new(cases: Vec<CaseDescriptor>) -> (r: Result<Registry, RegistryError>)
        ensures
            r is Ok <==> !has_duplicate(ids_of(cases@)),
            r matches Ok(reg) ==> reg.cases() == cases@ && reg.well_formed(),
            r matches Err(RegistryError::DuplicateCaseId(id)) ==> exists|i: int, j: int|
                0 <= i < j < cases@.len() && cases@[i].id == id && cases@[j].id == id,
    {
        let mut j: usize = 0;
        while j < cases.len()
            invariant
                0 <= j <= cases@.len(),
                !has_duplicate(ids_of(cases@.subrange(0, j as int))),
            decreases cases@.len() - j,
        {
            let mut i: usize = 0;
            while i < j
                invariant
                    0 <= i <= j < cases@.len(),
                    forall|k: int| 0 <= k < i ==> cases@[k].id != cases@[j as int].id,
                decreases j - i,
            {
                if cases[i].id == cases[j].id {
                    assert(ids_of(cases@)[i as int] == ids_of(cases@)[j as int]);
                    return Err(RegistryError::DuplicateCaseId(cases[j].id));
                }
                i = i + 1;
            }
            let ghost prev = ids_of(cases@.subrange(0, j as int));
            let ghost cur = ids_of(cases@.subrange(0, j + 1));
            assert forall|a: int, b: int| 0 <= a < b < cur.len() implies cur[a] != cur[b] by {
                if b < j {
                    assert(cur[a] == prev[a] && cur[b] == prev[b]);
                }
            }
            j = j + 1;
        }
        proof {
            assert(cases@.subrange(0, j as int) =~= cases@);
            assert forall|a: int, b: int| 0 <= a < b < cases@.len() && cases@[a].id == cases@[b].id implies false by {
                assert(ids_of(cases@)[a] == cases@[a].id);
                assert(ids_of(cases@)[b] == cases@[b].id);
            }
        }
        Ok(Registry { cases })
    }

    /// The number of cases.
    pub fn len(&self) -> (r: usize)
        ensures
            r == self.cases().len(),
    {
        self.cases.len()
    }

    /// The case at a position in declaration order.
    pub fn case_at(&self, i: usize) -> (r: &CaseDescriptor)
        requires
            i < self.cases().len(),
        ensures
            *r == self.cases()[i as int],
    {
        &self.cases[i]
    }

    /// The case with the given id, if there is one.
    pub fn get(&self, id: u64) -> (r: Option<&CaseDescriptor>)
        ensures
            r is None <==> !ids_of(self.cases()).contains(id),
            r matches Some(c) ==> c.id == id && self.cases().contains(*c),
    {
        let mut i: usize = 0;
        while i < self.cases.len()
            invariant
                0 <= i <= self.cases@.len(),
                forall|k: int| 0 <= k < i ==> self.cases@[k].id != id,
            decreases self.cases@.len() - i,
        {
            if self.cases[i].id == id {
                assert(self.cases@.contains(self.cases@[i as int]));
                assert(ids_of(self.cases@)[i as int] == id);
                return Some(&self.cases[i]);
            }
            i = i + 1;
        }
        assert forall|k: int| 0 <= k < ids_of(self.cases@).len() implies ids_of(self.cases@)[k] != id by {
            assert(ids_of(self.cases@)[k] == self.cases@[k].id);
        }
        None
    }

    /// The ids of all cases, in declaration order.
    pub fn ids(&self) -> (r: Vec<u64>)
        ensures
            r@ == ids_of(self.cases()),
    {
        let mut r: Vec<u64> = Vec::new();
        let mut i: usize = 0;
        while i < self.cases.len()
            invariant
                0 <= i <= self.cases@.len(),
                r@ == ids_of(self.cases@.subrange(0, i as int)),
            decreases self.cases@.len() - i,
        {
            r.push(self.cases[i].id);
            assert(ids_of(self.cases@.subrange(0, i + 1)) =~= ids_of(self.cases@.subrange(0, i as int)).push(self.cases@[i as int].id));
            i = i + 1;
        }
        assert(self.cases@.subrange(0, i as int) =~= self.cases@);
        r
    }

    /// The ids, in declaration order, of the cases that declare class `c`.
    pub fn ids_with_class(&self, c: BugClass) -> (r: Vec<u64>)
        ensures
            r@ == ids_where(self.cases(), |d: CaseDescriptor| declares_class(d, c)),
    {
        let ghost keep = |d: CaseDescriptor| declares_class(d, c);
        let mut r: Vec<u64> = Vec::new();
        let mut i: usize = 0;
        while i < self.cases.len()
            invariant
                0 <= i <= self.cases@.len(),
                keep == (|d: CaseDescriptor| declares_class(d, c)),
                r@ == ids_where(self.cases@.subrange(0, i as int), keep),
            decreases self.cases@.len() - i,
        {
            let ghost pre = self.cases@.subrange(0, i + 1);
            assert(pre.drop_last() =~= self.cases@.subrange(0, i as int));
            if case_declares_class(&self.cases[i], c) {
                r.push(self.cases[i].id);
            }
            i = i + 1;
        }
        assert(self.cases@.subrange(0, i as int) =~= self.cases@);
        r
    }

    /// The ids, in declaration order, of the cases that declare a finding by
    /// analyzer `a`.
    pub fn ids_with_analyzer(&self, a: &[u8]) -> (r: Vec<u64>)
        ensures
            r@ == ids_where(self.cases(), |d: CaseDescriptor| declares_analyzer(d, a@)),
    {
        let ghost keep = |d: CaseDescriptor| declares_analyzer(d, a@);
        let mut r: Vec<u64> = Vec::new();
        let mut i: usize = 0;
        while i < self.cases.len()
            invariant
                0 <= i <= self.cases@.len(),
                keep == (|d: CaseDescriptor| declares_analyzer(d, a@)),
                r@ == ids_where(self.cases@.subrange(0, i as int), keep),
            decreases self.cases@.len() - i,
        {
            let ghost pre = self.cases@.subrange(0, i + 1);
            assert(pre.drop_last() =~= self.cases@.subrange(0, i as int));
            if case_declares_analyzer(&self.cases[i], a) {
                r.push(self.cases[i].id);
            }
            i = i + 1;
        }
        assert(self.cases@.subrange(0, i as int) =~= self.cases@);
        r
    }
}

/// Whether a case declares a finding of class `c`.
pub fn case_declares_class(case: &CaseDescriptor, c: BugClass) -> (r: bool)
    ensures
        r == declares_class(*case, c),
{
    let mut i: usize = 0;
    while i < case.expected_bugs.len()
        invariant
            0 <= i <= case.expected_bugs@.len(),
            forall|k: int| 0 <= k < i ==> case.expected_bugs@[k].bug_class != c,
        decreases case.expected_bugs@.len() - i,
    {
        if case.expected_bugs[i].bug_class == c {
            assert(classes_of(case.expected_bugs@)[i as int] == c);
            return true;
        }
        i = i + 1;
    }
    assert forall|k: int| 0 <= k < classes_of(case.expected_bugs@).len() implies classes_of(case.expected_bugs@)[k] != c by {
        assert(classes_of(case.expected_bugs@)[k] == case.expected_bugs@[k].bug_class);
    }
    false
}

/// Whether a case declares a finding by analyzer `a`.
pub fn case_declares_analyzer(case: &CaseDescriptor, a: &[u8]) -> (r: bool)
    ensures
        r == declares_analyzer(*case, a@),
{
    let mut i: usize = 0;
    while i < case.expected_bugs.len()
        invariant
            0 <= i <= case.expected_bugs@.len(),
            forall|k: int| 0 <= k < i ==> case.expected_bugs@[k].analyzer@ != a@,
        decreases case.expected_bugs@.len() - i,
    {
        if bytes_eq(case.expected_bugs[i].analyzer.as_slice(), a) {
            assert(analyzers_of(case.expected_bugs@)[i as int] == a@);
            return true;
        }
        i = i + 1;
    }
    assert forall|k: int| 0 <= k < analyzers_of(case.expected_bugs@).len() implies analyzers_of(case.expected_bugs@)[k] != a@ by {
        assert(analyzers_of(case.expected_bugs@)[k] == case.expected_bugs@[k].analyzer@);
    }
    false
}

/// Two cases that share an id make any corpus that holds both unfit for a
/// registry, whichever comes first and whatever stands around them.
pub proof fn lemma_duplicate_refused_in_any_order(
    before: Seq<CaseDescriptor>,
    between: Seq<CaseDescriptor>,
    after: Seq<CaseDescriptor>,
    a: CaseDescriptor,
    b: CaseDescriptor,
)
    requires
        a.id == b.id,
    ensures
        has_duplicate(ids_of(before + seq![a] + between + seq![b] + after)),
        has_duplicate(ids_of(before + seq![b] + between + seq![a] + after)),
{
    let s1 = before + seq![a] + between + seq![b] + after;
    let s2 = before + seq![b] + between + seq![a] + after;
    let i = before.len() as int;
    let j = before.len() + 1 + between.len() as int;
    assert(s1[i] == a && s1[j] == b);
    assert(s2[i] == b && s2[j] == a);
    assert(ids_of(s1)[i] == ids_of(s1)[j]);
    assert(ids_of(s2)[i] == ids_of(s2)[j]);
}

} // verus!
