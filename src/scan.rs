use vstd::prelude::*;
use crate::bytes::bytes_eq;
use crate::text::{lines_of, trim, trimmed, split_lines, views_of};
use crate::words::{spell, spelling, Word};

verus! {

/// The first position of byte `b` in `t`, or -1.
pub open spec fn index_of(t: Seq<u8>, b: u8) -> int
    decreases t.len(),
{
    if t.len() == 0 {
        -1
    } else if t[0] == b {
        0
    } else {
        let r = index_of(t.drop_first(), b);
        if r < 0 {
            -1
        } else {
            r + 1
        }
    }
}

proof fn lemma_index_of(t: Seq<u8>, b: u8, i: int)
    requires
        0 <= i <= t.len(),
        forall|k: int| 0 <= k < i ==> t[k] != b,
    ensures
        i < t.len() && t[i] == b ==> index_of(t, b) == i,
        i == t.len() ==> index_of(t, b) == -1,
    decreases i,
{
    if i > 0 {
        lemma_index_of(t.drop_first(), b, i - 1);
    }
}

/// The first position of byte `b` in `t`, if there is one.
pub fn find_byte(t: &[u8], b: u8) -> (r: Option<usize>)
    ensures
        r matches Some(i) ==> index_of(t@, b) == i && i < t@.len(),
        r is None ==> index_of(t@, b) == -1,
{
    let mut i: usize = 0;
    while i < t.len()
        invariant
            0 <= i <= t@.len(),
            forall|k: int| 0 <= k < i ==> t@[k] != b,
        decreases t@.len() - i,
    {
        if t[i] == b {
            proof {
                lemma_index_of(t@, b, i as int);
            }
            return Some(i);
        }
        i = i + 1;
    }
    proof {
        lemma_index_of(t@, b, i as int);
    }
    None
}

/// `t` begins with `p`.
pub open spec fn starts_with(t: Seq<u8>, p: Seq<u8>) -> bool {
    p.len() <= t.len() && t.take(p.len() as int) == p
}

fn begins_with(t: &[u8], p: &[u8]) -> (r: bool)
    ensures
        r == starts_with(t@, p@),
{
    if p.len() > t.len() {
        return false;
    }
    let mut i: usize = 0;
    while i < p.len()
        invariant
            p@.len() <= t@.len(),
            0 <= i <= p@.len(),
            forall|k: int| 0 <= k < i ==> t@[k] == p@[k],
        decreases p@.len() - i,
    {
        if t[i] != p[i] {
            assert(t@.take(p@.len() as int)[i as int] != p@[i as int]);
            return false;
        }
        i = i + 1;
    }
    assert(t@.take(p@.len() as int) =~= p@);
    true
}

/// Where the scan of a case's text stands.
#[derive(Clone, Copy, Debug, PartialEq, Eq, Structural)]
pub enum Phase {
    /// Before the metadata block.
    Before,
    /// Inside the metadata block.
    Inside,
    /// After the metadata block.
    After,
}

/// One `key = value` line of the metadata, with the table it stands in.
/// `bug` numbers the `[[bugs]]` tables from 1, and is 0 in other tables.
pub ghost struct RawEntry {
    pub table: Seq<u8>,
    pub bug: nat,
    pub key: Seq<u8>,
    pub value: Seq<u8>,
}

/// What the scan has gathered so far.
pub ghost struct ScanState {
    pub phase: Phase,
    pub table: Seq<u8>,
    pub bugs: nat,
    /// A list value that continues on the following lines: its key, and
    /// the text gathered so far.
    pub pending: Option<(Seq<u8>, Seq<u8>)>,
    pub entries: Seq<RawEntry>,
    /// A line inside the block that is neither a table header, an
    /// assignment, a comment nor blank.
    pub bad: bool,
}

pub open spec fn start_state() -> ScanState {
    ScanState {
        phase: Phase::Before,
        table: Seq::empty(),
        bugs: 0,
        pending: None,
        entries: Seq::empty(),
        bad: false,
    }
}

/// The entry for `key = value` in the current table.
pub open spec fn entry_in(s: ScanState, key: Seq<u8>, value: Seq<u8>) -> RawEntry {
    RawEntry {
        table: s.table,
        bug: if s.table == spelling(Word::Bugs) { s.bugs } else { 0 },
        key,
        value,
    }
}

pub open spec fn open_bracket() -> u8 {
    '[' as u8
}

pub open spec fn close_bracket() -> u8 {
    ']' as u8
}

/// An assignment whose value opens a list that does not close on its line.
pub open spec fn opens_list(v: Seq<u8>) -> bool {
    v.len() > 0 && v[0] == open_bracket() && index_of(v, close_bracket()) < 0
}

/// The scan of one trimmed line.
pub open spec fn scan_line(s: ScanState, t: Seq<u8>) -> ScanState {
    match s.phase {
        Phase::Before => if t == spelling(Word::OpenTag) {
            ScanState { phase: Phase::Inside, ..s }
        } else {
            s
        },
        Phase::After => s,
        Phase::Inside => match s.pending {
            Some((k, raw)) => if index_of(t, close_bracket()) >= 0 {
                ScanState { pending: None, entries: s.entries.push(entry_in(s, k, raw + t)), ..s }
            } else {
                ScanState { pending: Some((k, raw + t)), ..s }
            },
            None => if starts_with(t, spelling(Word::Fence)) {
                ScanState { phase: Phase::After, ..s }
            } else if t.len() == 0 || t[0] == '#' as u8 {
                s
            } else if t.len() >= 4 && t[0] == open_bracket() && t[1] == open_bracket() && t[t.len()
                - 2] == close_bracket() && t[t.len() - 1] == close_bracket() {
                ScanState { table: t.subrange(2, t.len() - 2), bugs: s.bugs + 1, ..s }
            } else if t.len() >= 2 && t[0] == open_bracket() && t[t.len() - 1] == close_bracket() {
                ScanState { table: t.subrange(1, t.len() - 1), ..s }
            } else if index_of(t, '=' as u8) >= 0 {
                let p = index_of(t, '=' as u8);
                let key = trim(t.take(p));
                let value = trim(t.skip(p + 1));
                if opens_list(value) {
                    ScanState { pending: Some((key, value)), ..s }
                } else {
                    ScanState { entries: s.entries.push(entry_in(s, key, value)), ..s }
                }
            } else {
                ScanState { bad: true, ..s }
            },
        },
    }
}

/// The scan of a sequence of lines, each trimmed, from the start state.
pub open spec fn scan_lines(ls: Seq<Seq<u8>>) -> ScanState
    decreases ls.len(),
{
    if ls.len() == 0 {
        start_state()
    } else {
        scan_line(scan_lines(ls.drop_last()), trim(ls.last()))
    }
}

/// The scan of a whole case text.
pub open spec fn scan_text(src: Seq<u8>) -> ScanState {
    scan_lines(lines_of(src))
}

/// One entry, as the scanner holds it.
pub struct Entry {
    pub table: Vec<u8>,
    pub bug: usize,
    pub key: Vec<u8>,
    pub value: Vec<u8>,
}

impl Entry {
    pub open spec fn model(&self) -> RawEntry {
        RawEntry { table: self.table@, bug: self.bug as nat, key: self.key@, value: self.value@ }
    }
}

pub open spec fn models(es: Seq<Entry>) -> Seq<RawEntry> {
    es.map_values(|e: Entry| e.model())
}

/// The scanner's state.
pub struct Scanner {
    pub phase: Phase,
    pub table: Vec<u8>,
    pub bugs: usize,
    pub pending: Option<(Vec<u8>, Vec<u8>)>,
    pub entries: Vec<Entry>,
    pub bad: bool,
}

impl Scanner {
    pub open spec fn model(&self) -> ScanState {
        ScanState {
            phase: self.phase,
            table: self.table@,
            bugs: self.bugs as nat,
            pending: match self.pending {
                Some((k, v)) => Some((k@, v@)),
                None => None,
            },
            entries: models(self.entries@),
            bad: self.bad,
        }
    }
}

fn append_bytes(v: &mut Vec<u8>, t: &[u8])
    ensures
        final(v)@ == old(v)@ + t@,
{
    let mut i: usize = 0;
    while i < t.len()
        invariant
            0 <= i <= t@.len(),
            v@ == old(v)@ + t@.take(i as int),
        decreases t@.len() - i,
    {
        v.push(t[i]);
        assert(t@.take(i + 1) =~= t@.take(i as int).push(t@[i as int]));
        i = i + 1;
    }
    assert(t@.take(i as int) =~= t@);
}

fn copy_bytes(t: &[u8]) -> (r: Vec<u8>)
    ensures
        r@ == t@,
{
    let mut r: Vec<u8> = Vec::new();
    append_bytes(&mut r, t);
    assert(r@ =~= t@);
    r
}

fn push_entry(st: &mut Scanner, key: Vec<u8>, value: Vec<u8>)
    ensures
        final(st).model() == (ScanState {
            entries: old(st).model().entries.push(entry_in(old(st).model(), key@, value@)),
            ..old(st).model()
        }),
{
    let bugs_word = spell(Word::Bugs);
    let bug: usize = if bytes_eq(st.table.as_slice(), bugs_word.as_slice()) { st.bugs } else { 0 };
    let table = copy_bytes(st.table.as_slice());
    let ghost before = st.entries@;
    let e = Entry { table, bug, key, value };
    st.entries.push(e);
    assert(models(st.entries@) =~= models(before).push(e.model()));
}

/// Scans one trimmed line.
fn scan_one(st: &mut Scanner, t: &[u8])
    requires
        old(st).bugs < usize::MAX,
    ensures
        final(st).model() == scan_line(old(st).model(), t@),
{
    match st.phase {
        Phase::Before => {
            let tag = spell(Word::OpenTag);
            if bytes_eq(t, tag.as_slice()) {
                st.phase = Phase::Inside;
            }
        },
        Phase::After => {},
        Phase::Inside => {
            let pending = st.pending.take();
            match pending {
                Some((k, raw)) => {
                    let mut raw = raw;
                    append_bytes(&mut raw, t);
                    if find_byte(t, ']' as u8).is_some() {
                        push_entry(st, k, raw);
                    } else {
                        st.pending = Some((k, raw));
                    }
                },
                None => {
                    let fence = spell(Word::Fence);
                    let n = t.len();
                    if begins_with(t, fence.as_slice()) {
                        st.phase = Phase::After;
                    } else if n == 0 || t[0] == '#' as u8 {
                    } else if n >= 4 && t[0] == '[' as u8 && t[1] == '[' as u8 && t[n - 2] == ']' as u8
                        && t[n - 1] == ']' as u8 {
                        st.table = crate::text::slice_of(t, 2, n - 2);
                        st.bugs = st.bugs + 1;
                    } else if n >= 2 && t[0] == '[' as u8 && t[n - 1] == ']' as u8 {
                        st.table = crate::text::slice_of(t, 1, n - 1);
                    } else {
                        match find_byte(t, '=' as u8) {
                            Some(p) => {
                                let key = trimmed(crate::text::slice_of(t, 0, p).as_slice());
                                let value = trimmed(crate::text::slice_of(t, p + 1, n).as_slice());
                                assert(t@.subrange(0, p as int) == t@.take(p as int));
                                assert(t@.subrange(p + 1, n as int) == t@.skip(p + 1));
                                let lists = value.len() > 0 && value[0] == '[' as u8 && find_byte(
                                    value.as_slice(),
                                    ']' as u8,
                                ).is_none();
                                if lists {
                                    st.pending = Some((key, value));
                                } else {
                                    push_entry(st, key, value);
                                }
                            },
                            None => {
                                st.bad = true;
                            },
                        }
                    }
                },
            }
        },
    }
}

/// Scans a whole case text.
pub fn scan(src: &[u8]) -> (r: Scanner)
    ensures
        r.model() == scan_text(src@),
{
    let lines = split_lines(src);
    let mut st = Scanner {
        phase: Phase::Before,
        table: Vec::new(),
        bugs: 0,
        pending: None,
        entries: Vec::new(),
        bad: false,
    };
    assert(st.model().entries =~= start_state().entries);
    assert(st.model().table =~= start_state().table);
    let mut i: usize = 0;
    while i < lines.len()
        invariant
            0 <= i <= lines@.len(),
            views_of(lines@) == lines_of(src@),
            st.bugs <= i,
            st.model() == scan_lines(lines_of(src@).take(i as int)),
        decreases lines@.len() - i,
    {
        let t = trimmed(lines[i].as_slice());
        let ghost pre = lines_of(src@).take(i + 1);
        assert(pre.drop_last() =~= lines_of(src@).take(i as int));
        assert(pre.last() == lines@[i as int]@);
        scan_one(&mut st, t.as_slice());
        i = i + 1;
    }
    assert(lines_of(src@).take(i as int) =~= lines_of(src@));
    st
}

} // verus!
