use vstd::prelude::*;

verus! {

pub open spec fn newline() -> u8 {
    '\n' as u8
}

/// The lines of a text: the pieces between newline bytes.
pub open spec fn lines_of(s: Seq<u8>) -> Seq<Seq<u8>>
    decreases s.len(),
{
    if s.len() == 0 {
        seq![Seq::empty()]
    } else {
        let prev = lines_of(s.drop_last());
        if s.last() == newline() {
            prev.push(Seq::empty())
        } else {
            prev.update(prev.len() - 1, prev.last().push(s.last()))
        }
    }
}

pub proof fn lemma_lines_nonempty(s: Seq<u8>)
    ensures
        lines_of(s).len() >= 1,
    decreases s.len(),
{
    if s.len() > 0 {
        lemma_lines_nonempty(s.drop_last());
    }
}

/// The contents of a sequence of byte vectors.
pub open spec fn views_of(v: Seq<Vec<u8>>) -> Seq<Seq<u8>> {
    v.map_values(|x: Vec<u8>| x@)
}

/// Splits a text into its lines.
pub fn split_lines(s: &[u8]) -> (r: Vec<Vec<u8>>)
    ensures
        views_of(r@) == lines_of(s@),
{
    let mut done: Vec<Vec<u8>> = Vec::new();
    let mut cur: Vec<u8> = Vec::new();
    let mut i: usize = 0;
    while i < s.len()
        invariant
            0 <= i <= s@.len(),
            views_of(done@).push(cur@) == lines_of(s@.subrange(0, i as int)),
        decreases s@.len() - i,
    {
        let ghost pre = s@.subrange(0, i + 1);
        assert(pre.drop_last() =~= s@.subrange(0, i as int));
        proof {
            lemma_lines_nonempty(s@.subrange(0, i as int));
        }
        if s[i] == '\n' as u8 {
            let line = cur;
            let ghost before = views_of(done@);
            done.push(line);
            cur = Vec::new();
            assert(views_of(done@) =~= before.push(line@));
            assert(views_of(done@).push(cur@) =~= lines_of(pre));
        } else {
            let ghost before = cur@;
            cur.push(s[i]);
            assert(views_of(done@).push(cur@) =~= lines_of(pre));
        }
        i = i + 1;
    }
    assert(s@.subrange(0, i as int) =~= s@);
    let ghost before = views_of(done@);
    done.push(cur);
    assert(views_of(done@) =~= before.push(cur@));
    done
}

/// Blank bytes that trimming removes.
pub open spec fn is_blank(b: u8) -> bool {
    b == ' ' as u8 || b == '\t' as u8 || b == '\r' as u8
}

/// A line without its leading blanks.
pub open spec fn trim_start(l: Seq<u8>) -> Seq<u8>
    decreases l.len(),
{
    if l.len() > 0 && is_blank(l[0]) {
        trim_start(l.drop_first())
    } else {
        l
    }
}

/// A line without its trailing blanks.
pub open spec fn trim_end(l: Seq<u8>) -> Seq<u8>
    decreases l.len(),
{
    if l.len() > 0 && is_blank(l.last()) {
        trim_end(l.drop_last())
    } else {
        l
    }
}

/// A line without blanks at either end.
pub open spec fn trim(l: Seq<u8>) -> Seq<u8> {
    trim_end(trim_start(l))
}

/// Removes the blanks at both ends of a line.
pub fn trimmed(l: &[u8]) -> (r: Vec<u8>)
    ensures
        r@ == trim(l@),
{
    let mut i: usize = 0;
    assert(l@.subrange(0, l@.len() as int) =~= l@);
    while i < l.len() && (l[i] == ' ' as u8 || l[i] == '\t' as u8 || l[i] == '\r' as u8)
        invariant
            0 <= i <= l@.len(),
            trim_start(l@) == trim_start(l@.subrange(i as int, l@.len() as int)),
        decreases l@.len() - i,
    {
        assert(l@.subrange(i as int, l@.len() as int).drop_first() =~= l@.subrange(i + 1, l@.len() as int));
        i = i + 1;
    }
    assert(i < l@.len() ==> l@.subrange(i as int, l@.len() as int)[0] == l@[i as int]);
    assert(trim_start(l@.subrange(i as int, l@.len() as int)) == l@.subrange(i as int, l@.len() as int));
    let mut j: usize = l.len();
    while j > i && (l[j - 1] == ' ' as u8 || l[j - 1] == '\t' as u8 || l[j - 1] == '\r' as u8)
        invariant
            0 <= i <= j <= l@.len(),
            trim_start(l@) == l@.subrange(i as int, l@.len() as int),
            trim(l@) == trim_end(l@.subrange(i as int, j as int)),
        decreases j - i,
    {
        assert(l@.subrange(i as int, j as int).drop_last() =~= l@.subrange(i as int, j - 1));
        j = j - 1;
    }
    let mut r: Vec<u8> = Vec::new();
    let mut k: usize = i;
    while k < j
        invariant
            0 <= i <= k <= j <= l@.len(),
            r@ == l@.subrange(i as int, k as int),
        decreases j - k,
    {
        r.push(l[k]);
        assert(l@.subrange(i as int, k + 1) =~= l@.subrange(i as int, k as int).push(l@[k as int]));
        k = k + 1;
    }
    r
}

/// The bytes of `s` from `from` up to `to`.
pub fn slice_of(s: &[u8], from: usize, to: usize) -> (r: Vec<u8>)
    requires
        from <= to <= s@.len(),
    ensures
        r@ == s@.subrange(from as int, to as int),
{
    let mut r: Vec<u8> = Vec::new();
    let mut k: usize = from;
    while k < to
        invariant
            from <= k <= to <= s@.len(),
            r@ == s@.subrange(from as int, k as int),
        decreases to - k,
    {
        r.push(s[k]);
        assert(s@.subrange(from as int, k + 1) =~= s@.subrange(from as int, k as int).push(s@[k as int]));
        k = k + 1;
    }
    r
}

} // verus!
