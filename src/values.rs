use vstd::prelude::*;

verus! {

pub open spec fn quote() -> u8 {
    '"' as u8
}

/// A value without its surrounding quotes, where it has them.
pub open spec fn unquote(v: Seq<u8>) -> Seq<u8> {
    if v.len() >= 2 && v[0] == quote() && v.last() == quote() {
        v.subrange(1, v.len() - 1)
    } else {
        v
    }
}

/// Removes the quotes around a value, where it has them.
pub fn unquoted(v: &[u8]) -> (r: Vec<u8>)
    ensures
        r@ == unquote(v@),
{
    let n = v.len();
    if n >= 2 && v[0] == '"' as u8 && v[n - 1] == '"' as u8 {
        crate::text::slice_of(v, 1, n - 1)
    } else {
        crate::text::slice_of(v, 0, n)
    }
}

/// The state of a walk over a list value: the quoted items seen, the item
/// being read, and whether the walk is inside quotes.
pub open spec fn items_walk(v: Seq<u8>) -> (Seq<Seq<u8>>, Seq<u8>, bool)
    decreases v.len(),
{
    if v.len() == 0 {
        (Seq::empty(), Seq::empty(), false)
    } else {
        let (items, cur, inside) = items_walk(v.drop_last());
        let b = v.last();
        if b == quote() {
            if inside {
                (items.push(cur), Seq::empty(), false)
            } else {
                (items, Seq::empty(), true)
            }
        } else if inside {
            (items, cur.push(b), true)
        } else {
            (items, cur, false)
        }
    }
}

/// The quoted items of a list value, in order.
pub open spec fn quoted_items(v: Seq<u8>) -> Seq<Seq<u8>> {
    items_walk(v).0
}

/// Reads the quoted items of a list value.
pub fn list_items(v: &[u8]) -> (r: Vec<Vec<u8>>)
    ensures
        crate::text::views_of(r@) == quoted_items(v@),
{
    let mut items: Vec<Vec<u8>> = Vec::new();
    let mut cur: Vec<u8> = Vec::new();
    let mut inside = false;
    let mut i: usize = 0;
    while i < v.len()
        invariant
            0 <= i <= v@.len(),
            items_walk(v@.take(i as int)) == (crate::text::views_of(items@), cur@, inside),
        decreases v@.len() - i,
    {
        let ghost pre = v@.take(i + 1);
        assert(pre.drop_last() =~= v@.take(i as int));
        let b = v[i];
        if b == '"' as u8 {
            if inside {
                let ghost before = items@;
                let done = cur;
                items.push(done);
                cur = Vec::new();
                assert(crate::text::views_of(items@) =~= crate::text::views_of(before).push(done@));
                assert(cur@ =~= Seq::<u8>::empty());
                inside = false;
            } else {
                cur = Vec::new();
                assert(cur@ =~= Seq::<u8>::empty());
                inside = true;
            }
        } else if inside {
            cur.push(b);
        }
        i = i + 1;
    }
    assert(v@.take(i as int) =~= v@);
    items
}

pub open spec fn is_digit(b: u8) -> bool {
    '0' as u8 <= b <= '9' as u8
}

/// The number that a string of decimal digits denotes.
pub open spec fn digits_value(v: Seq<u8>) -> nat
    decreases v.len(),
{
    if v.len() == 0 {
        0
    } else {
        digits_value(v.drop_last()) * 10 + (v.last() - '0' as u8) as nat
    }
}

/// A decimal count: one or more digits whose value fits in 64 bits.
pub open spec fn decimal(v: Seq<u8>) -> Option<u64> {
    if v.len() > 0 && (forall|i: int| 0 <= i < v.len() ==> is_digit(#[trigger] v[i]))
        && digits_value(v) <= u64::MAX {
        Some(digits_value(v) as u64)
    } else {
        None
    }
}

proof fn lemma_value_grows(v: Seq<u8>, i: int)
    requires
        0 <= i <= v.len(),
        forall|k: int| 0 <= k < v.len() ==> is_digit(#[trigger] v[k]),
    ensures
        digits_value(v.take(i)) <= digits_value(v),
    decreases v.len() - i,
{
    if i < v.len() {
        lemma_value_grows(v, i + 1);
        assert(v.take(i + 1).drop_last() =~= v.take(i));
    } else {
        assert(v.take(i) =~= v);
    }
}

/// Reads a decimal count.
pub fn parse_decimal(v: &[u8]) -> (r: Option<u64>)
    ensures
        r == decimal(v@),
{
    if v.len() == 0 {
        return None;
    }
    let mut i: usize = 0;
    while i < v.len()
        invariant
            0 <= i <= v@.len(),
            forall|k: int| 0 <= k < i ==> is_digit(#[trigger] v@[k]),
        decreases v@.len() - i,
    {
        if !(v[i] >= '0' as u8 && v[i] <= '9' as u8) {
            assert(!is_digit(v@[i as int]));
            return None;
        }
        i = i + 1;
    }
    let mut acc: u64 = 0;
    let mut j: usize = 0;
    while j < v.len()
        invariant
            0 <= j <= v@.len(),
            forall|k: int| 0 <= k < v@.len() ==> is_digit(#[trigger] v@[k]),
            acc == digits_value(v@.take(j as int)),
        decreases v@.len() - j,
    {
        let d: u64 = (v[j] - '0' as u8) as u64;
        assert(v@.take(j + 1).drop_last() =~= v@.take(j as int));
        if acc > (u64::MAX - d) / 10 {
            proof {
                lemma_value_grows(v@, j + 1);
                assert(digits_value(v@.take(j + 1)) == acc * 10 + d) by (nonlinear_arith)
                    requires
                        digits_value(v@.take(j + 1)) == digits_value(v@.take(j as int)) * 10 + d,
                        acc == digits_value(v@.take(j as int)),
                ;
                assert(acc * 10 + d > u64::MAX) by (nonlinear_arith)
                    requires
                        acc > (u64::MAX - d) / 10,
                        d <= 9,
                ;
            }
            return None;
        }
        proof {
            assert(acc * 10 + d <= u64::MAX) by (nonlinear_arith)
                requires
                    acc <= (u64::MAX - d) / 10,
                    d <= 9,
            ;
        }
        acc = acc * 10 + d;
        j = j + 1;
    }
    assert(v@.take(j as int) =~= v@);
    Some(acc)
}

} // verus!
