//! Means, medians and orderings of decimal values.
use crate::decimal::{
    decimal_checked_add, decimal_checked_div, opt_parts, pow10, value_le, value_lt, Dec,
};
use vstd::prelude::*;
use vstd::seq_lib::lemma_multiset_commutative;

verus! {

/// An arithmetic step of `rust_decimal` overflowed (where the same computation with
/// the panicking operators would have panicked).
#[derive(Clone, Copy, Debug, PartialEq, Eq, Structural)]
pub struct DecimalOverflow;

/// The outcome of a decimal computation that may overflow: `None` for an overflow,
/// otherwise the optional result by parts.
pub open spec fn outcome(r: Result<Option<Dec>, DecimalOverflow>) -> Option<Option<(int, int)>> {
    match r {
        Ok(o) => Some(opt_parts(o)),
        Err(_) => None,
    }
}

/// The values are in non-decreasing order by value.
pub open spec fn sorted_by_value(s: Seq<Dec>) -> bool {
    forall|i: int, j: int| 0 <= i < j < s.len() ==> value_le(#[trigger] s[i]@, #[trigger] s[j]@)
}

/// `s` holds the values of `vals`, each as often, in non-decreasing order.
pub open spec fn is_sorted_arrangement(s: Seq<Dec>, vals: Seq<Dec>) -> bool {
    &&& s.to_multiset() == vals.to_multiset()
    &&& sorted_by_value(s)
}

/// The running sum `0 + v0 + v1 + ...` as `rust_decimal` computes it; `None` on overflow.
pub open spec fn sum_of(s: Seq<Dec>) -> Option<(int, int)>
    decreases s.len(),
{
    if s.len() == 0 {
        Some((0int, 0int))
    } else {
        match sum_of(s.drop_last()) {
            Some(t) => decimal_checked_add(t, s.last()@),
            None => None,
        }
    }
}

/// The mean of the values: absent for no values, otherwise the sum divided by the
/// count; `None` on overflow.
pub open spec fn mean_of(s: Seq<Dec>) -> Option<Option<(int, int)>> {
    if s.len() == 0 {
        Some(None)
    } else {
        match sum_of(s) {
            Some(t) => match decimal_checked_div(t, (s.len() as int, 0int)) {
                Some(q) => Some(Some(q)),
                None => None,
            },
            None => None,
        }
    }
}

/// The median of already ordered values: the middle one for an odd count, the half of
/// the sum of the two middle ones for an even count; `None` on overflow.
pub open spec fn median_of_sorted(s: Seq<Dec>) -> Option<Option<(int, int)>> {
    if s.len() == 0 {
        Some(None)
    } else if s.len() % 2 == 0 {
        let m = s.len() / 2;
        match decimal_checked_add(s[m - 1]@, s[m as int]@) {
            Some(t) => match decimal_checked_div(t, (2int, 0int)) {
                Some(q) => Some(Some(q)),
                None => None,
            },
            None => None,
        }
    } else {
        Some(Some(s[(s.len() / 2) as int]@))
    }
}

/// How many leading values of `s` are at most `x`.
pub open spec fn le_prefix_len(s: Seq<Dec>, x: Dec) -> nat
    decreases s.len(),
{
    if s.len() > 0 && value_le(s[0]@, x@) {
        1 + le_prefix_len(s.drop_first(), x)
    } else {
        0
    }
}

/// The values in non-decreasing order, equal values keeping their order: each value
/// goes after every earlier one that is not greater (as a stable sort orders them).
pub open spec fn stable_sorted(vals: Seq<Dec>) -> Seq<Dec>
    decreases vals.len(),
{
    if vals.len() == 0 {
        Seq::empty()
    } else {
        let s = stable_sorted(vals.drop_last());
        s.insert(le_prefix_len(s, vals.last()) as int, vals.last())
    }
}

/// `out` is the median of `vals` in their stable non-decreasing order.
pub open spec fn median_matches(vals: Seq<Dec>, out: Option<Option<(int, int)>>) -> bool {
    median_of_sorted(stable_sorted(vals)) == out
}

proof fn lemma_le_prefix_len_bound(s: Seq<Dec>, x: Dec)
    ensures
        le_prefix_len(s, x) <= s.len(),
    decreases s.len(),
{
    if s.len() > 0 && value_le(s[0]@, x@) {
        lemma_le_prefix_len_bound(s.drop_first(), x);
    }
}

proof fn lemma_pow10_positive(n: nat)
    ensures
        pow10(n) > 0,
    decreases n,
{
    if n > 0 {
        lemma_pow10_positive((n - 1) as nat);
    }
}

/// `value_le` is transitive.
pub proof fn lemma_value_le_trans(a: (int, int), b: (int, int), c: (int, int))
    requires
        a.1 >= 0,
        b.1 >= 0,
        c.1 >= 0,
        value_le(a, b),
        value_le(b, c),
    ensures
        value_le(a, c),
{
    let pa = pow10(a.1 as nat);
    let pb = pow10(b.1 as nat);
    let pc = pow10(c.1 as nat);
    lemma_pow10_positive(a.1 as nat);
    lemma_pow10_positive(b.1 as nat);
    lemma_pow10_positive(c.1 as nat);
    assert(a.0 * pc <= c.0 * pa) by (nonlinear_arith)
        requires
            a.0 * pb <= b.0 * pa,
            b.0 * pc <= c.0 * pb,
            pa > 0,
            pb > 0,
            pc > 0,
    {
        assert(a.0 * pb * pc <= b.0 * pa * pc);
        assert(b.0 * pc * pa <= c.0 * pb * pa);
        assert(a.0 * pc * pb <= c.0 * pa * pb);
    }
}

proof fn lemma_insert_to_multiset<A>(s: Seq<A>, pos: int, x: A)
    requires
        0 <= pos <= s.len(),
    ensures
        s.insert(pos, x).to_multiset() =~= s.to_multiset().insert(x),
{
    let a = s.subrange(0, pos);
    let b = s.subrange(pos, s.len() as int);
    assert(s =~= a + b);
    lemma_multiset_commutative(a, b);
    lemma_multiset_commutative(a.push(x), b);
    a.to_multiset_ensures();
}

/// The values in non-decreasing order (equal values keep their order).
pub fn sort_decimals(values: &Vec<Dec>) -> (sorted: Vec<Dec>)
    ensures
        is_sorted_arrangement(sorted@, values@),
        sorted@ == stable_sorted(values@),
{
    let mut sorted: Vec<Dec> = Vec::new();
    let mut i: usize = 0;
    proof {
        assert(values@.take(0) =~= sorted@);
    }
    while i < values.len()
        invariant
            i <= values.len(),
            sorted@.to_multiset() == values@.take(i as int).to_multiset(),
            sorted_by_value(sorted@),
            sorted@ == stable_sorted(values@.take(i as int)),
            forall|k: int| 0 <= k < sorted@.len() ==> 0 <= (#[trigger] sorted@[k])@.1,
        decreases values.len() - i,
    {
        let x = values[i];
        let _ = x.scale();
        let mut pos: usize = 0;
        proof {
            assert(sorted@.skip(0) =~= sorted@);
        }
        while pos < sorted.len() && sorted[pos].le(&x)
            invariant
                pos <= sorted@.len(),
                forall|k: int| 0 <= k < pos ==> value_le((#[trigger] sorted@[k])@, x@),
                le_prefix_len(sorted@, x) == pos + le_prefix_len(sorted@.skip(pos as int), x),
            decreases sorted@.len() - pos,
        {
            proof {
                assert(sorted@.skip(pos as int).drop_first() =~= sorted@.skip(pos as int + 1));
            }
            pos = pos + 1;
        }
        proof {
            if pos < sorted@.len() {
                assert(sorted@.skip(pos as int)[0] == sorted@[pos as int]);
            }
            assert(le_prefix_len(sorted@, x) == pos);
        }
        let ghost old_sorted = sorted@;
        sorted.insert(pos, x);
        proof {
            old_sorted.insert_ensures(pos as int, x);
            lemma_insert_to_multiset(old_sorted, pos as int, x);
            assert(values@.take(i as int + 1) =~= values@.take(i as int).push(x));
            assert(values@.take(i as int + 1).drop_last() =~= values@.take(i as int));
            values@.take(i as int).to_multiset_ensures();
            assert(sorted@ == old_sorted.insert(pos as int, x));
            assert forall|a: int, b: int| 0 <= a < b < sorted@.len() implies value_le(
                #[trigger] sorted@[a]@,
                #[trigger] sorted@[b]@,
            ) by {
                if b < pos {
                    assert(sorted@[a] == old_sorted[a]);
                    assert(sorted@[b] == old_sorted[b]);
                } else if b == pos {
                    assert(sorted@[a] == old_sorted[a]);
                } else if a < pos {
                    assert(sorted@[a] == old_sorted[a]);
                    assert(sorted@[b] == old_sorted[b - 1]);
                    assert(value_le(old_sorted[a]@, x@));
                    assert(value_lt(x@, old_sorted[pos as int]@));
                    if pos < b - 1 {
                        assert(value_le(old_sorted[pos as int]@, old_sorted[b - 1]@));
                        lemma_value_le_trans(x@, old_sorted[pos as int]@, old_sorted[b - 1]@);
                    }
                    lemma_value_le_trans(old_sorted[a]@, x@, old_sorted[b - 1]@);
                } else if a == pos {
                    assert(sorted@[b] == old_sorted[b - 1]);
                    assert(value_lt(x@, old_sorted[pos as int]@));
                    if pos < b - 1 {
                        assert(value_le(old_sorted[pos as int]@, old_sorted[b - 1]@));
                        lemma_value_le_trans(x@, old_sorted[pos as int]@, old_sorted[b - 1]@);
                    }
                } else {
                    assert(sorted@[a] == old_sorted[a - 1]);
                    assert(sorted@[b] == old_sorted[b - 1]);
                }
            }
        }
        i = i + 1;
    }
    proof {
        assert(values@.take(values@.len() as int) =~= values@);
    }
    sorted
}

proof fn lemma_sum_overflow_persists(s: Seq<Dec>, i: int)
    requires
        0 <= i <= s.len(),
        sum_of(s.take(i)) is None,
    ensures
        sum_of(s) is None,
    decreases s.len() - i,
{
    if i < s.len() {
        assert(s.take(i + 1).drop_last() =~= s.take(i));
        lemma_sum_overflow_persists(s, i + 1);
    } else {
        assert(s.take(i) =~= s);
    }
}

/// The mean of the values, absent for no values.
pub fn mean_decimal(values: &Vec<Dec>) -> (r: Result<Option<Dec>, DecimalOverflow>)
    requires
        values@.len() <= i64::MAX,
    ensures
        outcome(r) == mean_of(values@),
{
    if values.len() == 0 {
        return Ok(None);
    }
    let mut sum = Dec::zero();
    let mut i: usize = 0;
    while i < values.len()
        invariant
            i <= values.len(),
            sum_of(values@.take(i as int)) == Some(sum@),
        decreases values.len() - i,
    {
        proof {
            assert(values@.take(i as int + 1).drop_last() =~= values@.take(i as int));
        }
        match sum.checked_add(&values[i]) {
            Some(next) => sum = next,
            None => {
                proof {
                    lemma_sum_overflow_persists(values@, i as int + 1);
                }
                return Err(DecimalOverflow);
            },
        }
        i = i + 1;
    }
    proof {
        assert(values@.take(values@.len() as int) =~= values@);
    }
    let count = Dec::from_int(values.len() as i64);
    match sum.checked_div(&count) {
        Some(q) => Ok(Some(q)),
        None => Err(DecimalOverflow),
    }
}

/// The median of the values, absent for no values.
pub fn median_decimal(values: &Vec<Dec>) -> (r: Result<Option<Dec>, DecimalOverflow>)
    ensures
        median_matches(values@, outcome(r)),
        outcome(r) == median_of_sorted(stable_sorted(values@)),
{
    let sorted = sort_decimals(values);
    let n = sorted.len();
    let r = if n == 0 {
        Ok(None)
    } else if n % 2 == 0 {
        let middle = n / 2;
        match sorted[middle - 1].checked_add(&sorted[middle]) {
            Some(t) => match t.checked_div(&Dec::from_int(2)) {
                Some(q) => Ok(Some(q)),
                None => Err(DecimalOverflow),
            },
            None => Err(DecimalOverflow),
        }
    } else {
        Ok(Some(sorted[n / 2]))
    };
    proof {
        assert(median_of_sorted(sorted@) == outcome(r));
    }
    r
}

} // verus!
