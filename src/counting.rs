use vstd::prelude::*;

verus! {

/// How many entries of `s` equal `k`.
pub open spec fn count_eq(s: Seq<i32>, k: int) -> nat
    decreases s.len(),
{
    if s.len() == 0 {
        0
    } else {
        count_eq(s.drop_last(), k) + if s.last() == k { 1nat } else { 0nat }
    }
}

/// How many entries of `s` are strictly positive.
pub open spec fn count_pos(s: Seq<i32>) -> nat
    decreases s.len(),
{
    if s.len() == 0 {
        0
    } else {
        count_pos(s.drop_last()) + if s.last() > 0 { 1nat } else { 0nat }
    }
}

/// `s` with every strictly positive entry lowered by one.
pub open spec fn decremented(s: Seq<i32>) -> Seq<i32> {
    Seq::new(s.len(), |i: int| if s[i] > 0 { (s[i] - 1) as i32 } else { s[i] })
}

/// A count never exceeds the length.
pub proof fn lemma_count_eq_bound(s: Seq<i32>, k: int)
    ensures
        count_eq(s, k) <= s.len(),
    decreases s.len(),
{
    if s.len() > 0 {
        lemma_count_eq_bound(s.drop_last(), k);
    }
}

/// A count never exceeds the length.
pub proof fn lemma_count_pos_bound(s: Seq<i32>)
    ensures
        count_pos(s) <= s.len(),
    decreases s.len(),
{
    if s.len() > 0 {
        lemma_count_pos_bound(s.drop_last());
    }
}

/// No entry equals `k`, so none is counted.
pub proof fn lemma_count_eq_absent(s: Seq<i32>, k: int)
    requires
        forall|i: int| 0 <= i < s.len() ==> s[i] != k,
    ensures
        count_eq(s, k) == 0,
    decreases s.len(),
{
    if s.len() > 0 {
        lemma_count_eq_absent(s.drop_last(), k);
    }
}

/// No entry is positive, so none is counted.
pub proof fn lemma_count_pos_absent(s: Seq<i32>)
    requires
        forall|i: int| 0 <= i < s.len() ==> s[i] <= 0,
    ensures
        count_pos(s) == 0,
    decreases s.len(),
{
    if s.len() > 0 {
        lemma_count_pos_absent(s.drop_last());
    }
}

/// Overwriting one entry moves it from the count of its old value to that of the new.
pub proof fn lemma_count_eq_update(s: Seq<i32>, i: int, v: i32, k: int)
    requires
        0 <= i < s.len(),
    ensures
        count_eq(s.update(i, v), k) + (if s[i] == k { 1int } else { 0int })
            == count_eq(s, k) + (if v == k { 1int } else { 0int }),
    decreases s.len(),
{
    let t = s.update(i, v);
    if i == s.len() - 1 {
        assert(t.drop_last() =~= s.drop_last());
    } else {
        assert(t.drop_last() =~= s.drop_last().update(i, v));
        lemma_count_eq_update(s.drop_last(), i, v, k);
    }
}

/// Overwriting one entry changes the positive count by what it was and what it becomes.
pub proof fn lemma_count_pos_update(s: Seq<i32>, i: int, v: i32)
    requires
        0 <= i < s.len(),
    ensures
        count_pos(s.update(i, v)) + (if s[i] > 0 { 1int } else { 0int })
            == count_pos(s) + (if v > 0 { 1int } else { 0int }),
    decreases s.len(),
{
    let t = s.update(i, v);
    if i == s.len() - 1 {
        assert(t.drop_last() =~= s.drop_last());
    } else {
        assert(t.drop_last() =~= s.drop_last().update(i, v));
        lemma_count_pos_update(s.drop_last(), i, v);
    }
}

/// After lowering, the entries equal to a positive `k` are those that held `k + 1`.
pub proof fn lemma_count_eq_decremented(s: Seq<i32>, k: int)
    requires
        k > 0,
    ensures
        count_eq(decremented(s), k) == count_eq(s, k + 1),
    decreases s.len(),
{
    if s.len() > 0 {
        assert(decremented(s).drop_last() =~= decremented(s.drop_last()));
        lemma_count_eq_decremented(s.drop_last(), k);
    }
}

/// Lowering takes exactly the entries that held 1 out of the positive ones.
pub proof fn lemma_count_pos_decremented(s: Seq<i32>)
    ensures
        count_pos(decremented(s)) + count_eq(s, 1) == count_pos(s),
    decreases s.len(),
{
    if s.len() > 0 {
        assert(decremented(s).drop_last() =~= decremented(s.drop_last()));
        lemma_count_pos_decremented(s.drop_last());
    }
}

/// Counting over a prefix one entry longer.
pub proof fn lemma_count_eq_take(s: Seq<i32>, i: int, k: int)
    requires
        0 <= i < s.len(),
    ensures
        count_eq(s.take(i + 1), k) == count_eq(s.take(i), k) + if s[i] == k { 1nat } else { 0nat },
{
    assert(s.take(i + 1).drop_last() =~= s.take(i));
}

/// Counting over a longer prefix never gives less.
pub proof fn lemma_count_eq_take_mono(s: Seq<i32>, i: int, j: int, k: int)
    requires
        0 <= i <= j <= s.len(),
    ensures
        count_eq(s.take(i), k) <= count_eq(s.take(j), k),
    decreases j - i,
{
    if i < j {
        lemma_count_eq_take(s, j - 1, k);
        lemma_count_eq_take_mono(s, i, j - 1, k);
    }
}

} // verus!
