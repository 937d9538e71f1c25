//! The guest program that sums a descending run of integers.
use vstd::prelude::*;

verus! {

/// The integers `n - 1, n - 2, ..., 0`, in that order; empty when `n <= 0`.
pub open spec fn descending(n: int) -> Seq<i32> {
    Seq::new(if n > 0 { n as nat } else { 0 }, |i: int| (n - 1 - i) as i32)
}

/// What `initialize_large_array(size)` returns, as a sequence.
pub open spec fn initialize_large_array_spec(size: usize) -> Seq<i32> {
    descending((size as i32) as int)
}

/// The mathematical sum of a sequence of integers.
pub open spec fn seq_sum(s: Seq<i32>) -> int
    decreases s.len(),
{
    if s.len() == 0 {
        0
    } else {
        s[0] + seq_sum(s.drop_first())
    }
}

/// The sum of a concatenation is the sum of its parts.
pub proof fn lemma_sum_append(a: Seq<i32>, b: Seq<i32>)
    ensures
        seq_sum(a + b) == seq_sum(a) + seq_sum(b),
    decreases a.len(),
{
    if a.len() == 0 {
        assert(a + b =~= b);
    } else {
        lemma_sum_append(a.drop_first(), b);
        assert((a + b).drop_first() =~= a.drop_first() + b);
    }
}

/// The sum of a one-element sequence is that element.
pub proof fn lemma_sum_singleton(x: i32)
    ensures
        seq_sum(seq![x]) == x,
{
    assert(seq![x].drop_first() =~= Seq::<i32>::empty());
    reveal_with_fuel(seq_sum, 2);
}

/// A sequence of non-negative integers has a non-negative sum.
pub proof fn lemma_sum_nonneg(s: Seq<i32>)
    requires
        forall|i: int| 0 <= i < s.len() ==> s[i] >= 0,
    ensures
        seq_sum(s) >= 0,
    decreases s.len(),
{
    if s.len() > 0 {
        lemma_sum_nonneg(s.drop_first());
    }
}

/// Gauss's formula: `0 + 1 + ... + (n - 1) == n * (n - 1) / 2`, for the
/// descending run that `initialize_large_array` builds.
pub proof fn lemma_descending_sum(n: nat)
    requires
        n <= i32::MAX,
    ensures
        seq_sum(descending(n as int)) == n * (n - 1) / 2,
    decreases n,
{
    if n > 0 {
        let m: nat = (n - 1) as nat;
        assert(descending(n as int).drop_first() =~= descending(m as int));
        lemma_descending_sum(m);
        assert(descending(n as int)[0] == n - 1);
        assert(seq_sum(descending(n as int)) == (n - 1) + seq_sum(descending(m as int)));
        assert(n * (n - 1) / 2 == (n - 1) + m * (m - 1) / 2) by (nonlinear_arith)
            requires
                m == n - 1,
                n > 0,
        ;
    } else {
        assert(descending(0) =~= Seq::<i32>::empty());
        assert(n * (n - 1) / 2 == 0) by (nonlinear_arith)
            requires
                n == 0,
        ;
    }
}

/// The array `[size - 1, ..., 1, 0]`, counted in `i32` as `size as i32`
/// (so a size beyond `i32::MAX` wraps, and a wrapped count that is not
/// positive gives an empty array).
pub fn initialize_large_array(size: usize) -> (v: Vec<i32>)
    ensures
        v@ == initialize_large_array_spec(size),
        v@.len() == (if (size as i32) > 0 { (size as i32) as int } else { 0 }),
        forall|i: int| 0 <= i < v@.len() ==> v@[i] == (size as i32) - 1 - i,
{
    let n: i32 = size as i32;
    let mut v: Vec<i32> = Vec::new();
    let mut k: i32 = n;
    while k > 0
        invariant
            k <= n || n <= 0,
            k > 0 ==> v@ == descending(n as int).take(n - k),
            k <= 0 ==> v@ == descending(n as int),
            n <= 0 ==> v@.len() == 0 && k == n,
        decreases k,
    {
        k = k - 1;
        v.push(k);
        assert(v@ =~= descending(n as int).take(n - k));
    }
    proof {
        if n > 0 {
            assert(descending(n as int).take(n as int) =~= descending(n as int));
        } else {
            assert(v@ =~= descending(n as int));
        }
    }
    v
}

/// The array built for a size that fits in `i32` sums to `size * (size - 1) / 2`.
pub proof fn law_array_sum(size: usize)
    requires
        size <= i32::MAX,
    ensures
        seq_sum(initialize_large_array_spec(size)) == size * (size - 1) / 2,
{
    assert((size as i32) as int == size as int);
    lemma_descending_sum(size as nat);
}

/// The array counts down by one from `size - 1` to 0 (with the count taken
/// as `size as i32`): it has one element per non-negative integer below the
/// count, the element at index `i` is `count - 1 - i`, so it is strictly
/// decreasing, starts at `count - 1` and ends at 0.
pub proof fn law_array_counts_down(size: usize)
    ensures
        initialize_large_array_spec(size).len() == (if (size as i32) > 0 {
            (size as i32) as int
        } else {
            0
        }),
        forall|i: int|
            0 <= i < initialize_large_array_spec(size).len() ==> #[trigger] initialize_large_array_spec(
                size,
            )[i] == (size as i32) - 1 - i,
        forall|i: int, j: int|
            0 <= i < j < initialize_large_array_spec(size).len() ==> initialize_large_array_spec(
                size,
            )[i] > initialize_large_array_spec(size)[j],
        (size as i32) > 0 ==> initialize_large_array_spec(size)[0] == (size as i32) - 1
            && initialize_large_array_spec(size).last() == 0,
{
}

/// Growing the size by one (within `i32`) puts the old size in front of the
/// old array: `initialize_large_array(size + 1)` is `[size]` followed by
/// `initialize_large_array(size)`.
pub proof fn law_array_grows_at_front(size: usize)
    requires
        size < i32::MAX,
    ensures
        initialize_large_array_spec((size + 1) as usize) == seq![size as i32]
            + initialize_large_array_spec(size),
{
    assert((size as i32) as int == size as int);
    assert(((size + 1) as usize as i32) as int == size + 1);
    assert(initialize_large_array_spec((size + 1) as usize) =~= seq![size as i32]
        + initialize_large_array_spec(size));
}

/// Sums the array `[99, 98, ..., 0]`: 4950.
pub fn test_func() -> (sum: i32)
    ensures
        sum == seq_sum(initialize_large_array_spec(100)),
        sum == 4950,
{
    let input = initialize_large_array(100);
    let ghost s = input@;
    proof {
        lemma_descending_sum(100);
    }
    let mut sum: i32 = 0;
    let mut j: usize = 0;
    while j < input.len()
        invariant
            s == input@,
            s == descending(100),
            seq_sum(s) == 4950,
            j <= s.len(),
            sum == seq_sum(s.take(j as int)),
        decreases s.len() - j,
    {
        proof {
            lemma_sum_append(s.take(j as int), s.skip(j as int));
            assert(s.take(j as int) + s.skip(j as int) =~= s);
            lemma_sum_nonneg(s.skip(j as int));
            lemma_sum_append(s.take(j as int), seq![s[j as int]]);
            lemma_sum_singleton(s[j as int]);
            assert(s.take(j as int) + seq![s[j as int]] =~= s.take(j + 1));
            lemma_sum_append(s.take(j + 1), s.skip(j + 1));
            assert(s.take(j + 1) + s.skip(j + 1) =~= s);
            lemma_sum_nonneg(s.skip(j + 1));
        }
        sum = sum + input[j];
        j = j + 1;
    }
    proof {
        assert(s.take(s.len() as int) =~= s);
    }
    sum
}


} // verus!
