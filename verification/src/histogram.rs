use vstd::prelude::*;

verus! {

/// The bucket that a value with raw bucket position `raw` falls into: values
/// past the last bucket (the maximum itself) are counted in the last bucket.
pub open spec fn spec_bucket_of(raw: nat, buckets: nat) -> nat {
    if raw >= buckets {
        (buckets - 1) as nat
    } else {
        raw
    }
}

/// How many of the raw bucket positions `raw` land in bucket `b`.
pub open spec fn count_in_bucket(raw: Seq<usize>, buckets: nat, b: nat) -> nat
    decreases raw.len(),
{
    if raw.len() == 0 {
        0
    } else {
        count_in_bucket(raw.drop_last(), buckets, b) + if spec_bucket_of(
            raw.last() as nat,
            buckets,
        ) == b {
            1nat
        } else {
            0nat
        }
    }
}

/// The sum of a sequence of counts.
pub open spec fn sum_of(counts: Seq<usize>) -> nat
    decreases counts.len(),
{
    if counts.len() == 0 {
        0
    } else {
        sum_of(counts.drop_last()) + counts.last() as nat
    }
}

/// The number of values in the first `n` buckets.
pub open spec fn count_below(raw: Seq<usize>, buckets: nat, n: nat) -> nat
    decreases n,
{
    if n == 0 {
        0
    } else {
        count_below(raw, buckets, (n - 1) as nat) + count_in_bucket(raw, buckets, (n - 1) as nat)
    }
}

/// The bucket of one value, from its raw position `raw`.
pub fn bucket_of(raw: usize, buckets: usize) -> (b: usize)
    requires
        buckets > 0,
    ensures
        b == spec_bucket_of(raw as nat, buckets as nat),
        b < buckets,
        raw < buckets ==> b == raw,
        raw >= buckets ==> b == buckets - 1,
{
    if raw >= buckets {
        buckets - 1
    } else {
        raw
    }
}

/// A raw position inside the range is its own bucket; only positions at or
/// past the end are moved, and they go to the last bucket.
pub proof fn lemma_bucket_placement(raw: nat, buckets: nat)
    requires
        buckets > 0,
    ensures
        raw < buckets ==> spec_bucket_of(raw, buckets) == raw,
        raw >= buckets ==> spec_bucket_of(raw, buckets) == buckets - 1,
        spec_bucket_of(raw, buckets) < buckets,
{
}

/// Each bucket but the last counts exactly the values at its own position;
/// the last bucket counts every value at or past its position.
pub proof fn lemma_bucket_counts_by_position(raw: Seq<usize>, buckets: nat, b: nat)
    requires
        b < buckets,
    ensures
        b + 1 < buckets ==> count_in_bucket(raw, buckets, b) == raw.filter(
            |x: usize| x as nat == b,
        ).len(),
        b + 1 == buckets ==> count_in_bucket(raw, buckets, b) == raw.filter(
            |x: usize| x as nat >= b,
        ).len(),
    decreases raw.len(),
{
    reveal(Seq::filter);
    if raw.len() > 0 {
        lemma_bucket_counts_by_position(raw.drop_last(), buckets, b);
    }
}

proof fn lemma_count_in_bucket_bounded(raw: Seq<usize>, buckets: nat, b: nat)
    ensures
        count_in_bucket(raw, buckets, b) <= raw.len(),
    decreases raw.len(),
{
    if raw.len() > 0 {
        lemma_count_in_bucket_bounded(raw.drop_last(), buckets, b);
    }
}

/// Adding one value raises the number of values in the first `n` buckets by
/// one exactly when its bucket is among them.
proof fn lemma_count_below_push(raw: Seq<usize>, x: usize, buckets: nat, n: nat)
    ensures
        count_below(raw.push(x), buckets, n) == count_below(raw, buckets, n) + if spec_bucket_of(
            x as nat,
            buckets,
        ) < n {
            1nat
        } else {
            0nat
        },
    decreases n,
{
    assert(raw.push(x).drop_last() =~= raw);
    if n > 0 {
        lemma_count_below_push(raw, x, buckets, (n - 1) as nat);
    }
}

/// Every value lands in exactly one of the buckets, so together the
/// buckets hold all the values.
pub proof fn lemma_buckets_hold_every_value(raw: Seq<usize>, buckets: nat)
    requires
        buckets > 0,
    ensures
        count_below(raw, buckets, buckets) == raw.len(),
    decreases raw.len(),
{
    if raw.len() == 0 {
        lemma_count_below_empty(raw, buckets, buckets);
    } else {
        let rest = raw.drop_last();
        lemma_buckets_hold_every_value(rest, buckets);
        lemma_count_below_push(rest, raw.last(), buckets, buckets);
        assert(rest.push(raw.last()) =~= raw);
    }
}

proof fn lemma_count_below_empty(raw: Seq<usize>, buckets: nat, n: nat)
    requires
        raw.len() == 0,
    ensures
        count_below(raw, buckets, n) == 0,
    decreases n,
{
    if n > 0 {
        lemma_count_below_empty(raw, buckets, (n - 1) as nat);
    }
}

proof fn lemma_sum_is_count_below(counts: Seq<usize>, raw: Seq<usize>, buckets: nat, n: nat)
    requires
        n <= counts.len(),
        forall|b: int| 0 <= b < counts.len() ==> counts[b] == count_in_bucket(raw, buckets, b as nat),
    ensures
        sum_of(counts.take(n as int)) == count_below(raw, buckets, n),
    decreases n,
{
    if n > 0 {
        lemma_sum_is_count_below(counts, raw, buckets, (n - 1) as nat);
        assert(counts.take(n as int).drop_last() =~= counts.take(n - 1));
    }
}

/// Counts how many values fall into each of `buckets` buckets, given each
/// value's raw bucket position (positions past the end go to the last bucket).
/// With no values, or no buckets, there is no histogram at all.
pub fn bucket_counts(raw: &Vec<usize>, buckets: usize) -> (counts: Vec<usize>)
    ensures
        raw.len() == 0 || buckets == 0 ==> counts@.len() == 0,
        raw.len() > 0 && buckets > 0 ==> {
            &&& counts@.len() == buckets
            &&& forall|b: int|
                0 <= b < buckets ==> #[trigger] counts@[b] == count_in_bucket(
                    raw@,
                    buckets as nat,
                    b as nat,
                )
            &&& sum_of(counts@) == raw.len()
            &&& forall|b: int|
                0 <= b < buckets - 1 ==> #[trigger] counts@[b] == raw@.filter(
                    |x: usize| x as int == b,
                ).len()
            &&& counts@[buckets - 1] == raw@.filter(|x: usize| x >= buckets - 1).len()
        },
{
    let mut counts: Vec<usize> = Vec::new();
    if raw.len() == 0 || buckets == 0 {
        return counts;
    }
    let mut b: usize = 0;
    while b < buckets
        invariant
            b <= buckets,
            counts@.len() == b,
            forall|c: int| 0 <= c < b ==> #[trigger] counts@[c] == 0,
        decreases buckets - b,
    {
        counts.push(0);
        b = b + 1;
    }
    let mut i: usize = 0;
    while i < raw.len()
        invariant
            buckets > 0,
            i <= raw.len(),
            counts@.len() == buckets,
            forall|c: int|
                0 <= c < buckets ==> #[trigger] counts@[c] == count_in_bucket(
                    raw@.take(i as int),
                    buckets as nat,
                    c as nat,
                ),
        decreases raw.len() - i,
    {
        let target = bucket_of(raw[i], buckets);
        assert(raw@.take(i + 1).drop_last() =~= raw@.take(i as int));
        proof {
            lemma_count_in_bucket_bounded(raw@.take(i as int), buckets as nat, target as nat);
        }
        let current = counts[target];
        counts.set(target, current + 1);
        i = i + 1;
    }
    assert(raw@.take(raw.len() as int) =~= raw@);
    proof {
        lemma_sum_is_count_below(counts@, raw@, buckets as nat, buckets as nat);
        lemma_buckets_hold_every_value(raw@, buckets as nat);
        assert(counts@.take(buckets as int) =~= counts@);
        assert forall|b: int| 0 <= b < buckets - 1 implies #[trigger] counts@[b] == raw@.filter(
            |x: usize| x as int == b,
        ).len() by {
            lemma_bucket_counts_by_position(raw@, buckets as nat, b as nat);
            assert((|x: usize| x as nat == b as nat) =~= (|x: usize| x as int == b));
            assert(raw@.filter(|x: usize| x as nat == b as nat) == raw@.filter(
                |x: usize| x as int == b,
            ));
        }
        lemma_bucket_counts_by_position(raw@, buckets as nat, (buckets - 1) as nat);
        assert((|x: usize| x as nat >= (buckets - 1) as nat) =~= (|x: usize| x >= buckets - 1));
        assert(raw@.filter(|x: usize| x as nat >= (buckets - 1) as nat) == raw@.filter(
            |x: usize| x >= buckets - 1,
        ));
    }
    counts
}

} // verus!
