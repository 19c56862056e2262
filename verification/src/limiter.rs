//! How a listener's budget of concurrent requests is split into shards, one per core up to
//! sixteen, and the order in which a worker tries the shards for a permit.
use vstd::prelude::*;

verus! {

/// The budget: the configured number of permits, at least one.
pub open spec fn budget(total_permits: usize) -> int {
    if total_permits == 0 {
        1
    } else {
        total_permits as int
    }
}

/// How many shards the budget is split into: one per core, no more than the budget, from
/// one to sixteen.
pub open spec fn shard_count_of(total_permits: usize, parallelism: usize) -> int {
    let n = if parallelism < budget(total_permits) {
        parallelism as int
    } else {
        budget(total_permits)
    };
    if n < 1 {
        1
    } else if n > 16 {
        16
    } else {
        n
    }
}

/// The sum of a list of counts.
pub open spec fn total_of(s: Seq<usize>) -> int
    decreases s.len(),
{
    if s.len() == 0 {
        0
    } else {
        total_of(s.drop_last()) + s.last()
    }
}

/// The permits of each shard: the budget divided evenly, the first shards taking one more
/// each where it does not divide.
pub fn shard_permits(total_permits: usize, parallelism: usize) -> (r: Vec<usize>)
    ensures
        r@.len() == shard_count_of(total_permits, parallelism),
        forall|i: int| 0 <= i < r@.len() ==> #[trigger] r@[i] == budget(total_permits) / (r@.len() as int)
            + if i < budget(total_permits) % (r@.len() as int) { 1int } else { 0int },
        total_of(r@) == budget(total_permits),
        forall|i: int| 0 <= i < r@.len() ==> #[trigger] r@[i] >= 1,
{
    let total: usize = if total_permits == 0 { 1 } else { total_permits };
    let mut n: usize = if parallelism < total { parallelism } else { total };
    if n < 1 {
        n = 1;
    } else if n > 16 {
        n = 16;
    }
    let base = total / n;
    let extra = total % n;
    proof {
        vstd::arithmetic::div_mod::lemma_fundamental_div_mod(total as int, n as int);
        assert(base >= 1) by (nonlinear_arith)
            requires
                n <= total,
                n >= 1,
                base == total / n,
        ;
    }
    let mut shards: Vec<usize> = Vec::new();
    let mut i: usize = 0;
    while i < n
        invariant
            1 <= n <= 16,
            n <= total,
            base == total / n,
            extra == total % n,
            base >= 1,
            total == n * base + extra,
            i <= n,
            shards@.len() == i,
            forall|k: int| 0 <= k < i ==> #[trigger] shards@[k] == base + if k < extra { 1int } else { 0int },
            total_of(shards@) == i * base + if i < extra { i as int } else { extra as int },
        decreases n - i,
    {
        let one: usize = if i < extra { 1 } else { 0 };
        if i < extra {
            assert(base + 1 <= total) by (nonlinear_arith)
                requires
                    total == n * base + extra,
                    0 < extra < n,
                    base >= 1,
            ;
        }
        let ghost before = shards@;
        shards.push(base + one);
        assert(shards@.drop_last() =~= before);
        assert((i + 1) * base == i * base + base) by (nonlinear_arith);
        i = i + 1;
    }
    proof {
        assert(extra < n);
    }
    shards
}

/// The order in which a worker whose own shard is `local` tries the `n` shards: its own
/// first, then each next one, wrapping around.
pub open spec fn probe_at(local: int, n: int, offset: int) -> int {
    if local + offset < n {
        local + offset
    } else {
        local + offset - n
    }
}

/// The shards a worker tries, in order: starting from its own shard (`local` taken modulo
/// the shard count), every shard exactly once.
pub fn probe_order(local: usize, shard_count: usize) -> (r: Vec<usize>)
    requires
        shard_count > 0,
    ensures
        r@.len() == shard_count,
        forall|o: int| 0 <= o < r@.len() ==> #[trigger] r@[o] == probe_at(
            local as int % shard_count as int,
            shard_count as int,
            o,
        ),
        r@[0] == local % shard_count,
        forall|o: int, p: int| 0 <= o < p < r@.len() ==> #[trigger] r@[o] != #[trigger] r@[p],
        forall|j: usize| j < shard_count ==> #[trigger] r@.contains(j),
{
    let n = shard_count;
    let l = local % n;
    let mut order: Vec<usize> = Vec::new();
    let mut o: usize = 0;
    while o < n
        invariant
            n == shard_count,
            l == local % n,
            l < n,
            o <= n,
            order@.len() == o,
            forall|k: int| 0 <= k < o ==> #[trigger] order@[k] == probe_at(l as int, n as int, k),
        decreases n - o,
    {
        let idx = if o < n - l { l + o } else { o - (n - l) };
        order.push(idx);
        o = o + 1;
    }
    assert forall|j: usize| j < shard_count implies #[trigger] order@.contains(j) by {
        let k: int = if j >= l { j - l } else { j + n - l };
        assert(order@[k] == j);
    }
    order
}

} // verus!
