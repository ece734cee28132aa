//! The identifier source: a bucket of snowflake identifiers.
//!
//! A bucket holds a generator, whose state is a millisecond count `t` and a
//! sequence number `i` (0..4096), and a buffer of identifiers generated but
//! not yet handed out. The identifier of a pair is
//! `t << 22 | machine << 17 | node << 12 | i`. Generating moves to the next
//! pair (`i + 1`, or `t + 1` and `i = 0` after 4095); a draw pops the last
//! identifier of the buffer, first refilling an empty buffer with the next
//! 4091 pairs' identifiers.
use vstd::prelude::*;

verus! {

#[verifier::external_type_specification]
#[verifier::external_body]
pub struct ExSnowflakeIdBucket(snowflake::SnowflakeIdBucket);

/// The identifier a bucket hands out next.
pub uninterp spec fn bucket_next(b: snowflake::SnowflakeIdBucket) -> i64;

/// The bucket after it has handed out its next identifier.
pub uninterp spec fn bucket_advanced(b: snowflake::SnowflakeIdBucket) -> snowflake::SnowflakeIdBucket;

/// The identifiers a bucket counts as used: those of the pairs `(t, i)` with
/// `t >= 0` up to its generator's state (inclusive), less those still in its
/// buffer. Every identifier the bucket handed out is among them.
pub uninterp spec fn bucket_issued(b: snowflake::SnowflakeIdBucket) -> Set<i64>;

/// The millisecond count of the bucket's generator.
pub uninterp spec fn bucket_clock(b: snowflake::SnowflakeIdBucket) -> int;

/// The machine id the bucket's generator was made with.
pub uninterp spec fn bucket_machine(b: snowflake::SnowflakeIdBucket) -> int;

/// The node id the bucket's generator was made with.
pub uninterp spec fn bucket_node(b: snowflake::SnowflakeIdBucket) -> int;

/// Whether the bucket's machine and node ids are both in `0..32`, so that
/// they keep to their own bits of an identifier.
pub open spec fn bucket_well_formed(b: snowflake::SnowflakeIdBucket) -> bool {
    0 <= bucket_machine(b) < 32 && 0 <= bucket_node(b) < 32
}

/// Identifiers are distinct for millisecond counts below this: the count
/// keeps to the 42 bits above the 22 low ones.
pub open spec fn clock_limit() -> int {
    0x400_0000_0000
}

/// Whether `n` draws in a row from `b` hand out new identifiers: the bucket
/// is well formed and its clock, which a draw raises by at most one, stays
/// inside the range where identifiers are distinct.
pub open spec fn bucket_can_draw(b: snowflake::SnowflakeIdBucket, n: int) -> bool {
    &&& bucket_well_formed(b)
    &&& 0 <= bucket_clock(b)
    &&& bucket_clock(b) + n < clock_limit()
}

/// A draw of `id` that took `before` to `after`: the identifier was not used
/// before, and afterwards it and every earlier one count as used.
pub open spec fn fresh_draw(
    before: snowflake::SnowflakeIdBucket,
    after: snowflake::SnowflakeIdBucket,
    id: i64,
) -> bool {
    &&& !bucket_issued(before).contains(id)
    &&& bucket_issued(before).insert(id).subset_of(bucket_issued(after))
}

/// Calls `SnowflakeIdBucket::new(machine_id, node_id)`: an empty buffer and a
/// generator that keeps the two ids, at the current millisecond with
/// sequence number 0. The clock is read here and is not stated (the crate
/// casts the milliseconds since 1970 to `i64`); like the crate, this panics
/// when the system clock reads before 1970.
#[verifier::external_body]
fn make_bucket(machine_id: i32, node_id: i32) -> (b: snowflake::SnowflakeIdBucket)
    requires
        0 <= machine_id < 32,
        0 <= node_id < 32,
    ensures
        bucket_machine(b) == machine_id,
        bucket_node(b) == node_id,
{
    snowflake::SnowflakeIdBucket::new(machine_id, node_id)
}

/// The server's identifier bucket: machine 1, node 1.
pub fn server_id_bucket() -> (b: snowflake::SnowflakeIdBucket)
    ensures
        bucket_machine(b) == 1,
        bucket_node(b) == 1,
        bucket_well_formed(b),
{
    make_bucket(1, 1)
}

/// Calls `SnowflakeIdBucket::get_id`, which pops the last identifier of the
/// buffer, first refilling an empty buffer with the next 4091 pairs'
/// identifiers; it reads no clock. The identifier and the bucket afterwards
/// depend on the bucket alone (`bucket_next`, `bucket_advanced`). A refill
/// passes fewer than 4096 pairs, so the clock rises by at most one; the
/// machine and node ids do not change. Two identifiers handed out one after
/// the other differ in their sequence number. While the bucket can draw, the
/// identifier is a pair's beyond the generator's state or one still in the
/// buffer, so it is not among the used ones, and the used ones only grow.
#[verifier::external_body]
pub(crate) fn next_id(bucket: &mut snowflake::SnowflakeIdBucket) -> (id: i64)
    ensures
        id == bucket_next(*old(bucket)),
        *final(bucket) == bucket_advanced(*old(bucket)),
        bucket_next(bucket_advanced(*old(bucket))) != id,
        bucket_machine(*final(bucket)) == bucket_machine(*old(bucket)),
        bucket_node(*final(bucket)) == bucket_node(*old(bucket)),
        bucket_clock(*old(bucket)) <= bucket_clock(*final(bucket)) <= bucket_clock(*old(bucket))
            + 1,
        bucket_can_draw(*old(bucket), 1) ==> !bucket_issued(*old(bucket)).contains(id),
        bucket_can_draw(*old(bucket), 1) ==> bucket_issued(*old(bucket)).insert(id).subset_of(
            bucket_issued(*final(bucket)),
        ),
{
    bucket.get_id()
}

/// Identifiers drawn one after another, each fresh when drawn, are pairwise
/// distinct, none was used before the first draw, and all count as used
/// after the last: so the identifiers of a whole window are new keys.
pub proof fn lemma_draws_fresh(
    buckets: Seq<snowflake::SnowflakeIdBucket>,
    ids: Seq<i64>,
)
    requires
        buckets.len() == ids.len() + 1,
        forall|k: int|
            0 <= k < ids.len() ==> fresh_draw(#[trigger] buckets[k], buckets[k + 1], ids[k]),
    ensures
        forall|i: int, j: int| 0 <= i < j < ids.len() ==> ids[i] != ids[j],
        forall|i: int| 0 <= i < ids.len() ==> !bucket_issued(buckets[0]).contains(#[trigger] ids[i]),
        forall|i: int|
            0 <= i < ids.len() ==> bucket_issued(buckets[ids.len() as int]).contains(
                #[trigger] ids[i],
            ),
    decreases ids.len(),
{
    if ids.len() > 0 {
        let n = ids.len() - 1;
        let bs = buckets.drop_last();
        let is = ids.drop_last();
        assert forall|k: int| 0 <= k < is.len() implies fresh_draw(
            #[trigger] bs[k],
            bs[k + 1],
            is[k],
        ) by {
            assert(fresh_draw(buckets[k], buckets[k + 1], ids[k]));
        }
        lemma_draws_fresh(bs, is);
        assert(fresh_draw(buckets[n], buckets[n + 1], ids[n]));
        lemma_issued_grows(buckets, ids, n);
        assert forall|i: int, j: int| 0 <= i < j < ids.len() implies ids[i] != ids[j] by {
            if j == n {
                assert(bucket_issued(bs[n]).contains(is[i]));
            } else {
                assert(is[i] != is[j]);
            }
        }
        assert forall|i: int| 0 <= i < ids.len() implies !bucket_issued(buckets[0]).contains(
            #[trigger] ids[i],
        ) by {
            if i < n {
                assert(!bucket_issued(bs[0]).contains(is[i]));
            }
        }
        assert forall|i: int| 0 <= i < ids.len() implies bucket_issued(
            buckets[ids.len() as int],
        ).contains(#[trigger] ids[i]) by {
            if i < n {
                assert(bucket_issued(bs[n]).contains(is[i]));
            }
        }
    }
}

/// One step of a run of draws: the bucket keeps its machine and node ids,
/// and its clock rises by at most `step`.
pub open spec fn drifts(
    before: snowflake::SnowflakeIdBucket,
    after: snowflake::SnowflakeIdBucket,
    step: int,
) -> bool {
    &&& bucket_machine(after) == bucket_machine(before)
    &&& bucket_node(after) == bucket_node(before)
    &&& bucket_clock(before) <= bucket_clock(after) <= bucket_clock(before) + step
}

/// Along steps that each raise the clock by at most `step`, the clock after
/// `k` steps is at most `step * k` above where it started.
proof fn lemma_clock_drift(buckets: Seq<snowflake::SnowflakeIdBucket>, step: int, k: int)
    requires
        0 <= k < buckets.len(),
        0 <= step,
        forall|j: int|
            0 <= j < buckets.len() - 1 ==> #[trigger] drifts(buckets[j], buckets[j + 1], step),
    ensures
        bucket_well_formed(buckets[k]) == bucket_well_formed(buckets[0]),
        bucket_clock(buckets[0]) <= bucket_clock(buckets[k]) <= bucket_clock(buckets[0]) + step
            * k,
    decreases k,
{
    if k > 0 {
        lemma_clock_drift(buckets, step, k - 1);
        let j = k - 1;
        assert(drifts(buckets[j], buckets[j + 1], step));
        assert(step * (k - 1) + step == step * k) by (nonlinear_arith);
    }
}

/// A window of single draws, such as one group id per group created: when
/// the bucket can draw as many identifiers as the window holds, every draw
/// is fresh, so the identifiers are pairwise distinct, none was used before
/// the window, and all count as used after it.
pub proof fn lemma_window_single_draws(
    buckets: Seq<snowflake::SnowflakeIdBucket>,
    ids: Seq<i64>,
)
    requires
        buckets.len() == ids.len() + 1,
        bucket_can_draw(buckets[0], ids.len() as int),
        forall|k: int|
            0 <= k < ids.len() ==> #[trigger] drifts(buckets[k], buckets[k + 1], 1),
        forall|k: int|
            0 <= k < ids.len() ==> (bucket_can_draw(buckets[k], 1) ==> fresh_draw(
                #[trigger] buckets[k],
                buckets[k + 1],
                ids[k],
            )),
    ensures
        forall|i: int, j: int| 0 <= i < j < ids.len() ==> ids[i] != ids[j],
        forall|i: int| 0 <= i < ids.len() ==> !bucket_issued(buckets[0]).contains(#[trigger] ids[i]),
        forall|i: int|
            0 <= i < ids.len() ==> bucket_issued(buckets[ids.len() as int]).contains(
                #[trigger] ids[i],
            ),
{
    assert forall|k: int| 0 <= k < ids.len() implies fresh_draw(
        #[trigger] buckets[k],
        buckets[k + 1],
        ids[k],
    ) by {
        lemma_clock_drift(buckets, 1, k);
        assert(bucket_can_draw(buckets[k], 1));
    }
    lemma_draws_fresh(buckets, ids);
}

/// A window of paired draws, such as a message id and then a conversation
/// id per private message: `buckets[k]` is the bucket before the `k`-th
/// pair, `middles[k]` the bucket between its two draws. When the bucket can
/// draw twice as many identifiers as the window has pairs, every first and
/// every second identifier is new and no two of them are equal, whether
/// both are first, both second, or one of each.
pub proof fn lemma_window_paired_draws(
    buckets: Seq<snowflake::SnowflakeIdBucket>,
    middles: Seq<snowflake::SnowflakeIdBucket>,
    firsts: Seq<i64>,
    seconds: Seq<i64>,
)
    requires
        buckets.len() == firsts.len() + 1,
        middles.len() == firsts.len(),
        seconds.len() == firsts.len(),
        bucket_can_draw(buckets[0], 2 * firsts.len() as int),
        forall|k: int|
            0 <= k < firsts.len() ==> #[trigger] drifts(buckets[k], buckets[k + 1], 2),
        forall|k: int|
            0 <= k < firsts.len() ==> (bucket_can_draw(#[trigger] buckets[k], 2) ==> {
                &&& fresh_draw(buckets[k], middles[k], firsts[k])
                &&& fresh_draw(middles[k], buckets[k + 1], seconds[k])
            }),
    ensures
        forall|i: int, j: int| 0 <= i < j < firsts.len() ==> firsts[i] != firsts[j],
        forall|i: int, j: int| 0 <= i < j < firsts.len() ==> seconds[i] != seconds[j],
        forall|i: int, j: int|
            0 <= i < firsts.len() && 0 <= j < firsts.len() ==> firsts[i] != seconds[j],
        forall|i: int|
            0 <= i < firsts.len() ==> !bucket_issued(buckets[0]).contains(#[trigger] firsts[i]),
        forall|i: int|
            0 <= i < firsts.len() ==> !bucket_issued(buckets[0]).contains(#[trigger] seconds[i]),
        forall|i: int|
            0 <= i < firsts.len() ==> bucket_issued(buckets[firsts.len() as int]).contains(
                #[trigger] firsts[i],
            ),
        forall|i: int|
            0 <= i < firsts.len() ==> bucket_issued(buckets[firsts.len() as int]).contains(
                #[trigger] seconds[i],
            ),
{
    let n = firsts.len() as int;
    let all_buckets = Seq::new(
        (2 * n + 1) as nat,
        |m: int|
            if m % 2 == 0 {
                buckets[m / 2]
            } else {
                middles[m / 2]
            },
    );
    let all_ids = Seq::new(
        (2 * n) as nat,
        |m: int|
            if m % 2 == 0 {
                firsts[m / 2]
            } else {
                seconds[m / 2]
            },
    );
    assert forall|m: int| 0 <= m < all_ids.len() implies fresh_draw(
        #[trigger] all_buckets[m],
        all_buckets[m + 1],
        all_ids[m],
    ) by {
        let k = m / 2;
        assert(0 <= k < n);
        lemma_clock_drift(buckets, 2, k);
        assert(2 * k + 2 <= 2 * n);
        assert(bucket_can_draw(buckets[k], 2));
        if m % 2 == 0 {
            assert(m + 1 == 2 * k + 1);
            assert(all_buckets[m] == buckets[k]);
            assert(all_buckets[m + 1] == middles[k]);
        } else {
            assert(m + 1 == 2 * (k + 1));
            assert(all_buckets[m] == middles[k]);
            assert(all_buckets[m + 1] == buckets[k + 1]);
        }
    }
    lemma_draws_fresh(all_buckets, all_ids);
    assert(all_buckets[2 * n] == buckets[n]);
    assert(all_buckets[0] == buckets[0]);
    assert forall|i: int| 0 <= i < n implies all_ids[2 * i] == firsts[i] && all_ids[2 * i + 1]
        == seconds[i] by {
        assert((2 * i) % 2 == 0 && (2 * i) / 2 == i);
        assert((2 * i + 1) % 2 == 1 && (2 * i + 1) / 2 == i);
    }
    assert forall|i: int, j: int| 0 <= i < j < n implies firsts[i] != firsts[j] by {
        assert(all_ids[2 * i] != all_ids[2 * j]);
    }
    assert forall|i: int, j: int| 0 <= i < j < n implies seconds[i] != seconds[j] by {
        assert(all_ids[2 * i + 1] != all_ids[2 * j + 1]);
    }
    assert forall|i: int, j: int| 0 <= i < n && 0 <= j < n implies firsts[i] != seconds[j] by {
        if 2 * i < 2 * j + 1 {
            assert(all_ids[2 * i] != all_ids[2 * j + 1]);
        } else {
            assert(all_ids[2 * j + 1] != all_ids[2 * i]);
        }
    }
    assert forall|i: int| 0 <= i < n implies !bucket_issued(buckets[0]).contains(
        #[trigger] firsts[i],
    ) && !bucket_issued(buckets[0]).contains(seconds[i]) && bucket_issued(buckets[n]).contains(
        firsts[i],
    ) && bucket_issued(buckets[n]).contains(seconds[i]) by {
        assert(all_ids[2 * i] == firsts[i]);
        assert(all_ids[2 * i + 1] == seconds[i]);
    }
}

/// The used identifiers only grow along a run of fresh draws.
proof fn lemma_issued_grows(buckets: Seq<snowflake::SnowflakeIdBucket>, ids: Seq<i64>, k: int)
    requires
        buckets.len() == ids.len() + 1,
        0 <= k <= ids.len(),
        forall|j: int|
            0 <= j < ids.len() ==> fresh_draw(#[trigger] buckets[j], buckets[j + 1], ids[j]),
    ensures
        bucket_issued(buckets[0]).subset_of(bucket_issued(buckets[k])),
    decreases k,
{
    if k > 0 {
        lemma_issued_grows(buckets, ids, k - 1);
        assert(fresh_draw(buckets[k - 1], buckets[k], ids[k - 1]));
    }
}

} // verus!
