//! Properties that relate several operations of the queue and the layout.
use crate::layout::{
    BackingPlan, MemLayout, max_of, plan_fits, plan_of, round_down, slot_count_of,
};
use crate::ring_queue::{dequeue_model, enqueue_model};
use vstd::arithmetic::div_mod::{
    lemma_fundamental_div_mod, lemma_mod_multiples_basic, lemma_mod_multiples_vanish,
};
use vstd::arithmetic::power2::{lemma_pow2_adds, lemma_pow2_pos, pow2};
use vstd::prelude::*;

verus! {

/// One call on the queue.
pub enum QueueOp<T> {
    Enqueue(T),
    Dequeue,
}

/// Enqueues `items` one after another: the final contents, and for each item
/// whether it was accepted.
pub open spec fn enqueue_all<T>(q: Seq<T>, capacity: int, items: Seq<T>) -> (Seq<T>, Seq<bool>)
    decreases items.len(),
{
    if items.len() == 0 {
        (q, Seq::empty())
    } else {
        let (before, accepted) = enqueue_all(q, capacity, items.drop_last());
        let (after, ok) = enqueue_model(before, capacity, items.last());
        (after, accepted.push(ok))
    }
}

/// Runs `ops` in order: the final contents, the items accepted by enqueues,
/// and the items handed out by dequeues.
pub open spec fn run_ops<T>(q: Seq<T>, capacity: int, ops: Seq<QueueOp<T>>) -> (
    Seq<T>,
    Seq<T>,
    Seq<T>,
)
    decreases ops.len(),
{
    if ops.len() == 0 {
        (q, Seq::empty(), Seq::empty())
    } else {
        let (before, accepted, delivered) = run_ops(q, capacity, ops.drop_last());
        match ops.last() {
            QueueOp::Enqueue(x) => {
                let (after, ok) = enqueue_model(before, capacity, x);
                (after, if ok {
                    accepted.push(x)
                } else {
                    accepted
                }, delivered)
            },
            QueueOp::Dequeue => {
                let (after, out) = dequeue_model(before);
                (after, accepted, match out {
                    Some(y) => delivered.push(y),
                    None => delivered,
                })
            },
        }
    }
}

/// From an empty queue of capacity `capacity`, the first `capacity`
/// enqueues succeed and every later one fails.
pub proof fn lemma_exactly_capacity_accepted<T>(capacity: int, items: Seq<T>)
    requires
        capacity >= 1,
    ensures
        enqueue_all(Seq::<T>::empty(), capacity, items).1.len() == items.len(),
        forall|i: int|
            0 <= i < items.len() ==> #[trigger] enqueue_all(Seq::<T>::empty(), capacity, items).1[i]
                == (i < capacity),
    decreases items.len(),
{
    if items.len() > 0 {
        lemma_exactly_capacity_accepted(capacity, items.drop_last());
        lemma_contents_length(capacity, items.drop_last());
    }
}

proof fn lemma_contents_length<T>(capacity: int, items: Seq<T>)
    requires
        capacity >= 1,
    ensures
        enqueue_all(Seq::<T>::empty(), capacity, items).0.len() == if items.len() < capacity {
            items.len() as int
        } else {
            capacity
        },
    decreases items.len(),
{
    if items.len() > 0 {
        lemma_contents_length(capacity, items.drop_last());
    }
}

/// Items come out in the order they went in, whatever the interleaving: what
/// was handed out, followed by what is still held, is what was held at the
/// start followed by every accepted item.
pub proof fn lemma_fifo<T>(q: Seq<T>, capacity: int, ops: Seq<QueueOp<T>>)
    ensures
        ({
            let (rest, accepted, delivered) = run_ops(q, capacity, ops);
            delivered + rest == q + accepted
        }),
    decreases ops.len(),
{
    if ops.len() > 0 {
        lemma_fifo(q, capacity, ops.drop_last());
        let (before, accepted, delivered) = run_ops(q, capacity, ops.drop_last());
        match ops.last() {
            QueueOp::Enqueue(x) => {
                if before.len() < capacity {
                    assert(delivered + before.push(x) =~= (delivered + before).push(x));
                    assert(q + accepted.push(x) =~= (q + accepted).push(x));
                }
            },
            QueueOp::Dequeue => {
                if before.len() > 0 {
                    assert(delivered.push(before[0]) + before.drop_first() =~= delivered + before);
                }
            },
        }
    }
}

/// An item enqueued on an empty queue is the one the next dequeue returns.
pub proof fn lemma_round_trip<T>(capacity: int, v: T)
    requires
        capacity >= 1,
    ensures
        dequeue_model(enqueue_model(Seq::<T>::empty(), capacity, v).0).1 == Some(v),
{
}

/// The allocation origin is recovered from the first slot's address: the
/// first slot lies `midpoint` bytes past an origin aligned to the plan, and
/// stepping back over the control block and rounding down lands on it.
pub proof fn lemma_origin_recovered(
    origin: int,
    metadata: MemLayout,
    item: MemLayout,
    capacity: int,
)
    requires
        metadata.wf(),
        item.wf(),
        origin >= 0,
        capacity >= 0,
        plan_fits(metadata, item, capacity),
        origin % plan_of(metadata, item, capacity).align as int == 0,
    ensures
        ({
            let plan: BackingPlan = plan_of(metadata, item, capacity);
            round_down(
                origin + plan.midpoint - metadata.size,
                max_of(metadata.align as int, item.align as int),
            ) == origin
        }),
{
    let plan = plan_of(metadata, item, capacity);
    let a = max_of(metadata.align as int, item.align as int);
    let m = metadata.size as int;
    let b = item.align as int;
    lemma_fundamental_div_mod(m, b);
    assert(0 <= m % b < b);
    assert(item.size * slot_count_of(capacity) >= 0) by (nonlinear_arith)
        requires
            capacity >= 0,
    ;
    let mid = if m % b == 0 {
        m
    } else {
        m - m % b + b
    };
    assert(plan.midpoint == mid);
    let d = mid - m;
    assert(0 <= d < a);
    assert(plan.align == a);
    lemma_fundamental_div_mod(origin, a);
    let k = origin / a;
    assert(origin == a * k);
    lemma_mod_multiples_vanish(k, d, a);
    vstd::arithmetic::div_mod::lemma_small_mod(d as nat, a as nat);
    assert((origin + d) % a == d) by {
        assert(a * k + d == k * a + d) by (nonlinear_arith);
    }
}

proof fn lemma_multiple_of(x: int, a: int)
    requires
        a > 0,
        x % a == 0,
    ensures
        x == (x / a) * a,
{
    lemma_fundamental_div_mod(x, a);
    assert(a * (x / a) == (x / a) * a) by (nonlinear_arith);
}

proof fn lemma_divides_trans(x: int, a: int, b: int)
    requires
        a > 0,
        b > 0,
        x % a == 0,
        a % b == 0,
    ensures
        x % b == 0,
{
    lemma_multiple_of(x, a);
    lemma_multiple_of(a, b);
    let q = x / a;
    let r = a / b;
    assert(x == (q * r) * b) by (nonlinear_arith)
        requires
            x == q * a,
            a == r * b,
    ;
    lemma_mod_multiples_basic(q * r, b);
}

proof fn lemma_sum_divisible(x: int, y: int, a: int)
    requires
        a > 0,
        x % a == 0,
        y % a == 0,
    ensures
        (x + y) % a == 0,
{
    lemma_multiple_of(x, a);
    lemma_multiple_of(y, a);
    let p = x / a;
    let q = y / a;
    assert(x + y == (p + q) * a) by (nonlinear_arith)
        requires
            x == p * a,
            y == q * a,
    ;
    lemma_mod_multiples_basic(p + q, a);
}

proof fn lemma_pow2_divides(i: nat, j: nat)
    requires
        i <= j,
    ensures
        pow2(j) % pow2(i) == 0,
        pow2(i) <= pow2(j),
{
    lemma_pow2_adds(i, (j - i) as nat);
    lemma_pow2_pos(i);
    lemma_pow2_pos((j - i) as nat);
    assert(pow2(i) <= pow2(i) * pow2((j - i) as nat)) by (nonlinear_arith)
        requires
            pow2((j - i) as nat) >= 1,
    ;
    assert(pow2(j) == (pow2((j - i) as nat) as int) * (pow2(i) as int)) by (nonlinear_arith)
        requires
            pow2(j) == pow2(i) * pow2((j - i) as nat),
    ;
    lemma_mod_multiples_basic(pow2((j - i) as nat) as int, pow2(i) as int);
}

/// With power-of-two alignments and sizes that are multiples of them (as
/// Rust's layouts are), an allocation aligned as the plan asks puts the
/// control block on its own alignment and the first slot on the item's.
pub proof fn lemma_parts_aligned(
    origin: int,
    metadata: MemLayout,
    item: MemLayout,
    capacity: int,
    metadata_log2: nat,
    item_log2: nat,
)
    requires
        metadata.align == pow2(metadata_log2),
        item.align == pow2(item_log2),
        metadata.size % metadata.align == 0,
        capacity >= 0,
        plan_fits(metadata, item, capacity),
        origin >= 0,
        origin % plan_of(metadata, item, capacity).align as int == 0,
    ensures
        ({
            let plan: BackingPlan = plan_of(metadata, item, capacity);
            &&& (origin + plan.midpoint) % item.align as int == 0
            &&& (origin + plan.midpoint - metadata.size) % metadata.align as int == 0
        }),
{
    let plan = plan_of(metadata, item, capacity);
    let ma = metadata.align as int;
    let ia = item.align as int;
    let m = metadata.size as int;
    lemma_pow2_pos(metadata_log2);
    lemma_pow2_pos(item_log2);
    assert(item.size * slot_count_of(capacity) >= 0) by (nonlinear_arith)
        requires
            capacity >= 0,
    ;
    lemma_fundamental_div_mod(m, ia);
    let mid = if m % ia == 0 {
        m
    } else {
        m - m % ia + ia
    };
    assert(plan.midpoint == mid);
    if m % ia != 0 {
        lemma_mod_multiples_basic(m / ia + 1, ia);
        assert(mid == (m / ia + 1) * ia) by (nonlinear_arith)
            requires
                m == ia * (m / ia) + m % ia,
                mid == m - m % ia + ia,
        ;
    }
    assert(mid % ia == 0);
    if metadata_log2 <= item_log2 {
        lemma_pow2_divides(metadata_log2, item_log2);
        assert(plan.align == ia);
        lemma_divides_trans(origin, ia, ma);
        lemma_divides_trans(mid, ia, ma);
        lemma_sum_divisible(origin, mid, ia);
        lemma_sum_divisible(origin, mid, ma);
        lemma_multiple_of(m, ma);
        let s = (origin + mid) / ma;
        let t = m / ma;
        lemma_multiple_of(origin + mid, ma);
        assert(origin + mid - m == (s - t) * ma) by (nonlinear_arith)
            requires
                origin + mid == s * ma,
                m == t * ma,
        ;
        lemma_mod_multiples_basic(s - t, ma);
    } else {
        lemma_pow2_divides(item_log2, metadata_log2);
        assert(plan.align == ma);
        lemma_divides_trans(m, ma, ia);
        assert(mid == m);
        lemma_divides_trans(origin, ma, ia);
        lemma_sum_divisible(origin, mid, ia);
    }
}

} // verus!
