//! Batched handle allocation.
//!
//! Handles are claimed from a shared counter in fixed-size batches: each
//! cursor performs one fetch-and-add of [`BLOCK_SIZE`] on the counter when
//! its current batch is exhausted (including on first use), then hands out
//! the claimed values one at a time with no further contact with the
//! counter. The counter starts one full batch above zero, so the reserved
//! zero handle is never produced.
//!
//! In the surrounding runtime the counter is process-wide atomic state; here
//! it is an explicit value passed to the cursor, so allocation is
//! deterministic and an isolated counter can be built for testing. A ghost
//! set records every handle value ever issued through the counter, which is
//! what the uniqueness guarantee is stated over.

use vstd::prelude::*;

use crate::handle::Entity;

verus! {

/// Number of handle values claimed from the shared counter at a time.
pub const BLOCK_SIZE: u64 = 16;

/// The shared counter that allocator cursors claim batches from.
///
/// Its value is always a multiple of [`BLOCK_SIZE`], at least [`BLOCK_SIZE`]
/// (the first batch is skipped so zero is never issued), and strictly above
/// every handle value issued so far.
pub struct Counter {
    next_block: u64,
    issued: Ghost<Set<u64>>,
}

impl Counter {
    /// The next batch boundary: the first handle value not yet claimed.
    pub closed spec fn value(self) -> u64 {
        self.next_block
    }

    /// Every handle value issued through this counter so far.
    pub closed spec fn issued(self) -> Set<u64> {
        self.issued@
    }

    /// Well-formedness: batch-aligned, past the reserved first batch, and
    /// strictly above everything already issued.
    pub closed spec fn wf(self) -> bool {
        &&& self.next_block % BLOCK_SIZE == 0
        &&& self.next_block >= BLOCK_SIZE
        &&& forall|v: u64| self.issued@.contains(v) ==> 0 < v < self.next_block
    }

    /// Constructs a fresh counter, positioned past the reserved first batch.
    pub fn new() -> (c: Counter)
        ensures
            c.wf(),
            c.value() == BLOCK_SIZE,
            c.issued() == Set::<u64>::empty(),
    {
        Counter { next_block: BLOCK_SIZE, issued: Ghost(Set::empty()) }
    }

    /// Returns the counter's current value: the next batch boundary.
    pub fn current(&self) -> (v: u64)
        ensures
            v == self.value(),
    {
        self.next_block
    }
}

/// The first handle value beyond the batch that `n` lies in.
pub open spec fn batch_end(n: u64) -> int {
    n - (n % BLOCK_SIZE) + BLOCK_SIZE
}

/// The handle value the next allocation from cursor `a` against counter `c`
/// will produce: the counter's value when a new batch must be claimed, the
/// cursor's own position otherwise.
pub open spec fn next_value(a: Allocate, c: Counter) -> u64 {
    if a.cursor() % BLOCK_SIZE == 0 {
        c.value()
    } else {
        a.cursor()
    }
}

/// An allocator cursor which yields new entity handles.
///
/// Each cursor is owned by a single call site; many cursors may draw from
/// the same counter, and no handle value is ever issued twice among them.
#[derive(Debug)]
pub struct Allocate {
    next: u64,
}

impl Allocate {
    /// The cursor's position: the next value to hand out, unless it sits on
    /// a batch boundary, where a fresh batch is claimed first.
    pub closed spec fn cursor(self) -> u64 {
        self.next
    }

    /// The cursor is compatible with counter `c`: either it sits on a batch
    /// boundary (fresh, or its batch exhausted), or the rest of its batch
    /// was claimed from `c` and none of it has been issued yet.
    pub closed spec fn inv(self, c: Counter) -> bool {
        &&& c.wf()
        &&& (self.next % BLOCK_SIZE == 0 || {
            &&& batch_end(self.next) <= c.value()
            &&& forall|v: u64|
                self.next <= v < batch_end(self.next) ==> !c.issued().contains(v)
        })
    }

    /// Constructs a new entity handle allocator cursor.
    ///
    /// The cursor starts on a batch boundary, so its first allocation claims
    /// a batch immediately; it is compatible with any well-formed counter.
    pub fn new() -> (a: Allocate)
        ensures
            a.cursor() == 0,
            forall|c: Counter| c.wf() ==> #[trigger] a.inv(c),
    {
        Allocate { next: 0 }
    }

    /// Yields the next entity handle, claiming a fresh batch of
    /// [`BLOCK_SIZE`] values from `counter` when the current batch is
    /// exhausted (or on first use).
    ///
    /// The handle is never the reserved zero value, never equals any handle
    /// issued through `counter` before (by this cursor or any other), and is
    /// recorded as issued.
    pub fn next(&mut self, counter: &mut Counter) -> (e: Entity)
        requires
            old(self).inv(*old(counter)),
            // Capacity exhaustion is fatal and unrecoverable: a claim needs
            // headroom for one more batch on the counter.
            old(self).cursor() % BLOCK_SIZE == 0 ==> old(counter).value() + BLOCK_SIZE
                <= u64::MAX,
        ensures
            final(self).inv(*final(counter)),
            final(counter).wf(),
            e@ == next_value(*old(self), *old(counter)),
            e@ != 0,
            !old(counter).issued().contains(e@),
            final(counter).issued() == old(counter).issued().insert(e@),
            old(counter).issued().subset_of(final(counter).issued()),
            e@ < final(counter).value(),
            final(self).cursor() == e@ + 1,
            old(self).cursor() % BLOCK_SIZE == 0 ==> {
                &&& e@ == old(counter).value()
                &&& e@ % BLOCK_SIZE == 0
                &&& final(counter).value() == old(counter).value() + BLOCK_SIZE
            },
            old(self).cursor() % BLOCK_SIZE != 0 ==> {
                &&& e@ == old(self).cursor()
                &&& final(counter).value() == old(counter).value()
            },
    {
        if self.next % BLOCK_SIZE == 0 {
            // First use, or the previous batch is exhausted: claim the next
            // batch with a single fetch-and-add on the shared counter.
            let claimed = counter.next_block;
            counter.next_block = counter.next_block + BLOCK_SIZE;
            self.next = claimed;
        }
        let value = self.next;
        self.next = value + 1;
        proof {
            counter.issued@ = counter.issued@.insert(value);
            let b = BLOCK_SIZE as int;
            let v = value as int;
            if value % BLOCK_SIZE == 0 {
                assert((v + 1) % b == 1) by (nonlinear_arith)
                    requires
                        v % b == 0,
                        v >= 0,
                        1 < b,
                ;
            } else if (v + 1) % b != 0 {
                assert((v + 1) % b == v % b + 1) by (nonlinear_arith)
                    requires
                        v % b != 0,
                        (v + 1) % b != 0,
                        v >= 0,
                        0 < b,
                ;
            }
            if self.next % BLOCK_SIZE != 0 {
                assert(batch_end(self.next) <= counter.value());
                assert forall|w: u64|
                    self.next <= w < batch_end(self.next) implies !counter.issued().contains(
                    w,
                ) by {
                    if old(self).next % BLOCK_SIZE != 0 {
                        assert(old(self).next <= w < batch_end(old(self).next));
                    }
                    assert(!old(counter).issued().contains(w));
                }
            }
        }
        Entity::new(value)
    }
}

/// A cursor stays compatible with the shared counter while other cursors
/// allocate from it.
///
/// An allocation moves the counter from `c0` to `c1`: its value stays or
/// grows by one batch, and the issued set gains the one handle `e`. Cursor
/// `x`, which took no part, keeps its invariant provided `e` did not come
/// out of `x`'s own batch: it was a fresh batch boundary at or above the
/// counter's value, or it lies in a different batch than `x`'s position —
/// which is always so for cursors that claimed their batches from the same
/// counter, since claimed batches are disjoint.
pub proof fn lemma_cursor_unaffected(x: Allocate, c0: Counter, c1: Counter, e: u64)
    requires
        x.inv(c0),
        c1.wf(),
        c1.value() >= c0.value(),
        c1.issued() == c0.issued().insert(e),
        x.cursor() % BLOCK_SIZE == 0 || e >= c0.value() || batch_end(e) != batch_end(x.cursor()),
    ensures
        x.inv(c1),
{
    if x.cursor() % BLOCK_SIZE != 0 {
        assert forall|v: u64|
            x.cursor() <= v < batch_end(x.cursor()) implies !c1.issued().contains(v) by {
            assert(!c0.issued().contains(v));
            if e < c0.value() && batch_end(e) != batch_end(x.cursor()) {
                // Both batches are half-open runs of BLOCK_SIZE values ending
                // at a multiple of BLOCK_SIZE, so distinct ends keep them
                // disjoint; v lies in x's batch and e in its own.
                assert(batch_end(v as u64) == batch_end(x.cursor())) by (nonlinear_arith)
                    requires
                        x.cursor() <= v < batch_end(x.cursor()),
                        0 < BLOCK_SIZE,
                ;
                assert(v != e) by (nonlinear_arith)
                    requires
                        batch_end(v as u64) == batch_end(x.cursor()),
                        batch_end(e) != batch_end(x.cursor()),
                        0 < BLOCK_SIZE,
                ;
            }
        }
    }
}

/// The issued set never shrinks across allocations: induction helper for
/// [`lemma_uniqueness`].
proof fn lemma_issued_grows(handles: Seq<u64>, counters: Seq<Counter>, i: int, k: int)
    requires
        counters.len() == handles.len() + 1,
        forall|t: int|
            0 <= t < handles.len() ==> counters[t + 1].issued() == counters[t].issued().insert(
                #[trigger] handles[t],
            ),
        0 <= i <= k <= handles.len(),
    ensures
        counters[i].issued().subset_of(counters[k].issued()),
    decreases k - i,
{
    if i < k {
        lemma_issued_grows(handles, counters, i, k - 1);
        assert(counters[k].issued() == counters[k - 1].issued().insert(handles[k - 1]));
    }
}

/// Uniqueness: for any sequence of allocations against one counter — from
/// one cursor or many, in any interleaving — the handles issued are
/// pairwise distinct.
///
/// `counters[i]` is the counter as the `i`-th allocation finds it and
/// `handles[i]` the handle value that allocation returns; the two premises
/// are exactly what [`Allocate::next`] ensures of every call, whichever
/// cursor makes it. A handle, once issued, stays in the issued set, and no
/// later allocation returns anything in that set.
pub proof fn lemma_uniqueness(handles: Seq<u64>, counters: Seq<Counter>)
    requires
        counters.len() == handles.len() + 1,
        forall|t: int|
            0 <= t < handles.len() ==> !counters[t].issued().contains(#[trigger] handles[t]),
        forall|t: int|
            0 <= t < handles.len() ==> counters[t + 1].issued() == counters[t].issued().insert(
                #[trigger] handles[t],
            ),
    ensures
        forall|i: int, j: int| 0 <= i < j < handles.len() ==> handles[i] != handles[j],
{
    assert forall|i: int, j: int| 0 <= i < j < handles.len() implies handles[i] != handles[j] by {
        lemma_issued_grows(handles, counters, i + 1, j);
        assert(counters[i + 1].issued() == counters[i].issued().insert(handles[i]));
        assert(counters[j].issued().contains(handles[i]));
        assert(!counters[j].issued().contains(handles[j]));
    }
}

/// Monotonic batching: for a single cursor, successive handles increase by
/// exactly 1, except where the previous handle exhausted its batch; there
/// the next handle jumps to a batch boundary, past the previous handle by
/// one plus a multiple of the batch size (the blocks other cursors claimed
/// in between).
///
/// `prev` is the handle a call of [`Allocate::next`] returned, leaving the
/// cursor at `prev + 1`; `c` is the counter as the same cursor's following
/// call finds it, so [`next_value`] is the handle that call returns.
pub proof fn lemma_monotonic_batching(prev: u64, a: Allocate, c: Counter)
    requires
        a.inv(c),
        a.cursor() == prev + 1,
        c.issued().contains(prev),
    ensures
        (prev + 1) % (BLOCK_SIZE as int) != 0 ==> next_value(a, c) == prev + 1,
        (prev + 1) % (BLOCK_SIZE as int) == 0 ==> next_value(a, c) > prev && (next_value(a, c)
            - (prev + 1)) % (BLOCK_SIZE as int) == 0,
{
    let b = BLOCK_SIZE as int;
    if (prev + 1) % b == 0 {
        let nv = next_value(a, c) as int;
        assert(nv == c.value());
        assert(nv % b == 0);
        assert(prev < c.value());
        assert((nv - (prev + 1)) % b == 0) by (nonlinear_arith)
            requires
                nv % b == 0,
                (prev + 1) % b == 0,
                nv >= prev + 1,
                b == BLOCK_SIZE as int,
        ;
    }
}

impl Default for Allocate {
    /// Same as [`Allocate::new`]: a cursor on a batch boundary.
    fn default() -> (a: Allocate)
        ensures
            a.cursor() == 0,
            forall|c: Counter| c.wf() ==> #[trigger] a.inv(c),
    {
        Allocate::new()
    }
}

} // verus!
