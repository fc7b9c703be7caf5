//! The bitstream readback ring: one device/host buffer pair and one
//! feedback-query slot per ring position, each position bound to the encode
//! timeline value at which its last frame becomes readable.
//!
//! A frame is granted the slot under the cursor.  Before reusing a slot the
//! caller waits for the slot's bound timeline value; the wait and the query
//! readout are driver calls and stay with the embedder.  `next`
//! then harvests the slot's previous feedback, rebinds the slot to the new
//! frame, and advances the cursor — and it is proved here that the feedback
//! harvested at a slot is exactly the one bound when that slot was granted
//! a full ring ago, never an older one.

use vstd::prelude::*;

verus! {

use vstd::arithmetic::div_mod::lemma_fundamental_div_mod;
use vstd::arithmetic::div_mod::lemma_fundamental_div_mod_converse;
use vstd::arithmetic::div_mod::lemma_small_mod;
use vstd::arithmetic::div_mod::lemma_mod_bound;
use crate::cmd_buffer_queue::ring_slot;
use crate::cmd_buffer_queue::returned_count;
use crate::cmd_buffer_queue::lemma_ring_fairness;

/// The feedback made available by waiting on a slot's bound value: the
/// query slot to read and the generation whose bytes it carries.
#[derive(Debug, Copy, Clone, PartialEq, Eq, Structural)]
pub struct Harvest {
    pub query_slot: u32,
    pub generation: u64,
}

/// One slot grant: wait for `wait_value` on the encode timeline, read the
/// harvest if there is one, then encode into `slot` and have the encode
/// submission signal `bound_value` when it completes.
#[derive(Debug, Copy, Clone)]
pub struct SlotGrant {
    pub slot: u32,
    pub wait_value: u64,
    pub harvest: Option<Harvest>,
    pub bound_value: u64,
}

/// Cursor-and-binding state of the readback ring.
#[derive(Debug, Clone)]
pub struct BitstreamBufferRing {
    pub count: u32,
    pub current: u32,
    pub generation: u64,
    pub slot_timeline: Vec<u64>,
    pub buffer_size: u64,
}

/// The timeline value slot `i` is bound to after `g` grants on a ring of
/// `n` slots: the grant number of its latest use, or 0 if never granted.
pub open spec fn spec_bound(g: nat, n: nat, i: nat) -> nat {
    let floor = (g - g % n) as nat;
    if i < g % n {
        floor + i + 1
    } else if floor + i >= n {
        ((floor + i + 1) - n) as nat
    } else {
        0
    }
}

impl BitstreamBufferRing {
    /// The ring's bindings are exactly those of `generation` grants
    /// round-robin from slot zero.
    pub open spec fn wf(&self) -> bool {
        &&& self.count >= 1
        &&& self.current < self.count
        &&& self.slot_timeline@.len() == self.count
        &&& self.current as nat == self.generation as nat % self.count as nat
        &&& forall|i: int|
            0 <= i < self.count ==> self.slot_timeline@[i] as nat == spec_bound(
                self.generation as nat,
                self.count as nat,
                i as nat,
            )
    }

    /// A fresh ring: no slot bound, cursor at zero.
    pub fn new(count: u32, buffer_size: u64) -> (r: BitstreamBufferRing)
        requires
            count >= 1,
        ensures
            r.wf(),
            r.count == count,
            r.generation == 0,
            r.current == 0,
            r.buffer_size == buffer_size,
    {
        let mut slot_timeline: Vec<u64> = Vec::new();
        let mut i: u32 = 0;
        while i < count
            invariant
                i <= count,
                slot_timeline@.len() == i,
                forall|j: int| 0 <= j < i ==> slot_timeline@[j] == 0,
            decreases count - i,
        {
            slot_timeline.push(0);
            i = i + 1;
        }
        proof {
            lemma_small_mod(0, count as nat);
            assert forall|j: int| 0 <= j < count implies #[trigger] spec_bound(
                0,
                count as nat,
                j as nat,
            ) == 0 by {
                lemma_small_mod(0, count as nat);
            }
        }
        BitstreamBufferRing { count, current: 0, generation: 0, slot_timeline, buffer_size }
    }

    /// The encode-timeline value the caller must wait for before the slot
    /// under the cursor may be reused; zero (a no-op wait) on first use.
    pub fn wait_target(&self) -> (r: u64)
        requires
            self.wf(),
        ensures
            r as nat == spec_bound(self.generation as nat, self.count as nat, self.current as nat),
    {
        self.slot_timeline[self.current as usize]
    }

    /// Take the slot under the cursor for the next frame: harvest the
    /// feedback its completed wait uncovered, rebind it to this grant, and
    /// advance.  The harvested feedback belongs to this very slot and to the
    /// grant made exactly one ring revolution ago — bindings are never
    /// skipped or reused out of order.
    pub fn next(&mut self) -> (r: SlotGrant)
        requires
            old(self).wf(),
            old(self).generation < u64::MAX,
        ensures
            final(self).wf(),
            r.slot == old(self).current,
            r.slot as nat == ring_slot(0, old(self).count as nat, old(self).generation as nat),
            r.wait_value as nat == spec_bound(
                old(self).generation as nat,
                old(self).count as nat,
                old(self).current as nat,
            ),
            r.bound_value == old(self).generation + 1,
            r.harvest matches Some(h) ==> h.query_slot == old(self).current && h.generation
                == r.wait_value,
            r.harvest is Some <==> r.wait_value != 0,
            old(self).generation >= old(self).count ==> r.wait_value == old(self).generation + 1
                - old(self).count,
            old(self).generation < old(self).count ==> r.wait_value == 0,
            final(self).generation == old(self).generation + 1,
            final(self).count == old(self).count,
            final(self).buffer_size == old(self).buffer_size,
            final(self).slot_timeline@ == old(self).slot_timeline@.update(
                old(self).current as int,
                (old(self).generation + 1) as u64,
            ),
    {
        proof {
            lemma_bound_at_cursor(old(self).generation as nat, old(self).count as nat);
            vstd::arithmetic::div_mod::lemma_mod_mod(
                old(self).generation as int,
                old(self).count as int,
                1,
            );
        }
        let slot = self.current;
        let wait_value = self.slot_timeline[slot as usize];
        let harvest = if wait_value != 0 {
            let query_slot = ((wait_value - 1) % (self.count as u64)) as u32;
            proof {
                lemma_harvest_slot(old(self).generation as nat, old(self).count as nat);
            }
            Some(Harvest { query_slot, generation: wait_value })
        } else {
            None
        };
        let bound_value = self.generation + 1;
        self.slot_timeline.set(slot as usize, bound_value);
        self.generation = self.generation + 1;
        self.current = self.current + 1;
        if self.current >= self.count {
            self.current = 0;
        }
        proof {
            let g = old(self).generation as nat;
            let n = old(self).count as nat;
            lemma_mod_step(g, n);
            assert forall|i: int| 0 <= i < self.count implies self.slot_timeline@[i] as nat
                == spec_bound((g + 1) as nat, n, i as nat) by {
                lemma_bound_step(g, n, i as nat);
            }
        }
        SlotGrant { slot, wait_value, harvest, bound_value }
    }
}

/// The successor generation's residue: one further around the ring.
proof fn lemma_mod_step(g: nat, n: nat)
    requires
        n >= 1,
    ensures
        (g + 1) % n == if g % n + 1 < n {
            g % n + 1
        } else {
            0nat
        },
{
    lemma_fundamental_div_mod(g as int, n as int);
    lemma_mod_bound(g as int, n as int);
    let q = g as int / n as int;
    let r = g as int % n as int;
    if r + 1 < n {
        assert(q * (n as int) == (n as int) * q) by (nonlinear_arith);
        lemma_fundamental_div_mod_converse((g + 1) as int, n as int, q, r + 1);
    } else {
        assert((q + 1) * (n as int) == q * (n as int) + n as int) by (nonlinear_arith);
        assert(q * (n as int) == (n as int) * q) by (nonlinear_arith);
        lemma_fundamental_div_mod_converse((g + 1) as int, n as int, q + 1, 0);
    }
}

/// What the cursor's slot is bound to: nothing for the first revolution,
/// then exactly the grant one revolution back.
proof fn lemma_bound_at_cursor(g: nat, n: nat)
    requires
        n >= 1,
    ensures
        g < n ==> spec_bound(g, n, g % n) == 0,
        g >= n ==> spec_bound(g, n, g % n) == (g + 1) - n,
{
    lemma_mod_bound(g as int, n as int);
    if g < n {
        lemma_small_mod(g, n);
    }
}

/// The query slot computed from a bound value is the bound slot itself.
proof fn lemma_harvest_slot(g: nat, n: nat)
    requires
        n >= 1,
        g >= n,
    ensures
        ((spec_bound(g, n, g % n) - 1) as int % n as int) as nat == g % n,
{
    lemma_bound_at_cursor(g, n);
    lemma_fundamental_div_mod(g as int, n as int);
    lemma_mod_bound(g as int, n as int);
    let q = g as int / n as int;
    let r = g as int % n as int;
    // bound - 1 == g - n == n * (q - 1) + r
    assert((q - 1) * (n as int) == q * (n as int) - n as int) by (nonlinear_arith);
    assert(q * (n as int) == (n as int) * q) by (nonlinear_arith);
    lemma_fundamental_div_mod_converse((g - n) as int, n as int, q - 1, r);
}

/// One more grant rebinds exactly the cursor's slot.
proof fn lemma_bound_step(g: nat, n: nat, i: nat)
    requires
        n >= 1,
        i < n,
    ensures
        spec_bound(g + 1, n, i) == if i == g % n {
            g + 1
        } else {
            spec_bound(g, n, i)
        },
{
    lemma_mod_bound(g as int, n as int);
    lemma_mod_step(g, n);
    lemma_fundamental_div_mod(g as int, n as int);
    vstd::arithmetic::div_mod::lemma_div_pos_is_pos(g as int, n as int);
    assert((n as int) * (g as int / n as int) >= 0) by (nonlinear_arith)
        requires
            n as int >= 1,
            g as int / n as int >= 0,
    ;
    let r = g % n;
    assert(r <= g);
    let floor = (g - r) as nat;
    if r + 1 < n {
        assert((g + 1) % n == r + 1);
        assert(((g + 1) - (g + 1) % n) as nat == floor);
    } else {
        assert(r == n - 1);
        assert((g + 1) % n == 0);
        assert(((g + 1) - (g + 1) % n) as nat == floor + n);
    }
}

/// Stalls are harmless and reuse is causal: `wait_target` only reads, so a
/// timed-out wait — the embedder walking away without calling `next` —
/// leaves generation, cursor and every binding exactly as they were, and
/// the wait target on resumption is the same value.  That value is zero
/// for the ring's first revolution; afterwards it is exactly the binding
/// made one revolution earlier, and it names this very slot's feedback
/// query — so no slot is ever reassigned before the feedback of its
/// previous generation was surfaced by the grant.
pub proof fn lemma_harvest_causality(q: BitstreamBufferRing)
    requires
        q.wf(),
    ensures
        q.generation < q.count ==> spec_bound(
            q.generation as nat,
            q.count as nat,
            q.current as nat,
        ) == 0,
        q.generation >= q.count ==> spec_bound(
            q.generation as nat,
            q.count as nat,
            q.current as nat,
        ) == q.generation + 1 - q.count,
        spec_bound(q.generation as nat, q.count as nat, q.current as nat) != 0 ==> ((spec_bound(
            q.generation as nat,
            q.count as nat,
            q.current as nat,
        ) - 1) as int % q.count as int) as nat == q.current as nat,
{
    lemma_bound_at_cursor(q.generation as nat, q.count as nat);
    if q.generation >= q.count {
        lemma_harvest_slot(q.generation as nat, q.count as nat);
    }
}

/// Ring fairness for the readback ring: a well-formed ring's cursor is its
/// generation's position around the ring, so grant number `t` takes slot
/// `t mod n`, and across any `k` consecutive grants from a fresh ring every
/// slot is granted at least `k / n` times.
pub proof fn lemma_bitstream_ring_fairness(n: nat, k: nat, slot: nat)
    requires
        1 <= n,
        slot < n,
    ensures
        returned_count(0, n, k, slot) >= k / n,
{
    lemma_ring_fairness(0, n, k, slot);
}

/// What to do with one slot's feedback `(offset, size, status)`: append
/// `size` bytes from `offset` of the host buffer when the driver reports a
/// complete encode, clamped to the host buffer's size; report the feedback
/// unavailable otherwise, dropping that frame's bytes and changing nothing
/// else.
#[derive(Debug, Copy, Clone, PartialEq, Eq, Structural)]
pub enum FeedbackOutcome {
    Write { offset: u32, len: u64 },
    Dropped,
    Unavailable,
}

pub fn feedback_outcome(status_complete: bool, offset: u32, size: u32, host_buffer_size: u64) -> (r:
    FeedbackOutcome)
    ensures
        !status_complete ==> r == FeedbackOutcome::Unavailable,
        status_complete && size == 0 ==> r == FeedbackOutcome::Dropped,
        status_complete && size != 0 ==> r == (FeedbackOutcome::Write {
            offset,
            len: if size as u64 <= host_buffer_size {
                size as u64
            } else {
                host_buffer_size
            },
        }),
{
    if !status_complete {
        FeedbackOutcome::Unavailable
    } else if size == 0 {
        FeedbackOutcome::Dropped
    } else {
        let len = if (size as u64) <= host_buffer_size {
            size as u64
        } else {
            host_buffer_size
        };
        FeedbackOutcome::Write { offset, len }
    }
}

} // verus!
