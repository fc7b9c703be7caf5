//! The command-buffer ring: a fixed number of slots, each a command buffer
//! matched with its own fence, handed out round-robin.
//!
//! `wait_slot` names the slot whose fence the caller must see signaled;
//! once that wait succeeds, `next` hands out the slot's matched pair — the
//! caller resets the fence and the command buffer — and moves the cursor
//! on.  A timed-out wait is simply not followed by `next`, so it changes
//! nothing.  Waiting, resetting and recording are driver calls and stay
//! with the embedder; the cursor discipline and its fairness are decided
//! and proved here.

use vstd::prelude::*;

verus! {

use vstd::arithmetic::div_mod::lemma_fundamental_div_mod;
use vstd::arithmetic::div_mod::lemma_small_mod;
use vstd::arithmetic::div_mod::lemma_add_mod_noop;
use vstd::arithmetic::div_mod::lemma_mod_bound;
use vstd::arithmetic::div_mod::lemma_mod_equivalence;
use vstd::arithmetic::div_mod::lemma_div_plus_one;
use vstd::arithmetic::div_mod::lemma_div_is_ordered;

/// One hand-out: a command buffer and the fence that guards it, the same
/// slot of the ring.
#[derive(Debug, Copy, Clone, PartialEq, Eq, Structural)]
pub struct CommandBuffer {
    pub fence_slot: u32,
    pub cmd_slot: u32,
}

/// Cursor state of the ring.
#[derive(Debug, Copy, Clone)]
pub struct CommandBufferQueue {
    pub queue_length: u32,
    pub current: u32,
    pub timeout: u64,
}

/// The slot that the `t`-th hand-out returns, counting from a ring whose
/// cursor stands at `start`.
pub open spec fn ring_slot(start: nat, n: nat, t: nat) -> nat {
    (start + t) % n
}

/// How often slot `slot` is returned within the first `k` hand-outs.
pub open spec fn returned_count(start: nat, n: nat, k: nat, slot: nat) -> nat
    decreases k,
{
    if k == 0 {
        0
    } else {
        returned_count(start, n, (k - 1) as nat, slot) + (if ring_slot(start, n, (k - 1) as nat)
            == slot {
            1nat
        } else {
            0nat
        })
    }
}

impl CommandBufferQueue {
    pub open spec fn wf(&self) -> bool {
        &&& self.queue_length >= 1
        &&& self.current < self.queue_length
    }

    /// A fresh ring of `queue_length` slots; every fence starts signaled, so
    /// the first wait on each is a no-op.
    pub fn new(queue_length: u32, timeout: u64) -> (r: CommandBufferQueue)
        requires
            queue_length >= 1,
        ensures
            r.wf(),
            r.queue_length == queue_length,
            r.current == 0,
            r.timeout == timeout,
    {
        CommandBufferQueue { queue_length, current: 0, timeout }
    }

    /// The state after one hand-out: the cursor moves one slot around.
    pub open spec fn spec_step(&self) -> CommandBufferQueue {
        CommandBufferQueue {
            current: ((self.current + 1) as nat % self.queue_length as nat) as u32,
            ..*self
        }
    }

    /// The slot whose fence the caller must see signaled before the next
    /// hand-out; on a timeout the caller walks away and the ring is
    /// untouched.
    pub fn wait_slot(&self) -> (r: u32)
        ensures
            r == self.current,
    {
        self.current
    }

    /// Hand out the cursor's slot — its command buffer together with the
    /// fence that guarded it, which the successful wait showed signaled.
    /// The caller resets that fence and command buffer before recording;
    /// the cursor moves one slot on.
    pub fn next(&mut self) -> (r: CommandBuffer)
        requires
            old(self).wf(),
        ensures
            final(self).wf(),
            *final(self) == old(self).spec_step(),
            r.fence_slot == old(self).current,
            r.cmd_slot == old(self).current,
            r.cmd_slot as nat == ring_slot(old(self).current as nat, old(self).queue_length as nat, 0),
    {
        let slot = self.current;
        self.current = self.current + 1;
        if self.current >= self.queue_length {
            self.current = 0;
        }
        proof {
            let n = self.queue_length as nat;
            let c = old(self).current as nat;
            lemma_small_mod(c, n);
            if c + 1 < n {
                lemma_small_mod(c + 1, n);
            } else {
                assert(c + 1 == n);
                vstd::arithmetic::div_mod::lemma_mod_self_0(n as int);
            }
        }
        CommandBuffer { fence_slot: slot, cmd_slot: slot }
    }
}

/// The ring after `t` hand-outs.
pub open spec fn queue_after(q: CommandBufferQueue, t: nat) -> CommandBufferQueue
    decreases t,
{
    if t == 0 {
        q
    } else {
        queue_after(q, (t - 1) as nat).spec_step()
    }
}

/// After `t` hand-outs the cursor stands `t` slots around the ring; since
/// each hand-out returns the cursor it found, the `t`-th hand-out returned
/// `ring_slot(start, n, t)`.
pub proof fn lemma_queue_after(q: CommandBufferQueue, t: nat)
    requires
        q.wf(),
    ensures
        queue_after(q, t).wf(),
        queue_after(q, t).queue_length == q.queue_length,
        queue_after(q, t).current as nat == (q.current + t) as nat % q.queue_length as nat,
        queue_after(q, t).current as nat == ring_slot(
            q.current as nat,
            q.queue_length as nat,
            t,
        ),
    decreases t,
{
    let n = q.queue_length as int;
    if t == 0 {
        lemma_small_mod(q.current as nat, q.queue_length as nat);
    } else {
        lemma_queue_after(q, (t - 1) as nat);
        let prev = queue_after(q, (t - 1) as nat);
        lemma_mod_bound((q.current + t - 1) as int, n);
        lemma_add_mod_noop((q.current + t - 1) as int, 1, n);
        if q.queue_length > 1 {
            lemma_small_mod(1, q.queue_length as nat);
        } else {
            vstd::arithmetic::div_mod::lemma_mod_self_0(n);
        }
        if prev.current as nat + 1 < q.queue_length as nat {
            lemma_small_mod(prev.current as nat + 1, q.queue_length as nat);
        } else {
            vstd::arithmetic::div_mod::lemma_mod_self_0(n);
        }
        assert((prev.current + 1) as int % n == (q.current + t) as int % n);
    }
}

/// The hand-out index of the first return of `slot`.
pub open spec fn first_return(start: nat, n: nat, slot: nat) -> nat {
    ((((slot + n) as int - (start as int) % n as int)) % n as int) as nat
}

/// A hand-out returns `slot` exactly when its index is congruent to the
/// first return of `slot`.
proof fn lemma_hit_iff(start: nat, n: nat, slot: nat, t: nat)
    requires
        1 <= n,
        slot < n,
    ensures
        ring_slot(start, n, t) == slot <==> t % n == first_return(start, n, slot),
{
    let ni = n as int;
    let b = (start as int) % ni;
    let t0 = first_return(start, n, slot);
    lemma_mod_bound(start as int, ni);
    lemma_mod_bound(t as int, ni);
    lemma_mod_bound((slot + n) as int - b, ni);
    // ring_slot(start, n, t) == (b + t) % n
    lemma_add_mod_noop(start as int, t as int, ni);
    lemma_mod_bound((start + t) as int, ni);
    assert((b + (t as int) % ni) % ni == (start + t) as int % ni);
    // (b + t0) % n == slot
    lemma_add_mod_noop(b, (slot + n) as int - b, ni);
    lemma_small_mod(b as nat, n);
    assert((b + ((slot + n) as int - b) % ni) % ni == (slot + n) as int % ni);
    vstd::arithmetic::div_mod::lemma_mod_multiples_vanish(1, slot as int, ni);
    lemma_small_mod(slot, n);
    assert((b + t0 as int) % ni == slot as int);
    if t % n == t0 {
        lemma_add_mod_noop(b, t as int, ni);
        assert((b + t as int) % ni == (b + t0 as int) % ni);
    } else {
        // distinct residues give distinct slots
        lemma_add_mod_noop(b, t as int, ni);
        lemma_add_mod_noop(b, t0 as int, ni);
        if (b + (t as int) % ni) % ni == (b + t0 as int) % ni {
            lemma_mod_equivalence((b + t as int), (b + t0 as int), ni);
            lemma_mod_equivalence(t as int, t0 as int, ni);
            lemma_small_mod(t0, n);
            assert(t as int % ni == t0 as int % ni);
            assert(false);
        }
    }
}

/// Exact count of returns of `slot`: none until its first return, then one
/// more at every full ring period.
proof fn lemma_count_closed_form(start: nat, n: nat, k: nat, slot: nat)
    requires
        1 <= n,
        slot < n,
    ensures
        returned_count(start, n, k, slot) == if k <= first_return(start, n, slot) {
            0nat
        } else {
            ((k - 1 - first_return(start, n, slot)) as nat / n + 1) as nat
        },
    decreases k,
{
    let t0 = first_return(start, n, slot);
    lemma_mod_bound((slot + n) as int - ((start as int) % n as int), n as int);
    if k == 0 {
    } else {
        lemma_count_closed_form(start, n, (k - 1) as nat, slot);
        lemma_hit_iff(start, n, slot, (k - 1) as nat);
        let km1 = (k - 1) as nat;
        if km1 < t0 {
            lemma_small_mod(km1, n);
            assert(km1 % n != t0);
        } else if km1 == t0 {
            lemma_small_mod(t0, n);
            assert(returned_count(start, n, k, slot) == 1);
            vstd::arithmetic::div_mod::lemma_basic_div((k - 1 - t0) as int, n as int);
            assert((k - 1 - t0) as nat / n == 0);
        } else {
            let d = (km1 - t0) as int;
            lemma_mod_equivalence(km1 as int, t0 as int, n as int);
            lemma_small_mod(t0, n);
            lemma_fundamental_div_mod(d, n as int);
            lemma_fundamental_div_mod(d - 1, n as int);
            if km1 % n == t0 {
                // a hit: d is a multiple of the period
                assert(d % n as int == 0);
                lemma_div_plus_one(d - n as int, n as int);
                assert(d / n as int == (d - 1) / n as int + 1) by {
                    lemma_fundamental_div_mod_converse_pair(d, n as int);
                };
                assert(returned_count(start, n, k, slot) == (d / n as int + 1) as nat);
            } else {
                assert(d % n as int != 0);
                assert(d / n as int == (d - 1) / n as int) by {
                    lemma_same_quotient(d, n as int);
                };
            }
        }
    }
}

/// For a positive multiple-plus-remainder split: when `d % n != 0`,
/// `d` and `d - 1` share a quotient.
proof fn lemma_same_quotient(d: int, n: int)
    requires
        1 <= n,
        1 <= d,
        d % n != 0,
    ensures
        d / n == (d - 1) / n,
{
    lemma_fundamental_div_mod(d, n);
    lemma_mod_bound(d, n);
    assert(d == n * (d / n) + d % n);
    assert(0 <= d % n - 1 < n);
    assert((d / n) * n == n * (d / n)) by (nonlinear_arith);
    assert(d - 1 == (d / n) * n + (d % n - 1));
    vstd::arithmetic::div_mod::lemma_fundamental_div_mod_converse(
        d - 1,
        n,
        d / n,
        d % n - 1,
    );
}

/// When `d % n == 0` and `d >= 1`, the quotient of `d - 1` is one less.
proof fn lemma_fundamental_div_mod_converse_pair(d: int, n: int)
    requires
        1 <= n,
        1 <= d,
        d % n == 0,
    ensures
        d / n == (d - 1) / n + 1,
{
    lemma_fundamental_div_mod(d, n);
    assert(d == n * (d / n) + 0);
    assert((d / n - 1) * n == n * (d / n) - n) by (nonlinear_arith);
    assert(d - 1 == (d / n - 1) * n + (n - 1));
    vstd::arithmetic::div_mod::lemma_fundamental_div_mod_converse(
        d - 1,
        n,
        d / n - 1,
        n - 1,
    );
}

/// Ring fairness: across any `k` consecutive hand-outs, every slot is
/// returned at least `k / n` times.
pub proof fn lemma_ring_fairness(start: nat, n: nat, k: nat, slot: nat)
    requires
        1 <= n,
        slot < n,
    ensures
        returned_count(start, n, k, slot) >= k / n,
{
    let t0 = first_return(start, n, slot);
    lemma_mod_bound((slot + n) as int - ((start as int) % n as int), n as int);
    lemma_count_closed_form(start, n, k, slot);
    if k <= t0 {
        assert(k < n);
        vstd::arithmetic::div_mod::lemma_basic_div(k as int, n as int);
        assert(k / n == 0);
    } else {
        // count == (k - 1 - t0) / n + 1 and t0 <= n - 1
        lemma_div_is_ordered((k as int) - (n as int), (k - 1 - t0) as int, n as int);
        if k >= n {
            lemma_div_plus_one((k as int) - (n as int), n as int);
            assert((k as int - n as int) / (n as int) + 1 == k as int / n as int);
        } else {
            vstd::arithmetic::div_mod::lemma_basic_div(k as int, n as int);
            assert(k as int / n as int == 0);
        }
    }
}

} // verus!
