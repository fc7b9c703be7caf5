//! Core logic of a Vulkan screen-recording layer: H.264/H.265 parameter-set
//! emission with exp-Golomb coding, GOP and rate-control decisions, ring
//! cursors for command buffers and bitstream readback, and the plain-value
//! computations behind device and session setup.

pub mod bitio;
pub mod bitstream;
pub mod buffer_queue;
pub mod cmd_buffer_queue;
pub mod creation;
pub mod dpb;
pub mod expgolomb;
pub mod profile;
pub mod session_parameters;
pub mod settings;
pub mod shader;
pub mod video_session;

use vstd::prelude::*;

verus! {

/// The smallest multiple of `m` that is at least `x`.
pub open spec fn spec_round_up(x: nat, m: nat) -> nat {
    if x % m == 0 {
        x
    } else {
        (x + (m - x % m)) as nat
    }
}

/// Extent rounding is minimal: no smaller multiple of `m` reaches `x`, so
/// `spec_round_up` gives the smallest block multiple at least the request.
pub proof fn lemma_round_up_minimal(x: nat, m: nat, y: nat)
    requires
        0 < m,
        y % m == 0,
        y >= x,
    ensures
        spec_round_up(x, m) % m == 0,
        x <= spec_round_up(x, m) <= y,
{
    let r = spec_round_up(x, m);
    vstd::arithmetic::div_mod::lemma_fundamental_div_mod(x as int, m as int);
    vstd::arithmetic::mul::lemma_mul_is_distributive_add(m as int, (x as int) / (m as int), 1);
    vstd::arithmetic::div_mod::lemma_mod_multiples_basic((x as int) / (m as int) + 1, m as int);
    assert(r % m == 0);
    assert(r < x + m);
    if y < r {
        let d = (r - y) as nat;
        assert(d < m);
        vstd::arithmetic::div_mod::lemma_fundamental_div_mod(r as int, m as int);
        vstd::arithmetic::div_mod::lemma_fundamental_div_mod(y as int, m as int);
        let qr = (r as int) / (m as int);
        let qy = (y as int) / (m as int);
        assert(r == m * qr && y == m * qy);
        assert(m * qr - m * qy < m as int);
        if qy < qr {
            assert(m * qr - m * qy >= m as int) by (nonlinear_arith)
                requires
                    qy < qr,
                    m >= 1,
            ;
            assert(false);
        }
        assert(qr <= qy);
        assert(m * qr <= m * qy) by (nonlinear_arith)
            requires
                qr <= qy,
                m >= 1,
        ;
        assert(false);
    }
}

/// Round `x` up to the next multiple of `m`.
pub fn round_up_to_multiple(x: u32, m: u32) -> (r: u32)
    requires
        0 < m,
        x + m - 1 <= u32::MAX,
    ensures
        r == spec_round_up(x as nat, m as nat),
        r % m == 0,
        x <= r,
        r < x + m,
{
    let rem = x % m;
    proof {
        vstd::arithmetic::div_mod::lemma_fundamental_div_mod(x as int, m as int);
        vstd::arithmetic::mul::lemma_mul_is_distributive_add(
            m as int,
            (x as int) / (m as int),
            1,
        );
        vstd::arithmetic::div_mod::lemma_mod_multiples_basic(
            (x as int) / (m as int) + 1,
            m as int,
        );
    }
    if rem == 0 {
        x
    } else {
        x + (m - rem)
    }
}

} // verus!
