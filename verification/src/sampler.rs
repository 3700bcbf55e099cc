//! Down-sampling of logged records: each record is kept with the probability
//! that the settings name, decided by a seeded stream.
//!
//! The rate is a binary64 bit pattern. Its value is `significand / 2^scale`;
//! a draw `d` out of `DRAW_RANGE` keeps the record when `d / DRAW_RANGE` is
//! below that value. Everything is computed in integers.

use crate::rng::DRAW_RANGE;
use crate::rng::Rng;
use crate::rng::draw_of;
use crate::rng::next_state;
use crate::settings::FRACTION_RANGE;
use crate::settings::ONE_BITS;
use crate::settings::exponent_of;
use crate::settings::fraction_of;
use crate::settings::rate_in_range;
use vstd::arithmetic::power2::lemma2_to64;
use vstd::arithmetic::power2::lemma2_to64_rest;
use vstd::arithmetic::power2::lemma_pow2_adds;
use vstd::arithmetic::power2::lemma_pow2_pos;
use vstd::arithmetic::power2::lemma_pow2_strictly_increases;
use vstd::arithmetic::power2::lemma_pow2_unfold;
use vstd::arithmetic::power2::pow2;
use vstd::prelude::*;

verus! {

/// The seed of a stream for which the settings name none.
pub const DEFAULT_SEED: u64 = 0;

/// The integer that a rate's value is a binary fraction of. A pattern with
/// exponent zero is subnormal and has no implicit leading bit.
pub open spec fn significand(bits: u64) -> int {
    if exponent_of(bits) == 0 {
        fraction_of(bits) as int
    } else {
        FRACTION_RANGE + fraction_of(bits)
    }
}

/// The power of two that divides the significand to give a rate's value.
pub open spec fn scale(bits: u64) -> nat {
    if exponent_of(bits) == 0 {
        1074
    } else {
        (1075 - exponent_of(bits)) as nat
    }
}

/// A draw keeps a record under a rate when `draw / 2^53` is below the rate's
/// value `significand / 2^scale`, written here without division.
pub open spec fn keeps(bits: u64, draw: int) -> bool {
    draw * pow2(scale(bits)) < significand(bits) * pow2(53)
}

/// `limit` is the number of draws, counted from zero, that keep a record
/// under `rate`: every draw where no rate is named.
pub open spec fn limit_matches(rate: Option<u64>, limit: u64) -> bool {
    &&& 1 <= limit <= DRAW_RANGE
    &&& match rate {
        Some(bits) => forall|draw: int|
            0 <= draw < DRAW_RANGE ==> ((draw < limit) <==> #[trigger] keeps(bits, draw)),
        None => limit == DRAW_RANGE,
    }
}

/// A rate has one such number.
pub proof fn lemma_limit_unique(rate: Option<u64>, a: u64, b: u64)
    requires
        limit_matches(rate, a),
        limit_matches(rate, b),
    ensures
        a == b,
{
    if rate is Some {
        let bits = rate->0;
        if a < b {
            assert(keeps(bits, a as int));
        } else if b < a {
            assert(keeps(bits, b as int));
        }
    }
}

/// A draw is below the rounded-up quotient of `m` by `p` exactly when its
/// multiple of `p` is below `m`.
proof fn lemma_ceiling_quotient(d: int, m: int, p: int)
    requires
        p > 0,
        m >= 0,
        d >= 0,
    ensures
        (d < (m + p - 1) / p) <==> (d * p < m),
{
    let q = (m + p - 1) / p;
    let r = (m + p - 1) % p;
    assert(m + p - 1 == q * p + r && 0 <= r < p) by (nonlinear_arith)
        requires
            p > 0,
            q == (m + p - 1) / p,
            r == (m + p - 1) % p,
    ;
    if d < q {
        assert(d * p <= q * p - p) by (nonlinear_arith)
            requires
                d <= q - 1,
                p > 0,
        ;
    } else {
        assert(d * p >= q * p) by (nonlinear_arith)
            requires
                d >= q,
                p > 0,
        ;
    }
}

/// Two to the power `k`, for a power that fits.
fn power_of_two(k: u64) -> (p: u64)
    requires
        k < 63,
    ensures
        p == pow2(k as nat),
        p > 0,
{
    let mut p: u64 = 1;
    let mut i: u64 = 0;
    proof {
        lemma2_to64();
    }
    while i < k
        invariant
            i <= k < 63,
            p == pow2(i as nat),
            p > 0,
        decreases k - i,
    {
        proof {
            lemma_pow2_unfold((i + 1) as nat);
            lemma_pow2_strictly_increases((i + 1) as nat, 63);
            lemma2_to64_rest();
        }
        p = p * 2;
        i = i + 1;
    }
    p
}

/// The number of draws, counted from zero, that keep a record under the
/// rate with pattern `bits`.
pub fn threshold(bits: u64) -> (limit: u64)
    requires
        rate_in_range(bits),
    ensures
        limit_matches(Some(bits), limit),
        bits == ONE_BITS ==> limit == DRAW_RANGE,
{
    let exponent: u64 = bits / FRACTION_RANGE;
    let fraction: u64 = bits % FRACTION_RANGE;
    assert(exponent == exponent_of(bits));
    proof {
        lemma2_to64();
        lemma2_to64_rest();
    }
    if exponent == 1023 {
        assert forall|draw: int| 0 <= draw < DRAW_RANGE implies ((draw < DRAW_RANGE) <==> #[trigger] keeps(
            bits,
            draw,
        )) by {
            assert(scale(bits) == 52);
            assert(significand(bits) == 0x10_0000_0000_0000);
        }
        return DRAW_RANGE;
    }
    let shift: u64 = if exponent == 0 {
        1021
    } else {
        1022 - exponent
    };
    let m: u64 = if exponent == 0 {
        fraction
    } else {
        FRACTION_RANGE + fraction
    };
    assert(m == significand(bits));
    assert(1 <= m < DRAW_RANGE);
    assert(scale(bits) == shift + 53);
    proof {
        lemma_pow2_adds(shift as nat, 53);
        lemma_pow2_pos(shift as nat);
    }
    assert forall|draw: int| #[trigger] keeps(bits, draw) <==> draw * pow2(shift as nat) < m by {
        let p = pow2(shift as nat) as int;
        assert(pow2(scale(bits)) == p * 0x20_0000_0000_0000);
        assert(draw * (p * 0x20_0000_0000_0000) == (draw * p) * 0x20_0000_0000_0000)
            by (nonlinear_arith);
    }
    if shift >= 53 {
        proof {
            if shift > 53 {
                lemma_pow2_strictly_increases(53, shift as nat);
            }
        }
        assert forall|draw: int| 0 <= draw < DRAW_RANGE implies ((draw < 1) <==> #[trigger] keeps(
            bits,
            draw,
        )) by {
            let p = pow2(shift as nat) as int;
            assert(p >= 0x20_0000_0000_0000);
            if draw >= 1 {
                assert(draw * p >= p) by (nonlinear_arith)
                    requires
                        draw >= 1,
                        p > 0,
                ;
            } else {
                assert(draw * p == 0) by (nonlinear_arith)
                    requires
                        draw == 0,
                ;
            }
            assert(keeps(bits, draw) <==> draw * p < m);
        }
        1
    } else {
        let p: u64 = power_of_two(shift);
        proof {
            lemma_pow2_strictly_increases(shift as nat, 53);
        }
        let limit: u64 = (m + (p - 1)) / p;
        assert forall|draw: int| 0 <= draw < DRAW_RANGE implies ((draw < limit) <==> #[trigger] keeps(
            bits,
            draw,
        )) by {
            lemma_ceiling_quotient(draw, m as int, p as int);
        }
        proof {
            lemma_ceiling_quotient(0, m as int, p as int);
            lemma_ceiling_quotient(DRAW_RANGE as int, m as int, p as int);
            assert(DRAW_RANGE * p >= DRAW_RANGE) by (nonlinear_arith)
                requires
                    p >= 1,
            ;
        }
        limit
    }
}

/// Decides, record by record, which are kept.
#[derive(Clone, Copy, Debug)]
pub struct Sampler {
    limit: u64,
    rng: Rng,
}

impl Sampler {
    /// The number of draws that keep a record.
    pub closed spec fn limit(&self) -> u64 {
        self.limit
    }

    /// The state of the stream that decides.
    pub closed spec fn state(&self) -> u64 {
        self.rng@
    }

    /// Whether the next record will be kept.
    pub open spec fn keeps_next(&self) -> bool {
        draw_of(next_state(self.state())) < self.limit()
    }

    /// A sampler for the given rate whose stream starts from the given seed,
    /// or from `DEFAULT_SEED` where none is named. Without a rate every
    /// record is kept.
    pub fn new(rate: Option<u64>, seed: Option<u64>) -> (sampler: Sampler)
        requires
            rate is Some ==> rate_in_range(rate->0),
        ensures
            limit_matches(rate, sampler.limit()),
            rate == Some(ONE_BITS) ==> sampler.limit() == DRAW_RANGE,
            sampler.state() == (match seed {
                Some(s) => s,
                None => DEFAULT_SEED,
            }),
    {
        let limit: u64 = match rate {
            Some(bits) => threshold(bits),
            None => DRAW_RANGE,
        };
        let start: u64 = match seed {
            Some(s) => s,
            None => DEFAULT_SEED,
        };
        Sampler { limit, rng: Rng::new(start) }
    }

    /// Whether the next record will be kept; the stream does not move.
    pub fn peek(&self) -> (kept: bool)
        ensures
            kept == self.keeps_next(),
            self.limit() == DRAW_RANGE ==> kept,
    {
        self.rng.peek() < self.limit
    }

    /// Moves the stream past the decision that `peek` reported.
    pub fn advance(&mut self)
        ensures
            final(self).limit() == old(self).limit(),
            final(self).state() == next_state(old(self).state()),
    {
        let _ = self.rng.next();
    }
}

} // verus!
