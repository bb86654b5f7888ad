//! The bounded PID controller that turns a temperature error into a duty
//! cycle.

use crate::fixed::{
    clamp, div_round, lemma_round_div_between, lemma_round_div_exact, lemma_round_div_monotonic,
    round_div, scale, scaled, MICRO,
};
use vstd::prelude::*;

verus! {

/// The controller as mathematics: gains and duty in millionths,
/// temperatures in millionths of a degree, times in seconds.
pub struct PidModel {
    pub k_i: int,
    pub k_p: int,
    pub k_d: int,
    pub last_time: nat,
    pub i_term: int,
    pub last_error: int,
}

impl PidModel {
    /// The seconds since the last computation, counted as 1 where the
    /// clock has not advanced.
    pub open spec fn elapsed(self, now: nat) -> int {
        if now > self.last_time {
            now - self.last_time
        } else {
            1
        }
    }

    /// The integral term after an error has lasted for `elapsed` seconds,
    /// held within -1.0 and 1.0.
    pub open spec fn integral(self, error: int, elapsed: int) -> int {
        clamp(
            self.i_term + round_div(error * elapsed * self.k_i, MICRO as int),
            -MICRO as int,
            MICRO as int,
        )
    }

    /// The error's rate of change per second.
    pub open spec fn derivative(self, error: int, elapsed: int) -> int {
        round_div(error - self.last_error, elapsed)
    }

    /// The duty that the controller gives for a set point and a measured
    /// temperature at the time `now`: the sum of the proportional, integral
    /// and derivative terms, held within -1.0 and 1.0.
    pub open spec fn output(self, set_point: int, is_point: int, now: nat) -> int {
        let error = set_point - is_point;
        let elapsed = self.elapsed(now);
        clamp(
            scaled(self.k_p, error) + self.integral(error, elapsed) + scaled(
                self.k_d,
                self.derivative(error, elapsed),
            ),
            -MICRO as int,
            MICRO as int,
        )
    }

    /// The controller after that computation.
    pub open spec fn after(self, set_point: int, is_point: int, now: nat) -> PidModel {
        let error = set_point - is_point;
        PidModel {
            i_term: self.integral(error, self.elapsed(now)),
            last_error: error,
            last_time: now,
            ..self
        }
    }
}

/// A PID controller with anti-windup: its integral term and its output
/// both stay within -1.0 and 1.0.
#[derive(Debug)]
pub struct PID {
    k_i: i64,
    k_p: i64,
    k_d: i64,
    last_time: u64,
    i_term: i64,
    last_error: i128,
}

/// Beyond this magnitude of `error * elapsed` the integral term is at a
/// bound whatever the gain: three times a million squared.
const WINDUP_LIMIT: u128 = 3_000_000_000_000;

impl View for PID {
    type V = PidModel;

    closed spec fn view(&self) -> PidModel {
        PidModel {
            k_i: self.k_i as int,
            k_p: self.k_p as int,
            k_d: self.k_d as int,
            last_time: self.last_time as nat,
            i_term: self.i_term as int,
            last_error: self.last_error as int,
        }
    }
}

impl PID {
    #[verifier::type_invariant]
    spec fn bounded(self) -> bool {
        &&& -MICRO <= self.i_term <= MICRO
        &&& -0x1_0000_0000_0000_0000 < self.last_error < 0x1_0000_0000_0000_0000
    }

    /// A controller with the given gains, in millionths, that has seen no
    /// error yet. `now` is the current time in seconds.
    pub fn init(k_i: i64, k_p: i64, k_d: i64, now: u64) -> (pid: PID)
        ensures
            pid@ == (PidModel {
                k_i: k_i as int,
                k_p: k_p as int,
                k_d: k_d as int,
                last_time: now as nat,
                i_term: 0,
                last_error: 0,
            }),
    {
        PID { k_i, k_p, k_d, last_time: now, i_term: 0, last_error: 0 }
    }

    /// The integral term, in millionths.
    pub fn i_term(&self) -> (term: i64)
        ensures
            term == self@.i_term,
            -MICRO <= term <= MICRO,
    {
        proof {
            use_type_invariant(self);
        }
        self.i_term
    }

    /// The integral term after `error` has lasted for `elapsed` seconds.
    fn integrate(&self, error: i128, elapsed: u64) -> (term: i64)
        requires
            -0x1_0000_0000_0000_0000 < error < 0x1_0000_0000_0000_0000,
            elapsed >= 1,
        ensures
            term == self@.integral(error as int, elapsed as int),
    {
        proof {
            use_type_invariant(self);
        }
        if error == 0 || self.k_i == 0 {
            proof {
                assert(error * elapsed * self.k_i == 0) by (nonlinear_arith)
                    requires
                        error == 0 || self.k_i == 0,
                ;
                lemma_round_div_exact(0, MICRO as int);
            }
            return self.i_term;
        }
        let size: u128 = if error < 0 {
            (-error) as u128
        } else {
            error as u128
        };
        assert(size * elapsed <= 0xffff_ffff_ffff_ffff * 0xffff_ffff_ffff_ffff) by (nonlinear_arith)
            requires
                0 <= size <= 0xffff_ffff_ffff_ffff,
                0 <= elapsed <= 0xffff_ffff_ffff_ffff,
        ;
        let weight: u128 = size * (elapsed as u128);
        let rising = (error > 0) == (self.k_i > 0);
        let ghost product = error * elapsed * self.k_i;
        if weight >= WINDUP_LIMIT {
            proof {
                let million = MICRO as int;
                if rising {
                    assert(product >= 3 * million * million) by (nonlinear_arith)
                        requires
                            product == error * elapsed * self.k_i,
                            (error > 0 && self.k_i > 0 && weight == error * elapsed) || (error < 0
                                && self.k_i < 0 && weight == -error * elapsed),
                            weight >= 3 * million * million,
                            million == 1_000_000,
                    ;
                    lemma_round_div_exact(3 * million, million);
                    lemma_round_div_monotonic(3 * million * million, product, million);
                } else {
                    assert(product <= -3 * million * million) by (nonlinear_arith)
                        requires
                            product == error * elapsed * self.k_i,
                            (error > 0 && self.k_i < 0 && weight == error * elapsed) || (error < 0
                                && self.k_i > 0 && weight == -error * elapsed),
                            weight >= 3 * million * million,
                            million == 1_000_000,
                    ;
                    lemma_round_div_exact(-3 * million, million);
                    lemma_round_div_monotonic(product, -3 * million * million, million);
                }
            }
            if rising {
                MICRO
            } else {
                -MICRO
            }
        } else {
            let spread: i128 = if error < 0 {
                -(weight as i128)
            } else {
                weight as i128
            };
            assert(spread == error * elapsed) by (nonlinear_arith)
                requires
                    (error < 0 && spread == -weight && weight == -error * elapsed) || (error >= 0
                        && spread == weight && weight == error * elapsed),
            ;
            assert(-3_000_000_000_000 * 0x8000_0000_0000_0000 <= spread * self.k_i
                <= 3_000_000_000_000 * 0x8000_0000_0000_0000) by (nonlinear_arith)
                requires
                    -3_000_000_000_000 <= spread <= 3_000_000_000_000,
                    -0x8000_0000_0000_0000 <= self.k_i <= 0x8000_0000_0000_0000,
            ;
            let numerator: i128 = spread * (self.k_i as i128);
            proof {
                lemma_round_div_between(
                    numerator as int,
                    MICRO as int,
                    -3_000_000_000_000int * 0x8000_0000_0000_0000,
                    3_000_000_000_000int * 0x8000_0000_0000_0000,
                );
            }
            let sum: i128 = self.i_term as i128 + div_round(numerator, MICRO as i128);
            if sum < -(MICRO as i128) {
                -MICRO
            } else if sum > MICRO as i128 {
                MICRO
            } else {
                sum as i64
            }
        }
    }

    /// Computes the duty for a set point and a measured temperature, both in
    /// millionths of a degree, at the time `now` in seconds, and records the
    /// error and the time for the next computation.
    pub fn compute(&mut self, set_point: i64, is_point: i64, now: u64) -> (duty: i64)
        ensures
            duty == old(self)@.output(set_point as int, is_point as int, now as nat),
            final(self)@ == old(self)@.after(set_point as int, is_point as int, now as nat),
            -MICRO <= duty <= MICRO,
            -MICRO <= final(self)@.i_term <= MICRO,
    {
        proof {
            use_type_invariant(&*self);
        }
        let elapsed: u64 = if now > self.last_time {
            now - self.last_time
        } else {
            1
        };
        let error: i128 = set_point as i128 - is_point as i128;
        let i_term = self.integrate(error, elapsed);
        proof {
            lemma_round_div_between(
                error - self.last_error,
                elapsed as int,
                -0x2_0000_0000_0000_0000,
                0x2_0000_0000_0000_0000,
            );
        }
        let slope = div_round(error - self.last_error, elapsed as i128);
        let sum: i128 = scale(self.k_p, error) + i_term as i128 + scale(self.k_d, slope);
        let duty: i64 = if sum < -(MICRO as i128) {
            -MICRO
        } else if sum > MICRO as i128 {
            MICRO
        } else {
            sum as i64
        };
        self.i_term = i_term;
        self.last_error = error;
        self.last_time = now;
        duty
    }
}

} // verus!
