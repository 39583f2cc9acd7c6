use crate::decimal::decimal_fractional;
use crate::laws::step_takes_at_most_what_is_left;
use crate::state::StreamView;
use crate::stream::{advance, advancing, clock, consumed, progress, released};
use vstd::arithmetic::div_mod::lemma_fundamental_div_mod;
use vstd::prelude::*;

verus! {

/// What one step takes of a quantity `x` when `passed` of `left` time goes
/// by: the passed part as a decimal rounded down, times `x`, rounded down.
pub open spec fn step_take(x: nat, passed: nat, left: nat) -> nat {
    (x * ((passed * decimal_fractional()) / left)) / decimal_fractional()
}

/// What the exact linear schedule takes of `x` when `passed` of `left` time
/// goes by, rounded down once.
pub open spec fn linear_take(x: nat, passed: nat, left: nat) -> nat {
    (x * passed) / left
}

proof fn lemma_cancel_le(a: int, b: int, c: int)
    by (nonlinear_arith)
    requires
        a * c <= b * c,
        c > 0,
    ensures
        a <= b,
{
}

proof fn lemma_cancel_lt(a: int, b: int, c: int)
    by (nonlinear_arith)
    requires
        a * c < b * c,
        c > 0,
    ensures
        a < b,
{
}

proof fn lemma_quotient_between(x: int, t: int, low: int, high: int)
    requires
        t > 0,
        low * t <= x,
        x < high * t,
    ensures
        low <= x / t < high,
{
    lemma_fundamental_div_mod(x, t);
    let q = x / t;
    let r = x % t;
    assert(x == t * q + r);
    assert(t * q == q * t) by (nonlinear_arith);
    if q < low {
        assert((q + 1) * t <= low * t) by (nonlinear_arith)
            requires
                q + 1 <= low,
                t > 0,
        ;
        assert((q + 1) * t == q * t + t) by (nonlinear_arith);
    }
    if q >= high {
        assert(high * t <= q * t) by (nonlinear_arith)
            requires
                high <= q,
                t > 0,
        ;
    }
}

/// One step takes no more than the linear schedule, and falls short of it by
/// less than `x / 10^18 + 2` units.
proof fn lemma_step_band(x: nat, c: nat, t: nat)
    requires
        t > 0,
        c <= t,
    ensures
        step_take(x, c, t) * t <= x * c,
        x * c < (step_take(x, c, t) + x / decimal_fractional() + 2) * t,
{
    let dd = decimal_fractional() as int;
    let x = x as int;
    let c = c as int;
    let t = t as int;
    let d = (c * dd) / t;
    let n = (x * d) / dd;
    let q = x / dd;
    lemma_fundamental_div_mod(c * dd, t);
    lemma_fundamental_div_mod(x * d, dd);
    lemma_fundamental_div_mod(x, dd);
    let r1 = (c * dd) % t;
    let r2 = (x * d) % dd;
    let r3 = x % dd;
    assert(c * dd == t * d + r1);
    assert(x * d == dd * n + r2);
    assert(x == dd * q + r3);
    assert(d >= 0) by (nonlinear_arith)
        requires
            c * dd == t * d + r1,
            r1 < t,
            t > 0,
            c >= 0,
            dd > 0,
    ;
    assert(n >= 0) by (nonlinear_arith)
        requires
            x * d == dd * n + r2,
            r2 < dd,
            dd > 0,
            x >= 0,
            d >= 0,
    ;
    // upper side
    assert((n * t) * dd <= (x * c) * dd) by (nonlinear_arith)
        requires
            c * dd == t * d + r1,
            x * d == dd * n + r2,
            r1 >= 0,
            r2 >= 0,
            x >= 0,
            t > 0,
    ;
    lemma_cancel_le(n * t, x * c, dd);
    // lower side
    assert((x * c) * dd < ((n + q + 2) * t) * dd) by (nonlinear_arith)
        requires
            c * dd == t * d + r1,
            x * d == dd * n + r2,
            x == dd * q + r3,
            0 <= r1 < t,
            0 <= r2 < dd,
            0 <= r3 < dd,
            x >= 0,
            t > 0,
            dd > 0,
    ;
    lemma_cancel_lt(x * c, (n + q + 2) * t, dd);
}

/// Two steps in a row take no more than the linear schedule over both, and
/// fall short of it by less than `x / 10^18 + x1 / 10^18 + 4` units, where
/// `x1` is what the first step left.
proof fn lemma_two_step_band(x: nat, a1: nat, b2: nat, t: nat)
    requires
        a1 < t,
        a1 + b2 <= t,
    ensures
        step_take(x, a1, t) <= x,
        ({
            let n1 = step_take(x, a1, t);
            let x1 = (x - n1) as nat;
            let n2 = step_take(x1, b2, (t - a1) as nat);
            &&& (n1 + n2) * t <= x * (a1 + b2)
            &&& x * (a1 + b2) < (n1 + n2 + x / decimal_fractional() + x1 / decimal_fractional()
                + 4) * t
        }),
{
    let n1 = step_take(x, a1, t);
    lemma_step_band(x, a1, t);
    assert(n1 <= x) by (nonlinear_arith)
        requires
            n1 * t <= x * a1,
            a1 < t,
            t > 0,
    ;
    let x1 = (x - n1) as nat;
    let t1 = (t - a1) as nat;
    let n2 = step_take(x1, b2, t1);
    lemma_step_band(x1, b2, t1);
    let k1 = x / decimal_fractional() + 2;
    let k2 = x1 / decimal_fractional() + 2;
    let (x, a1, b2, t, n1, n2, x1, t1, k1, k2) = (
        x as int,
        a1 as int,
        b2 as int,
        t as int,
        n1 as int,
        n2 as int,
        x1 as int,
        t1 as int,
        k1 as int,
        k2 as int,
    );
    let c = a1 + b2;
    // c * t1 == a1 * (t1 - b2) + b2 * t
    assert(x * c * t1 == x * a1 * (t1 - b2) + x * b2 * t) by (nonlinear_arith)
        requires
            c == a1 + b2,
            t1 == t - a1,
    ;
    assert(x * b2 * t == x1 * b2 * t + n1 * b2 * t) by (nonlinear_arith)
        requires
            x1 == x - n1,
    ;
    // upper side
    assert(n2 * t1 * t <= x1 * b2 * t) by (nonlinear_arith)
        requires
            n2 * t1 <= x1 * b2,
            t > 0,
    ;
    assert(n1 * t * (t1 - b2) <= x * a1 * (t1 - b2)) by (nonlinear_arith)
        requires
            n1 * t <= x * a1,
            t1 - b2 >= 0,
    ;
    assert((n1 + n2) * t * t1 == n1 * t * (t1 - b2) + n1 * b2 * t + n2 * t1 * t)
        by (nonlinear_arith);
    assert(((n1 + n2) * t) * t1 <= (x * c) * t1) by (nonlinear_arith)
        requires
            (n1 + n2) * t * t1 == n1 * t * (t1 - b2) + n1 * b2 * t + n2 * t1 * t,
            n2 * t1 * t <= x1 * b2 * t,
            n1 * t * (t1 - b2) <= x * a1 * (t1 - b2),
            x * b2 * t == x1 * b2 * t + n1 * b2 * t,
            x * c * t1 == x * a1 * (t1 - b2) + x * b2 * t,
    ;
    lemma_cancel_le((n1 + n2) * t, x * c, t1);
    // lower side
    assert(x1 * b2 * t < (n2 + k2) * t1 * t) by (nonlinear_arith)
        requires
            x1 * b2 < (n2 + k2) * t1,
            t > 0,
    ;
    assert(x * a1 * (t1 - b2) <= (n1 + k1) * t * (t1 - b2)) by (nonlinear_arith)
        requires
            x * a1 < (n1 + k1) * t,
            t1 - b2 >= 0,
    ;
    assert((n1 + k1) * t * (t1 - b2) + (n2 + k2) * t1 * t + n1 * b2 * t == ((n1 + n2 + k1 + k2)
        * t) * t1 - k1 * b2 * t) by {
        let first = n1 + k1;
        let second = n2 + k2;
        let u = t * t1;
        let v = t * b2;
        assert(first * t * (t1 - b2) == first * u - first * v) by (nonlinear_arith)
            requires
                u == t * t1,
                v == t * b2,
        ;
        assert(second * t1 * t == second * u) by (nonlinear_arith)
            requires
                u == t * t1,
        ;
        assert(first * v == n1 * v + k1 * v) by (nonlinear_arith)
            requires
                first == n1 + k1,
        ;
        assert(n1 * b2 * t == n1 * v) by (nonlinear_arith)
            requires
                v == t * b2,
        ;
        assert(k1 * b2 * t == k1 * v) by (nonlinear_arith)
            requires
                v == t * b2,
        ;
        assert(((n1 + n2 + k1 + k2) * t) * t1 == first * u + second * u) by (nonlinear_arith)
            requires
                first == n1 + k1,
                second == n2 + k2,
                u == t * t1,
        ;
    }
    assert(k1 * b2 * t >= 0) by (nonlinear_arith)
        requires
            k1 >= 0,
            b2 >= 0,
            t >= 0,
    ;
    assert((x * c) * t1 < ((n1 + n2 + k1 + k2) * t) * t1) by (nonlinear_arith)
        requires
            x * c * t1 == x * a1 * (t1 - b2) + x * b2 * t,
            x * b2 * t == x1 * b2 * t + n1 * b2 * t,
            x1 * b2 * t < (n2 + k2) * t1 * t,
            x * a1 * (t1 - b2) <= (n1 + k1) * t * (t1 - b2),
            (n1 + k1) * t * (t1 - b2) + (n2 + k2) * t1 * t + n1 * b2 * t == ((n1 + n2 + k1 + k2)
                * t) * t1 - k1 * b2 * t,
            k1 * b2 * t >= 0,
    ;
    lemma_cancel_lt(x * c, (n1 + n2 + k1 + k2) * t, t1);
}

proof fn lemma_bands(x: nat, a1: nat, b2: nat, t: nat)
    requires
        0 < a1 < t,
        a1 + b2 <= t,
    ensures
        ({
            let d = decimal_fractional();
            let n = step_take(x, a1 + b2, t);
            let n1 = step_take(x, a1, t);
            let x1 = (x - n1) as nat;
            let n2 = step_take(x1, b2, (t - a1) as nat);
            let ideal = linear_take(x, a1 + b2, t);
            &&& n1 <= x
            &&& n2 <= x1
            &&& n <= ideal <= n + x / d + 1
            &&& n1 + n2 <= ideal <= n1 + n2 + 2 * (x / d) + 3
            &&& ideal <= x
        }),
{
    let d = decimal_fractional();
    let n = step_take(x, a1 + b2, t);
    let n1 = step_take(x, a1, t);
    let x1 = (x - n1) as nat;
    let n2 = step_take(x1, b2, (t - a1) as nat);
    lemma_step_band(x, a1 + b2, t);
    lemma_two_step_band(x, a1, b2, t);
    lemma_step_band(x1, b2, (t - a1) as nat);
    assert(n2 <= x1) by (nonlinear_arith)
        requires
            n2 * (t - a1) <= x1 * b2,
            b2 <= t - a1,
            t - a1 > 0,
    ;
    lemma_quotient_between((x * (a1 + b2)) as int, t as int, n as int, (n + x / d + 2) as int);
    lemma_quotient_between(
        (x * (a1 + b2)) as int,
        t as int,
        (n1 + n2) as int,
        (n1 + n2 + x / d + x1 / d + 4) as int,
    );
    assert(x1 / d <= x / d) by {
        vstd::arithmetic::div_mod::lemma_div_is_ordered(x1 as int, x as int, d as int);
    }
    assert(x * (a1 + b2) <= x * t) by (nonlinear_arith)
        requires
            a1 + b2 <= t,
    ;
    assert(x * (a1 + b2) < (x + 1) * t) by (nonlinear_arith)
        requires
            x * (a1 + b2) <= x * t,
            t > 0,
    ;
    lemma_quotient_between((x * (a1 + b2)) as int, t as int, 0, (x + 1) as int);
}

/// Advancing in two steps comes close to advancing in one.
///
/// Both ways the stream ends with the same clock, shares and status, and
/// accounts for the same input. Remaining output and unspent input never
/// fall below what the exact linear schedule would leave, and exceed it by
/// at most `x / 10^18 + 1` units in one step and by at most
/// `2 * (x / 10^18) + 3` units in two, where `x` is the quantity before.
pub proof fn advance_subdivided_stays_close(s: StreamView, t1: nat, t2: nat)
    requires
        s.wf(),
        s.last_updated <= t1 <= t2,
    ensures
        ({
            let d = decimal_fractional();
            let once = advance(s, t2);
            let twice = advance(advance(s, t1), t2);
            let passed = (clock(s, t2) - s.last_updated) as nat;
            let left = (s.end_time - s.last_updated) as nat;
            let out_left = s.out_remaining - linear_take(s.out_remaining, passed, left);
            let in_left = s.in_supply - linear_take(s.in_supply, passed, left);
            &&& twice.last_updated == once.last_updated
            &&& twice.shares == once.shares
            &&& twice.status == once.status
            &&& twice.in_supply + twice.spent_in == once.in_supply + once.spent_in
            &&& !advancing(s, t2) ==> twice == once
            &&& advancing(s, t2) ==> {
                &&& 0 <= out_left <= once.out_remaining <= out_left + s.out_remaining / d + 1
                &&& out_left <= twice.out_remaining <= out_left + 2 * (s.out_remaining / d) + 3
                &&& 0 <= in_left <= once.in_supply <= in_left + s.in_supply / d + 1
                &&& in_left <= twice.in_supply <= in_left + 2 * (s.in_supply / d) + 3
            }
        }),
{
    let d = decimal_fractional();
    let first = advance(s, t1);
    let once = advance(s, t2);
    let twice = advance(first, t2);
    let c1 = clock(s, t1);
    let c2 = clock(s, t2);
    crate::laws::advance_conserves_input(s, t1);
    crate::laws::advance_conserves_input(first, t2);
    crate::laws::advance_conserves_input(s, t2);
    step_takes_at_most_what_is_left(s, t1);
    step_takes_at_most_what_is_left(s, t2);
    step_takes_at_most_what_is_left(first, t2);
    assert(clock(first, t2) == c2);
    if s.shares == 0 || c2 == s.last_updated {
        assert(twice == once);
    } else if c1 == s.last_updated || c1 == c2 {
        let passed = (c2 - s.last_updated) as nat;
        let left = (s.end_time - s.last_updated) as nat;
        if c1 == s.last_updated {
            assert(first == s);
        } else {
            assert(!advancing(first, t2));
            assert(progress(s, t1) == progress(s, t2));
        }
        assert(twice == once);
        assert(advancing(s, t2));
        lemma_single_band(s.out_remaining, passed, left);
        lemma_single_band(s.in_supply, passed, left);
        assert(released(s, t2) == step_take(s.out_remaining, passed, left));
        assert(consumed(s, t2) == step_take(s.in_supply, passed, left));
    } else {
        let a1 = (c1 - s.last_updated) as nat;
        let b2 = (c2 - c1) as nat;
        let left = (s.end_time - s.last_updated) as nat;
        assert(advancing(s, t1) && advancing(s, t2) && advancing(first, t2));
        lemma_bands(s.out_remaining, a1, b2, left);
        lemma_bands(s.in_supply, a1, b2, left);
        assert(released(s, t1) == step_take(s.out_remaining, a1, left));
        assert(released(s, t2) == step_take(s.out_remaining, a1 + b2, left));
        assert(released(first, t2) == step_take(first.out_remaining, b2, (left - a1) as nat));
        assert(consumed(s, t1) == step_take(s.in_supply, a1, left));
        assert(consumed(s, t2) == step_take(s.in_supply, a1 + b2, left));
        assert(consumed(first, t2) == step_take(first.in_supply, b2, (left - a1) as nat));
    }
}

proof fn lemma_single_band(x: nat, c: nat, t: nat)
    requires
        0 < c <= t,
    ensures
        step_take(x, c, t) <= linear_take(x, c, t) <= step_take(x, c, t) + x
            / decimal_fractional() + 1,
        linear_take(x, c, t) <= x,
{
    let d = decimal_fractional();
    let n = step_take(x, c, t);
    lemma_step_band(x, c, t);
    lemma_quotient_between((x * c) as int, t as int, n as int, (n + x / d + 2) as int);
    assert(x * c < (x + 1) * t) by (nonlinear_arith)
        requires
            c <= t,
            t > 0,
    ;
    lemma_quotient_between((x * c) as int, t as int, 0, (x + 1) as int);
}

} // verus!
