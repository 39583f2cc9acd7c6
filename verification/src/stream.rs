use crate::decimal::{decimal_fractional, uint256_limit, Decimal256};
use crate::error::ContractError;
use crate::state::{Coin, CreatePool, Status, Stream, StreamView, Vesting, opt_view};
use vstd::arithmetic::div_mod::{
    lemma_div_is_ordered, lemma_div_multiples_vanish, lemma_fundamental_div_mod,
    lemma_fundamental_div_mod_converse,
};
use vstd::prelude::*;

verus! {

/// The time at which a stream's clock stands when the world's clock shows
/// `now`: `now` itself inside the window, the start before it, the end after it.
pub open spec fn clock(s: StreamView, now: nat) -> nat {
    let from_start = if now < s.start_time {
        s.start_time
    } else {
        now
    };
    if from_start > s.end_time {
        s.end_time
    } else {
        from_start
    }
}

/// Whether advancing to `now` distributes anything: time has passed on the
/// stream's clock and somebody holds shares.
pub open spec fn advancing(s: StreamView, now: nat) -> bool {
    clock(s, now) > s.last_updated && s.shares > 0
}

/// Part of the time left that passes when the stream advances to `now`, as
/// the atomic units of a decimal between 0 and 1.
pub open spec fn progress(s: StreamView, now: nat) -> nat {
    if advancing(s, now) {
        (((clock(s, now) - s.last_updated) * decimal_fractional()) / (s.end_time
            - s.last_updated)) as nat
    } else {
        0
    }
}

/// Output that leaves the remaining supply when the stream advances to `now`.
pub open spec fn released(s: StreamView, now: nat) -> nat {
    (s.out_remaining * progress(s, now)) / decimal_fractional()
}

/// Input that is spent when the stream advances to `now`.
pub open spec fn consumed(s: StreamView, now: nat) -> nat {
    (s.in_supply * progress(s, now)) / decimal_fractional()
}

/// The stream after it has advanced to `now`.
///
/// Remaining output and unspent input shrink by the part of the remaining
/// time that has passed, each rounded down; what was released is spread over
/// the shares through the index; the price of the step is recorded.
pub open spec fn advance(s: StreamView, now: nat) -> StreamView {
    if !advancing(s, now) {
        StreamView { last_updated: clock(s, now), ..s }
    } else {
        let out = released(s, now);
        let spent = consumed(s, now);
        StreamView {
            last_updated: clock(s, now),
            spent_in: s.spent_in + spent,
            in_supply: (s.in_supply - spent) as nat,
            out_remaining: (s.out_remaining - out) as nat,
            dist_index: if out > 0 {
                s.dist_index + (out * decimal_fractional()) / s.shares
            } else {
                s.dist_index
            },
            current_streamed_price: if out > 0 {
                (spent * decimal_fractional()) / out
            } else {
                s.current_streamed_price
            },
            ..s
        }
    }
}

/// Whether the stream advanced to `now` still fits the machine's types.
pub open spec fn advance_fits(s: StreamView, now: nat) -> bool {
    advancing(s, now) ==> {
        &&& s.spent_in + consumed(s, now) <= u128::MAX
        &&& released(s, now) > 0 ==> advance(s, now).dist_index < uint256_limit()
    }
}

/// The status that the passing of time brings about: waiting turns into
/// bootstrapping at the bootstrapping start, bootstrapping into active at the
/// start, active into ended at the end. Finalized and cancelled stay.
pub open spec fn status_at(s: StreamView, now: nat) -> Status {
    let opened = if s.status == Status::Waiting && now >= s.bootstrapping_start_time {
        Status::Bootstrapping
    } else {
        s.status
    };
    let started = if opened == Status::Bootstrapping && now >= s.start_time {
        Status::Active
    } else {
        opened
    };
    if started == Status::Active && now >= s.end_time {
        Status::Ended
    } else {
        started
    }
}

/// Shares that stand for `amount` of input: the amount itself while the pool
/// is empty, else `shares * amount / in_supply`, rounded as asked.
pub open spec fn compute_shares(s: StreamView, amount: nat, round_up: bool) -> nat {
    if s.shares == 0 || s.in_supply == 0 {
        amount
    } else if round_up {
        (s.shares * amount + s.in_supply - 1) as nat / s.in_supply
    } else {
        (s.shares * amount) / s.in_supply
    }
}

/// Whether the threshold of the stream, if it has one, has been reached.
pub open spec fn threshold_met(s: StreamView) -> bool {
    match s.threshold {
        Some(t) => s.spent_in >= t,
        None => true,
    }
}

pub proof fn lemma_progress_at_most_one(passed: nat, left: nat)
    by (nonlinear_arith)
    requires
        passed <= left,
        0 < left,
    ensures
        (passed * decimal_fractional()) / left <= decimal_fractional(),
{
}

pub proof fn lemma_part_at_most_whole(whole: nat, part: nat)
    by (nonlinear_arith)
    requires
        part <= decimal_fractional(),
    ensures
        (whole * part) / decimal_fractional() <= whole,
{
}

pub proof fn lemma_whole_times_decimal(whole: nat, d: nat)
    ensures
        ((whole * decimal_fractional()) * d) / decimal_fractional() == whole * d,
{
    assert((whole * decimal_fractional()) * d == decimal_fractional() * (whole * d))
        by (nonlinear_arith);
    lemma_div_multiples_vanish((whole * d) as int, decimal_fractional() as int);
}

/// `value * d`, rounded down to a whole number, or `ArithmeticOverflow`
/// where that needs more than 128 bits.
pub fn mul_floor(value: u128, d: Decimal256) -> (r: Result<u128, ContractError>)
    ensures
        (value as nat * d@) / decimal_fractional() <= u128::MAX ==> r == Ok::<u128, ContractError>(
            ((value as nat * d@) / decimal_fractional()) as u128,
        ),
        (value as nat * d@) / decimal_fractional() > u128::MAX ==> r == Err::<u128, ContractError>(
            ContractError::ArithmeticOverflow,
        ),
{
    proof {
        lemma_whole_times_decimal(value as nat, d@);
        if value as nat * d@ >= uint256_limit() {
            lemma_div_is_ordered(
                uint256_limit() as int,
                (value as nat * d@) as int,
                decimal_fractional() as int,
            );
        }
    }
    match Decimal256::from_integer(value).checked_mul(d) {
        Ok(product) => {
            proof {
                lemma_div_is_ordered(
                    (value as nat * d@) as int,
                    (uint256_limit() - 1) as int,
                    decimal_fractional() as int,
                );
            }
            match product.to_uint_floor() {
                Ok(whole) => Ok(whole),
                Err(e) => Err(e),
            }
        },
        Err(e) => Err(e),
    }
}

impl Stream {
    /// A stream as it stands at creation: the whole supply remaining, nothing
    /// deposited, nothing spent, no shares, index and price zero, waiting.
    pub fn new(
        name: String,
        treasury: String,
        stream_admin: String,
        url: Option<String>,
        out_asset: Coin,
        in_denom: String,
        bootstrapping_start_time: u64,
        start_time: u64,
        end_time: u64,
        last_updated: u64,
        create_pool: Option<CreatePool>,
        vesting: Option<Vesting>,
        threshold: Option<u128>,
    ) -> (s: Stream)
        ensures
            s@ == (StreamView {
                name: name@,
                treasury: treasury@,
                stream_admin: stream_admin@,
                url: opt_view(url),
                dist_index: 0,
                last_updated: last_updated as nat,
                out_denom: out_asset.denom@,
                out_supply: out_asset.amount as nat,
                out_remaining: out_asset.amount as nat,
                in_denom: in_denom@,
                in_supply: 0,
                spent_in: 0,
                shares: 0,
                bootstrapping_start_time: bootstrapping_start_time as nat,
                start_time: start_time as nat,
                end_time: end_time as nat,
                current_streamed_price: 0,
                status: Status::Waiting,
                create_pool: create_pool,
                vesting: vesting,
                threshold: match threshold {
                    Some(t) => Some(t as nat),
                    None => None,
                },
            }),
    {
        let out_remaining = out_asset.amount;
        Stream {
            name,
            treasury,
            stream_admin,
            url,
            dist_index: Decimal256::zero(),
            last_updated,
            out_asset,
            out_remaining,
            in_denom,
            in_supply: 0,
            spent_in: 0,
            shares: 0,
            bootstrapping_start_time,
            start_time,
            end_time,
            current_streamed_price: Decimal256::zero(),
            status: Status::Waiting,
            create_pool,
            vesting,
            threshold,
        }
    }

    /// Lets the passing of time change the status; touches nothing else.
    pub fn update_status(&mut self, now: u64)
        ensures
            final(self)@ == (StreamView { status: status_at(old(self)@, now as nat), ..old(self)@ }),
    {
        if self.status == Status::Waiting && now >= self.bootstrapping_start_time {
            self.status = Status::Bootstrapping;
        }
        if self.status == Status::Bootstrapping && now >= self.start_time {
            self.status = Status::Active;
        }
        if self.status == Status::Active && now >= self.end_time {
            self.status = Status::Ended;
        }
    }

    /// Shares to mint for a deposit (rounded down) or to burn for a
    /// withdrawal (rounded up) of `amount_in`; `ArithmeticOverflow` where
    /// `shares * amount_in` needs more than 128 bits.
    pub fn compute_shares_amount(&self, amount_in: u128, round_up: bool) -> (r: Result<
        u128,
        ContractError,
    >)
        ensures
            self.shares == 0 || self.in_supply == 0 || self.shares * amount_in <= u128::MAX ==> r
                == Ok::<u128, ContractError>(
                compute_shares(self@, amount_in as nat, round_up) as u128,
            ),
            self.shares != 0 && self.in_supply != 0 && self.shares * amount_in > u128::MAX ==> r
                == Err::<u128, ContractError>(ContractError::ArithmeticOverflow),
            r is Ok ==> compute_shares(self@, amount_in as nat, round_up) <= u128::MAX,
    {
        if self.shares == 0 || self.in_supply == 0 {
            return Ok(amount_in);
        }
        match self.shares.checked_mul(amount_in) {
            None => Err(ContractError::ArithmeticOverflow),
            Some(product) => {
                let quotient = product / self.in_supply;
                let remainder = product % self.in_supply;
                proof {
                    lemma_round_up(product as nat, self.in_supply as nat);
                }
                if round_up && remainder > 0 {
                    Ok(quotient + 1)
                } else {
                    Ok(quotient)
                }
            },
        }
    }

    pub fn is_waiting(&self) -> (b: bool)
        ensures
            b == (self.status == Status::Waiting),
    {
        self.status == Status::Waiting
    }

    pub fn is_bootstrapping(&self) -> (b: bool)
        ensures
            b == (self.status == Status::Bootstrapping),
    {
        self.status == Status::Bootstrapping
    }

    pub fn is_active(&self) -> (b: bool)
        ensures
            b == (self.status == Status::Active),
    {
        self.status == Status::Active
    }

    pub fn is_ended(&self) -> (b: bool)
        ensures
            b == (self.status == Status::Ended),
    {
        self.status == Status::Ended
    }

    pub fn is_finalized(&self) -> (b: bool)
        ensures
            b == (self.status == Status::Finalized),
    {
        self.status == Status::Finalized
    }

    pub fn is_cancelled(&self) -> (b: bool)
        ensures
            b == (self.status == Status::Cancelled),
    {
        self.status == Status::Cancelled
    }

    /// Whether the kill switch has put an end to trading.
    pub fn is_killswitch_active(&self) -> (b: bool)
        ensures
            b == (self.status == Status::Cancelled),
    {
        self.status == Status::Cancelled
    }

    /// Whether the threshold, if there is one, has been reached.
    pub fn is_threshold_met(&self) -> (b: bool)
        ensures
            b == threshold_met(self@),
    {
        match self.threshold {
            Some(t) => self.spent_in >= t,
            None => true,
        }
    }
}

proof fn lemma_round_up(x: nat, y: nat)
    requires
        0 < y,
    ensures
        (x + y - 1) as nat / y == x / y + (if x % y > 0 {
            1nat
        } else {
            0nat
        }),
        x % y > 0 ==> x / y < x,
{
    let q = x / y;
    let r = x % y;
    lemma_fundamental_div_mod(x as int, y as int);
    assert(x == y * q + r);
    if r > 0 {
        assert((q + 1) * y + (r - 1) == y * q + r + y - 1) by (nonlinear_arith);
        lemma_fundamental_div_mod_converse(
            (x + y - 1) as int,
            y as int,
            (q + 1) as int,
            (r - 1) as int,
        );
        assert(y >= 2);
        assert(y * q >= 2 * q) by (nonlinear_arith)
            requires
                y >= 2,
                q >= 0,
        ;
    } else {
        assert(q * y + (y - 1) == y * q + y - 1) by (nonlinear_arith);
        lemma_fundamental_div_mod_converse(
            (x + y - 1) as int,
            y as int,
            q as int,
            (y - 1) as int,
        );
    }
}

/// Advances the stream to `now` and returns the part of the remaining time
/// that has passed together with the output released. Where a quantity would
/// leave its type the stream stays as it is.
pub fn update_stream(now: u64, stream: &mut Stream) -> (r: Result<
    (Decimal256, u128),
    ContractError,
>)
    ensures
        advance_fits(old(stream)@, now as nat) ==> r is Ok && final(stream)@ == advance(
            old(stream)@,
            now as nat,
        ) && r->Ok_0.0@ == progress(old(stream)@, now as nat) && r->Ok_0.1 == (if advancing(
            old(stream)@,
            now as nat,
        ) {
            released(old(stream)@, now as nat)
        } else {
            0
        }),
        !advance_fits(old(stream)@, now as nat) ==> r == Err::<(Decimal256, u128), ContractError>(
            ContractError::ArithmeticOverflow,
        ) && *final(stream) == *old(stream),
{
    let from_start = if now < stream.start_time {
        stream.start_time
    } else {
        now
    };
    let t = if from_start > stream.end_time {
        stream.end_time
    } else {
        from_start
    };
    if t <= stream.last_updated || stream.shares == 0 {
        stream.last_updated = t;
        return Ok((Decimal256::zero(), 0));
    }
    let passed: u64 = t - stream.last_updated;
    let left: u64 = stream.end_time - stream.last_updated;
    let diff = Decimal256::from_ratio(passed as u128, left as u128);
    proof {
        lemma_progress_at_most_one(passed as nat, left as nat);
        lemma_part_at_most_whole(stream.out_remaining as nat, diff@);
        lemma_part_at_most_whole(stream.in_supply as nat, diff@);
    }
    let out = match mul_floor(stream.out_remaining, diff) {
        Ok(v) => v,
        Err(e) => {
            return Err(e);
        },
    };
    let spent = match mul_floor(stream.in_supply, diff) {
        Ok(v) => v,
        Err(e) => {
            return Err(e);
        },
    };
    let spent_in = match stream.spent_in.checked_add(spent) {
        Some(v) => v,
        None => {
            return Err(ContractError::ArithmeticOverflow);
        },
    };
    if out > 0 {
        let step = Decimal256::from_ratio(out, stream.shares);
        let index = match stream.dist_index.checked_add(step) {
            Ok(v) => v,
            Err(e) => {
                return Err(e);
            },
        };
        stream.dist_index = index;
        stream.current_streamed_price = Decimal256::from_ratio(spent, out);
        stream.out_remaining = stream.out_remaining - out;
    }
    stream.spent_in = spent_in;
    stream.in_supply = stream.in_supply - spent;
    stream.last_updated = t;
    Ok((diff, out))
}

} // verus!
