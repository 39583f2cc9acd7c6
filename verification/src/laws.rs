use crate::contract::{at_present, subscribe, withdraw};
use crate::decimal::decimal_fractional;
use crate::killswitch::exit_cancelled;
use crate::payment::payment;
use crate::settlement::{finalize, swap_fee};
use crate::state::Coin;
use crate::position::{earned, in_remaining, sync, sync_purchased};
use crate::state::{PositionView, StreamView};
use crate::stream::{
    advance, advancing, clock, consumed, lemma_part_at_most_whole, lemma_progress_at_most_one,
    progress, released,
};
use vstd::arithmetic::div_mod::{
    lemma_basic_div, lemma_div_multiples_vanish, lemma_fundamental_div_mod,
    lemma_fundamental_div_mod_converse,
};
use vstd::prelude::*;

verus! {

/// The part of the remaining time that passes in one step is at most all of
/// it, so a step releases no more output than remains and spends no more
/// input than is unspent.
pub proof fn step_takes_at_most_what_is_left(s: StreamView, now: nat)
    ensures
        progress(s, now) <= decimal_fractional(),
        released(s, now) <= s.out_remaining,
        consumed(s, now) <= s.in_supply,
{
    if advancing(s, now) {
        lemma_progress_at_most_one(
            (clock(s, now) - s.last_updated) as nat,
            (s.end_time - s.last_updated) as nat,
        );
    }
    lemma_part_at_most_whole(s.out_remaining, progress(s, now));
    lemma_part_at_most_whole(s.in_supply, progress(s, now));
}

/// Advancing never lowers the index or the spent input, and never raises
/// the remaining output or the unspent input.
pub proof fn advance_is_monotone(s: StreamView, now: nat)
    ensures
        advance(s, now).dist_index >= s.dist_index,
        advance(s, now).spent_in >= s.spent_in,
        advance(s, now).out_remaining <= s.out_remaining,
        advance(s, now).in_supply <= s.in_supply,
{
    step_takes_at_most_what_is_left(s, now);
}

/// Bringing a position up to date never lowers what it purchased or what it
/// spent, provided the index has not gone back and the shares stand for no
/// more than the balance.
pub proof fn sync_is_monotone(
    p: PositionView,
    dist_index: nat,
    shares: nat,
    last_updated: nat,
    in_supply: nat,
)
    requires
        p.index <= dist_index,
        shares > 0 ==> in_remaining(p, shares, in_supply) <= p.in_balance,
    ensures
        sync(p, dist_index, shares, last_updated, in_supply).purchased >= p.purchased,
        sync(p, dist_index, shares, last_updated, in_supply).spent >= p.spent,
        sync(p, dist_index, shares, last_updated, in_supply).index >= p.index,
{
}

/// Advancing twice to the same time is advancing once.
pub proof fn advance_is_idempotent(s: StreamView, now: nat)
    ensures
        advance(advance(s, now), now) == advance(s, now),
{
    let once = advance(s, now);
    assert(clock(once, now) == clock(s, now));
    assert(!advancing(once, now));
}

/// Advancing moves input from unspent to spent and loses none.
pub proof fn advance_conserves_input(s: StreamView, now: nat)
    ensures
        advance(s, now).in_supply + advance(s, now).spent_in == s.in_supply + s.spent_in,
{
    step_takes_at_most_what_is_left(s, now);
}

/// Once the end has been reached with shares outstanding, no input is left
/// unspent and no output is left undistributed.
pub proof fn advance_to_the_end_takes_everything(s: StreamView, now: nat)
    requires
        s.start_time <= s.end_time,
        s.last_updated < s.end_time <= now,
        s.shares > 0,
    ensures
        advance(s, now).in_supply == 0,
        advance(s, now).out_remaining == 0,
        advance(s, now).last_updated == s.end_time,
{
    let left = (s.end_time - s.last_updated) as nat;
    assert(clock(s, now) == s.end_time);
    assert(advancing(s, now));
    assert((left * decimal_fractional()) / left == decimal_fractional()) by {
        assert(left * decimal_fractional() == left * decimal_fractional() + 0);
        lemma_div_multiples_vanish(decimal_fractional() as int, left as int);
    }
    assert(progress(s, now) == decimal_fractional());
    lemma_whole(s.in_supply);
    lemma_whole(s.out_remaining);
}

proof fn lemma_whole(x: nat)
    ensures
        (x * decimal_fractional()) / decimal_fractional() == x,
{
    assert(x * decimal_fractional() == decimal_fractional() * x) by (nonlinear_arith);
    lemma_div_multiples_vanish(x as int, decimal_fractional() as int);
}

/// Bringing a position up to date moves input from its balance to what it
/// spent and loses none.
pub proof fn sync_conserves_input(
    p: PositionView,
    dist_index: nat,
    shares: nat,
    last_updated: nat,
    in_supply: nat,
)
    requires
        shares > 0 ==> in_remaining(p, shares, in_supply) <= p.in_balance,
    ensures
        sync(p, dist_index, shares, last_updated, in_supply).in_balance + sync(
            p,
            dist_index,
            shares,
            last_updated,
            in_supply,
        ).spent == p.in_balance + p.spent,
{
}

/// Output that a position is entitled to when the stream's index stands at
/// `dist_index`, credited or not, in atomic units of a decimal.
pub open spec fn claim(p: PositionView, dist_index: nat) -> nat {
    (p.purchased * decimal_fractional() + p.pending_purchase + p.shares * (dist_index
        - p.index)) as nat
}

/// Bringing a position up to date credits what it was entitled to and
/// changes nothing of the entitlement: whole units go to `purchased`, the
/// rest stays pending and is less than one unit.
pub proof fn sync_preserves_claim(
    p: PositionView,
    dist_index: nat,
    shares: nat,
    last_updated: nat,
    in_supply: nat,
)
    requires
        p.index <= dist_index,
        shares > 0,
    ensures
        claim(sync(p, dist_index, shares, last_updated, in_supply), dist_index) == claim(
            p,
            dist_index,
        ),
        sync(p, dist_index, shares, last_updated, in_supply).pending_purchase
            < decimal_fractional(),
{
    let hp = earned(p, dist_index);
    lemma_fundamental_div_mod(hp as int, decimal_fractional() as int);
    let q = sync(p, dist_index, shares, last_updated, in_supply);
    assert(q.shares * (dist_index - q.index) == 0) by (nonlinear_arith)
        requires
            dist_index - q.index == 0,
    ;
    assert((p.purchased + hp / decimal_fractional()) * decimal_fractional() == p.purchased
        * decimal_fractional() + decimal_fractional() * (hp / decimal_fractional()))
        by (nonlinear_arith);
}

/// What a position purchases does not depend on how often it is brought up
/// to date: two positions that were equal, one brought up to date on the way
/// and one not, are credited the same once both are up to date, and carry
/// the same fraction.
pub proof fn purchases_are_fair(
    p: PositionView,
    index_between: nat,
    shares_between: nat,
    updated_between: nat,
    in_supply_between: nat,
    dist_index: nat,
    shares: nat,
    last_updated: nat,
    in_supply: nat,
)
    requires
        p.index <= index_between <= dist_index,
        shares_between > 0,
        shares > 0,
    ensures
        sync(
            sync(p, index_between, shares_between, updated_between, in_supply_between),
            dist_index,
            shares,
            last_updated,
            in_supply,
        ).purchased == sync(p, dist_index, shares, last_updated, in_supply).purchased,
        sync(
            sync(p, index_between, shares_between, updated_between, in_supply_between),
            dist_index,
            shares,
            last_updated,
            in_supply,
        ).pending_purchase == sync(p, dist_index, shares, last_updated, in_supply).pending_purchase,
{
    let d = decimal_fractional();
    let first = earned(p, index_between);
    let mid = sync(p, index_between, shares_between, updated_between, in_supply_between);
    let second = earned(mid, dist_index);
    let direct = earned(p, dist_index);
    lemma_fundamental_div_mod(first as int, d as int);
    lemma_fundamental_div_mod(second as int, d as int);
    assert(p.shares * (dist_index - p.index) == p.shares * (dist_index - index_between) + p.shares
        * (index_between - p.index)) by (nonlinear_arith);
    assert(direct == second + d * (first / d));
    assert(direct == (first / d + second / d) * d + second % d) by (nonlinear_arith)
        requires
            direct == second + d * (first / d),
            second == d * (second / d) + second % d,
    ;
    lemma_fundamental_div_mod_converse(
        direct as int,
        d as int,
        (first / d + second / d) as int,
        (second % d) as int,
    );
}

/// A position that stands at the stream's index and carries less than one
/// unit is credited nothing when it is brought up to date: what is deposited
/// earns nothing of what was distributed before.
pub proof fn deposit_earns_nothing_of_the_past(
    p: PositionView,
    dist_index: nat,
    shares: nat,
    last_updated: nat,
    in_supply: nat,
)
    requires
        p.index == dist_index,
        p.pending_purchase < decimal_fractional(),
    ensures
        sync_purchased(p, dist_index, shares) == 0,
        sync(p, dist_index, shares, last_updated, in_supply).purchased == p.purchased,
{
    assert(p.shares * (dist_index - p.index) == 0) by (nonlinear_arith)
        requires
            dist_index - p.index == 0,
    ;
    lemma_basic_div(p.pending_purchase as int, decimal_fractional() as int);
}

/// Advancing keeps a stream well formed: in particular the index never
/// credits more output than has left the remaining supply.
pub proof fn advance_preserves_wf(s: StreamView, now: nat)
    requires
        s.wf(),
    ensures
        advance(s, now).wf(),
{
    step_takes_at_most_what_is_left(s, now);
    if advancing(s, now) && released(s, now) > 0 {
        let out = released(s, now);
        let d = decimal_fractional();
        assert((out * d) / s.shares <= out * d) by (nonlinear_arith)
            requires
                s.shares > 0,
        ;
        assert((s.out_supply - (s.out_remaining - out)) * d == (s.out_supply - s.out_remaining)
            * d + out * d) by (nonlinear_arith);
    }
}

/// What a step releases reaches the shares through the index but for a
/// remainder of less than one atomic unit for each share: that much output
/// has left the remaining supply and is credited to nobody.
pub proof fn a_step_credits_all_but_a_remainder(s: StreamView, now: nat)
    requires
        advancing(s, now),
    ensures
        s.shares * (advance(s, now).dist_index - s.dist_index) <= released(s, now)
            * decimal_fractional(),
        released(s, now) * decimal_fractional() < s.shares * (advance(s, now).dist_index
            - s.dist_index) + s.shares,
{
    let out = released(s, now);
    let d = decimal_fractional();
    if out > 0 {
        lemma_fundamental_div_mod((out * d) as int, s.shares as int);
    } else {
        assert(s.shares * (advance(s, now).dist_index - s.dist_index) == 0) by (nonlinear_arith)
            requires
                advance(s, now).dist_index - s.dist_index == 0,
        ;
        assert(out * d == 0) by (nonlinear_arith)
            requires
                out == 0,
        ;
    }
}

/// A subscription leaves the position at the stream's index, so that what
/// was deposited earns nothing before the stream advances again; a position
/// that it opens has purchased and spent nothing and holds the payment.
pub proof fn subscription_starts_at_the_present(
    now: nat,
    sender: Seq<char>,
    funds: Seq<Coin>,
    operator: Option<Seq<char>>,
    operator_target: Option<Seq<char>>,
    s: StreamView,
    p: Option<PositionView>,
)
    requires
        subscribe(now, sender, funds, operator, operator_target, s, p) is Ok,
        p is Some ==> p->0.wf(),
    ensures
        ({
            let r = subscribe(now, sender, funds, operator, operator_target, s, p)->Ok_0;
            let q = r.position->0;
            &&& r.position is Some
            &&& q.wf()
            &&& q.index == r.stream.dist_index
            &&& r.stream.dist_index == at_present(s, now).dist_index
            &&& sync_purchased(q, r.stream.dist_index, r.stream.shares) == 0
            &&& p is None ==> q.purchased == 0 && q.spent == 0 && q.in_balance == payment(
                funds,
                s.in_denom,
            )->Ok_0
            &&& p is Some ==> q.purchased == sync(
                p->0,
                r.stream.dist_index,
                at_present(s, now).shares,
                at_present(s, now).last_updated,
                at_present(s, now).in_supply,
            ).purchased
        }),
{
    let r = subscribe(now, sender, funds, operator, operator_target, s, p)->Ok_0;
    let q = r.position->0;
    let present = at_present(s, now);
    if p is Some && present.shares > 0 {
        sync_preserves_claim(
            p->0,
            present.dist_index,
            present.shares,
            present.last_updated,
            present.in_supply,
        );
    }
    deposit_earns_nothing_of_the_past(
        q,
        r.stream.dist_index,
        r.stream.shares,
        r.stream.last_updated,
        r.stream.in_supply,
    );
}

/// A subscription adds the payment, and nothing else, to the input that the
/// stream and the position account for.
pub proof fn subscription_adds_the_payment(
    now: nat,
    sender: Seq<char>,
    funds: Seq<Coin>,
    operator: Option<Seq<char>>,
    operator_target: Option<Seq<char>>,
    s: StreamView,
    p: Option<PositionView>,
)
    requires
        subscribe(now, sender, funds, operator, operator_target, s, p) is Ok,
    ensures
        ({
            let r = subscribe(now, sender, funds, operator, operator_target, s, p)->Ok_0;
            let amount = payment(funds, s.in_denom)->Ok_0;
            &&& r.stream.in_supply + r.stream.spent_in == s.in_supply + s.spent_in + amount
            &&& r.position->0.in_balance + r.position->0.spent == amount + (if p is Some {
                p->0.in_balance + p->0.spent
            } else {
                0
            })
        }),
{
    advance_conserves_input(crate::contract::with_status(s, now), now);
}

/// A withdrawal sends exactly what leaves the input that the stream and the
/// position account for.
pub proof fn withdrawal_returns_what_it_takes(
    now: nat,
    sender: Seq<char>,
    cap: Option<u128>,
    operator_target: Option<Seq<char>>,
    s: StreamView,
    p: Option<PositionView>,
)
    requires
        withdraw(now, sender, cap, operator_target, s, p) is Ok,
    ensures
        ({
            let r = withdraw(now, sender, cap, operator_target, s, p)->Ok_0;
            &&& r.messages.len() == 1
            &&& r.messages[0] is Send
            &&& r.messages[0]->Send_amount > 0
            &&& r.stream.in_supply + r.stream.spent_in + r.messages[0]->Send_amount == s.in_supply
                + s.spent_in
            &&& r.position->0.in_balance + r.position->0.spent + r.messages[0]->Send_amount
                == p->0.in_balance + p->0.spent
        }),
{
    advance_conserves_input(crate::contract::with_status(s, now), now);
}

/// Leaving a cancelled stream returns exactly the input that the position
/// ever accounted for, spent or not.
pub proof fn cancelled_exit_makes_whole(
    sender: Seq<char>,
    operator_target: Option<Seq<char>>,
    s: StreamView,
    p: Option<PositionView>,
)
    requires
        exit_cancelled(sender, operator_target, s, p) is Ok,
    ensures
        ({
            let r = exit_cancelled(sender, operator_target, s, p)->Ok_0;
            &&& r.position is None
            &&& r.messages.len() == 1
            &&& r.messages[0] is Send
            &&& r.messages[0]->Send_amount == p->0.in_balance + p->0.spent
            &&& r.stream.in_supply + r.stream.spent_in == s.in_supply + s.spent_in
        }),
{
}

/// Settlement hands out exactly the spent input, split between treasury and
/// fee collector, and refunds exactly the output that remains.
pub proof fn settlement_pays_out_what_was_spent(
    now: nat,
    sender: Seq<char>,
    new_treasury: Option<Seq<char>>,
    exit_fee_percent: nat,
    fee_collector: Seq<char>,
    num_pools: nat,
    s: StreamView,
    p: Option<PositionView>,
)
    requires
        finalize(now, sender, new_treasury, exit_fee_percent, fee_collector, num_pools, s, p)
            is Ok,
    ensures
        ({
            let r = finalize(
                now,
                sender,
                new_treasury,
                exit_fee_percent,
                fee_collector,
                num_pools,
                s,
                p,
            )->Ok_0;
            let paid = crate::settlement::revenue_messages(
                crate::msg::target_of(new_treasury, s.treasury),
                fee_collector,
                swap_fee(r.stream.spent_in, exit_fee_percent),
                r.stream,
            );
            let refund = crate::settlement::refund_messages(
                crate::msg::target_of(new_treasury, s.treasury),
                r.stream,
            );
            &&& r.messages.subrange(0, paid.len() as int) == paid
            &&& r.messages.subrange(paid.len() as int, (paid.len() + refund.len()) as int) == refund
            &&& r.stream.spent_in > 0 ==> paid.len() == 2 && paid[0]->Send_amount
                + paid[1]->Send_amount == r.stream.spent_in
            &&& r.stream.spent_in == 0 ==> paid.len() == 0
            &&& r.stream.out_remaining > 0 ==> refund.len() == 1 && refund[0]->Send_amount
                == r.stream.out_remaining
            &&& r.stream.in_supply + r.stream.spent_in == s.in_supply + s.spent_in
        }),
{
    advance_conserves_input(crate::contract::with_status(s, now), now);
    let r = finalize(
        now,
        sender,
        new_treasury,
        exit_fee_percent,
        fee_collector,
        num_pools,
        s,
        p,
    )->Ok_0;
    let present = at_present(s, now);
    let treasury = crate::msg::target_of(new_treasury, s.treasury);
    let fee = swap_fee(present.spent_in, exit_fee_percent);
    let paid = crate::settlement::revenue_messages(treasury, fee_collector, fee, present);
    let refund = crate::settlement::refund_messages(treasury, present);
    let pool = crate::settlement::pool_messages(treasury, num_pools, present);
    assert(crate::settlement::revenue_messages(treasury, fee_collector, fee, r.stream) == paid);
    assert(crate::settlement::refund_messages(treasury, r.stream) == refund);
    assert(r.messages == paid + refund + pool);
    assert(r.messages.subrange(0, paid.len() as int) =~= paid);
    assert(r.messages.subrange(paid.len() as int, (paid.len() + refund.len()) as int) =~= refund);
}

} // verus!
