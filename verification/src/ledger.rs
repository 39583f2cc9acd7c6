use crate::contract::{at_present, executed, with_status};
use crate::decimal::decimal_fractional;
use crate::laws::{advance_preserves_wf, claim, step_takes_at_most_what_is_left};
use crate::contract::{created, instantiate_check};
use crate::msg::{CreateStreamMsg, ExecuteMsg, MsgView, ResponseView};
use crate::payment::payment;
use crate::position::sync;
use crate::settlement::HostInfo;
use crate::state::{Coin, Params, PositionView, Status, StreamView};
use crate::stream::{advance, advancing, released};
use vstd::arithmetic::div_mod::lemma_fundamental_div_mod;
use vstd::prelude::*;

verus! {

/// A stream together with all the positions that are open in it, and what
/// has come in and gone out so far.
pub struct Ledger {
    pub stream: StreamView,
    pub positions: Seq<PositionView>,
    /// Output paid to positions that were closed.
    pub paid_out: nat,
    /// Input that subscriptions brought in.
    pub deposited: nat,
    /// Input that withdrawals took out.
    pub withdrawn: nat,
    /// Unspent input returned to positions that were closed after the end.
    pub dust: nat,
    /// Input returned to positions that left the stream after it was cancelled.
    pub refunded: nat,
    /// Spent input that positions closed after the end left behind.
    pub kept: nat,
}

/// Sum of a sequence of natural numbers.
pub open spec fn sum(xs: Seq<nat>) -> nat
    decreases xs.len(),
{
    if xs.len() == 0 {
        0
    } else {
        sum(xs.drop_last()) + xs.last()
    }
}

/// Shares that the positions hold together.
pub open spec fn total_shares(ps: Seq<PositionView>) -> nat {
    sum(ps.map_values(|p: PositionView| p.shares))
}

/// Output that the positions have been credited together, in whole units.
pub open spec fn total_purchased(ps: Seq<PositionView>) -> nat {
    sum(ps.map_values(|p: PositionView| p.purchased))
}

/// Output that the positions are entitled to together when the index stands
/// at `dist_index`, in atomic units of a decimal.
pub open spec fn total_claim(ps: Seq<PositionView>, dist_index: nat) -> nat {
    sum(ps.map_values(|p: PositionView| claim(p, dist_index)))
}

impl Ledger {
    /// The books balance on the output side: the stream is well formed, no
    /// position is ahead of the stream's index, the positions hold the
    /// stream's shares between them, and what they are entitled to, with
    /// what was paid out already, is no more than what has left the
    /// remaining supply.
    pub open spec fn balanced(self) -> bool {
        &&& self.stream.wf()
        &&& forall|i: int|
            0 <= i < self.positions.len() ==> (#[trigger] self.positions[i]).index
                <= self.stream.dist_index
        &&& total_shares(self.positions) == self.stream.shares
        &&& total_claim(self.positions, self.stream.dist_index) + self.paid_out
            * decimal_fractional() <= (self.stream.out_supply - self.stream.out_remaining)
            * decimal_fractional()
    }
}

/// The position that an operation is handed: the one in the slot, if a slot
/// is named.
pub open spec fn handed(l: Ledger, slot: Option<int>) -> Option<PositionView> {
    match slot {
        Some(i) => Some(l.positions[i]),
        None => None,
    }
}

/// The positions after an operation: the one handed back takes the slot, or
/// a new slot where none was named; where none is handed back the slot is
/// given up.
pub open spec fn stored(
    ps: Seq<PositionView>,
    slot: Option<int>,
    back: Option<PositionView>,
) -> Seq<PositionView> {
    match (slot, back) {
        (Some(i), Some(q)) => ps.update(i, q),
        (Some(i), None) => ps.remove(i),
        (None, Some(q)) => ps.push(q),
        (None, None) => ps,
    }
}

/// Output that an exit pays to the holder, directly or into vesting.
pub open spec fn exit_payout(r: ResponseView) -> nat {
    if r.messages.len() == 0 {
        0
    } else {
        match r.messages[0] {
            MsgView::Send { amount, .. } => amount,
            MsgView::InstantiateVesting { total, .. } => total,
            _ => 0,
        }
    }
}

/// Amount of the transfer that is the `i`-th message of a response, if that
/// is a transfer.
pub open spec fn sent(r: ResponseView, i: int) -> nat {
    if 0 <= i < r.messages.len() && r.messages[i] is Send {
        r.messages[i]->Send_amount
    } else {
        0
    }
}

/// Input that a position accounts for, spent or not.
pub open spec fn input_of(p: Option<PositionView>) -> nat {
    match p {
        Some(position) => position.in_balance + position.spent,
        None => 0,
    }
}

/// The ledger after an operation that was paid for with `funds`, was handed
/// the position in `slot` and succeeded with response `r`.
pub open spec fn after(
    l: Ledger,
    funds: Seq<Coin>,
    msg: ExecuteMsg,
    slot: Option<int>,
    r: ResponseView,
) -> Ledger {
    Ledger {
        stream: r.stream,
        positions: stored(l.positions, slot, r.position),
        paid_out: l.paid_out + (if msg is ExitStream {
            exit_payout(r)
        } else {
            0
        }),
        deposited: l.deposited + (if msg is Subscribe {
            payment(funds, l.stream.in_denom)->Ok_0
        } else {
            0
        }),
        withdrawn: l.withdrawn + (if msg is Withdraw {
            sent(r, 0)
        } else {
            0
        }),
        dust: l.dust + (if msg is ExitStream {
            sent(r, 1)
        } else {
            0
        }),
        refunded: l.refunded + (if msg is ExitCancelled {
            sent(r, 0)
        } else {
            0
        }),
        kept: l.kept + (if msg is ExitStream {
            (input_of(handed(l, slot)) - sent(r, 1)) as nat
        } else {
            0
        }),
    }
}

pub proof fn lemma_sum_push(xs: Seq<nat>, x: nat)
    ensures
        sum(xs.push(x)) == sum(xs) + x,
{
    assert(xs.push(x).drop_last() =~= xs);
}

pub proof fn lemma_sum_update(xs: Seq<nat>, i: int, x: nat)
    requires
        0 <= i < xs.len(),
    ensures
        sum(xs.update(i, x)) + xs[i] == sum(xs) + x,
    decreases xs.len(),
{
    if i == xs.len() - 1 {
        assert(xs.update(i, x).drop_last() =~= xs.drop_last());
    } else {
        lemma_sum_update(xs.drop_last(), i, x);
        assert(xs.update(i, x).drop_last() =~= xs.drop_last().update(i, x));
    }
}

pub proof fn lemma_sum_remove(xs: Seq<nat>, i: int)
    requires
        0 <= i < xs.len(),
    ensures
        sum(xs.remove(i)) + xs[i] == sum(xs),
    decreases xs.len(),
{
    if i == xs.len() - 1 {
        assert(xs.remove(i) =~= xs.drop_last());
    } else {
        lemma_sum_remove(xs.drop_last(), i);
        assert(xs.remove(i).drop_last() =~= xs.drop_last().remove(i));
    }
}

/// Raising the index raises what the positions are entitled to by their
/// shares times the rise.
proof fn lemma_claims_follow_the_index(ps: Seq<PositionView>, from: nat, to: nat)
    requires
        from <= to,
        forall|i: int| 0 <= i < ps.len() ==> (#[trigger] ps[i]).index <= from,
    ensures
        total_claim(ps, to) == total_claim(ps, from) + total_shares(ps) * (to - from),
    decreases ps.len(),
{
    let claims_to = ps.map_values(|p: PositionView| claim(p, to));
    let claims_from = ps.map_values(|p: PositionView| claim(p, from));
    let shares = ps.map_values(|p: PositionView| p.shares);
    if ps.len() == 0 {
        assert(total_shares(ps) * (to - from) == 0) by (nonlinear_arith)
            requires
                total_shares(ps) == 0,
        ;
    } else {
        let rest = ps.drop_last();
        let p = ps.last();
        assert forall|i: int| 0 <= i < rest.len() implies (#[trigger] rest[i]).index <= from by {
            assert(rest[i] == ps[i]);
        }
        lemma_claims_follow_the_index(rest, from, to);
        assert(claims_to.drop_last() =~= rest.map_values(|p: PositionView| claim(p, to)));
        assert(claims_from.drop_last() =~= rest.map_values(|p: PositionView| claim(p, from)));
        assert(shares.drop_last() =~= rest.map_values(|p: PositionView| p.shares));
        assert(p.index <= from);
        assert(p.shares * (to - p.index) == p.shares * (from - p.index) + p.shares * (to - from))
            by (nonlinear_arith);
        assert(total_shares(ps) * (to - from) == total_shares(rest) * (to - from) + p.shares * (to
            - from)) by (nonlinear_arith)
            requires
                total_shares(ps) == total_shares(rest) + p.shares,
        ;
    }
}

/// The positions are entitled to at least what they have been credited.
proof fn lemma_claims_cover_purchases(ps: Seq<PositionView>, dist_index: nat)
    requires
        forall|i: int| 0 <= i < ps.len() ==> (#[trigger] ps[i]).index <= dist_index,
    ensures
        total_purchased(ps) * decimal_fractional() <= total_claim(ps, dist_index),
    decreases ps.len(),
{
    let d = decimal_fractional();
    if ps.len() > 0 {
        let rest = ps.drop_last();
        let p = ps.last();
        assert forall|i: int| 0 <= i < rest.len() implies (#[trigger] rest[i]).index
            <= dist_index by {
            assert(rest[i] == ps[i]);
        }
        lemma_claims_cover_purchases(rest, dist_index);
        assert(ps.map_values(|p: PositionView| claim(p, dist_index)).drop_last()
            =~= rest.map_values(|p: PositionView| claim(p, dist_index)));
        assert(ps.map_values(|p: PositionView| p.purchased).drop_last() =~= rest.map_values(
            |p: PositionView| p.purchased,
        ));
        assert(p.index <= dist_index);
        assert(p.shares * (dist_index - p.index) >= 0) by (nonlinear_arith)
            requires
                dist_index - p.index >= 0,
        ;
        assert(total_purchased(ps) * d == total_purchased(rest) * d + p.purchased * d)
            by (nonlinear_arith)
            requires
                total_purchased(ps) == total_purchased(rest) + p.purchased,
        ;
    }
}

/// Output is never paid twice: what was paid to closed positions, what open
/// positions have been credited and what remains undistributed are together
/// no more than the supply.
pub proof fn output_is_never_overpaid(l: Ledger)
    requires
        l.balanced(),
    ensures
        l.paid_out + total_purchased(l.positions) + l.stream.out_remaining <= l.stream.out_supply,
{
    let d = decimal_fractional();
    lemma_claims_cover_purchases(l.positions, l.stream.dist_index);
    let lhs = l.paid_out + total_purchased(l.positions);
    let rhs = (l.stream.out_supply - l.stream.out_remaining) as nat;
    assert(lhs * d == total_purchased(l.positions) * d + l.paid_out * d) by (nonlinear_arith)
        requires
            lhs == l.paid_out + total_purchased(l.positions),
    ;
    assert(lhs <= rhs) by (nonlinear_arith)
        requires
            lhs * d <= rhs * d,
            d > 0,
    ;
}

/// Advancing the stream keeps the books balanced, whatever the status.
proof fn lemma_advance_keeps_balance(l: Ledger, now: nat, status_before: Status, status: Status)
    requires
        l.balanced(),
    ensures
        (Ledger {
            stream: StreamView {
                status: status,
                ..advance(StreamView { status: status_before, ..l.stream }, now)
            },
            ..l
        }).balanced(),
{
    let d = decimal_fractional();
    let s = StreamView { status: status_before, ..l.stream };
    let a = advance(s, now);
    advance_preserves_wf(s, now);
    step_takes_at_most_what_is_left(s, now);
    crate::laws::advance_is_monotone(s, now);
    lemma_claims_follow_the_index(l.positions, s.dist_index, a.dist_index);
    if advancing(s, now) && released(s, now) > 0 {
        let out = released(s, now);
        lemma_fundamental_div_mod((out * d) as int, s.shares as int);
        assert(s.shares * ((out * d) / s.shares) <= out * d);
        assert((s.out_supply - (s.out_remaining - out)) * d == (s.out_supply - s.out_remaining)
            * d + out * d) by (nonlinear_arith);
    } else {
        assert(total_shares(l.positions) * (a.dist_index - s.dist_index) == 0)
            by (nonlinear_arith)
            requires
                a.dist_index - s.dist_index == 0,
        ;
    }
}

/// Replacing a position by one that is entitled to no more keeps the books
/// balanced, where the stream's shares follow the position's.
proof fn lemma_replace_keeps_balance(l: Ledger, i: int, q: PositionView, stream_shares: nat)
    requires
        l.balanced(),
        0 <= i < l.positions.len(),
        q.index <= l.stream.dist_index,
        claim(q, l.stream.dist_index) <= claim(l.positions[i], l.stream.dist_index),
        stream_shares + l.positions[i].shares == l.stream.shares + q.shares,
    ensures
        (Ledger {
            stream: StreamView { shares: stream_shares, ..l.stream },
            positions: l.positions.update(i, q),
            ..l
        }).balanced(),
{
    let ps = l.positions;
    let idx = l.stream.dist_index;
    lemma_sum_update(ps.map_values(|p: PositionView| p.shares), i, q.shares);
    lemma_sum_update(ps.map_values(|p: PositionView| claim(p, idx)), i, claim(q, idx));
    assert(ps.update(i, q).map_values(|p: PositionView| p.shares) =~= ps.map_values(
        |p: PositionView| p.shares,
    ).update(i, q.shares));
    assert(ps.update(i, q).map_values(|p: PositionView| claim(p, idx)) =~= ps.map_values(
        |p: PositionView| claim(p, idx),
    ).update(i, claim(q, idx)));
}

/// Opening a position that is entitled to nothing keeps the books balanced.
proof fn lemma_open_keeps_balance(l: Ledger, q: PositionView)
    requires
        l.balanced(),
        q.index == l.stream.dist_index,
        q.purchased == 0,
        q.pending_purchase == 0,
    ensures
        (Ledger {
            stream: StreamView { shares: l.stream.shares + q.shares, ..l.stream },
            positions: l.positions.push(q),
            ..l
        }).balanced(),
{
    let ps = l.positions;
    let idx = l.stream.dist_index;
    let d = decimal_fractional();
    assert(q.shares * (idx - q.index) == 0) by (nonlinear_arith)
        requires
            idx - q.index == 0,
    ;
    assert(claim(q, idx) == 0);
    lemma_sum_push(ps.map_values(|p: PositionView| p.shares), q.shares);
    lemma_sum_push(ps.map_values(|p: PositionView| claim(p, idx)), claim(q, idx));
    assert(ps.push(q).map_values(|p: PositionView| p.shares) =~= ps.map_values(
        |p: PositionView| p.shares,
    ).push(q.shares));
    assert(ps.push(q).map_values(|p: PositionView| claim(p, idx)) =~= ps.map_values(
        |p: PositionView| claim(p, idx),
    ).push(claim(q, idx)));
}

/// Closing a position and paying out no more than it is entitled to keeps
/// the books balanced.
proof fn lemma_close_keeps_balance(l: Ledger, i: int, paid: nat)
    requires
        l.balanced(),
        0 <= i < l.positions.len(),
        paid * decimal_fractional() <= claim(l.positions[i], l.stream.dist_index),
        l.positions[i].shares <= l.stream.shares,
    ensures
        (Ledger {
            stream: StreamView {
                shares: (l.stream.shares - l.positions[i].shares) as nat,
                ..l.stream
            },
            positions: l.positions.remove(i),
            paid_out: l.paid_out + paid,
            ..l
        }).balanced(),
{
    let ps = l.positions;
    let idx = l.stream.dist_index;
    let d = decimal_fractional();
    lemma_sum_remove(ps.map_values(|p: PositionView| p.shares), i);
    lemma_sum_remove(ps.map_values(|p: PositionView| claim(p, idx)), i);
    assert(ps.remove(i).map_values(|p: PositionView| p.shares) =~= ps.map_values(
        |p: PositionView| p.shares,
    ).remove(i));
    assert(ps.remove(i).map_values(|p: PositionView| claim(p, idx)) =~= ps.map_values(
        |p: PositionView| claim(p, idx),
    ).remove(i));
    assert((l.paid_out + paid) * d == l.paid_out * d + paid * d) by (nonlinear_arith);
}

/// Bringing a position up to date leaves it entitled to no more than before,
/// at the stream's index, with its shares.
proof fn lemma_sync_claims_no_more(
    p: PositionView,
    dist_index: nat,
    shares: nat,
    last_updated: nat,
    in_supply: nat,
)
    requires
        p.index <= dist_index,
    ensures
        ({
            let q = sync(p, dist_index, shares, last_updated, in_supply);
            &&& q.index == dist_index
            &&& q.shares == p.shares
            &&& claim(q, dist_index) <= claim(p, dist_index)
            &&& q.purchased * decimal_fractional() <= claim(q, dist_index)
            &&& claim(q, dist_index) == q.purchased * decimal_fractional() + q.pending_purchase
        }),
{
    let q = sync(p, dist_index, shares, last_updated, in_supply);
    assert(q.shares * (dist_index - q.index) == 0) by (nonlinear_arith)
        requires
            dist_index - q.index == 0,
    ;
    assert(p.shares * (dist_index - p.index) >= 0) by (nonlinear_arith)
        requires
            dist_index - p.index >= 0,
    ;
    if shares > 0 {
        crate::laws::sync_preserves_claim(p, dist_index, shares, last_updated, in_supply);
    }
}

/// Bringing the stream up to the present keeps the books balanced, whatever
/// status it is given afterwards.
proof fn lemma_present_keeps_balance(l: Ledger, now: nat, status: Status)
    requires
        l.balanced(),
    ensures
        (Ledger { stream: StreamView { status: status, ..at_present(l.stream, now) }, ..l })
            .balanced(),
        (Ledger { stream: at_present(l.stream, now), ..l }).balanced(),
{
    let before = crate::stream::status_at(l.stream, now);
    lemma_advance_keeps_balance(l, now, before, status);
    lemma_advance_keeps_balance(l, now, before, before);
    assert(with_status(l.stream, now) == (StreamView { status: before, ..l.stream }));
    let present = at_present(l.stream, now);
    assert(present == (StreamView { status: before, ..present }));
}

/// Bringing a position up to date with the stream keeps the books balanced.
proof fn lemma_sync_keeps_balance(l: Ledger, i: int)
    requires
        l.balanced(),
        0 <= i < l.positions.len(),
    ensures
        (Ledger {
            positions: l.positions.update(
                i,
                sync(
                    l.positions[i],
                    l.stream.dist_index,
                    l.stream.shares,
                    l.stream.last_updated,
                    l.stream.in_supply,
                ),
            ),
            ..l
        }).balanced(),
{
    let s = l.stream;
    let q = sync(l.positions[i], s.dist_index, s.shares, s.last_updated, s.in_supply);
    lemma_sync_claims_no_more(
        l.positions[i],
        s.dist_index,
        s.shares,
        s.last_updated,
        s.in_supply,
    );
    lemma_replace_keeps_balance(l, i, q, s.shares);
    assert(s == (StreamView { shares: s.shares, ..s }));
}

/// Changing the balance and the shares of a position that stands at the
/// stream's index keeps the books balanced, where the stream's shares follow.
proof fn lemma_trade_keeps_balance(l: Ledger, i: int, q: PositionView, stream: StreamView)
    requires
        l.balanced(),
        0 <= i < l.positions.len(),
        l.positions[i].index == l.stream.dist_index,
        q.index == l.positions[i].index,
        q.purchased == l.positions[i].purchased,
        q.pending_purchase == l.positions[i].pending_purchase,
        stream.shares + l.positions[i].shares == l.stream.shares + q.shares,
        (StreamView { shares: l.stream.shares, in_supply: l.stream.in_supply, ..stream })
            == l.stream,
    ensures
        (Ledger { stream: stream, positions: l.positions.update(i, q), ..l }).balanced(),
{
    let idx = l.stream.dist_index;
    let p = l.positions[i];
    assert(q.shares * (idx - q.index) == 0) by (nonlinear_arith)
        requires
            idx - q.index == 0,
    ;
    assert(p.shares * (idx - p.index) == 0) by (nonlinear_arith)
        requires
            idx - p.index == 0,
    ;
    lemma_replace_keeps_balance(l, i, q, stream.shares);
    assert((StreamView { shares: stream.shares, ..l.stream }).wf());
    assert(stream.wf());
}

/// Every operation that succeeds keeps the books balanced: none credits,
/// and none pays out, output that has not left the remaining supply.
pub proof fn operations_keep_the_books_balanced(
    l: Ledger,
    now: nat,
    sender: Seq<char>,
    funds: Seq<Coin>,
    msg: ExecuteMsg,
    params: Params,
    host: HostInfo,
    slot: Option<int>,
)
    requires
        l.balanced(),
        slot is Some ==> 0 <= slot->0 < l.positions.len(),
        executed(now, sender, funds, msg, params, host, l.stream, handed(l, slot)) is Ok,
    ensures
        after(
            l,
            funds,
            msg,
            slot,
            executed(now, sender, funds, msg, params, host, l.stream, handed(l, slot))->Ok_0,
        ).balanced(),
{
    let p = handed(l, slot);
    let r = executed(now, sender, funds, msg, params, host, l.stream, p)->Ok_0;
    let next = after(l, funds, msg, slot, r);
    let present = at_present(l.stream, now);
    let at_now = Ledger { stream: present, ..l };
    lemma_present_keeps_balance(l, now, Status::Finalized);
    lemma_present_keeps_balance(l, now, Status::Cancelled);
    if r.position == p {
        assert(stored(l.positions, slot, p) =~= l.positions);
    }
    match msg {
        ExecuteMsg::UpdateOperator { new_operator } => {
            let i = slot->0;
            let q = r.position->0;
            assert(q.shares * (l.stream.dist_index - q.index) == l.positions[i].shares * (
            l.stream.dist_index - l.positions[i].index));
            lemma_replace_keeps_balance(l, i, q, l.stream.shares);
            assert(l.stream == (StreamView { shares: l.stream.shares, ..l.stream }));
        },
        ExecuteMsg::UpdatePosition { operator_target } => {
            lemma_sync_keeps_balance(at_now, slot->0);
        },
        ExecuteMsg::UpdateStream => {},
        ExecuteMsg::Subscribe { operator_target, operator } => {
            if slot is Some {
                let i = slot->0;
                lemma_sync_keeps_balance(at_now, i);
                let q = sync(
                    l.positions[i],
                    present.dist_index,
                    present.shares,
                    present.last_updated,
                    present.in_supply,
                );
                let synced = Ledger { positions: l.positions.update(i, q), ..at_now };
                lemma_trade_keeps_balance(synced, i, r.position->0, r.stream);
                assert(synced.positions.update(i, r.position->0) =~= l.positions.update(
                    i,
                    r.position->0,
                ));
            } else {
                let q = r.position->0;
                lemma_open_keeps_balance(at_now, q);
                assert((StreamView { shares: present.shares + q.shares, ..present }).wf());
                assert(r.stream.wf());
            }
        },
        ExecuteMsg::Withdraw { cap, operator_target } => {
            let i = slot->0;
            lemma_sync_keeps_balance(at_now, i);
            let q = sync(
                l.positions[i],
                present.dist_index,
                present.shares,
                present.last_updated,
                present.in_supply,
            );
            let synced = Ledger { positions: l.positions.update(i, q), ..at_now };
            lemma_trade_keeps_balance(synced, i, r.position->0, r.stream);
            assert(synced.positions.update(i, r.position->0) =~= l.positions.update(
                i,
                r.position->0,
            ));
        },
        ExecuteMsg::FinalizeStream { new_treasury } => {},
        ExecuteMsg::ExitStream { operator_target, salt } => {
            let i = slot->0;
            lemma_sync_keeps_balance(at_now, i);
            let q = sync(
                l.positions[i],
                present.dist_index,
                present.shares,
                present.last_updated,
                present.in_supply,
            );
            lemma_sync_claims_no_more(
                l.positions[i],
                present.dist_index,
                present.shares,
                present.last_updated,
                present.in_supply,
            );
            let synced = Ledger { positions: l.positions.update(i, q), ..at_now };
            lemma_close_keeps_balance(synced, i, q.purchased);
            assert(synced.positions.remove(i) =~= l.positions.remove(i));
            assert(exit_payout(r) == q.purchased);
        },
        ExecuteMsg::CancelStream => {
            assert(r.stream == (StreamView { status: Status::Cancelled, ..l.stream }));
            assert(r.stream.wf());
        },
        ExecuteMsg::ExitCancelled { operator_target } => {
            let i = slot->0;
            let s = l.stream;
            lemma_sync_keeps_balance(l, i);
            let q = sync(l.positions[i], s.dist_index, s.shares, s.last_updated, s.in_supply);
            let synced = Ledger { positions: l.positions.update(i, q), ..l };
            assert(0 * decimal_fractional() == 0) by (nonlinear_arith);
            lemma_close_keeps_balance(synced, i, 0);
            assert(synced.positions.remove(i) =~= l.positions.remove(i));
        },
        ExecuteMsg::CancelStreamWithThreshold => {},
    }
}

/// The ledger of a stream that was just created: no positions, and
/// nothing has come in or gone out.
pub open spec fn opened(msg: CreateStreamMsg) -> Ledger {
    Ledger {
        stream: created(msg),
        positions: Seq::empty(),
        paid_out: 0,
        deposited: 0,
        withdrawn: 0,
        dust: 0,
        refunded: 0,
        kept: 0,
    }
}

/// The books of a stream that was just created are balanced.
pub proof fn a_new_stream_is_balanced(now: nat, msg: CreateStreamMsg)
    requires
        instantiate_check(now, msg) is None,
    ensures
        opened(msg).balanced(),
{
    let ps = Seq::<PositionView>::empty();
    assert(ps.map_values(|p: PositionView| p.shares) =~= Seq::<nat>::empty());
    assert(ps.map_values(|p: PositionView| claim(p, 0)) =~= Seq::<nat>::empty());
    assert(0 * decimal_fractional() == 0) by (nonlinear_arith);
    assert((created(msg).out_supply - created(msg).out_remaining) * decimal_fractional() == 0)
        by (nonlinear_arith)
        requires
            created(msg).out_supply - created(msg).out_remaining == 0,
    ;
}

} // verus!
