use crate::contract::{at_present, created, executed, instantiate_check, with_status};
use crate::laws::{
    advance_conserves_input, advance_preserves_wf, advance_to_the_end_takes_everything,
    step_takes_at_most_what_is_left,
};
use crate::ledger::{
    after, handed, lemma_sum_push, lemma_sum_remove, lemma_sum_update, opened, sent, stored, sum,
    total_shares, Ledger,
};
use crate::msg::{CreateStreamMsg, ExecuteMsg};
use crate::payment::payment;
use crate::position::{in_remaining, sync};
use crate::settlement::HostInfo;
use crate::state::{Coin, Params, PositionView, Status, StreamView};
use crate::stream::{advance, clock, compute_shares, status_at, threshold_met};
use vstd::arithmetic::div_mod::{
    lemma_div_is_ordered, lemma_div_multiples_vanish, lemma_fundamental_div_mod,
};
use vstd::prelude::*;

verus! {

/// Input that the positions account for together, spent or not.
pub open spec fn total_input(ps: Seq<PositionView>) -> nat {
    sum(ps.map_values(|p: PositionView| p.in_balance + p.spent))
}

/// Whether the stream's window has passed.
pub open spec fn is_over(status: Status) -> bool {
    status == Status::Ended || status == Status::Finalized
}

/// Whether the stream's window has not passed and it has not been cancelled.
pub open spec fn is_open(status: Status) -> bool {
    status == Status::Waiting || status == Status::Bootstrapping || status == Status::Active
}

impl Ledger {
    /// The books balance on the input side.
    ///
    /// What the stream holds and has spent is what was deposited less what
    /// was withdrawn, and so is what the positions, open or closed, account
    /// for. Until the window has passed the clock stands before the end and
    /// no position has been closed; once it has passed no input is left
    /// unspent. While the stream is not cancelled nothing is refunded and
    /// the shares are at least the unspent input; a position without shares
    /// holds no input.
    pub open spec fn accounted(self) -> bool {
        &&& self.stream.wf()
        &&& total_shares(self.positions) == self.stream.shares
        &&& self.stream.in_supply + self.stream.spent_in + self.withdrawn == self.deposited
        &&& total_input(self.positions) + self.withdrawn + self.dust + self.refunded + self.kept
            == self.deposited
        &&& self.dust == 0
        &&& self.stream.status != Status::Cancelled ==> self.refunded == 0
        &&& self.stream.status != Status::Cancelled ==> self.stream.in_supply
            <= self.stream.shares
        &&& self.kept > 0 ==> is_over(self.stream.status) && threshold_met(self.stream)
        &&& is_open(self.stream.status) ==> self.stream.last_updated < self.stream.end_time
        &&& is_over(self.stream.status) ==> self.stream.in_supply == 0
        &&& forall|i: int|
            0 <= i < self.positions.len() && (#[trigger] self.positions[i]).shares == 0
                ==> self.positions[i].in_balance == 0
    }
}

proof fn lemma_part_of_sum(xs: Seq<nat>, i: int)
    requires
        0 <= i < xs.len(),
    ensures
        xs[i] <= sum(xs),
    decreases xs.len(),
{
    if i < xs.len() - 1 {
        lemma_part_of_sum(xs.drop_last(), i);
    }
}

/// A position holds no more shares than the stream has.
proof fn lemma_shares_of_one(l: Ledger, i: int)
    requires
        total_shares(l.positions) == l.stream.shares,
        0 <= i < l.positions.len(),
    ensures
        l.positions[i].shares <= l.stream.shares,
{
    lemma_part_of_sum(l.positions.map_values(|p: PositionView| p.shares), i);
}

/// While shares are at least the unspent input, a deposit mints at least as
/// many shares as it brings input.
proof fn lemma_minted_covers_deposit(shares: nat, in_supply: nat, amount: nat)
    requires
        0 < in_supply <= shares,
    ensures
        (shares * amount) / in_supply >= amount,
{
    assert(in_supply * amount <= shares * amount) by (nonlinear_arith)
        requires
            in_supply <= shares,
    ;
    lemma_div_is_ordered(
        (in_supply * amount) as int,
        (shares * amount) as int,
        in_supply as int,
    );
    lemma_div_multiples_vanish(amount as int, in_supply as int);
}

/// Taking out what a position's shares stand for, with all its shares,
/// leaves the shares at least the unspent input.
proof fn lemma_full_withdrawal(shares: nat, in_supply: nat, held: nat)
    requires
        in_supply <= shares,
        held <= shares,
        0 < shares,
    ensures
        (in_supply * held) / shares <= in_supply,
        shares - held >= in_supply - (in_supply * held) / shares,
{
    let b = (in_supply * held) / shares;
    let k = shares - in_supply;
    lemma_fundamental_div_mod((in_supply * held) as int, shares as int);
    assert(shares * b <= in_supply * held);
    assert(b <= in_supply) by (nonlinear_arith)
        requires
            shares * b <= in_supply * held,
            held <= shares,
            shares > 0,
            in_supply >= 0,
            b >= 0,
    ;
    if held > k {
        // in_supply * held >= shares * (held - k)
        assert(in_supply * held >= shares * (held - k)) by (nonlinear_arith)
            requires
                k == shares - in_supply,
                held <= shares,
                k >= 0,
        ;
        let r = (in_supply * held) % shares;
        assert(b >= held - k) by (nonlinear_arith)
            requires
                in_supply * held >= shares * (held - k),
                in_supply * held == shares * b + r,
                r < shares,
                shares > 0,
        ;
    }
}

/// Taking out less than what a position's shares stand for burns fewer
/// shares than it holds, and leaves the shares at least the unspent input.
proof fn lemma_partial_withdrawal(shares: nat, in_supply: nat, held: nat, amount: nat)
    requires
        in_supply <= shares,
        held <= shares,
        0 < shares,
        amount < (in_supply * held) / shares,
    ensures
        0 < in_supply,
        amount < in_supply,
        (shares * amount + in_supply - 1) as nat / in_supply < held,
        shares - (shares * amount + in_supply - 1) as nat / in_supply >= in_supply - amount,
{
    let b = (in_supply * held) / shares;
    lemma_full_withdrawal(shares, in_supply, held);
    lemma_fundamental_div_mod((in_supply * held) as int, shares as int);
    assert(shares * b <= in_supply * held);
    assert(in_supply > 0);
    let top = (shares * amount + in_supply - 1) as nat;
    let burn = top / in_supply;
    lemma_fundamental_div_mod(top as int, in_supply as int);
    assert(top == in_supply * burn + top % in_supply);
    // top < in_supply * held
    assert(shares * amount <= shares * b - shares) by (nonlinear_arith)
        requires
            amount + 1 <= b,
            shares >= 0,
    ;
    assert(top < in_supply * held);
    assert(burn < held) by (nonlinear_arith)
        requires
            top == in_supply * burn + top % in_supply,
            top % in_supply >= 0,
            top < in_supply * held,
            in_supply > 0,
    ;
    // top < in_supply * (amount + (shares - in_supply) + 1)
    let k = shares - in_supply;
    assert(shares * amount == in_supply * amount + k * amount) by (nonlinear_arith)
        requires
            k == shares - in_supply,
    ;
    assert(k * amount <= k * in_supply) by (nonlinear_arith)
        requires
            amount <= in_supply,
            k >= 0,
    ;
    assert(in_supply * (amount + k + 1) == in_supply * amount + k * in_supply + in_supply)
        by (nonlinear_arith);
    assert(top < in_supply * (amount + k + 1));
    assert(burn < amount + k + 1) by (nonlinear_arith)
        requires
            top == in_supply * burn + top % in_supply,
            top % in_supply >= 0,
            top < in_supply * (amount + k + 1),
            in_supply > 0,
    ;
}

/// What replacing, opening and closing a position does to the totals.
proof fn lemma_totals_after_update(ps: Seq<PositionView>, i: int, q: PositionView)
    requires
        0 <= i < ps.len(),
    ensures
        total_shares(ps.update(i, q)) + ps[i].shares == total_shares(ps) + q.shares,
        total_input(ps.update(i, q)) + ps[i].in_balance + ps[i].spent == total_input(ps)
            + q.in_balance + q.spent,
{
    lemma_sum_update(ps.map_values(|p: PositionView| p.shares), i, q.shares);
    lemma_sum_update(
        ps.map_values(|p: PositionView| p.in_balance + p.spent),
        i,
        q.in_balance + q.spent,
    );
    assert(ps.update(i, q).map_values(|p: PositionView| p.shares) =~= ps.map_values(
        |p: PositionView| p.shares,
    ).update(i, q.shares));
    assert(ps.update(i, q).map_values(|p: PositionView| p.in_balance + p.spent) =~= ps.map_values(
        |p: PositionView| p.in_balance + p.spent,
    ).update(i, q.in_balance + q.spent));
}

proof fn lemma_totals_after_push(ps: Seq<PositionView>, q: PositionView)
    ensures
        total_shares(ps.push(q)) == total_shares(ps) + q.shares,
        total_input(ps.push(q)) == total_input(ps) + q.in_balance + q.spent,
{
    lemma_sum_push(ps.map_values(|p: PositionView| p.shares), q.shares);
    lemma_sum_push(ps.map_values(|p: PositionView| p.in_balance + p.spent), q.in_balance + q.spent);
    assert(ps.push(q).map_values(|p: PositionView| p.shares) =~= ps.map_values(
        |p: PositionView| p.shares,
    ).push(q.shares));
    assert(ps.push(q).map_values(|p: PositionView| p.in_balance + p.spent) =~= ps.map_values(
        |p: PositionView| p.in_balance + p.spent,
    ).push(q.in_balance + q.spent));
}

proof fn lemma_totals_after_remove(ps: Seq<PositionView>, i: int)
    requires
        0 <= i < ps.len(),
    ensures
        total_shares(ps.remove(i)) + ps[i].shares == total_shares(ps),
        total_input(ps.remove(i)) + ps[i].in_balance + ps[i].spent == total_input(ps),
{
    lemma_sum_remove(ps.map_values(|p: PositionView| p.shares), i);
    lemma_sum_remove(ps.map_values(|p: PositionView| p.in_balance + p.spent), i);
    assert(ps.remove(i).map_values(|p: PositionView| p.shares) =~= ps.map_values(
        |p: PositionView| p.shares,
    ).remove(i));
    assert(ps.remove(i).map_values(|p: PositionView| p.in_balance + p.spent) =~= ps.map_values(
        |p: PositionView| p.in_balance + p.spent,
    ).remove(i));
}

/// Where the ordered times put a stream that is still open, the end has not
/// come.
proof fn lemma_open_means_before_the_end(s: StreamView, now: nat)
    requires
        s.wf(),
        is_open(status_at(s, now)),
    ensures
        now < s.end_time,
        is_open(s.status),
        clock(s, now) < s.end_time,
{
}

/// Bringing the stream up to the present keeps the input side balanced; and
/// once the window has passed, no input is left unspent.
proof fn lemma_present_accounted(l: Ledger, now: nat)
    requires
        l.accounted(),
        l.stream.status != Status::Cancelled,
    ensures
        (Ledger { stream: at_present(l.stream, now), ..l }).accounted(),
        at_present(l.stream, now).status == status_at(l.stream, now),
        at_present(l.stream, now).status != Status::Cancelled,
        at_present(l.stream, now).shares == l.stream.shares,
        is_over(l.stream.status) ==> at_present(l.stream, now).status == l.stream.status,
        threshold_met(l.stream) ==> threshold_met(at_present(l.stream, now)),
{
    let s = with_status(l.stream, now);
    let a = advance(s, now);
    advance_preserves_wf(s, now);
    advance_conserves_input(s, now);
    step_takes_at_most_what_is_left(s, now);
    crate::laws::advance_is_monotone(s, now);
    if is_open(a.status) {
        lemma_open_means_before_the_end(l.stream, now);
    }
    if is_over(a.status) && !is_over(l.stream.status) {
        assert(is_open(l.stream.status));
        assert(now >= s.end_time);
        if s.shares > 0 {
            advance_to_the_end_takes_everything(s, now);
        }
    }
}

/// Bringing a position up to date keeps the input side balanced.
proof fn lemma_sync_accounted(l: Ledger, i: int)
    requires
        l.accounted(),
        0 <= i < l.positions.len(),
        l.stream.shares > 0 ==> in_remaining(l.positions[i], l.stream.shares, l.stream.in_supply)
            <= l.positions[i].in_balance,
    ensures
        ({
            let q = sync(
                l.positions[i],
                l.stream.dist_index,
                l.stream.shares,
                l.stream.last_updated,
                l.stream.in_supply,
            );
            &&& (Ledger { positions: l.positions.update(i, q), ..l }).accounted()
            &&& q.shares == l.positions[i].shares
            &&& q.shares <= l.stream.shares
            &&& q.in_balance + q.spent == l.positions[i].in_balance + l.positions[i].spent
            &&& l.stream.shares > 0 ==> q.in_balance == in_remaining(
                l.positions[i],
                l.stream.shares,
                l.stream.in_supply,
            )
            &&& l.stream.shares == 0 ==> q.in_balance == 0
            &&& l.stream.in_supply == 0 ==> q.in_balance == 0
        }),
{
    let s = l.stream;
    let p = l.positions[i];
    let q = sync(p, s.dist_index, s.shares, s.last_updated, s.in_supply);
    lemma_totals_after_update(l.positions, i, q);
    lemma_shares_of_one(l, i);
    if s.shares > 0 {
        if p.shares == 0 {
            assert(s.in_supply * p.shares == 0) by (nonlinear_arith)
                requires
                    p.shares == 0,
            ;
        }
        if s.in_supply == 0 {
            assert(s.in_supply * p.shares == 0) by (nonlinear_arith)
                requires
                    s.in_supply == 0,
            ;
        }
    }
    let next = Ledger { positions: l.positions.update(i, q), ..l };
    assert forall|j: int|
        0 <= j < next.positions.len() && (#[trigger] next.positions[j]).shares == 0 implies next
            .positions[j].in_balance == 0 by {
        if j != i {
            assert(next.positions[j] == l.positions[j]);
        }
    }
}

/// Naming an operator keeps the input side balanced.
proof fn lemma_update_operator_accounted(
    l: Ledger,
    now: nat,
    sender: Seq<char>,
    funds: Seq<Coin>,
    msg: ExecuteMsg,
    params: Params,
    host: HostInfo,
    slot: Option<int>,
)
    requires
        l.accounted(),
        slot is Some ==> 0 <= slot->0 < l.positions.len(),
        executed(now, sender, funds, msg, params, host, l.stream, handed(l, slot)) is Ok,
        msg is UpdateOperator,
    ensures
        after(
            l,
            funds,
            msg,
            slot,
            executed(now, sender, funds, msg, params, host, l.stream, handed(l, slot))->Ok_0,
        ).accounted(),
{
    let p = handed(l, slot);
    let r = executed(now, sender, funds, msg, params, host, l.stream, p)->Ok_0;
    let next = after(l, funds, msg, slot, r);
    let present = at_present(l.stream, now);
    let at_now = Ledger { stream: present, ..l };
    if r.position == p {
        assert(stored(l.positions, slot, p) =~= l.positions);
    }
    let i = slot->0;
    lemma_totals_after_update(l.positions, i, r.position->0);
    assert forall|j: int|
        0 <= j < next.positions.len() && (#[trigger] next.positions[j]).shares
            == 0 implies next.positions[j].in_balance == 0 by {
        assert(next.positions[j].shares == l.positions[j].shares);
        assert(next.positions[j].in_balance == l.positions[j].in_balance);
    }
}

/// Bringing a position up to date on request keeps the input side balanced.
proof fn lemma_update_position_accounted(
    l: Ledger,
    now: nat,
    sender: Seq<char>,
    funds: Seq<Coin>,
    msg: ExecuteMsg,
    params: Params,
    host: HostInfo,
    slot: Option<int>,
)
    requires
        l.accounted(),
        slot is Some ==> 0 <= slot->0 < l.positions.len(),
        executed(now, sender, funds, msg, params, host, l.stream, handed(l, slot)) is Ok,
        msg is UpdatePosition,
    ensures
        after(
            l,
            funds,
            msg,
            slot,
            executed(now, sender, funds, msg, params, host, l.stream, handed(l, slot))->Ok_0,
        ).accounted(),
{
    let p = handed(l, slot);
    let r = executed(now, sender, funds, msg, params, host, l.stream, p)->Ok_0;
    let next = after(l, funds, msg, slot, r);
    let present = at_present(l.stream, now);
    let at_now = Ledger { stream: present, ..l };
    if r.position == p {
        assert(stored(l.positions, slot, p) =~= l.positions);
    }
    lemma_present_accounted(l, now);
    lemma_sync_accounted(at_now, slot->0);
}

/// Advancing the stream on request keeps the input side balanced.
proof fn lemma_update_stream_accounted(
    l: Ledger,
    now: nat,
    sender: Seq<char>,
    funds: Seq<Coin>,
    msg: ExecuteMsg,
    params: Params,
    host: HostInfo,
    slot: Option<int>,
)
    requires
        l.accounted(),
        slot is Some ==> 0 <= slot->0 < l.positions.len(),
        executed(now, sender, funds, msg, params, host, l.stream, handed(l, slot)) is Ok,
        msg is UpdateStream,
    ensures
        after(
            l,
            funds,
            msg,
            slot,
            executed(now, sender, funds, msg, params, host, l.stream, handed(l, slot))->Ok_0,
        ).accounted(),
{
    let p = handed(l, slot);
    let r = executed(now, sender, funds, msg, params, host, l.stream, p)->Ok_0;
    let next = after(l, funds, msg, slot, r);
    let present = at_present(l.stream, now);
    let at_now = Ledger { stream: present, ..l };
    if r.position == p {
        assert(stored(l.positions, slot, p) =~= l.positions);
    }
    lemma_present_accounted(l, now);
}

/// A subscription keeps the input side balanced.
proof fn lemma_subscribe_accounted(
    l: Ledger,
    now: nat,
    sender: Seq<char>,
    funds: Seq<Coin>,
    msg: ExecuteMsg,
    params: Params,
    host: HostInfo,
    slot: Option<int>,
)
    requires
        l.accounted(),
        slot is Some ==> 0 <= slot->0 < l.positions.len(),
        executed(now, sender, funds, msg, params, host, l.stream, handed(l, slot)) is Ok,
        msg is Subscribe,
    ensures
        after(
            l,
            funds,
            msg,
            slot,
            executed(now, sender, funds, msg, params, host, l.stream, handed(l, slot))->Ok_0,
        ).accounted(),
{
    let p = handed(l, slot);
    let r = executed(now, sender, funds, msg, params, host, l.stream, p)->Ok_0;
    let next = after(l, funds, msg, slot, r);
    let present = at_present(l.stream, now);
    let at_now = Ledger { stream: present, ..l };
    if r.position == p {
        assert(stored(l.positions, slot, p) =~= l.positions);
    }
    lemma_present_accounted(l, now);
    let amount = payment(funds, l.stream.in_denom)->Ok_0;
    let minted = compute_shares(present, amount, false);
    assert(amount > 0);
    if present.shares != 0 && present.in_supply != 0 {
        lemma_minted_covers_deposit(present.shares, present.in_supply, amount);
    }
    assert(minted >= amount);
    if slot is Some {
        let i = slot->0;
        lemma_sync_accounted(at_now, i);
        let q = sync(
            l.positions[i],
            present.dist_index,
            present.shares,
            present.last_updated,
            present.in_supply,
        );
        let synced = Ledger { positions: l.positions.update(i, q), ..at_now };
        lemma_totals_after_update(synced.positions, i, r.position->0);
        assert(synced.positions.update(i, r.position->0) =~= next.positions);
        assert forall|j: int|
            0 <= j < next.positions.len() && (#[trigger] next.positions[j]).shares
                == 0 implies next.positions[j].in_balance == 0 by {
            if j != i {
                assert(next.positions[j] == synced.positions[j]);
            }
        }
    } else {
        lemma_totals_after_push(l.positions, r.position->0);
        assert forall|j: int|
            0 <= j < next.positions.len() && (#[trigger] next.positions[j]).shares
                == 0 implies next.positions[j].in_balance == 0 by {
            if j < l.positions.len() {
                assert(next.positions[j] == l.positions[j]);
            }
        }
    }
}

/// A withdrawal keeps the input side balanced.
proof fn lemma_withdraw_accounted(
    l: Ledger,
    now: nat,
    sender: Seq<char>,
    funds: Seq<Coin>,
    msg: ExecuteMsg,
    params: Params,
    host: HostInfo,
    slot: Option<int>,
)
    requires
        l.accounted(),
        slot is Some ==> 0 <= slot->0 < l.positions.len(),
        executed(now, sender, funds, msg, params, host, l.stream, handed(l, slot)) is Ok,
        msg is Withdraw,
    ensures
        after(
            l,
            funds,
            msg,
            slot,
            executed(now, sender, funds, msg, params, host, l.stream, handed(l, slot))->Ok_0,
        ).accounted(),
{
    let p = handed(l, slot);
    let r = executed(now, sender, funds, msg, params, host, l.stream, p)->Ok_0;
    let next = after(l, funds, msg, slot, r);
    let present = at_present(l.stream, now);
    let at_now = Ledger { stream: present, ..l };
    if r.position == p {
        assert(stored(l.positions, slot, p) =~= l.positions);
    }
    lemma_present_accounted(l, now);
    let i = slot->0;
    lemma_sync_accounted(at_now, i);
    let q = sync(
        l.positions[i],
        present.dist_index,
        present.shares,
        present.last_updated,
        present.in_supply,
    );
    let synced = Ledger { positions: l.positions.update(i, q), ..at_now };
    let amount = crate::contract::withdraw_amount(msg->Withdraw_cap, q);
    assert(0 < amount <= q.in_balance);
    assert(present.shares > 0);
    if amount == q.in_balance {
        lemma_full_withdrawal(present.shares, present.in_supply, q.shares);
    } else {
        lemma_partial_withdrawal(present.shares, present.in_supply, q.shares, amount);
    }
    assert(sent(r, 0) == amount);
    lemma_totals_after_update(synced.positions, i, r.position->0);
    assert(synced.positions.update(i, r.position->0) =~= next.positions);
    assert forall|j: int|
        0 <= j < next.positions.len() && (#[trigger] next.positions[j]).shares
            == 0 implies next.positions[j].in_balance == 0 by {
        if j != i {
            assert(next.positions[j] == synced.positions[j]);
        }
    }
}

/// Settlement keeps the input side balanced.
proof fn lemma_finalize_accounted(
    l: Ledger,
    now: nat,
    sender: Seq<char>,
    funds: Seq<Coin>,
    msg: ExecuteMsg,
    params: Params,
    host: HostInfo,
    slot: Option<int>,
)
    requires
        l.accounted(),
        slot is Some ==> 0 <= slot->0 < l.positions.len(),
        executed(now, sender, funds, msg, params, host, l.stream, handed(l, slot)) is Ok,
        msg is FinalizeStream,
    ensures
        after(
            l,
            funds,
            msg,
            slot,
            executed(now, sender, funds, msg, params, host, l.stream, handed(l, slot))->Ok_0,
        ).accounted(),
{
    let p = handed(l, slot);
    let r = executed(now, sender, funds, msg, params, host, l.stream, p)->Ok_0;
    let next = after(l, funds, msg, slot, r);
    let present = at_present(l.stream, now);
    let at_now = Ledger { stream: present, ..l };
    if r.position == p {
        assert(stored(l.positions, slot, p) =~= l.positions);
    }
    lemma_present_accounted(l, now);
}

/// An exit keeps the input side balanced.
proof fn lemma_exit_accounted(
    l: Ledger,
    now: nat,
    sender: Seq<char>,
    funds: Seq<Coin>,
    msg: ExecuteMsg,
    params: Params,
    host: HostInfo,
    slot: Option<int>,
)
    requires
        l.accounted(),
        slot is Some ==> 0 <= slot->0 < l.positions.len(),
        executed(now, sender, funds, msg, params, host, l.stream, handed(l, slot)) is Ok,
        msg is ExitStream,
    ensures
        after(
            l,
            funds,
            msg,
            slot,
            executed(now, sender, funds, msg, params, host, l.stream, handed(l, slot))->Ok_0,
        ).accounted(),
{
    let p = handed(l, slot);
    let r = executed(now, sender, funds, msg, params, host, l.stream, p)->Ok_0;
    let next = after(l, funds, msg, slot, r);
    let present = at_present(l.stream, now);
    let at_now = Ledger { stream: present, ..l };
    if r.position == p {
        assert(stored(l.positions, slot, p) =~= l.positions);
    }
    lemma_present_accounted(l, now);
    let i = slot->0;
    lemma_sync_accounted(at_now, i);
    let q = sync(
        l.positions[i],
        present.dist_index,
        present.shares,
        present.last_updated,
        present.in_supply,
    );
    let synced = Ledger { positions: l.positions.update(i, q), ..at_now };
    assert(q.in_balance == 0);
    assert(r.messages.len() == 1);
    assert(sent(r, 1) == 0);
    lemma_totals_after_remove(synced.positions, i);
    assert(synced.positions.remove(i) =~= next.positions);
    assert forall|j: int|
        0 <= j < next.positions.len() && (#[trigger] next.positions[j]).shares
            == 0 implies next.positions[j].in_balance == 0 by {
        if j < i {
            assert(next.positions[j] == synced.positions[j]);
        } else {
            assert(next.positions[j] == synced.positions[j + 1]);
        }
    }
}

/// The admin's cancellation keeps the input side balanced.
proof fn lemma_cancel_accounted(
    l: Ledger,
    now: nat,
    sender: Seq<char>,
    funds: Seq<Coin>,
    msg: ExecuteMsg,
    params: Params,
    host: HostInfo,
    slot: Option<int>,
)
    requires
        l.accounted(),
        slot is Some ==> 0 <= slot->0 < l.positions.len(),
        executed(now, sender, funds, msg, params, host, l.stream, handed(l, slot)) is Ok,
        msg is CancelStream,
    ensures
        after(
            l,
            funds,
            msg,
            slot,
            executed(now, sender, funds, msg, params, host, l.stream, handed(l, slot))->Ok_0,
        ).accounted(),
{
    let p = handed(l, slot);
    let r = executed(now, sender, funds, msg, params, host, l.stream, p)->Ok_0;
    let next = after(l, funds, msg, slot, r);
    let present = at_present(l.stream, now);
    let at_now = Ledger { stream: present, ..l };
    if r.position == p {
        assert(stored(l.positions, slot, p) =~= l.positions);
    }
}

/// Leaving a cancelled stream keeps the input side balanced.
proof fn lemma_exit_cancelled_accounted(
    l: Ledger,
    now: nat,
    sender: Seq<char>,
    funds: Seq<Coin>,
    msg: ExecuteMsg,
    params: Params,
    host: HostInfo,
    slot: Option<int>,
)
    requires
        l.accounted(),
        slot is Some ==> 0 <= slot->0 < l.positions.len(),
        executed(now, sender, funds, msg, params, host, l.stream, handed(l, slot)) is Ok,
        msg is ExitCancelled,
    ensures
        after(
            l,
            funds,
            msg,
            slot,
            executed(now, sender, funds, msg, params, host, l.stream, handed(l, slot))->Ok_0,
        ).accounted(),
{
    let p = handed(l, slot);
    let r = executed(now, sender, funds, msg, params, host, l.stream, p)->Ok_0;
    let next = after(l, funds, msg, slot, r);
    let present = at_present(l.stream, now);
    let at_now = Ledger { stream: present, ..l };
    if r.position == p {
        assert(stored(l.positions, slot, p) =~= l.positions);
    }
    let i = slot->0;
    let s = l.stream;
    lemma_sync_accounted(l, i);
    let q = sync(l.positions[i], s.dist_index, s.shares, s.last_updated, s.in_supply);
    let synced = Ledger { positions: l.positions.update(i, q), ..l };
    assert(sent(r, 0) == q.in_balance + q.spent);
    lemma_totals_after_remove(synced.positions, i);
    assert(synced.positions.remove(i) =~= next.positions);
    assert forall|j: int|
        0 <= j < next.positions.len() && (#[trigger] next.positions[j]).shares
            == 0 implies next.positions[j].in_balance == 0 by {
        if j < i {
            assert(next.positions[j] == synced.positions[j]);
        } else {
            assert(next.positions[j] == synced.positions[j + 1]);
        }
    }
}

/// The cancellation of a failed sale keeps the input side balanced.
proof fn lemma_cancel_with_threshold_accounted(
    l: Ledger,
    now: nat,
    sender: Seq<char>,
    funds: Seq<Coin>,
    msg: ExecuteMsg,
    params: Params,
    host: HostInfo,
    slot: Option<int>,
)
    requires
        l.accounted(),
        slot is Some ==> 0 <= slot->0 < l.positions.len(),
        executed(now, sender, funds, msg, params, host, l.stream, handed(l, slot)) is Ok,
        msg is CancelStreamWithThreshold,
    ensures
        after(
            l,
            funds,
            msg,
            slot,
            executed(now, sender, funds, msg, params, host, l.stream, handed(l, slot))->Ok_0,
        ).accounted(),
{
    let p = handed(l, slot);
    let r = executed(now, sender, funds, msg, params, host, l.stream, p)->Ok_0;
    let next = after(l, funds, msg, slot, r);
    let present = at_present(l.stream, now);
    let at_now = Ledger { stream: present, ..l };
    if r.position == p {
        assert(stored(l.positions, slot, p) =~= l.positions);
    }
    lemma_present_accounted(l, now);
}

/// Every operation that succeeds keeps the input side of the books
/// balanced.
pub proof fn operations_keep_the_input_accounted(
    l: Ledger,
    now: nat,
    sender: Seq<char>,
    funds: Seq<Coin>,
    msg: ExecuteMsg,
    params: Params,
    host: HostInfo,
    slot: Option<int>,
)
    requires
        l.accounted(),
        slot is Some ==> 0 <= slot->0 < l.positions.len(),
        executed(now, sender, funds, msg, params, host, l.stream, handed(l, slot)) is Ok,
    ensures
        after(
            l,
            funds,
            msg,
            slot,
            executed(now, sender, funds, msg, params, host, l.stream, handed(l, slot))->Ok_0,
        ).accounted(),
{
    match msg {
        ExecuteMsg::UpdateOperator { new_operator } => lemma_update_operator_accounted(l, now, sender, funds, msg, params, host, slot),
        ExecuteMsg::UpdatePosition { operator_target } => lemma_update_position_accounted(l, now, sender, funds, msg, params, host, slot),
        ExecuteMsg::UpdateStream => lemma_update_stream_accounted(l, now, sender, funds, msg, params, host, slot),
        ExecuteMsg::Subscribe { operator_target, operator } => lemma_subscribe_accounted(l, now, sender, funds, msg, params, host, slot),
        ExecuteMsg::Withdraw { cap, operator_target } => lemma_withdraw_accounted(l, now, sender, funds, msg, params, host, slot),
        ExecuteMsg::FinalizeStream { new_treasury } => lemma_finalize_accounted(l, now, sender, funds, msg, params, host, slot),
        ExecuteMsg::ExitStream { operator_target, salt } => lemma_exit_accounted(l, now, sender, funds, msg, params, host, slot),
        ExecuteMsg::CancelStream => lemma_cancel_accounted(l, now, sender, funds, msg, params, host, slot),
        ExecuteMsg::ExitCancelled { operator_target } => lemma_exit_cancelled_accounted(l, now, sender, funds, msg, params, host, slot),
        ExecuteMsg::CancelStreamWithThreshold => lemma_cancel_with_threshold_accounted(l, now, sender, funds, msg, params, host, slot),
    }
}

/// The input side of the books of a stream that was just created is
/// balanced.
pub proof fn a_new_stream_is_accounted(now: nat, msg: CreateStreamMsg)
    requires
        instantiate_check(now, msg) is None,
    ensures
        opened(msg).accounted(),
{
    let ps = Seq::<PositionView>::empty();
    assert(ps.map_values(|p: PositionView| p.shares) =~= Seq::<nat>::empty());
    assert(ps.map_values(|p: PositionView| p.in_balance + p.spent) =~= Seq::<nat>::empty());
    assert((created(msg).out_supply - created(msg).out_remaining)
        * crate::decimal::decimal_fractional() == 0) by (nonlinear_arith)
        requires
            created(msg).out_supply - created(msg).out_remaining == 0,
    ;
}

/// No input is lost and none is made.
///
/// Once a stream is settled, what was withdrawn, what was returned to
/// closed positions and what was spent, which is what settlement hands out,
/// are together what was deposited. Once every position has left a cancelled
/// stream, what was withdrawn and what was refunded are together what was
/// deposited.
pub proof fn input_is_conserved(l: Ledger)
    requires
        l.accounted(),
    ensures
        is_over(l.stream.status) ==> l.withdrawn + l.dust + l.stream.spent_in == l.deposited,
        l.stream.status == Status::Cancelled && l.positions.len() == 0 ==> l.withdrawn
            + l.refunded == l.deposited,
{
    if l.positions.len() == 0 {
        assert(l.positions.map_values(|p: PositionView| p.in_balance + p.spent) =~= Seq::<
            nat,
        >::empty());
    }
}

} // verus!
