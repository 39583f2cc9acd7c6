use crate::error::ContractError;
use crate::helpers::{check_name_and_url, name_and_url_ok};
use crate::killswitch::{
    cancel, cancel_with_threshold, execute_cancel_stream, execute_cancel_stream_with_threshold,
    execute_exit_cancelled, exit_cancelled,
};
use crate::msg::{
    msg_views, opt_bytes_view, opt_position_view, resolve_target, result_view, target_of,
    CreateStreamMsg, Env, ExecuteMsg, MessageInfo, Msg, MsgView, Response, ResponseView,
};
use crate::settlement::{
    execute_exit_stream, execute_finalize_stream, exit_stream, finalize, HostInfo,
};
use crate::state::Params;
use crate::payment::{must_pay, payment};
use crate::position::{check_access, has_access, sync, sync_fits, update_position};
use crate::state::{opt_view, Coin, Position, PositionView, Status, Stream, StreamView};
use crate::stream::{advance, advance_fits, compute_shares, status_at, update_stream};
use vstd::prelude::*;

verus! {

/// The stream with the status that the passing of time has brought about.
pub open spec fn with_status(s: StreamView, now: nat) -> StreamView {
    StreamView { status: status_at(s, now), ..s }
}

/// The stream as an operation at `now` finds it: status and distribution
/// brought up to the present.
pub open spec fn at_present(s: StreamView, now: nat) -> StreamView {
    advance(with_status(s, now), now)
}

/// Whether the shares for `amount` can be computed in 128 bits.
pub open spec fn shares_fit(s: StreamView, amount: nat) -> bool {
    s.shares == 0 || s.in_supply == 0 || s.shares * amount <= u128::MAX
}

/// Why a subscription is turned away, if it is: the stream is cancelled, or
/// neither bootstrapping nor active; the payment is not one coin of the
/// input denomination; the sender may not act on the position, or would open
/// one for somebody else.
pub open spec fn subscribe_gate(
    now: nat,
    sender: Seq<char>,
    funds: Seq<Coin>,
    target: Seq<char>,
    s: StreamView,
    p: Option<PositionView>,
) -> Option<ContractError> {
    if s.status == Status::Cancelled {
        Some(ContractError::StreamKillswitchActive)
    } else if status_at(s, now) != Status::Bootstrapping && status_at(s, now) != Status::Active {
        Some(ContractError::StreamNotStarted)
    } else if payment(funds, s.in_denom) is Err {
        Some(payment(funds, s.in_denom)->Err_0)
    } else if p is None && target != sender {
        Some(ContractError::Unauthorized)
    } else if p is Some && !has_access(sender, p->0.owner, p->0.operator) {
        Some(ContractError::Unauthorized)
    } else {
        None
    }
}

/// The position as it stands when `amount` is about to be added: brought up
/// to date with the stream, or newly opened for the sender.
pub open spec fn position_before_deposit(
    now: nat,
    sender: Seq<char>,
    operator: Option<Seq<char>>,
    present: StreamView,
    p: Option<PositionView>,
) -> PositionView {
    match p {
        Some(position) => sync(
            position,
            present.dist_index,
            present.shares,
            present.last_updated,
            present.in_supply,
        ),
        None => PositionView {
            owner: sender,
            in_balance: 0,
            shares: 0,
            index: present.dist_index,
            last_updated: now,
            purchased: 0,
            pending_purchase: 0,
            spent: 0,
            operator: operator,
        },
    }
}

/// Whether a subscription of `amount` keeps every quantity within its type.
pub open spec fn subscribe_fits(
    now: nat,
    amount: nat,
    s: StreamView,
    p: Option<PositionView>,
) -> bool {
    let present = at_present(s, now);
    let minted = compute_shares(present, amount, false);
    &&& advance_fits(with_status(s, now), now)
    &&& shares_fit(present, amount)
    &&& present.in_supply + amount <= u128::MAX
    &&& present.shares + minted <= u128::MAX
    &&& p is Some ==> {
        let q = sync(
            p->0,
            present.dist_index,
            present.shares,
            present.last_updated,
            present.in_supply,
        );
        &&& sync_fits(p->0, present.dist_index, present.shares, present.in_supply)
        &&& q.in_balance + amount <= u128::MAX
        &&& q.shares + minted <= u128::MAX
    }
}

/// What a subscription does.
///
/// The stream is brought up to the present, then the shares for the payment
/// are minted, rounded down. An existing position is brought up to date
/// before the deposit is added, so that the deposit earns nothing of what was
/// distributed before; a new position starts at the present index.
pub open spec fn subscribe(
    now: nat,
    sender: Seq<char>,
    funds: Seq<Coin>,
    operator: Option<Seq<char>>,
    operator_target: Option<Seq<char>>,
    s: StreamView,
    p: Option<PositionView>,
) -> Result<ResponseView, ContractError> {
    let target = target_of(operator_target, sender);
    if subscribe_gate(now, sender, funds, target, s, p) is Some {
        Err(subscribe_gate(now, sender, funds, target, s, p)->0)
    } else {
        let amount = payment(funds, s.in_denom)->Ok_0;
        if !subscribe_fits(now, amount, s, p) {
            Err(ContractError::ArithmeticOverflow)
        } else {
            let present = at_present(s, now);
            let minted = compute_shares(present, amount, false);
            let q = position_before_deposit(now, sender, operator, present, p);
            Ok(
                ResponseView {
                    stream: StreamView {
                        in_supply: present.in_supply + amount,
                        shares: present.shares + minted,
                        ..present
                    },
                    position: Some(
                        PositionView {
                            in_balance: q.in_balance + amount,
                            shares: q.shares + minted,
                            ..q
                        },
                    ),
                    messages: Seq::empty(),
                    vesting_address: None,
                },
            )
        }
    }
}

/// Deposits the payment that came with the message into the position of the
/// target, which is the sender unless an operator acts for an owner.
pub fn execute_subscribe(
    env: &Env,
    info: &MessageInfo,
    operator: Option<String>,
    operator_target: Option<String>,
    stream: Stream,
    position: Option<Position>,
) -> (r: Result<Response, ContractError>)
    ensures
        result_view(r) == subscribe(
            env.now as nat,
            info.sender@,
            info.funds@,
            opt_view(operator),
            opt_view(operator_target),
            stream@,
            opt_position_view(position),
        ),
{
    let mut stream = stream;
    if stream.is_cancelled() {
        return Err(ContractError::StreamKillswitchActive);
    }
    stream.update_status(env.now);
    if !(stream.is_active() || stream.is_bootstrapping()) {
        return Err(ContractError::StreamNotStarted);
    }
    let in_amount = match must_pay(&info.funds, &stream.in_denom) {
        Ok(v) => v,
        Err(e) => {
            return Err(e);
        },
    };
    let mut held = match position {
        None => {
            match &operator_target {
                Some(target) => {
                    if *target != info.sender {
                        return Err(ContractError::Unauthorized);
                    }
                },
                None => {},
            }
            match update_stream(env.now, &mut stream) {
                Ok(_) => {},
                Err(e) => {
                    return Err(e);
                },
            }
            Position::new(
                info.sender.clone(),
                0,
                0,
                Some(stream.dist_index),
                env.now,
                operator,
            )
        },
        Some(existing) => {
            let mut existing = existing;
            match check_access(&info.sender, &existing.owner, &existing.operator) {
                Ok(_) => {},
                Err(e) => {
                    return Err(e);
                },
            }
            match update_stream(env.now, &mut stream) {
                Ok(_) => {},
                Err(e) => {
                    return Err(e);
                },
            }
            match update_position(
                stream.dist_index,
                stream.shares,
                stream.last_updated,
                stream.in_supply,
                &mut existing,
            ) {
                Ok(_) => {},
                Err(e) => {
                    return Err(e);
                },
            }
            existing
        },
    };
    let new_shares = match stream.compute_shares_amount(in_amount, false) {
        Ok(v) => v,
        Err(e) => {
            return Err(e);
        },
    };
    let in_balance = match held.in_balance.checked_add(in_amount) {
        Some(v) => v,
        None => {
            return Err(ContractError::ArithmeticOverflow);
        },
    };
    let shares = match held.shares.checked_add(new_shares) {
        Some(v) => v,
        None => {
            return Err(ContractError::ArithmeticOverflow);
        },
    };
    let in_supply = match stream.in_supply.checked_add(in_amount) {
        Some(v) => v,
        None => {
            return Err(ContractError::ArithmeticOverflow);
        },
    };
    let total_shares = match stream.shares.checked_add(new_shares) {
        Some(v) => v,
        None => {
            return Err(ContractError::ArithmeticOverflow);
        },
    };
    held.in_balance = in_balance;
    held.shares = shares;
    stream.in_supply = in_supply;
    stream.shares = total_shares;
    let messages: Vec<Msg> = Vec::new();
    assert(msg_views(messages@) =~= Seq::<MsgView>::empty());
    Ok(Response { stream, position: Some(held), messages, vesting_address: None })
}

/// What advancing the stream on request does. A cancelled stream is not
/// advanced.
pub open spec fn update_stream_op(now: nat, s: StreamView, p: Option<PositionView>) -> Result<
    ResponseView,
    ContractError,
> {
    if s.status == Status::Cancelled {
        Err(ContractError::StreamIsCancelled)
    } else if !advance_fits(with_status(s, now), now) {
        Err(ContractError::ArithmeticOverflow)
    } else {
        Ok(
            ResponseView {
                stream: at_present(s, now),
                position: p,
                messages: Seq::empty(),
                vesting_address: None,
            },
        )
    }
}

/// Brings the stream up to the present. The position, if one is handed in,
/// is handed back untouched.
pub fn execute_update_stream(env: &Env, stream: Stream, position: Option<Position>) -> (r: Result<
    Response,
    ContractError,
>)
    ensures
        result_view(r) == update_stream_op(env.now as nat, stream@, opt_position_view(position)),
{
    let mut stream = stream;
    if stream.is_cancelled() {
        return Err(ContractError::StreamIsCancelled);
    }
    stream.update_status(env.now);
    match update_stream(env.now, &mut stream) {
        Ok(_) => {},
        Err(e) => {
            return Err(e);
        },
    }
    let messages: Vec<Msg> = Vec::new();
    assert(msg_views(messages@) =~= Seq::<MsgView>::empty());
    Ok(Response { stream, position, messages, vesting_address: None })
}

/// What bringing a position up to date on request does.
pub open spec fn update_position_op(
    now: nat,
    sender: Seq<char>,
    s: StreamView,
    p: Option<PositionView>,
) -> Result<ResponseView, ContractError> {
    let present = at_present(s, now);
    if p is None {
        Err(ContractError::NotFound)
    } else if !has_access(sender, p->0.owner, p->0.operator) {
        Err(ContractError::Unauthorized)
    } else if s.status == Status::Cancelled {
        Err(ContractError::StreamIsCancelled)
    } else if !advance_fits(with_status(s, now), now) || !sync_fits(
        p->0,
        present.dist_index,
        present.shares,
        present.in_supply,
    ) {
        Err(ContractError::ArithmeticOverflow)
    } else {
        Ok(
            ResponseView {
                stream: present,
                position: Some(
                    sync(
                        p->0,
                        present.dist_index,
                        present.shares,
                        present.last_updated,
                        present.in_supply,
                    ),
                ),
                messages: Seq::empty(),
                vesting_address: None,
            },
        )
    }
}

/// Brings the stream up to the present and the position up to date with it.
pub fn execute_update_position(
    env: &Env,
    info: &MessageInfo,
    stream: Stream,
    position: Option<Position>,
) -> (r: Result<Response, ContractError>)
    ensures
        result_view(r) == update_position_op(
            env.now as nat,
            info.sender@,
            stream@,
            opt_position_view(position),
        ),
{
    let mut stream = stream;
    let mut held = match position {
        Some(p) => p,
        None => {
            return Err(ContractError::NotFound);
        },
    };
    match check_access(&info.sender, &held.owner, &held.operator) {
        Ok(_) => {},
        Err(e) => {
            return Err(e);
        },
    }
    if stream.is_cancelled() {
        return Err(ContractError::StreamIsCancelled);
    }
    stream.update_status(env.now);
    match update_stream(env.now, &mut stream) {
        Ok(_) => {},
        Err(e) => {
            return Err(e);
        },
    }
    match update_position(
        stream.dist_index,
        stream.shares,
        stream.last_updated,
        stream.in_supply,
        &mut held,
    ) {
        Ok(_) => {},
        Err(e) => {
            return Err(e);
        },
    }
    let messages: Vec<Msg> = Vec::new();
    assert(msg_views(messages@) =~= Seq::<MsgView>::empty());
    Ok(Response { stream, position: Some(held), messages, vesting_address: None })
}

/// What naming an operator does: only the owner may, and only the operator
/// changes.
pub open spec fn update_operator_op(
    sender: Seq<char>,
    new_operator: Option<Seq<char>>,
    s: StreamView,
    p: Option<PositionView>,
) -> Result<ResponseView, ContractError> {
    if p is None {
        Err(ContractError::NotFound)
    } else if p->0.owner != sender {
        Err(ContractError::Unauthorized)
    } else {
        Ok(
            ResponseView {
                stream: s,
                position: Some(PositionView { operator: new_operator, ..p->0 }),
                messages: Seq::empty(),
                vesting_address: None,
            },
        )
    }
}

/// Names, or with no name removes, the operator of the sender's position.
pub fn execute_update_operator(
    info: &MessageInfo,
    new_operator: Option<String>,
    stream: Stream,
    position: Option<Position>,
) -> (r: Result<Response, ContractError>)
    ensures
        result_view(r) == update_operator_op(
            info.sender@,
            opt_view(new_operator),
            stream@,
            opt_position_view(position),
        ),
{
    let mut held = match position {
        Some(p) => p,
        None => {
            return Err(ContractError::NotFound);
        },
    };
    if held.owner != info.sender {
        return Err(ContractError::Unauthorized);
    }
    held.operator = new_operator;
    let messages: Vec<Msg> = Vec::new();
    assert(msg_views(messages@) =~= Seq::<MsgView>::empty());
    Ok(Response { stream, position: Some(held), messages, vesting_address: None })
}

/// The amount that a withdrawal takes: the cap, or the whole balance.
pub open spec fn withdraw_amount(cap: Option<u128>, q: PositionView) -> nat {
    match cap {
        Some(amount) => amount as nat,
        None => q.in_balance,
    }
}

/// Shares that a withdrawal burns: all of the position's when the whole
/// balance leaves, else those that stand for the amount, rounded up.
pub open spec fn withdraw_burn(amount: nat, present: StreamView, q: PositionView) -> nat {
    if amount == q.in_balance {
        q.shares
    } else {
        compute_shares(present, amount, true)
    }
}

/// What a withdrawal does.
///
/// Stream and position are brought up to the present; the amount leaves the
/// position's balance and the stream's unspent input, and the shares that
/// stood for it are burnt; the amount is sent to the target.
pub open spec fn withdraw(
    now: nat,
    sender: Seq<char>,
    cap: Option<u128>,
    operator_target: Option<Seq<char>>,
    s: StreamView,
    p: Option<PositionView>,
) -> Result<ResponseView, ContractError> {
    let present = at_present(s, now);
    if status_at(s, now) != Status::Bootstrapping && status_at(s, now) != Status::Active {
        Err(ContractError::StreamNotStarted)
    } else if p is None {
        Err(ContractError::NotFound)
    } else if !has_access(sender, p->0.owner, p->0.operator) {
        Err(ContractError::Unauthorized)
    } else if !advance_fits(with_status(s, now), now) || !sync_fits(
        p->0,
        present.dist_index,
        present.shares,
        present.in_supply,
    ) {
        Err(ContractError::ArithmeticOverflow)
    } else {
        let q = sync(
            p->0,
            present.dist_index,
            present.shares,
            present.last_updated,
            present.in_supply,
        );
        let amount = withdraw_amount(cap, q);
        let burn = withdraw_burn(amount, present, q);
        if amount > q.in_balance {
            Err(ContractError::WithdrawAmountExceedsBalance(amount as u128))
        } else if amount == 0 {
            Err(ContractError::InvalidWithdrawAmount)
        } else if (amount != q.in_balance && !shares_fit(present, amount)) || amount
            > present.in_supply || burn > present.shares || burn > q.shares {
            Err(ContractError::ArithmeticOverflow)
        } else {
            Ok(
                ResponseView {
                    stream: StreamView {
                        in_supply: (present.in_supply - amount) as nat,
                        shares: (present.shares - burn) as nat,
                        ..present
                    },
                    position: Some(
                        PositionView {
                            in_balance: (q.in_balance - amount) as nat,
                            shares: (q.shares - burn) as nat,
                            ..q
                        },
                    ),
                    messages: seq![
                        MsgView::Send {
                            to_address: target_of(operator_target, sender),
                            denom: s.in_denom,
                            amount: amount,
                        },
                    ],
                    vesting_address: None,
                },
            )
        }
    }
}

/// Takes unspent input out of a position and sends it to the target.
pub fn execute_withdraw(
    env: &Env,
    info: &MessageInfo,
    cap: Option<u128>,
    operator_target: Option<String>,
    stream: Stream,
    position: Option<Position>,
) -> (r: Result<Response, ContractError>)
    ensures
        result_view(r) == withdraw(
            env.now as nat,
            info.sender@,
            cap,
            opt_view(operator_target),
            stream@,
            opt_position_view(position),
        ),
{
    let mut stream = stream;
    stream.update_status(env.now);
    if !(stream.is_active() || stream.is_bootstrapping()) {
        return Err(ContractError::StreamNotStarted);
    }
    let mut held = match position {
        Some(p) => p,
        None => {
            return Err(ContractError::NotFound);
        },
    };
    match check_access(&info.sender, &held.owner, &held.operator) {
        Ok(_) => {},
        Err(e) => {
            return Err(e);
        },
    }
    match update_stream(env.now, &mut stream) {
        Ok(_) => {},
        Err(e) => {
            return Err(e);
        },
    }
    match update_position(
        stream.dist_index,
        stream.shares,
        stream.last_updated,
        stream.in_supply,
        &mut held,
    ) {
        Ok(_) => {},
        Err(e) => {
            return Err(e);
        },
    }
    let amount = match cap {
        Some(a) => a,
        None => held.in_balance,
    };
    if amount > held.in_balance {
        return Err(ContractError::WithdrawAmountExceedsBalance(amount));
    }
    if amount == 0 {
        return Err(ContractError::InvalidWithdrawAmount);
    }
    let burn = if amount == held.in_balance {
        held.shares
    } else {
        match stream.compute_shares_amount(amount, true) {
            Ok(v) => v,
            Err(e) => {
                return Err(e);
            },
        }
    };
    if amount > stream.in_supply || burn > stream.shares || burn > held.shares {
        return Err(ContractError::ArithmeticOverflow);
    }
    stream.in_supply = stream.in_supply - amount;
    stream.shares = stream.shares - burn;
    held.in_balance = held.in_balance - amount;
    held.shares = held.shares - burn;
    let to_address = crate::msg::resolve_target(&operator_target, &info.sender);
    let mut messages: Vec<Msg> = Vec::new();
    messages.push(Msg::Send { to_address, denom: stream.in_denom.clone(), amount });
    assert(msg_views(messages@) =~= seq![
        MsgView::Send {
            to_address: target_of(opt_view(operator_target), info.sender@),
            denom: stream@.in_denom,
            amount: amount as nat,
        },
    ]);
    Ok(Response { stream, position: Some(held), messages, vesting_address: None })
}

/// Why a stream cannot be created, if it cannot: the times are out of
/// order or the start has passed, both sides trade the same denomination,
/// nothing is offered, or name and url cannot be shown.
pub open spec fn instantiate_check(now: nat, msg: CreateStreamMsg) -> Option<ContractError> {
    if msg.end_time <= msg.start_time {
        Some(ContractError::InvalidEndTime)
    } else if now > msg.start_time || msg.bootstraping_start_time > msg.start_time {
        Some(ContractError::InvalidStartTime)
    } else if msg.in_denom@ == msg.out_asset.denom@ {
        Some(ContractError::SameDenomOnEachSide)
    } else if msg.out_asset.amount == 0 {
        Some(ContractError::ZeroOutSupply)
    } else if !name_and_url_ok(msg.name@, opt_view(msg.url)) {
        Some(ContractError::InvalidNameOrUrl)
    } else {
        None
    }
}

/// The stream that is created from a message: the whole supply remaining,
/// nothing deposited, waiting, with its clock at the start.
pub open spec fn created(msg: CreateStreamMsg) -> StreamView {
    StreamView {
        name: msg.name@,
        treasury: msg.treasury@,
        stream_admin: msg.stream_admin@,
        url: opt_view(msg.url),
        dist_index: 0,
        last_updated: msg.start_time as nat,
        out_denom: msg.out_asset.denom@,
        out_supply: msg.out_asset.amount as nat,
        out_remaining: msg.out_asset.amount as nat,
        in_denom: msg.in_denom@,
        in_supply: 0,
        spent_in: 0,
        shares: 0,
        bootstrapping_start_time: msg.bootstraping_start_time as nat,
        start_time: msg.start_time as nat,
        end_time: msg.end_time as nat,
        current_streamed_price: 0,
        status: Status::Waiting,
        create_pool: msg.create_pool,
        vesting: msg.vesting,
        threshold: match msg.threshold {
            Some(t) => Some(t as nat),
            None => None,
        },
    }
}

/// Creates a stream after checking what it is created from.
pub fn instantiate(env: &Env, msg: CreateStreamMsg) -> (r: Result<Stream, ContractError>)
    ensures
        match r {
            Ok(stream) => instantiate_check(env.now as nat, msg) is None && stream@ == created(msg)
                && stream@.wf(),
            Err(e) => instantiate_check(env.now as nat, msg) == Some(e),
        },
{
    if msg.end_time <= msg.start_time {
        return Err(ContractError::InvalidEndTime);
    }
    if env.now > msg.start_time || msg.bootstraping_start_time > msg.start_time {
        return Err(ContractError::InvalidStartTime);
    }
    if msg.in_denom == msg.out_asset.denom {
        return Err(ContractError::SameDenomOnEachSide);
    }
    if msg.out_asset.amount == 0 {
        return Err(ContractError::ZeroOutSupply);
    }
    check_name_and_url(&msg.name, &msg.url)?;
    Ok(
        Stream::new(
            msg.name,
            msg.treasury,
            msg.stream_admin,
            msg.url,
            msg.out_asset,
            msg.in_denom,
            msg.bootstraping_start_time,
            msg.start_time,
            msg.end_time,
            msg.start_time,
            msg.create_pool,
            msg.vesting,
            msg.threshold,
        ),
    )
}

/// The address whose position an operation reads and writes, if it touches
/// one at all.
pub open spec fn position_key_of(msg: ExecuteMsg, sender: Seq<char>) -> Option<Seq<char>> {
    match msg {
        ExecuteMsg::UpdateOperator { .. } => Some(sender),
        ExecuteMsg::UpdatePosition { operator_target } => Some(
            target_of(opt_view(operator_target), sender),
        ),
        ExecuteMsg::Subscribe { operator_target, .. } => Some(
            target_of(opt_view(operator_target), sender),
        ),
        ExecuteMsg::Withdraw { operator_target, .. } => Some(
            target_of(opt_view(operator_target), sender),
        ),
        ExecuteMsg::ExitStream { operator_target, .. } => Some(
            target_of(opt_view(operator_target), sender),
        ),
        ExecuteMsg::ExitCancelled { operator_target } => Some(
            target_of(opt_view(operator_target), sender),
        ),
        _ => None,
    }
}

/// The address whose position is to be loaded before the operation runs
/// and stored, or removed, after it.
pub fn position_key(msg: &ExecuteMsg, sender: &String) -> (key: Option<String>)
    ensures
        opt_view(key) == position_key_of(*msg, sender@),
{
    match msg {
        ExecuteMsg::UpdateOperator { .. } => Some(sender.clone()),
        ExecuteMsg::UpdatePosition { operator_target } => Some(
            resolve_target(operator_target, sender),
        ),
        ExecuteMsg::Subscribe { operator_target, .. } => Some(
            resolve_target(operator_target, sender),
        ),
        ExecuteMsg::Withdraw { operator_target, .. } => Some(
            resolve_target(operator_target, sender),
        ),
        ExecuteMsg::ExitStream { operator_target, .. } => Some(
            resolve_target(operator_target, sender),
        ),
        ExecuteMsg::ExitCancelled { operator_target } => Some(
            resolve_target(operator_target, sender),
        ),
        _ => None,
    }
}

/// What an operation does to the stream and to the position it was handed.
pub open spec fn executed(
    now: nat,
    sender: Seq<char>,
    funds: Seq<Coin>,
    msg: ExecuteMsg,
    params: Params,
    host: HostInfo,
    s: StreamView,
    p: Option<PositionView>,
) -> Result<ResponseView, ContractError> {
    match msg {
        ExecuteMsg::UpdateOperator { new_operator } => update_operator_op(
            sender,
            opt_view(new_operator),
            s,
            p,
        ),
        ExecuteMsg::UpdatePosition { operator_target } => update_position_op(now, sender, s, p),
        ExecuteMsg::UpdateStream => update_stream_op(now, s, p),
        ExecuteMsg::Subscribe { operator_target, operator } => subscribe(
            now,
            sender,
            funds,
            opt_view(operator),
            opt_view(operator_target),
            s,
            p,
        ),
        ExecuteMsg::Withdraw { cap, operator_target } => withdraw(
            now,
            sender,
            cap,
            opt_view(operator_target),
            s,
            p,
        ),
        ExecuteMsg::FinalizeStream { new_treasury } => finalize(
            now,
            sender,
            opt_view(new_treasury),
            params.exit_fee_percent@,
            params.fee_collector@,
            host.num_pools as nat,
            s,
            p,
        ),
        ExecuteMsg::ExitStream { operator_target, salt } => exit_stream(
            now,
            sender,
            opt_view(operator_target),
            opt_bytes_view(salt),
            params.vesting_code_id as nat,
            host.vesting_checksum@,
            host.creator@,
            s,
            p,
        ),
        ExecuteMsg::CancelStream => cancel(now, sender, s, p),
        ExecuteMsg::ExitCancelled { operator_target } => exit_cancelled(
            sender,
            opt_view(operator_target),
            s,
            p,
        ),
        ExecuteMsg::CancelStreamWithThreshold => cancel_with_threshold(now, sender, s, p),
    }
}

/// Carries out one operation on the stream and on the position that
/// [`position_key`] names, and hands back both as they are to be stored,
/// with the messages for the host.
pub fn execute(
    env: &Env,
    info: &MessageInfo,
    msg: ExecuteMsg,
    params: &Params,
    host: &HostInfo,
    stream: Stream,
    position: Option<Position>,
) -> (r: Result<Response, ContractError>)
    ensures
        result_view(r) == executed(
            env.now as nat,
            info.sender@,
            info.funds@,
            msg,
            *params,
            *host,
            stream@,
            opt_position_view(position),
        ),
{
    match msg {
        ExecuteMsg::UpdateOperator { new_operator } => execute_update_operator(
            info,
            new_operator,
            stream,
            position,
        ),
        ExecuteMsg::UpdatePosition { operator_target } => execute_update_position(
            env,
            info,
            stream,
            position,
        ),
        ExecuteMsg::UpdateStream => execute_update_stream(env, stream, position),
        ExecuteMsg::Subscribe { operator_target, operator } => execute_subscribe(
            env,
            info,
            operator,
            operator_target,
            stream,
            position,
        ),
        ExecuteMsg::Withdraw { cap, operator_target } => execute_withdraw(
            env,
            info,
            cap,
            operator_target,
            stream,
            position,
        ),
        ExecuteMsg::FinalizeStream { new_treasury } => execute_finalize_stream(
            env,
            info,
            new_treasury,
            params,
            host,
            stream,
            position,
        ),
        ExecuteMsg::ExitStream { operator_target, salt } => execute_exit_stream(
            env,
            info,
            operator_target,
            salt,
            params,
            host,
            stream,
            position,
        ),
        ExecuteMsg::CancelStream => execute_cancel_stream(env, info, stream, position),
        ExecuteMsg::ExitCancelled { operator_target } => execute_exit_cancelled(
            info,
            operator_target,
            stream,
            position,
        ),
        ExecuteMsg::CancelStreamWithThreshold => execute_cancel_stream_with_threshold(
            env,
            info,
            stream,
            position,
        ),
    }
}

} // verus!
