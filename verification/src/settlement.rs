use crate::address::{derivable, instantiate2_address_bytes, vesting_address};
use crate::contract::{at_present, with_status};
use crate::decimal::{decimal_fractional, multiply_ratio, ratio_floor};
use crate::error::ContractError;
use crate::msg::{
    msg_views, opt_bytes_view, opt_position_view, resolve_target, result_view, target_of, Env,
    MessageInfo, Msg, MsgView, Response, ResponseView,
};
use crate::position::{check_access, has_access, sync, sync_fits, update_position};
use crate::state::{opt_view, Params, Position, PositionView, Status, Stream, StreamView};
use crate::stream::{advance_fits, mul_floor, status_at, threshold_met, update_stream};
use vstd::prelude::*;

verus! {

/// Facts that only the host knows and that settlement needs.
#[derive(Debug, PartialEq, Eq)]
pub struct HostInfo {
    /// Number of liquidity pools that exist.
    pub num_pools: u64,
    /// Checksum of the vesting contract's code.
    pub vesting_checksum: Vec<u8>,
    /// Canonical address of the stream itself.
    pub creator: Vec<u8>,
}

/// The protocol's share of the spent input: the exit fee, rounded down.
pub open spec fn swap_fee(spent_in: nat, exit_fee_percent: nat) -> nat {
    (spent_in * exit_fee_percent) / decimal_fractional()
}

/// Input that seeds the pool: the part of the spent input that corresponds
/// to the part of the output supply set aside for the pool, rounded down.
pub open spec fn pool_input(s: StreamView) -> nat {
    ratio_floor(s.spent_in, s.create_pool->0.out_amount_clp as nat, s.out_supply)
}

/// Whether settlement seeds a pool.
pub open spec fn seeds_pool(s: StreamView) -> bool {
    s.spent_in != 0 && s.create_pool is Some
}

/// Revenue to the treasury and fee to the collector, unless nothing was spent.
pub open spec fn revenue_messages(
    treasury: Seq<char>,
    fee_collector: Seq<char>,
    fee: nat,
    s: StreamView,
) -> Seq<MsgView> {
    if s.spent_in != 0 {
        seq![
            MsgView::Send {
                to_address: treasury,
                denom: s.in_denom,
                amount: (s.spent_in - fee) as nat,
            },
            MsgView::Send { to_address: fee_collector, denom: s.in_denom, amount: fee },
        ]
    } else {
        Seq::empty()
    }
}

/// Refund of the undistributed output, if any is left.
pub open spec fn refund_messages(treasury: Seq<char>, s: StreamView) -> Seq<MsgView> {
    if s.out_remaining > 0 {
        seq![MsgView::Send { to_address: treasury, denom: s.out_denom, amount: s.out_remaining }]
    } else {
        Seq::empty()
    }
}

/// Creation of the pool and of its first position, if asked for.
pub open spec fn pool_messages(treasury: Seq<char>, num_pools: nat, s: StreamView) -> Seq<
    MsgView,
> {
    if seeds_pool(s) {
        seq![
            MsgView::CreatePool { msg: s.create_pool->0.msg_create_pool },
            MsgView::CreatePosition {
                pool_id: num_pools + 1,
                sender: treasury,
                in_denom: s.in_denom,
                in_amount: pool_input(s),
                out_denom: s.out_denom,
                out_amount: s.create_pool->0.out_amount_clp as nat,
            },
        ]
    } else {
        Seq::empty()
    }
}

/// What settlement does.
///
/// Only the treasury may settle, and only a stream that has ended and has
/// met its threshold. The stream is advanced to its end and marked
/// finalized. The spent input goes to the treasury, less the exit fee, which
/// goes to the fee collector; output that nobody bought goes back to the
/// treasury; a pool is seeded if one was asked for. A stream on which nothing
/// was spent only refunds.
pub open spec fn finalize(
    now: nat,
    sender: Seq<char>,
    new_treasury: Option<Seq<char>>,
    exit_fee_percent: nat,
    fee_collector: Seq<char>,
    num_pools: nat,
    s: StreamView,
    p: Option<PositionView>,
) -> Result<ResponseView, ContractError> {
    let present = at_present(s, now);
    let fee = swap_fee(present.spent_in, exit_fee_percent);
    let treasury = target_of(new_treasury, s.treasury);
    if s.status == Status::Finalized {
        Err(ContractError::StreamAlreadyFinalized)
    } else if s.status == Status::Cancelled {
        Err(ContractError::StreamKillswitchActive)
    } else if s.treasury != sender {
        Err(ContractError::Unauthorized)
    } else if status_at(s, now) != Status::Ended {
        Err(ContractError::StreamNotEnded)
    } else if !advance_fits(with_status(s, now), now) {
        Err(ContractError::ArithmeticOverflow)
    } else if !threshold_met(present) {
        Err(ContractError::ThresholdNotReached)
    } else if fee > present.spent_in {
        Err(ContractError::ArithmeticOverflow)
    } else if seeds_pool(present) && present.out_supply == 0 {
        Err(ContractError::DivisionByZero)
    } else if seeds_pool(present) && (pool_input(present) > u128::MAX || num_pools + 1
        > u64::MAX) {
        Err(ContractError::ArithmeticOverflow)
    } else {
        Ok(
            ResponseView {
                stream: StreamView { status: Status::Finalized, ..present },
                position: p,
                messages: revenue_messages(treasury, fee_collector, fee, present)
                    + refund_messages(treasury, present) + pool_messages(
                    treasury,
                    num_pools,
                    present,
                ),
                vesting_address: None,
            },
        )
    }
}

/// Settles an ended stream. The position, if one is handed in, is handed
/// back untouched.
pub fn execute_finalize_stream(
    env: &Env,
    info: &MessageInfo,
    new_treasury: Option<String>,
    params: &Params,
    host: &HostInfo,
    stream: Stream,
    position: Option<Position>,
) -> (r: Result<Response, ContractError>)
    ensures
        result_view(r) == finalize(
            env.now as nat,
            info.sender@,
            opt_view(new_treasury),
            params.exit_fee_percent@,
            params.fee_collector@,
            host.num_pools as nat,
            stream@,
            opt_position_view(position),
        ),
{
    let mut stream = stream;
    if stream.is_finalized() {
        return Err(ContractError::StreamAlreadyFinalized);
    }
    if stream.is_cancelled() {
        return Err(ContractError::StreamKillswitchActive);
    }
    if stream.treasury != info.sender {
        return Err(ContractError::Unauthorized);
    }
    stream.update_status(env.now);
    if !stream.is_ended() {
        return Err(ContractError::StreamNotEnded);
    }
    update_stream(env.now, &mut stream)?;
    if !stream.is_threshold_met() {
        return Err(ContractError::ThresholdNotReached);
    }
    let ghost present = stream@;
    let fee = match mul_floor(stream.spent_in, params.exit_fee_percent) {
        Ok(v) => v,
        Err(e) => {
            return Err(e);
        },
    };
    if fee > stream.spent_in {
        return Err(ContractError::ArithmeticOverflow);
    }
    let revenue = stream.spent_in - fee;
    let treasury = resolve_target(&new_treasury, &stream.treasury);
    let mut messages: Vec<Msg> = Vec::new();
    if stream.spent_in != 0 {
        messages.push(
            Msg::Send {
                to_address: treasury.clone(),
                denom: stream.in_denom.clone(),
                amount: revenue,
            },
        );
        messages.push(
            Msg::Send {
                to_address: params.fee_collector.clone(),
                denom: stream.in_denom.clone(),
                amount: fee,
            },
        );
    }
    if stream.out_remaining > 0 {
        messages.push(
            Msg::Send {
                to_address: treasury.clone(),
                denom: stream.out_asset.denom.clone(),
                amount: stream.out_remaining,
            },
        );
    }
    if stream.spent_in != 0 {
        match &stream.create_pool {
            Some(pool) => {
                let in_clp = multiply_ratio(
                    stream.spent_in,
                    pool.out_amount_clp,
                    stream.out_asset.amount,
                )?;
                if host.num_pools == u64::MAX {
                    return Err(ContractError::ArithmeticOverflow);
                }
                messages.push(Msg::CreatePool { msg: pool.msg_create_pool.clone() });
                messages.push(
                    Msg::CreatePosition {
                        pool_id: host.num_pools + 1,
                        sender: treasury,
                        in_denom: stream.in_denom.clone(),
                        in_amount: in_clp,
                        out_denom: stream.out_asset.denom.clone(),
                        out_amount: pool.out_amount_clp,
                    },
                );
            },
            None => {},
        }
    }
    stream.status = Status::Finalized;
    assert(msg_views(messages@) =~= revenue_messages(
        target_of(opt_view(new_treasury), present.treasury),
        params.fee_collector@,
        fee as nat,
        present,
    ) + refund_messages(target_of(opt_view(new_treasury), present.treasury), present)
        + pool_messages(
        target_of(opt_view(new_treasury), present.treasury),
        host.num_pools as nat,
        present,
    ));
    Ok(Response { stream, position, messages, vesting_address: None })
}

/// Payout of what the position purchased: into a vesting contract where the
/// stream vests, else straight to the target.
pub open spec fn payout_messages(
    target: Seq<char>,
    salt: Option<Seq<u8>>,
    code_id: nat,
    s: StreamView,
    q: PositionView,
) -> Seq<MsgView> {
    if s.vesting is Some {
        seq![
            MsgView::InstantiateVesting {
                code_id: code_id,
                salt: salt->0,
                recipient: target,
                start_time: s.end_time,
                total: q.purchased,
                denom: s.out_denom,
                vesting: s.vesting->0,
            },
        ]
    } else {
        seq![MsgView::Send { to_address: target, denom: s.out_denom, amount: q.purchased }]
    }
}

/// Return of input that was never spent, if the position holds any.
pub open spec fn dust_messages(target: Seq<char>, s: StreamView, q: PositionView) -> Seq<MsgView> {
    if q.in_balance > 0 {
        seq![MsgView::Send { to_address: target, denom: s.in_denom, amount: q.in_balance }]
    } else {
        Seq::empty()
    }
}

/// What closing a position does once stream and position are up to date and
/// the vesting address, if one is needed, has been derived: the position's
/// shares leave the stream, the position is removed, and what it purchased
/// and what it did not spend are paid out. A stream that vests needs a salt.
pub open spec fn settled_exit(
    target: Seq<char>,
    salt: Option<Seq<u8>>,
    code_id: nat,
    address: Option<Seq<u8>>,
    s: StreamView,
    q: PositionView,
) -> Result<ResponseView, ContractError> {
    if q.shares > s.shares {
        Err(ContractError::ArithmeticOverflow)
    } else if s.vesting is Some && salt is None {
        Err(ContractError::InvalidSalt)
    } else {
        Ok(
            ResponseView {
                stream: StreamView { shares: (s.shares - q.shares) as nat, ..s },
                position: None,
                messages: payout_messages(target, salt, code_id, s, q) + dust_messages(
                    target,
                    s,
                    q,
                ),
                vesting_address: if s.vesting is Some {
                    address
                } else {
                    None
                },
            },
        )
    }
}

/// Closes a position that is up to date with its stream.
pub fn settle_exit(
    target: String,
    salt: Option<Vec<u8>>,
    code_id: u64,
    address: Option<Vec<u8>>,
    stream: Stream,
    position: Position,
) -> (r: Result<Response, ContractError>)
    ensures
        result_view(r) == settled_exit(
            target@,
            opt_bytes_view(salt),
            code_id as nat,
            opt_bytes_view(address),
            stream@,
            position@,
        ),
{
    let mut stream = stream;
    if position.shares > stream.shares {
        return Err(ContractError::ArithmeticOverflow);
    }
    let ghost s = stream@;
    let mut messages: Vec<Msg> = Vec::new();
    let recorded = match &stream.vesting {
        Some(vesting) => {
            let salt = match salt {
                Some(bytes) => bytes,
                None => {
                    return Err(ContractError::InvalidSalt);
                },
            };
            messages.push(
                Msg::InstantiateVesting {
                    code_id,
                    salt,
                    recipient: target.clone(),
                    start_time: stream.end_time,
                    total: position.purchased,
                    denom: stream.out_asset.denom.clone(),
                    vesting: vesting.clone(),
                },
            );
            address
        },
        None => {
            messages.push(
                Msg::Send {
                    to_address: target.clone(),
                    denom: stream.out_asset.denom.clone(),
                    amount: position.purchased,
                },
            );
            None
        },
    };
    if position.in_balance > 0 {
        messages.push(
            Msg::Send {
                to_address: target,
                denom: stream.in_denom.clone(),
                amount: position.in_balance,
            },
        );
    }
    stream.shares = stream.shares - position.shares;
    assert(msg_views(messages@) =~= payout_messages(
        target@,
        opt_bytes_view(salt),
        code_id as nat,
        s,
        position@,
    ) + dust_messages(target@, s, position@));
    Ok(Response { stream, position: None, messages, vesting_address: recorded })
}

/// What an exit does.
///
/// Anybody with access to a position may close it once the stream has ended
/// and met its threshold. Stream and position are brought up to the present
/// and the position is settled; where the stream vests, the address of the
/// vesting contract is derived from the salt.
pub open spec fn exit_stream(
    now: nat,
    sender: Seq<char>,
    operator_target: Option<Seq<char>>,
    salt: Option<Seq<u8>>,
    code_id: nat,
    checksum: Seq<u8>,
    creator: Seq<u8>,
    s: StreamView,
    p: Option<PositionView>,
) -> Result<ResponseView, ContractError> {
    let present = at_present(s, now);
    if s.status == Status::Cancelled {
        Err(ContractError::StreamKillswitchActive)
    } else if status_at(s, now) != Status::Ended && status_at(s, now) != Status::Finalized {
        Err(ContractError::StreamNotEnded)
    } else if !advance_fits(with_status(s, now), now) {
        Err(ContractError::ArithmeticOverflow)
    } else if !threshold_met(present) {
        Err(ContractError::ThresholdNotReached)
    } else if p is None {
        Err(ContractError::NotFound)
    } else if !has_access(sender, p->0.owner, p->0.operator) {
        Err(ContractError::Unauthorized)
    } else if !sync_fits(p->0, present.dist_index, present.shares, present.in_supply) {
        Err(ContractError::ArithmeticOverflow)
    } else if present.vesting is Some && salt is Some && !derivable(checksum, salt->0) {
        Err(ContractError::InvalidSalt)
    } else {
        settled_exit(
            target_of(operator_target, sender),
            salt,
            code_id,
            if present.vesting is Some && salt is Some {
                Some(instantiate2_address_bytes(checksum, creator, salt->0))
            } else {
                None
            },
            present,
            sync(
                p->0,
                present.dist_index,
                present.shares,
                present.last_updated,
                present.in_supply,
            ),
        )
    }
}

/// Closes a position of an ended stream and pays out what it purchased.
pub fn execute_exit_stream(
    env: &Env,
    info: &MessageInfo,
    operator_target: Option<String>,
    salt: Option<Vec<u8>>,
    params: &Params,
    host: &HostInfo,
    stream: Stream,
    position: Option<Position>,
) -> (r: Result<Response, ContractError>)
    ensures
        result_view(r) == exit_stream(
            env.now as nat,
            info.sender@,
            opt_view(operator_target),
            opt_bytes_view(salt),
            params.vesting_code_id as nat,
            host.vesting_checksum@,
            host.creator@,
            stream@,
            opt_position_view(position),
        ),
{
    let mut stream = stream;
    if stream.is_cancelled() {
        return Err(ContractError::StreamKillswitchActive);
    }
    stream.update_status(env.now);
    if !(stream.is_ended() || stream.is_finalized()) {
        return Err(ContractError::StreamNotEnded);
    }
    update_stream(env.now, &mut stream)?;
    if !stream.is_threshold_met() {
        return Err(ContractError::ThresholdNotReached);
    }
    let mut held = match position {
        Some(p) => p,
        None => {
            return Err(ContractError::NotFound);
        },
    };
    check_access(&info.sender, &held.owner, &held.operator)?;
    match update_position(
        stream.dist_index,
        stream.shares,
        stream.last_updated,
        stream.in_supply,
        &mut held,
    ) {
        Ok(_) => {},
        Err(e) => {
            return Err(e);
        },
    }
    let address = match (&stream.vesting, &salt) {
        (Some(_), Some(bytes)) => Some(
            vesting_address(&host.vesting_checksum, &host.creator, bytes)?,
        ),
        _ => None,
    };
    let target = resolve_target(&operator_target, &info.sender);
    settle_exit(target, salt, params.vesting_code_id, address, stream, held)
}

} // verus!
