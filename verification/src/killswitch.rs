use crate::contract::{at_present, with_status};
use crate::error::ContractError;
use crate::msg::{
    msg_views, opt_position_view, resolve_target, result_view, target_of, Env, MessageInfo, Msg,
    MsgView, Response, ResponseView,
};
use crate::position::{check_access, has_access, sync, sync_fits, update_position};
use crate::state::{opt_view, Position, PositionView, Status, Stream, StreamView};
use crate::stream::{advance_fits, status_at, threshold_met, update_stream};
use vstd::prelude::*;

verus! {

/// `Unauthorized` unless the sender is the admin.
pub fn is_authorized(sender: &String, admin: &String) -> (r: Result<(), ContractError>)
    ensures
        r == (if sender@ == admin@ {
            Ok::<(), ContractError>(())
        } else {
            Err::<(), ContractError>(ContractError::Unauthorized)
        }),
{
    if *sender != *admin {
        return Err(ContractError::Unauthorized);
    }
    Ok(())
}

/// Marks the stream cancelled.
pub fn cancel_stream(stream: &mut Stream)
    ensures
        final(stream)@ == (StreamView { status: Status::Cancelled, ..old(stream)@ }),
{
    stream.status = Status::Cancelled;
}

/// Refund of the whole output supply to the treasury.
pub open spec fn supply_refund(s: StreamView) -> Seq<MsgView> {
    seq![MsgView::Send { to_address: s.treasury, denom: s.out_denom, amount: s.out_supply }]
}

/// What the admin's cancellation does: a stream that is waiting,
/// bootstrapping or active is marked cancelled as it stands, and the whole
/// output supply goes back to the treasury.
pub open spec fn cancel(now: nat, sender: Seq<char>, s: StreamView, p: Option<PositionView>) -> Result<
    ResponseView,
    ContractError,
> {
    if sender != s.stream_admin {
        Err(ContractError::Unauthorized)
    } else if s.status == Status::Cancelled {
        Err(ContractError::StreamIsCancelled)
    } else if s.status == Status::Finalized {
        Err(ContractError::StreamAlreadyFinalized)
    } else if status_at(s, now) == Status::Ended {
        Err(ContractError::StreamEnded)
    } else {
        Ok(
            ResponseView {
                stream: StreamView { status: Status::Cancelled, ..s },
                position: p,
                messages: supply_refund(s),
                vesting_address: None,
            },
        )
    }
}

fn refund_supply(stream: &Stream) -> (messages: Vec<Msg>)
    ensures
        msg_views(messages@) == supply_refund(stream@),
{
    let mut messages: Vec<Msg> = Vec::new();
    messages.push(
        Msg::Send {
            to_address: stream.treasury.clone(),
            denom: stream.out_asset.denom.clone(),
            amount: stream.out_asset.amount,
        },
    );
    assert(msg_views(messages@) =~= supply_refund(stream@));
    messages
}

/// Aborts a stream that has not ended. The position, if one is handed in,
/// is handed back untouched.
pub fn execute_cancel_stream(
    env: &Env,
    info: &MessageInfo,
    stream: Stream,
    position: Option<Position>,
) -> (r: Result<Response, ContractError>)
    ensures
        result_view(r) == cancel(env.now as nat, info.sender@, stream@, opt_position_view(position)),
{
    let mut stream = stream;
    is_authorized(&info.sender, &stream.stream_admin)?;
    if stream.is_cancelled() {
        return Err(ContractError::StreamIsCancelled);
    }
    if stream.is_finalized() {
        return Err(ContractError::StreamAlreadyFinalized);
    }
    stream.update_status(env.now);
    if stream.is_ended() {
        return Err(ContractError::StreamEnded);
    }
    let messages = refund_supply(&stream);
    cancel_stream(&mut stream);
    Ok(Response { stream, position, messages, vesting_address: None })
}

/// What the cancellation of a failed sale does: a stream that has ended
/// below its threshold is advanced to its end and marked cancelled, and the
/// whole output supply goes back to the treasury.
pub open spec fn cancel_with_threshold(
    now: nat,
    sender: Seq<char>,
    s: StreamView,
    p: Option<PositionView>,
) -> Result<ResponseView, ContractError> {
    let present = at_present(s, now);
    if s.status == Status::Cancelled {
        Err(ContractError::StreamIsCancelled)
    } else if s.status == Status::Finalized {
        Err(ContractError::StreamAlreadyFinalized)
    } else if sender != s.stream_admin {
        Err(ContractError::Unauthorized)
    } else if status_at(s, now) != Status::Ended {
        Err(ContractError::StreamNotEnded)
    } else if !advance_fits(with_status(s, now), now) {
        Err(ContractError::ArithmeticOverflow)
    } else if threshold_met(present) {
        Err(ContractError::ThresholdReached)
    } else {
        Ok(
            ResponseView {
                stream: StreamView { status: Status::Cancelled, ..present },
                position: p,
                messages: supply_refund(s),
                vesting_address: None,
            },
        )
    }
}

/// Aborts an ended stream that missed its threshold. The position, if one
/// is handed in, is handed back untouched.
pub fn execute_cancel_stream_with_threshold(
    env: &Env,
    info: &MessageInfo,
    stream: Stream,
    position: Option<Position>,
) -> (r: Result<Response, ContractError>)
    ensures
        result_view(r) == cancel_with_threshold(
            env.now as nat,
            info.sender@,
            stream@,
            opt_position_view(position),
        ),
{
    let mut stream = stream;
    if stream.is_cancelled() {
        return Err(ContractError::StreamIsCancelled);
    }
    if stream.is_finalized() {
        return Err(ContractError::StreamAlreadyFinalized);
    }
    is_authorized(&info.sender, &stream.stream_admin)?;
    stream.update_status(env.now);
    if !stream.is_ended() {
        return Err(ContractError::StreamNotEnded);
    }
    update_stream(env.now, &mut stream)?;
    if stream.is_threshold_met() {
        return Err(ContractError::ThresholdReached);
    }
    let messages = refund_supply(&stream);
    cancel_stream(&mut stream);
    Ok(Response { stream, position, messages, vesting_address: None })
}

/// What leaving a cancelled stream does: the position is brought up to date
/// with the stream as it was cancelled, its shares leave the stream, it is
/// removed, and all the input it ever held, spent or not, goes back to the
/// target.
pub open spec fn exit_cancelled(
    sender: Seq<char>,
    operator_target: Option<Seq<char>>,
    s: StreamView,
    p: Option<PositionView>,
) -> Result<ResponseView, ContractError> {
    if s.status != Status::Cancelled {
        Err(ContractError::StreamNotCancelled)
    } else if p is None {
        Err(ContractError::NotFound)
    } else if !has_access(sender, p->0.owner, p->0.operator) {
        Err(ContractError::Unauthorized)
    } else if !sync_fits(p->0, s.dist_index, s.shares, s.in_supply) {
        Err(ContractError::ArithmeticOverflow)
    } else {
        let q = sync(p->0, s.dist_index, s.shares, s.last_updated, s.in_supply);
        if q.in_balance + q.spent > u128::MAX || q.shares > s.shares {
            Err(ContractError::ArithmeticOverflow)
        } else {
            Ok(
                ResponseView {
                    stream: StreamView { shares: (s.shares - q.shares) as nat, ..s },
                    position: None,
                    messages: seq![
                        MsgView::Send {
                            to_address: target_of(operator_target, sender),
                            denom: s.in_denom,
                            amount: q.in_balance + q.spent,
                        },
                    ],
                    vesting_address: None,
                },
            )
        }
    }
}

/// Closes a position of a cancelled stream and returns its input.
pub fn execute_exit_cancelled(
    info: &MessageInfo,
    operator_target: Option<String>,
    stream: Stream,
    position: Option<Position>,
) -> (r: Result<Response, ContractError>)
    ensures
        result_view(r) == exit_cancelled(
            info.sender@,
            opt_view(operator_target),
            stream@,
            opt_position_view(position),
        ),
{
    let mut stream = stream;
    if !stream.is_cancelled() {
        return Err(ContractError::StreamNotCancelled);
    }
    let mut held = match position {
        Some(p) => p,
        None => {
            return Err(ContractError::NotFound);
        },
    };
    check_access(&info.sender, &held.owner, &held.operator)?;
    match update_position(
        stream.dist_index,
        stream.shares,
        stream.last_updated,
        stream.in_supply,
        &mut held,
    ) {
        Ok(_) => {},
        Err(e) => {
            return Err(e);
        },
    }
    let total_balance = match held.in_balance.checked_add(held.spent) {
        Some(v) => v,
        None => {
            return Err(ContractError::ArithmeticOverflow);
        },
    };
    if held.shares > stream.shares {
        return Err(ContractError::ArithmeticOverflow);
    }
    stream.shares = stream.shares - held.shares;
    let to_address = resolve_target(&operator_target, &info.sender);
    let mut messages: Vec<Msg> = Vec::new();
    messages.push(Msg::Send { to_address, denom: stream.in_denom.clone(), amount: total_balance });
    assert(msg_views(messages@) =~= seq![
        MsgView::Send {
            to_address: target_of(opt_view(operator_target), info.sender@),
            denom: stream@.in_denom,
            amount: total_balance as nat,
        },
    ]);
    Ok(Response { stream, position: None, messages, vesting_address: None })
}

} // verus!
