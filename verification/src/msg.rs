use crate::state::{
    opt_view, Coin, CreatePool, PoolMsg, Position, PositionView, Stream, StreamView, Vesting,
};
use vstd::prelude::*;

verus! {

/// Time of the block in which an operation runs.
#[derive(Clone, Copy, Debug, PartialEq, Eq)]
pub struct Env {
    pub now: u64,
}

/// Who sent an operation, and what was paid with it.
#[derive(Debug, PartialEq, Eq)]
pub struct MessageInfo {
    pub sender: String,
    pub funds: Vec<Coin>,
}

/// What a stream is created from.
#[derive(Debug, PartialEq, Eq)]
pub struct CreateStreamMsg {
    pub bootstraping_start_time: u64,
    pub start_time: u64,
    pub end_time: u64,
    pub treasury: String,
    pub name: String,
    pub url: Option<String>,
    pub threshold: Option<u128>,
    pub out_asset: Coin,
    pub in_denom: String,
    pub stream_admin: String,
    pub create_pool: Option<CreatePool>,
    pub vesting: Option<Vesting>,
}

/// The operations of a stream.
#[derive(Debug, PartialEq, Eq)]
pub enum ExecuteMsg {
    /// Names, or removes, the operator of the sender's position.
    UpdateOperator { new_operator: Option<String> },
    /// Brings a position up to date.
    UpdatePosition { operator_target: Option<String> },
    /// Advances the stream to the present.
    UpdateStream,
    /// Deposits the payment into a position.
    Subscribe { operator_target: Option<String>, operator: Option<String> },
    /// Takes unspent input out of a position; all of it without a cap.
    Withdraw { cap: Option<u128>, operator_target: Option<String> },
    /// Settles an ended stream.
    FinalizeStream { new_treasury: Option<String> },
    /// Closes a position of an ended stream and pays out what it purchased.
    ExitStream { operator_target: Option<String>, salt: Option<Vec<u8>> },
    /// Aborts the stream.
    CancelStream,
    /// Closes a position of a cancelled stream and returns its input.
    ExitCancelled { operator_target: Option<String> },
    /// Aborts an ended stream that missed its threshold.
    CancelStreamWithThreshold,
}

/// An instruction to the host that an operation hands back.
#[derive(Debug, PartialEq, Eq)]
pub enum Msg {
    /// Transfer `amount` of `denom` to `to_address`.
    Send { to_address: String, denom: String, amount: u128 },
    /// Create the liquidity pool.
    CreatePool { msg: PoolMsg },
    /// Open the first position in the pool just created, over the full range
    /// of ticks and without minimum amounts.
    CreatePosition {
        pool_id: u64,
        sender: String,
        in_denom: String,
        in_amount: u128,
        out_denom: String,
        out_amount: u128,
    },
    /// Instantiate a vesting contract at the address that the salt fixes,
    /// funded with `total` of `denom`.
    InstantiateVesting {
        code_id: u64,
        salt: Vec<u8>,
        recipient: String,
        start_time: u64,
        total: u128,
        denom: String,
        vesting: Vesting,
    },
}

/// Mathematical model of a [`Msg`].
pub enum MsgView {
    Send { to_address: Seq<char>, denom: Seq<char>, amount: nat },
    CreatePool { msg: PoolMsg },
    CreatePosition {
        pool_id: nat,
        sender: Seq<char>,
        in_denom: Seq<char>,
        in_amount: nat,
        out_denom: Seq<char>,
        out_amount: nat,
    },
    InstantiateVesting {
        code_id: nat,
        salt: Seq<u8>,
        recipient: Seq<char>,
        start_time: nat,
        total: nat,
        denom: Seq<char>,
        vesting: Vesting,
    },
}

impl View for Msg {
    type V = MsgView;

    open spec fn view(&self) -> MsgView {
        match *self {
            Msg::Send { to_address, denom, amount } => MsgView::Send {
                to_address: to_address@,
                denom: denom@,
                amount: amount as nat,
            },
            Msg::CreatePool { msg } => MsgView::CreatePool { msg: msg },
            Msg::CreatePosition {
                pool_id,
                sender,
                in_denom,
                in_amount,
                out_denom,
                out_amount,
            } => MsgView::CreatePosition {
                pool_id: pool_id as nat,
                sender: sender@,
                in_denom: in_denom@,
                in_amount: in_amount as nat,
                out_denom: out_denom@,
                out_amount: out_amount as nat,
            },
            Msg::InstantiateVesting {
                code_id,
                salt,
                recipient,
                start_time,
                total,
                denom,
                vesting,
            } => MsgView::InstantiateVesting {
                code_id: code_id as nat,
                salt: salt@,
                recipient: recipient@,
                start_time: start_time as nat,
                total: total as nat,
                denom: denom@,
                vesting: vesting,
            },
        }
    }
}

/// The models of a list of messages, in order.
pub open spec fn msg_views(msgs: Seq<Msg>) -> Seq<MsgView> {
    msgs.map_values(|m: Msg| m@)
}

/// The model of an optional position.
pub open spec fn opt_position_view(p: Option<Position>) -> Option<PositionView> {
    match p {
        Some(position) => Some(position@),
        None => None,
    }
}

/// The model of optional bytes.
pub open spec fn opt_bytes_view(b: Option<Vec<u8>>) -> Option<Seq<u8>> {
    match b {
        Some(bytes) => Some(bytes@),
        None => None,
    }
}

/// What an operation leaves behind: the stream and the position to store
/// (no position where it is to be removed or there is none), the messages
/// for the host, and the address of the vesting contract if one is asked for.
#[derive(Debug, PartialEq, Eq)]
pub struct Response {
    pub stream: Stream,
    pub position: Option<Position>,
    pub messages: Vec<Msg>,
    pub vesting_address: Option<Vec<u8>>,
}

/// Mathematical model of a [`Response`].
pub struct ResponseView {
    pub stream: StreamView,
    pub position: Option<PositionView>,
    pub messages: Seq<MsgView>,
    pub vesting_address: Option<Seq<u8>>,
}

impl View for Response {
    type V = ResponseView;

    open spec fn view(&self) -> ResponseView {
        ResponseView {
            stream: self.stream@,
            position: opt_position_view(self.position),
            messages: msg_views(self.messages@),
            vesting_address: opt_bytes_view(self.vesting_address),
        }
    }
}

/// The model of the result of an operation.
pub open spec fn result_view<E>(r: Result<Response, E>) -> Result<ResponseView, E> {
    match r {
        Ok(response) => Ok(response@),
        Err(e) => Err(e),
    }
}

/// The address that an operation acts on: the one named, else the sender's.
pub open spec fn target_of(operator_target: Option<Seq<char>>, sender: Seq<char>) -> Seq<char> {
    match operator_target {
        Some(target) => target,
        None => sender,
    }
}

/// The address that an operation acts on: the one named, else the sender's.
pub fn resolve_target(operator_target: &Option<String>, sender: &String) -> (target: String)
    ensures
        target@ == target_of(opt_view(*operator_target), sender@),
{
    match operator_target {
        Some(target) => target.clone(),
        None => sender.clone(),
    }
}

} // verus!
