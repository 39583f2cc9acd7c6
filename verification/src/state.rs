use crate::decimal::{decimal_fractional, Decimal256};
use vstd::prelude::*;

verus! {

/// Phase of a stream's life.
#[derive(Clone, Copy, Debug, PartialEq, Eq, Structural)]
pub enum Status {
    /// Created; positions cannot be opened yet.
    Waiting,
    /// Positions can be opened, nothing is distributed yet.
    Bootstrapping,
    /// The output is being distributed.
    Active,
    /// The window has passed; the stream awaits settlement.
    Ended,
    /// The creator has settled the stream.
    Finalized,
    /// The stream was aborted; subscribers take their input back.
    Cancelled,
}

/// An amount of one denomination.
#[derive(Debug, PartialEq, Eq)]
pub struct Coin {
    pub denom: String,
    pub amount: u128,
}

impl Clone for Coin {
    fn clone(&self) -> (r: Self)
        ensures
            r == *self,
    {
        Coin { denom: self.denom.clone(), amount: self.amount }
    }
}

/// The host's message that opens a concentrated-liquidity pool. The stream
/// carries it through without reading it.
#[derive(Debug, PartialEq, Eq)]
pub struct PoolMsg {
    pub sender: String,
    pub denom0: String,
    pub denom1: String,
    pub tick_spacing: u64,
    pub spread_factor: String,
}

impl Clone for PoolMsg {
    fn clone(&self) -> (r: Self)
        ensures
            r == *self,
    {
        PoolMsg {
            sender: self.sender.clone(),
            denom0: self.denom0.clone(),
            denom1: self.denom1.clone(),
            tick_spacing: self.tick_spacing,
            spread_factor: self.spread_factor.clone(),
        }
    }
}

/// Pool seeding asked for at creation.
#[derive(Debug, PartialEq, Eq)]
pub struct CreatePool {
    /// Amount of the output asset that goes into the pool.
    pub out_amount_clp: u128,
    /// Message that creates the pool.
    pub msg_create_pool: PoolMsg,
}

impl Clone for CreatePool {
    fn clone(&self) -> (r: Self)
        ensures
            r == *self,
    {
        CreatePool {
            out_amount_clp: self.out_amount_clp,
            msg_create_pool: self.msg_create_pool.clone(),
        }
    }
}

/// Terms under which purchased output is released to a subscriber who exits.
/// Recipient, start and total are filled in at exit.
#[derive(Debug, PartialEq, Eq)]
pub struct Vesting {
    pub title: String,
    pub vesting_duration_seconds: u64,
    pub unbonding_duration_seconds: u64,
}

impl Clone for Vesting {
    fn clone(&self) -> (r: Self)
        ensures
            r == *self,
    {
        Vesting {
            title: self.title.clone(),
            vesting_duration_seconds: self.vesting_duration_seconds,
            unbonding_duration_seconds: self.unbonding_duration_seconds,
        }
    }
}

/// Parameters that the factory fixed when the stream was created.
#[derive(Debug, PartialEq, Eq)]
pub struct Params {
    /// Share of the spent input that the protocol keeps.
    pub exit_fee_percent: Decimal256,
    /// Address that receives the protocol's share.
    pub fee_collector: String,
    /// Code of the vesting contract instantiated at exit.
    pub vesting_code_id: u64,
}

impl Clone for Params {
    fn clone(&self) -> (r: Self)
        ensures
            r == *self,
    {
        Params {
            exit_fee_percent: self.exit_fee_percent,
            fee_collector: self.fee_collector.clone(),
            vesting_code_id: self.vesting_code_id,
        }
    }
}

/// A copy of an optional string.
pub fn clone_opt_string(s: &Option<String>) -> (r: Option<String>)
    ensures
        r == *s,
{
    match s {
        Some(text) => Some(text.clone()),
        None => None,
    }
}

/// The view of an optional string.
pub open spec fn opt_view(s: Option<String>) -> Option<Seq<char>> {
    match s {
        Some(text) => Some(text@),
        None => None,
    }
}

/// One sale: a fixed supply of the output asset, offered over a time window
/// against a pool of the input asset.
#[derive(Debug, PartialEq, Eq)]
pub struct Stream {
    /// Display name.
    pub name: String,
    /// Destination of the creator's revenue.
    pub treasury: String,
    /// Address that may cancel the stream.
    pub stream_admin: String,
    /// Where to read more about the stream.
    pub url: Option<String>,
    /// Output released per share since the start, cumulative.
    pub dist_index: Decimal256,
    /// Time up to which the distribution has been computed.
    pub last_updated: u64,
    /// Denomination and initial supply of the output asset.
    pub out_asset: Coin,
    /// Output not yet distributed.
    pub out_remaining: u128,
    /// Denomination that subscribers pay in.
    pub in_denom: String,
    /// Input held by the positions and not yet spent.
    pub in_supply: u128,
    /// Input consumed by the distribution so far.
    pub spent_in: u128,
    /// Shares outstanding.
    pub shares: u128,
    /// Time from which positions can be opened.
    pub bootstrapping_start_time: u64,
    /// Time at which the distribution starts.
    pub start_time: u64,
    /// Time at which the distribution ends.
    pub end_time: u64,
    /// Input spent per unit of output in the latest distribution step.
    pub current_streamed_price: Decimal256,
    /// Phase of the stream's life.
    pub status: Status,
    /// Pool seeding at settlement, if any.
    pub create_pool: Option<CreatePool>,
    /// Vesting of purchased output at exit, if any.
    pub vesting: Option<Vesting>,
    /// Least amount of spent input for the sale to succeed, if any.
    pub threshold: Option<u128>,
}

/// Mathematical model of a [`Stream`]: quantities are natural numbers,
/// decimals their atomic units, texts sequences of characters.
pub struct StreamView {
    pub name: Seq<char>,
    pub treasury: Seq<char>,
    pub stream_admin: Seq<char>,
    pub url: Option<Seq<char>>,
    pub dist_index: nat,
    pub last_updated: nat,
    pub out_denom: Seq<char>,
    pub out_supply: nat,
    pub out_remaining: nat,
    pub in_denom: Seq<char>,
    pub in_supply: nat,
    pub spent_in: nat,
    pub shares: nat,
    pub bootstrapping_start_time: nat,
    pub start_time: nat,
    pub end_time: nat,
    pub current_streamed_price: nat,
    pub status: Status,
    pub create_pool: Option<CreatePool>,
    pub vesting: Option<Vesting>,
    pub threshold: Option<nat>,
}

impl View for Stream {
    type V = StreamView;

    open spec fn view(&self) -> StreamView {
        StreamView {
            name: self.name@,
            treasury: self.treasury@,
            stream_admin: self.stream_admin@,
            url: opt_view(self.url),
            dist_index: self.dist_index@,
            last_updated: self.last_updated as nat,
            out_denom: self.out_asset.denom@,
            out_supply: self.out_asset.amount as nat,
            out_remaining: self.out_remaining as nat,
            in_denom: self.in_denom@,
            in_supply: self.in_supply as nat,
            spent_in: self.spent_in as nat,
            shares: self.shares as nat,
            bootstrapping_start_time: self.bootstrapping_start_time as nat,
            start_time: self.start_time as nat,
            end_time: self.end_time as nat,
            current_streamed_price: self.current_streamed_price@,
            status: self.status,
            create_pool: self.create_pool,
            vesting: self.vesting,
            threshold: match self.threshold {
                Some(t) => Some(t as nat),
                None => None,
            },
        }
    }
}

impl Clone for Stream {
    fn clone(&self) -> (r: Self)
        ensures
            r == *self,
    {
        Stream {
            name: self.name.clone(),
            treasury: self.treasury.clone(),
            stream_admin: self.stream_admin.clone(),
            url: clone_opt_string(&self.url),
            dist_index: self.dist_index,
            last_updated: self.last_updated,
            out_asset: self.out_asset.clone(),
            out_remaining: self.out_remaining,
            in_denom: self.in_denom.clone(),
            in_supply: self.in_supply,
            spent_in: self.spent_in,
            shares: self.shares,
            bootstrapping_start_time: self.bootstrapping_start_time,
            start_time: self.start_time,
            end_time: self.end_time,
            current_streamed_price: self.current_streamed_price,
            status: self.status,
            create_pool: match &self.create_pool {
                Some(pool) => Some(pool.clone()),
                None => None,
            },
            vesting: match &self.vesting {
                Some(vesting) => Some(vesting.clone()),
                None => None,
            },
            threshold: self.threshold,
        }
    }
}

impl StreamView {
    /// What holds of every stream that was created and then only advanced,
    /// subscribed to and withdrawn from: the three times are in order, the
    /// clock stands inside the window, and no more output has been credited
    /// through the index than has left the remaining supply.
    pub open spec fn wf(self) -> bool {
        &&& self.bootstrapping_start_time <= self.start_time < self.end_time
        &&& self.start_time <= self.last_updated <= self.end_time
        &&& 0 < self.out_supply
        &&& self.out_remaining <= self.out_supply
        &&& self.dist_index <= (self.out_supply - self.out_remaining) * decimal_fractional()
    }
}

/// One subscriber's stake in a stream.
#[derive(Debug, PartialEq, Eq)]
pub struct Position {
    /// Address that opened the position.
    pub owner: String,
    /// Input deposited and not yet spent.
    pub in_balance: u128,
    /// Shares of the pool.
    pub shares: u128,
    /// The stream's index when the position was last brought up to date.
    pub index: Decimal256,
    /// The stream's clock when the position was last brought up to date.
    pub last_updated: u64,
    /// Output credited so far, in whole units.
    pub purchased: u128,
    /// Fraction of a unit of output carried to the next update.
    pub pending_purchase: Decimal256,
    /// Input spent so far.
    pub spent: u128,
    /// Address that may act for the owner, if any.
    pub operator: Option<String>,
}

/// Mathematical model of a [`Position`].
pub struct PositionView {
    pub owner: Seq<char>,
    pub in_balance: nat,
    pub shares: nat,
    pub index: nat,
    pub last_updated: nat,
    pub purchased: nat,
    pub pending_purchase: nat,
    pub spent: nat,
    pub operator: Option<Seq<char>>,
}

impl PositionView {
    /// What holds of every position that was opened by a subscription: it
    /// carries less than one unit of output.
    pub open spec fn wf(self) -> bool {
        self.pending_purchase < decimal_fractional()
    }
}

impl View for Position {
    type V = PositionView;

    open spec fn view(&self) -> PositionView {
        PositionView {
            owner: self.owner@,
            in_balance: self.in_balance as nat,
            shares: self.shares as nat,
            index: self.index@,
            last_updated: self.last_updated as nat,
            purchased: self.purchased as nat,
            pending_purchase: self.pending_purchase@,
            spent: self.spent as nat,
            operator: opt_view(self.operator),
        }
    }
}

impl Clone for Position {
    fn clone(&self) -> (r: Self)
        ensures
            r == *self,
    {
        Position {
            owner: self.owner.clone(),
            in_balance: self.in_balance,
            shares: self.shares,
            index: self.index,
            last_updated: self.last_updated,
            purchased: self.purchased,
            pending_purchase: self.pending_purchase,
            spent: self.spent,
            operator: clone_opt_string(&self.operator),
        }
    }
}

impl Position {
    /// A fresh position: nothing purchased, nothing spent, nothing pending.
    /// Without an index it starts at index zero.
    pub fn new(
        owner: String,
        in_balance: u128,
        shares: u128,
        index: Option<Decimal256>,
        last_updated: u64,
        operator: Option<String>,
    ) -> (p: Position)
        ensures
            p@ == (PositionView {
                owner: owner@,
                in_balance: in_balance as nat,
                shares: shares as nat,
                index: match index {
                    Some(i) => i@,
                    None => 0,
                },
                last_updated: last_updated as nat,
                purchased: 0,
                pending_purchase: 0,
                spent: 0,
                operator: opt_view(operator),
            }),
    {
        let start = match index {
            Some(i) => i,
            None => Decimal256::zero(),
        };
        Position {
            owner,
            in_balance,
            shares,
            index: start,
            last_updated,
            purchased: 0,
            pending_purchase: Decimal256::zero(),
            spent: 0,
            operator,
        }
    }
}

} // verus!
