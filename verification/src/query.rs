use crate::decimal::{decimal_fractional, Decimal256};
use crate::error::ContractError;
use crate::state::{Params, Position, Stream};
use vstd::prelude::*;

verus! {

/// Most positions that one page lists.
pub const MAX_LIMIT: u32 = 30;

/// The parameters that the factory fixed.
pub fn query_params(params: &Params) -> (r: Params)
    ensures
        r == *params,
{
    params.clone()
}

/// The stream as it is stored.
pub fn query_stream(stream: &Stream) -> (r: Stream)
    ensures
        r == *stream,
{
    stream.clone()
}

/// The position as it is stored, or `NotFound`.
pub fn query_position(position: &Option<Position>) -> (r: Result<Position, ContractError>)
    ensures
        r == (match *position {
            Some(p) => Ok::<Position, ContractError>(p),
            None => Err::<Position, ContractError>(ContractError::NotFound),
        }),
{
    match position {
        Some(p) => Ok(p.clone()),
        None => Err(ContractError::NotFound),
    }
}

/// Number of positions on a page: what was asked for, but no more than
/// [`MAX_LIMIT`], which is also what no limit means.
pub open spec fn page_size(limit: Option<u32>) -> nat {
    match limit {
        Some(n) => if n < MAX_LIMIT {
            n as nat
        } else {
            MAX_LIMIT as nat
        },
        None => MAX_LIMIT as nat,
    }
}

/// The first page of the positions handed in, which come in the order of
/// their owners, after the one to start after.
pub fn list_positions(positions: Vec<Position>, limit: Option<u32>) -> (page: Vec<Position>)
    ensures
        page@ == (if positions@.len() <= page_size(limit) {
            positions@
        } else {
            positions@.subrange(0, page_size(limit) as int)
        }),
{
    let size = match limit {
        Some(n) => if n < MAX_LIMIT {
            n
        } else {
            MAX_LIMIT
        },
        None => MAX_LIMIT,
    };
    let mut page = positions;
    if page.len() > size as usize {
        page.truncate(size as usize);
    }
    page
}

/// Input spent per unit of output distributed, over the whole sale so far;
/// `DivisionByZero` while nothing has been distributed.
pub fn query_average_price(stream: &Stream) -> (r: Result<Decimal256, ContractError>)
    ensures
        stream.out_remaining > stream.out_asset.amount ==> r == Err::<Decimal256, ContractError>(
            ContractError::ArithmeticOverflow,
        ),
        stream.out_remaining == stream.out_asset.amount ==> r == Err::<Decimal256, ContractError>(
            ContractError::DivisionByZero,
        ),
        stream.out_remaining < stream.out_asset.amount ==> r is Ok && r->Ok_0@ == (
        stream.spent_in as nat * decimal_fractional()) / ((stream.out_asset.amount
            - stream.out_remaining) as nat),
{
    let total_purchased = match stream.out_asset.amount.checked_sub(stream.out_remaining) {
        Some(v) => v,
        None => {
            return Err(ContractError::ArithmeticOverflow);
        },
    };
    Decimal256::checked_from_ratio(stream.spent_in, total_purchased)
}

/// Input spent per unit of output in the latest distribution step.
pub fn query_last_streamed_price(stream: &Stream) -> (r: Decimal256)
    ensures
        r == stream.current_streamed_price,
{
    stream.current_streamed_price
}

/// The threshold of the stream, if it has one.
pub fn query_threshold_state(stream: &Stream) -> (r: Option<u128>)
    ensures
        r == stream.threshold,
{
    stream.threshold
}

/// The questions that a stream answers.
#[derive(Debug, PartialEq, Eq)]
pub enum QueryMsg {
    Params,
    Stream,
    Position,
    ListPositions { limit: Option<u32> },
    AveragePrice,
    LastStreamedPrice,
    Threshold,
}

/// The answers, one kind for each question.
#[derive(Debug, PartialEq, Eq)]
pub enum QueryResponse {
    Params(Params),
    Stream(Stream),
    Position(Position),
    Positions(Vec<Position>),
    AveragePrice(Decimal256),
    LastStreamedPrice(Decimal256),
    Threshold(Option<u128>),
}

/// Answers a question from what is stored: the parameters, the stream, the
/// position asked about if there is one, and the positions that follow the
/// one to start after.
pub fn query(
    msg: QueryMsg,
    params: &Params,
    stream: &Stream,
    position: &Option<Position>,
    positions: Vec<Position>,
) -> (r: Result<QueryResponse, ContractError>)
    ensures
        match msg {
            QueryMsg::Params => r == Ok::<QueryResponse, ContractError>(
                QueryResponse::Params(*params),
            ),
            QueryMsg::Stream => r == Ok::<QueryResponse, ContractError>(
                QueryResponse::Stream(*stream),
            ),
            QueryMsg::Position => r == (match *position {
                Some(p) => Ok::<QueryResponse, ContractError>(QueryResponse::Position(p)),
                None => Err::<QueryResponse, ContractError>(ContractError::NotFound),
            }),
            QueryMsg::ListPositions { limit } => r is Ok && r->Ok_0 is Positions
                && r->Ok_0->Positions_0@ == (if positions@.len() <= page_size(limit) {
                positions@
            } else {
                positions@.subrange(0, page_size(limit) as int)
            }),
            QueryMsg::AveragePrice => {
                &&& stream.out_remaining > stream.out_asset.amount ==> r == Err::<
                    QueryResponse,
                    ContractError,
                >(ContractError::ArithmeticOverflow)
                &&& stream.out_remaining == stream.out_asset.amount ==> r == Err::<
                    QueryResponse,
                    ContractError,
                >(ContractError::DivisionByZero)
                &&& stream.out_remaining < stream.out_asset.amount ==> r is Ok && r->Ok_0
                    is AveragePrice && r->Ok_0->AveragePrice_0@ == (stream.spent_in as nat
                    * decimal_fractional()) / ((stream.out_asset.amount
                    - stream.out_remaining) as nat)
            },
            QueryMsg::LastStreamedPrice => r == Ok::<QueryResponse, ContractError>(
                QueryResponse::LastStreamedPrice(stream.current_streamed_price),
            ),
            QueryMsg::Threshold => r == Ok::<QueryResponse, ContractError>(
                QueryResponse::Threshold(stream.threshold),
            ),
        },
{
    match msg {
        QueryMsg::Params => Ok(QueryResponse::Params(query_params(params))),
        QueryMsg::Stream => Ok(QueryResponse::Stream(query_stream(stream))),
        QueryMsg::Position => match query_position(position) {
            Ok(p) => Ok(QueryResponse::Position(p)),
            Err(e) => Err(e),
        },
        QueryMsg::ListPositions { limit } => Ok(
            QueryResponse::Positions(list_positions(positions, limit)),
        ),
        QueryMsg::AveragePrice => match query_average_price(stream) {
            Ok(price) => Ok(QueryResponse::AveragePrice(price)),
            Err(e) => Err(e),
        },
        QueryMsg::LastStreamedPrice => Ok(
            QueryResponse::LastStreamedPrice(query_last_streamed_price(stream)),
        ),
        QueryMsg::Threshold => Ok(QueryResponse::Threshold(query_threshold_state(stream))),
    }
}

} // verus!
