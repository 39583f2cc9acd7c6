use crate::decimal::{decimal_fractional, uint256_limit, Decimal256};
use crate::error::ContractError;
use crate::state::{Position, PositionView};
use crate::stream::lemma_whole_times_decimal;
use vstd::arithmetic::div_mod::{lemma_div_is_ordered, lemma_fundamental_div_mod};
use vstd::prelude::*;

verus! {

/// Output that a position has earned since it was last brought up to date,
/// with what it carried over, in atomic units of a decimal.
pub open spec fn earned(p: PositionView, dist_index: nat) -> nat {
    (p.shares * (dist_index - p.index) + p.pending_purchase) as nat
}

/// Input that a position's shares still stand for.
pub open spec fn in_remaining(p: PositionView, shares: nat, in_supply: nat) -> nat {
    (in_supply * p.shares) / shares
}

/// The position brought up to date with a stream that shows the given index,
/// shares, clock and unspent input.
///
/// The whole units earned are credited, the fraction is carried over; the
/// balance falls to what the shares still stand for and the difference counts
/// as spent. While nobody holds shares only index and clock are taken over.
pub open spec fn sync(
    p: PositionView,
    dist_index: nat,
    shares: nat,
    last_updated: nat,
    in_supply: nat,
) -> PositionView {
    if shares == 0 {
        PositionView { index: dist_index, last_updated: last_updated, ..p }
    } else {
        PositionView {
            index: dist_index,
            last_updated: last_updated,
            purchased: p.purchased + earned(p, dist_index) / decimal_fractional(),
            pending_purchase: earned(p, dist_index) % decimal_fractional(),
            spent: (p.spent + p.in_balance - in_remaining(p, shares, in_supply)) as nat,
            in_balance: in_remaining(p, shares, in_supply),
            ..p
        }
    }
}

/// Output credited by [`sync`], in whole units.
pub open spec fn sync_purchased(p: PositionView, dist_index: nat, shares: nat) -> nat {
    if shares == 0 {
        0
    } else {
        earned(p, dist_index) / decimal_fractional()
    }
}

/// Input debited by [`sync`].
pub open spec fn sync_spent(p: PositionView, shares: nat, in_supply: nat) -> nat {
    if shares == 0 {
        0
    } else {
        (p.in_balance - in_remaining(p, shares, in_supply)) as nat
    }
}

/// Whether [`sync`] can be carried out: the index has not gone back, the
/// shares stand for no more than the balance, and every quantity stays
/// within its type.
pub open spec fn sync_fits(p: PositionView, dist_index: nat, shares: nat, in_supply: nat) -> bool {
    &&& p.index <= dist_index
    &&& shares != 0 ==> {
        &&& p.purchased + earned(p, dist_index) / decimal_fractional() <= u128::MAX
        &&& in_supply * p.shares <= u128::MAX
        &&& in_remaining(p, shares, in_supply) <= p.in_balance
        &&& p.spent + p.in_balance - in_remaining(p, shares, in_supply) <= u128::MAX
    }
}

/// Whether `sender` may act on a position: as its owner or as its operator.
pub open spec fn has_access(
    sender: Seq<char>,
    owner: Seq<char>,
    operator: Option<Seq<char>>,
) -> bool {
    sender == owner || operator == Some(sender)
}

/// `Unauthorized` unless the sender owns the position or operates it.
pub fn check_access(sender: &String, position_owner: &String, position_operator: &Option<String>) -> (r:
    Result<(), ContractError>)
    ensures
        r == (if has_access(
            sender@,
            position_owner@,
            crate::state::opt_view(*position_operator),
        ) {
            Ok::<(), ContractError>(())
        } else {
            Err::<(), ContractError>(ContractError::Unauthorized)
        }),
{
    if *position_owner == *sender {
        return Ok(());
    }
    match position_operator {
        Some(operator) => {
            if *operator == *sender {
                Ok(())
            } else {
                Err(ContractError::Unauthorized)
            }
        },
        None => Err(ContractError::Unauthorized),
    }
}

proof fn lemma_beyond_256_bits(x: nat)
    requires
        x >= uint256_limit(),
    ensures
        x / decimal_fractional() > u128::MAX,
{
    lemma_div_is_ordered(uint256_limit() as int, x as int, decimal_fractional() as int);
}

/// Brings a position up to date with its stream and returns the output
/// credited and the input debited. Where that cannot be carried out the
/// position stays as it is.
pub fn update_position(
    stream_dist_index: Decimal256,
    stream_shares: u128,
    stream_last_updated: u64,
    stream_in_supply: u128,
    position: &mut Position,
) -> (r: Result<(u128, u128), ContractError>)
    ensures
        sync_fits(old(position)@, stream_dist_index@, stream_shares as nat, stream_in_supply as nat)
            ==> final(position)@ == sync(
            old(position)@,
            stream_dist_index@,
            stream_shares as nat,
            stream_last_updated as nat,
            stream_in_supply as nat,
        ) && r == Ok::<(u128, u128), ContractError>(
            (
                sync_purchased(old(position)@, stream_dist_index@, stream_shares as nat) as u128,
                sync_spent(old(position)@, stream_shares as nat, stream_in_supply as nat) as u128,
            ),
        ),
        !sync_fits(
            old(position)@,
            stream_dist_index@,
            stream_shares as nat,
            stream_in_supply as nat,
        ) ==> r == Err::<(u128, u128), ContractError>(ContractError::ArithmeticOverflow)
            && *final(position) == *old(position),
{
    let index_diff = match stream_dist_index.checked_sub(position.index) {
        Ok(v) => v,
        Err(e) => {
            return Err(e);
        },
    };
    if stream_shares == 0 {
        position.index = stream_dist_index;
        position.last_updated = stream_last_updated;
        return Ok((0, 0));
    }
    let ghost p = position@;
    let ghost hp = earned(p, stream_dist_index@);
    proof {
        lemma_whole_times_decimal(position.shares as nat, index_diff@);
        if p.shares * index_diff@ >= uint256_limit() {
            lemma_beyond_256_bits(hp);
        }
        if hp >= uint256_limit() {
            lemma_beyond_256_bits(hp);
        }
        lemma_fundamental_div_mod(hp as int, decimal_fractional() as int);
    }
    let by_shares = match Decimal256::from_integer(position.shares).checked_mul(index_diff) {
        Ok(v) => v,
        Err(e) => {
            return Err(e);
        },
    };
    let purchased = match by_shares.checked_add(position.pending_purchase) {
        Ok(v) => v,
        Err(e) => {
            return Err(e);
        },
    };
    let whole = match purchased.to_uint_floor() {
        Ok(v) => v,
        Err(e) => {
            return Err(e);
        },
    };
    let fraction = match purchased.checked_sub(Decimal256::from_integer(whole)) {
        Ok(v) => v,
        Err(e) => {
            return Err(e);
        },
    };
    let in_remaining = match stream_in_supply.checked_mul(position.shares) {
        Some(v) => v / stream_shares,
        None => {
            return Err(ContractError::ArithmeticOverflow);
        },
    };
    let spent = match position.in_balance.checked_sub(in_remaining) {
        Some(v) => v,
        None => {
            return Err(ContractError::ArithmeticOverflow);
        },
    };
    let total_spent = match position.spent.checked_add(spent) {
        Some(v) => v,
        None => {
            return Err(ContractError::ArithmeticOverflow);
        },
    };
    let total_purchased = match position.purchased.checked_add(whole) {
        Some(v) => v,
        None => {
            return Err(ContractError::ArithmeticOverflow);
        },
    };
    position.spent = total_spent;
    position.in_balance = in_remaining;
    position.pending_purchase = fraction;
    position.purchased = total_purchased;
    position.index = stream_dist_index;
    position.last_updated = stream_last_updated;
    Ok((whole, spent))
}

} // verus!
