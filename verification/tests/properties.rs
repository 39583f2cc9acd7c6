use streamswap::decimal::Decimal256;
use streamswap::error::ContractError;
use streamswap::position::update_position;
use streamswap::query::{
    list_positions, query, query_average_price, query_last_streamed_price, query_params,
    query_position, query_stream, query_threshold_state, QueryMsg, QueryResponse,
};
use streamswap::state::{Coin, Params, Position, Status, Stream};
use streamswap::stream::update_stream;

fn stream(out: u128, start: u64, end: u64) -> Stream {
    Stream::new(
        "sale".to_string(),
        "treasury".to_string(),
        "admin".to_string(),
        None,
        Coin { denom: "out".to_string(), amount: out },
        "in".to_string(),
        0,
        start,
        end,
        start,
        None,
        None,
        None,
    )
}

fn funded(out: u128, start: u64, end: u64, deposit: u128) -> Stream {
    let mut s = stream(out, start, end);
    s.in_supply = deposit;
    s.shares = deposit;
    s
}

fn position(owner: &str, amount: u128, shares: u128, index: Decimal256) -> Position {
    Position::new(owner.to_string(), amount, shares, Some(index), 0, None)
}

fn sync(s: &Stream, p: &mut Position) -> Result<(u128, u128), ContractError> {
    update_position(s.dist_index, s.shares, s.last_updated, s.in_supply, p)
}

fn atomics(value: u128) -> Decimal256 {
    Decimal256::from_ratio(value, 1_000_000_000_000_000_000)
}

#[test]
fn a_new_stream_holds_its_whole_supply() {
    let s = stream(1000, 5, 10);
    assert_eq!(s.out_remaining, 1000);
    assert_eq!(s.out_asset.amount, 1000);
    assert_eq!((s.in_supply, s.spent_in, s.shares), (0, 0, 0));
    assert_eq!(s.dist_index, Decimal256::zero());
    assert_eq!(s.current_streamed_price, Decimal256::zero());
    assert_eq!(s.status, Status::Waiting);
    assert_eq!(s.last_updated, 5);
}

#[test]
fn a_new_position_has_bought_nothing() {
    let p = Position::new("a".to_string(), 5, 6, None, 7, Some("op".to_string()));
    assert_eq!(p.index, Decimal256::zero());
    assert_eq!((p.in_balance, p.shares, p.last_updated), (5, 6, 7));
    assert_eq!((p.purchased, p.spent), (0, 0));
    assert_eq!(p.pending_purchase, Decimal256::zero());
    assert_eq!(p.operator, Some("op".to_string()));
}

#[test]
fn status_follows_the_clock() {
    let mut s = stream(1000, 20, 30);
    s.bootstrapping_start_time = 10;
    s.update_status(9);
    assert_eq!(s.status, Status::Waiting);
    s.update_status(10);
    assert_eq!(s.status, Status::Bootstrapping);
    s.update_status(19);
    assert_eq!(s.status, Status::Bootstrapping);
    s.update_status(20);
    assert_eq!(s.status, Status::Active);
    s.update_status(5);
    assert_eq!(s.status, Status::Active);
    s.update_status(30);
    assert_eq!(s.status, Status::Ended);
    let mut late = stream(1000, 20, 30);
    late.update_status(99);
    assert_eq!(late.status, Status::Ended);
    assert!(late.is_ended() && !late.is_active() && !late.is_waiting());
    late.status = Status::Finalized;
    late.update_status(99);
    assert!(late.is_finalized());
    late.status = Status::Cancelled;
    late.update_status(0);
    assert!(late.is_cancelled() && late.is_killswitch_active());
}

#[test]
fn advance_distributes_in_proportion_to_time() {
    let mut s = funded(1000, 0, 100, 200);
    let (diff, out) = update_stream(25, &mut s).unwrap();
    assert_eq!(diff, Decimal256::from_ratio(1, 4));
    assert_eq!(out, 250);
    assert_eq!(s.out_remaining, 750);
    assert_eq!(s.spent_in, 50);
    assert_eq!(s.in_supply, 150);
    assert_eq!(s.last_updated, 25);
    // 250 units over 200 shares; 50 spent for 250 released
    assert_eq!(s.dist_index, Decimal256::from_ratio(5, 4));
    assert_eq!(s.current_streamed_price, Decimal256::from_ratio(1, 5));
    assert_eq!(query_last_streamed_price(&s), Decimal256::from_ratio(1, 5));
    assert_eq!(query_average_price(&s), Ok(Decimal256::from_ratio(1, 5)));
}

#[test]
fn advance_rounds_each_step_down() {
    let mut s = funded(10, 0, 3, 10);
    let (diff, out) = update_stream(1, &mut s).unwrap();
    assert_eq!(diff, atomics(333_333_333_333_333_333));
    assert_eq!(out, 3);
    assert_eq!((s.out_remaining, s.in_supply, s.spent_in), (7, 7, 3));
    assert_eq!(s.dist_index, Decimal256::from_ratio(3, 10));
    let (diff, out) = update_stream(2, &mut s).unwrap();
    assert_eq!(diff, Decimal256::from_ratio(1, 2));
    assert_eq!(out, 3);
    assert_eq!((s.out_remaining, s.in_supply, s.spent_in), (4, 4, 6));
    let (diff, out) = update_stream(3, &mut s).unwrap();
    assert_eq!(diff, Decimal256::one());
    assert_eq!(out, 4);
    assert_eq!((s.out_remaining, s.in_supply, s.spent_in), (0, 0, 10));
    assert_eq!(s.dist_index, Decimal256::one());
}

#[test]
fn advance_without_shares_only_moves_the_clock() {
    let mut s = stream(1000, 0, 100);
    let (diff, out) = update_stream(40, &mut s).unwrap();
    assert_eq!((diff, out), (Decimal256::zero(), 0));
    assert_eq!(s.last_updated, 40);
    assert_eq!(s.out_remaining, 1000);
}

#[test]
fn advance_stops_at_the_end_and_waits_for_the_start() {
    let mut s = funded(1000, 10, 100, 50);
    update_stream(3, &mut s).unwrap();
    assert_eq!(s.last_updated, 10);
    assert_eq!(s.out_remaining, 1000);
    update_stream(500, &mut s).unwrap();
    assert_eq!(s.last_updated, 100);
    assert_eq!((s.out_remaining, s.in_supply, s.spent_in), (0, 0, 50));
}

#[test]
fn advance_that_releases_nothing_keeps_index_and_price() {
    let mut s = funded(1, 0, 1000, 5000);
    let (_, out) = update_stream(1, &mut s).unwrap();
    assert_eq!(out, 0);
    assert_eq!(s.out_remaining, 1);
    assert_eq!(s.spent_in, 5);
    assert_eq!(s.dist_index, Decimal256::zero());
    assert_eq!(s.current_streamed_price, Decimal256::zero());
}

#[test]
fn advance_refuses_to_overflow_and_changes_nothing() {
    let mut s = funded(1000, 0, 100, 100);
    s.spent_in = u128::MAX;
    let before = s.clone();
    assert_eq!(update_stream(50, &mut s), Err(ContractError::ArithmeticOverflow));
    assert_eq!(s, before);
}

#[test]
fn advancing_twice_to_the_same_time_changes_nothing_more() {
    for t in [0u64, 1, 33, 99, 100, 250] {
        let mut once = funded(1000, 0, 100, 77);
        update_stream(t, &mut once).unwrap();
        let mut twice = once.clone();
        let (diff, out) = update_stream(t, &mut twice).unwrap();
        assert_eq!((diff, out), (Decimal256::zero(), 0));
        assert_eq!(twice, once);
    }
}

#[test]
fn advancing_in_two_steps_stays_close_to_one_step() {
    for (t1, t2) in [(1u64, 2u64), (10, 90), (33, 34), (50, 100), (0, 77), (77, 77)] {
        let mut once = funded(1_000_003, 0, 100, 999_983);
        update_stream(t2, &mut once).unwrap();
        let mut twice = funded(1_000_003, 0, 100, 999_983);
        update_stream(t1, &mut twice).unwrap();
        update_stream(t2, &mut twice).unwrap();
        assert_eq!(twice.last_updated, once.last_updated);
        assert_eq!(twice.in_supply + twice.spent_in, once.in_supply + once.spent_in);
        let exact_out = 1_000_003 - 1_000_003 * (t2 as u128) / 100;
        let exact_in = 999_983 - 999_983 * (t2 as u128) / 100;
        assert!(exact_out <= once.out_remaining && once.out_remaining <= exact_out + 1);
        assert!(exact_out <= twice.out_remaining && twice.out_remaining <= exact_out + 3);
        assert!(exact_in <= once.in_supply && once.in_supply <= exact_in + 1);
        assert!(exact_in <= twice.in_supply && twice.in_supply <= exact_in + 3);
    }
}

#[test]
fn two_steps_can_differ_from_one_by_two_units() {
    let supply = 907_342_219_538_254_596u128;
    let mut once = funded(supply, 0, 56, 1);
    update_stream(43, &mut once).unwrap();
    let mut twice = funded(supply, 0, 56, 1);
    update_stream(40, &mut twice).unwrap();
    update_stream(43, &mut twice).unwrap();
    assert_eq!(once.out_remaining, 210_633_015_249_951_960);
    assert_eq!(twice.out_remaining, 210_633_015_249_951_962);
}

#[test]
fn advance_moves_every_quantity_one_way() {
    let mut s = funded(977, 0, 50, 311);
    let mut last = s.clone();
    for t in [3u64, 3, 10, 11, 30, 49, 50, 60] {
        update_stream(t, &mut s).unwrap();
        assert!(s.dist_index.checked_sub(last.dist_index).is_ok());
        assert!(s.spent_in >= last.spent_in);
        assert!(s.out_remaining <= last.out_remaining);
        assert!(s.in_supply <= last.in_supply);
        assert_eq!(s.in_supply + s.spent_in, 311);
        last = s.clone();
    }
    assert_eq!(s.out_remaining, 0);
    assert_eq!(s.in_supply, 0);
}

#[test]
fn shares_follow_the_pool() {
    let mut s = stream(1000, 0, 100);
    assert_eq!(s.compute_shares_amount(40, false), Ok(40));
    assert_eq!(s.compute_shares_amount(40, true), Ok(40));
    s.shares = 300;
    s.in_supply = 0;
    assert_eq!(s.compute_shares_amount(40, true), Ok(40));
    s.in_supply = 70;
    // 300 * 40 / 70 = 171.4...
    assert_eq!(s.compute_shares_amount(40, false), Ok(171));
    assert_eq!(s.compute_shares_amount(40, true), Ok(172));
    assert_eq!(s.compute_shares_amount(7, false), Ok(30));
    assert_eq!(s.compute_shares_amount(7, true), Ok(30));
    assert_eq!(s.compute_shares_amount(0, true), Ok(0));
    s.shares = u128::MAX;
    assert_eq!(s.compute_shares_amount(2, false), Err(ContractError::ArithmeticOverflow));
    assert_eq!(s.compute_shares_amount(1, false), Ok(u128::MAX / 70));
}

#[test]
fn sync_credits_whole_units_and_carries_the_fraction() {
    let mut s = funded(10, 0, 3, 3);
    update_stream(1, &mut s).unwrap();
    assert_eq!(s.dist_index, Decimal256::one());
    let mut p = position("a", 1, 1, Decimal256::zero());
    s.dist_index = atomics(1_400_000_000_000_000_000);
    s.in_supply = 2;
    assert_eq!(sync(&s, &mut p), Ok((1, 1)));
    assert_eq!(p.purchased, 1);
    assert_eq!(p.pending_purchase, atomics(400_000_000_000_000_000));
    assert_eq!(p.index, s.dist_index);
    assert_eq!(p.last_updated, 1);
    // one share of three stands for floor(2 / 3) = 0 of the unspent input
    assert_eq!((p.in_balance, p.spent), (0, 1));
    s.dist_index = atomics(2_100_000_000_000_000_000);
    assert_eq!(sync(&s, &mut p), Ok((1, 0)));
    assert_eq!(p.purchased, 2);
    assert_eq!(p.pending_purchase, atomics(100_000_000_000_000_000));
}

#[test]
fn sync_without_shares_in_the_stream_only_takes_over_index_and_clock() {
    let mut s = stream(10, 0, 3);
    s.dist_index = Decimal256::from_integer(4);
    s.last_updated = 2;
    s.in_supply = 9;
    let mut p = position("a", 5, 5, Decimal256::one());
    assert_eq!(sync(&s, &mut p), Ok((0, 0)));
    assert_eq!(p.index, Decimal256::from_integer(4));
    assert_eq!(p.last_updated, 2);
    assert_eq!((p.in_balance, p.purchased, p.spent), (5, 0, 0));
}

#[test]
fn sync_refuses_what_does_not_fit_and_changes_nothing() {
    let mut s = funded(10, 0, 3, 3);
    s.dist_index = Decimal256::one();
    let mut ahead = position("a", 1, 1, Decimal256::from_integer(2));
    let before = ahead.clone();
    assert_eq!(sync(&s, &mut ahead), Err(ContractError::ArithmeticOverflow));
    assert_eq!(ahead, before);
    // the shares stand for more than the balance
    let mut short = position("a", 0, 3, Decimal256::zero());
    assert_eq!(sync(&s, &mut short), Err(ContractError::ArithmeticOverflow));
    // the credit needs more than 128 bits
    s.dist_index = Decimal256::from_integer(u128::MAX);
    let mut rich = position("a", 3, 2, Decimal256::zero());
    assert_eq!(sync(&s, &mut rich), Err(ContractError::ArithmeticOverflow));
    let mut full = position("a", 3, 1, Decimal256::zero());
    full.purchased = 1;
    assert_eq!(sync(&s, &mut full), Err(ContractError::ArithmeticOverflow));
    full.purchased = 0;
    assert_eq!(sync(&s, &mut full), Ok((u128::MAX, 2)));
}

#[test]
fn purchases_do_not_depend_on_how_often_a_position_is_synced() {
    let mut s = funded(1000, 0, 97, 300);
    let mut often = position("a", 100, 100, Decimal256::zero());
    let mut once = position("b", 100, 100, Decimal256::zero());
    for t in [1u64, 2, 3, 5, 8, 13, 21, 34, 55, 89, 97] {
        update_stream(t, &mut s).unwrap();
        sync(&s, &mut often).unwrap();
    }
    sync(&s, &mut once).unwrap();
    assert_eq!(often.purchased, once.purchased);
    assert_eq!(often.pending_purchase, once.pending_purchase);
    assert_eq!(often.in_balance, once.in_balance);
    assert_eq!(often.spent, once.spent);
    assert!(often.purchased * 3 <= 1000);
}

#[test]
fn a_position_at_the_index_is_credited_nothing() {
    let mut s = funded(1000, 0, 100, 300);
    update_stream(40, &mut s).unwrap();
    let mut p = position("late", 3, 3, s.dist_index);
    s.in_supply += 3;
    s.shares += 3;
    assert_eq!(sync(&s, &mut p).unwrap().0, 0);
    assert_eq!(p.purchased, 0);
    update_stream(41, &mut s).unwrap();
    sync(&s, &mut p).unwrap();
    // 600 remain over 60 time units; 1/60 rounds down, so 9 are released over 303 shares
    assert_eq!(s.out_remaining, 591);
    assert_eq!(p.purchased, 0);
    assert_eq!(p.pending_purchase, atomics(89_108_910_891_089_106));
}

#[test]
fn sync_moves_input_from_balance_to_spent() {
    let mut s = funded(1000, 0, 100, 300);
    let mut p = position("a", 100, 100, Decimal256::zero());
    for t in [7u64, 19, 20, 64, 100] {
        update_stream(t, &mut s).unwrap();
        sync(&s, &mut p).unwrap();
        assert_eq!(p.in_balance + p.spent, 100);
    }
    assert_eq!((p.in_balance, p.spent), (0, 100));
}

#[test]
fn output_is_never_paid_twice() {
    let mut s = funded(1000, 0, 7, 3);
    let mut positions =
        vec![position("a", 1, 1, Decimal256::zero()), position("b", 1, 1, Decimal256::zero()), position("c", 1, 1, Decimal256::zero())];
    for t in 1u64..=7 {
        update_stream(t, &mut s).unwrap();
        for p in positions.iter_mut() {
            sync(&s, p).unwrap();
        }
        let credited: u128 = positions.iter().map(|p| p.purchased).sum();
        assert!(credited + s.out_remaining <= 1000);
    }
    let credited: u128 = positions.iter().map(|p| p.purchased).sum();
    assert_eq!(s.out_remaining, 0);
    assert!(1000 - credited < 3 + 1);
}

#[test]
fn threshold_is_met_from_the_threshold_on() {
    let mut s = stream(1000, 0, 100);
    assert!(s.is_threshold_met());
    assert_eq!(query_threshold_state(&s), None);
    s.threshold = Some(10);
    s.spent_in = 9;
    assert!(!s.is_threshold_met());
    s.spent_in = 10;
    assert!(s.is_threshold_met());
    assert_eq!(query_threshold_state(&s), Some(10));
}

#[test]
fn queries_hand_back_what_is_stored() {
    let s = funded(1000, 0, 100, 5);
    assert_eq!(query_stream(&s), s);
    let p = position("a", 1, 1, Decimal256::zero());
    assert_eq!(query_position(&Some(p.clone())), Ok(p));
    assert_eq!(query_position(&None), Err(ContractError::NotFound));
    let params = Params {
        exit_fee_percent: Decimal256::from_ratio(1, 100),
        fee_collector: "c".to_string(),
        vesting_code_id: 3,
    };
    assert_eq!(query_params(&params), params);
}

#[test]
fn average_price_is_spent_input_per_output_sold() {
    let mut s = funded(1000, 0, 100, 90);
    update_stream(30, &mut s).unwrap();
    update_stream(60, &mut s).unwrap();
    // 30/70 rounds down, so the second step spends 26 and releases 299
    assert_eq!((s.spent_in, s.out_remaining), (53, 401));
    assert_eq!(query_average_price(&s), Ok(Decimal256::from_ratio(53, 599)));
    s.out_remaining = 1001;
    assert_eq!(query_average_price(&s), Err(ContractError::ArithmeticOverflow));
}

#[test]
fn pages_hold_at_most_thirty_positions() {
    let all: Vec<Position> =
        (0..40).map(|i| position(&format!("owner{:02}", i), i, i, Decimal256::zero())).collect();
    assert_eq!(list_positions(all.clone(), None), all[..30].to_vec());
    assert_eq!(list_positions(all.clone(), Some(100)), all[..30].to_vec());
    assert_eq!(list_positions(all.clone(), Some(30)), all[..30].to_vec());
    assert_eq!(list_positions(all.clone(), Some(7)), all[..7].to_vec());
    assert_eq!(list_positions(all.clone(), Some(0)), vec![]);
    assert_eq!(list_positions(all[..5].to_vec(), Some(7)), all[..5].to_vec());
    assert_eq!(list_positions(vec![], None), vec![]);
}

#[test]
fn query_answers_each_question() {
    let mut s = funded(1000, 0, 100, 90);
    update_stream(50, &mut s).unwrap();
    s.threshold = Some(4);
    let params = Params {
        exit_fee_percent: Decimal256::from_ratio(1, 100),
        fee_collector: "c".to_string(),
        vesting_code_id: 3,
    };
    let p = position("a", 1, 1, Decimal256::zero());
    let held = Some(p.clone());
    let all = vec![p.clone(), position("b", 2, 2, Decimal256::zero())];
    let ask = |msg| query(msg, &params, &s, &held, all.clone());
    assert_eq!(ask(QueryMsg::Params), Ok(QueryResponse::Params(params.clone())));
    assert_eq!(ask(QueryMsg::Stream), Ok(QueryResponse::Stream(s.clone())));
    assert_eq!(ask(QueryMsg::Position), Ok(QueryResponse::Position(p.clone())));
    assert_eq!(
        ask(QueryMsg::ListPositions { limit: Some(1) }),
        Ok(QueryResponse::Positions(vec![p.clone()]))
    );
    assert_eq!(
        ask(QueryMsg::AveragePrice),
        Ok(QueryResponse::AveragePrice(Decimal256::from_ratio(45, 500)))
    );
    assert_eq!(
        ask(QueryMsg::LastStreamedPrice),
        Ok(QueryResponse::LastStreamedPrice(Decimal256::from_ratio(45, 500)))
    );
    assert_eq!(ask(QueryMsg::Threshold), Ok(QueryResponse::Threshold(Some(4))));
    assert_eq!(
        query(QueryMsg::Position, &params, &s, &None, vec![]),
        Err(ContractError::NotFound)
    );
}
