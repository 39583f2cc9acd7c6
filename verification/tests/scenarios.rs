use streamswap::address::vesting_address;
use streamswap::contract::{execute, instantiate};
use streamswap::decimal::Decimal256;
use streamswap::error::ContractError;
use streamswap::msg::{CreateStreamMsg, Env, ExecuteMsg, MessageInfo, Msg, Response};
use streamswap::settlement::{settle_exit, HostInfo};
use streamswap::state::{Coin, CreatePool, Params, PoolMsg, Position, Status, Stream, Vesting};

fn params(fee_percent: u128) -> Params {
    Params {
        exit_fee_percent: Decimal256::from_ratio(fee_percent, 100),
        fee_collector: "collector".to_string(),
        vesting_code_id: 7,
    }
}

fn unhex(text: &str) -> Vec<u8> {
    (0..text.len() / 2).map(|i| u8::from_str_radix(&text[2 * i..2 * i + 2], 16).unwrap()).collect()
}

fn host() -> HostInfo {
    HostInfo {
        num_pools: 41,
        vesting_checksum: unhex("13a1fc994cc6d1c81b746ee0c0ff6f90043875e0bf1d9be6b7d779fc978dc2a5"),
        creator: unhex("9999999999aaaaaaaaaabbbbbbbbbbcccccccccc"),
    }
}

fn create_msg(out: u128, start: u64, end: u64) -> CreateStreamMsg {
    CreateStreamMsg {
        bootstraping_start_time: 0,
        start_time: start,
        end_time: end,
        treasury: "treasury".to_string(),
        name: "sale".to_string(),
        url: None,
        threshold: None,
        out_asset: Coin { denom: "out".to_string(), amount: out },
        in_denom: "in".to_string(),
        stream_admin: "admin".to_string(),
        create_pool: None,
        vesting: None,
    }
}

fn new_stream(out: u128, start: u64, end: u64) -> Stream {
    instantiate(&Env { now: 0 }, create_msg(out, start, end)).unwrap()
}

fn run(
    now: u64,
    sender: &str,
    funds: Vec<Coin>,
    msg: ExecuteMsg,
    fee: u128,
    stream: Stream,
    position: Option<Position>,
) -> Result<Response, ContractError> {
    execute(
        &Env { now },
        &MessageInfo { sender: sender.to_string(), funds },
        msg,
        &params(fee),
        &host(),
        stream,
        position,
    )
}

fn pay(amount: u128) -> Vec<Coin> {
    vec![Coin { denom: "in".to_string(), amount }]
}

fn subscribe() -> ExecuteMsg {
    ExecuteMsg::Subscribe { operator_target: None, operator: None }
}

fn exit() -> ExecuteMsg {
    ExecuteMsg::ExitStream { operator_target: None, salt: None }
}

fn update() -> ExecuteMsg {
    ExecuteMsg::UpdatePosition { operator_target: None }
}

fn finalize() -> ExecuteMsg {
    ExecuteMsg::FinalizeStream { new_treasury: None }
}

fn send(to: &str, denom: &str, amount: u128) -> Msg {
    Msg::Send { to_address: to.to_string(), denom: denom.to_string(), amount }
}

#[test]
fn single_subscriber_buys_the_whole_supply() {
    let stream = new_stream(1000, 0, 100);
    let r = run(0, "a", pay(100), subscribe(), 1, stream, None).unwrap();
    let r = run(100, "a", vec![], update(), 1, r.stream, r.position).unwrap();
    let a = r.position.clone().unwrap();
    assert_eq!(a.purchased, 1000);
    assert_eq!(a.spent, 100);
    assert_eq!(a.in_balance, 0);
    let r = run(100, "a", vec![], exit(), 1, r.stream, r.position).unwrap();
    assert_eq!(r.position, None);
    assert_eq!(r.stream.out_remaining, 0);
    assert_eq!(r.stream.spent_in, 100);
    assert_eq!(r.stream.shares, 0);
    assert_eq!(r.messages, vec![send("a", "out", 1000)]);
    assert_eq!(r.vesting_address, None);
    let r = run(101, "treasury", vec![], finalize(), 1, r.stream, None).unwrap();
    assert_eq!(r.stream.status, Status::Finalized);
    assert_eq!(r.messages, vec![send("treasury", "in", 99), send("collector", "in", 1)]);
}

#[test]
fn two_equal_subscribers_split_the_supply() {
    let stream = new_stream(1000, 0, 100);
    let ra = run(0, "a", pay(100), subscribe(), 0, stream, None).unwrap();
    let rb = run(0, "b", pay(100), subscribe(), 0, ra.stream, None).unwrap();
    let ra2 = run(100, "a", vec![], update(), 0, rb.stream, ra.position).unwrap();
    let a = ra2.position.clone().unwrap();
    let rb2 = run(100, "b", vec![], update(), 0, ra2.stream, rb.position).unwrap();
    let b = rb2.position.clone().unwrap();
    assert_eq!(a.purchased, 500);
    assert_eq!(b.purchased, 500);
    assert_eq!(a.spent, 100);
    assert_eq!(b.spent, 100);
    let ea = run(100, "a", vec![], exit(), 0, rb2.stream, Some(a)).unwrap();
    assert_eq!(ea.messages, vec![send("a", "out", 500)]);
    let eb = run(100, "b", vec![], exit(), 0, ea.stream, Some(b)).unwrap();
    assert_eq!(eb.messages, vec![send("b", "out", 500)]);
    assert_eq!(eb.stream.shares, 0);
    assert_eq!(eb.stream.out_remaining, 0);
}

#[test]
fn staggered_entry_earns_from_entry_on() {
    let stream = new_stream(1000, 0, 100);
    let ra = run(0, "a", pay(100), subscribe(), 0, stream, None).unwrap();
    let rb = run(50, "b", pay(100), subscribe(), 0, ra.stream, None).unwrap();
    // at t=50 half of a's deposit is spent: 50 unspent input stand behind 100 shares
    assert_eq!(rb.stream.spent_in, 50);
    assert_eq!(rb.stream.in_supply, 150);
    assert_eq!(rb.stream.shares, 300);
    assert_eq!(rb.position.as_ref().unwrap().shares, 200);
    assert_eq!(rb.position.as_ref().unwrap().purchased, 0);
    let ua = run(100, "a", vec![], update(), 0, rb.stream, ra.position).unwrap();
    let ub = run(100, "b", vec![], update(), 0, ua.stream, rb.position).unwrap();
    let a = ua.position.unwrap().purchased;
    let b = ub.position.unwrap().purchased;
    // the second half is shared one to two: 500 + 166.6 and 333.3
    assert_eq!((a, b), (666, 333));
    assert!(a + b <= 1000);
    assert!(1000 - (a + b) < 2);
    assert_eq!(ub.stream.out_remaining, 0);
    assert_eq!(ub.stream.spent_in, 200);
}

#[test]
fn staggered_entry_with_equal_weight_gives_three_quarters() {
    // b brings as much as a has left at t=50, so both hold half the pool afterwards
    let stream = new_stream(1000, 0, 100);
    let ra = run(0, "a", pay(100), subscribe(), 0, stream, None).unwrap();
    let rb = run(50, "b", pay(50), subscribe(), 0, ra.stream, None).unwrap();
    assert_eq!(rb.position.as_ref().unwrap().shares, 100);
    let ua = run(100, "a", vec![], update(), 0, rb.stream, ra.position).unwrap();
    let ub = run(100, "b", vec![], update(), 0, ua.stream, rb.position).unwrap();
    let a = ua.position.unwrap().purchased;
    let b = ub.position.unwrap().purchased;
    assert!(a == 750 || a == 749);
    assert!(b == 250 || b == 249);
}

#[test]
fn withdrawing_everything_midway_stops_the_purchase() {
    let stream = new_stream(1000, 0, 100);
    let r = run(0, "a", pay(100), subscribe(), 0, stream, None).unwrap();
    let w = ExecuteMsg::Withdraw { cap: Some(50), operator_target: None };
    let r = run(50, "a", vec![], w, 0, r.stream, r.position).unwrap();
    assert_eq!(r.messages, vec![send("a", "in", 50)]);
    assert_eq!(r.stream.spent_in, 50);
    assert_eq!(r.stream.in_supply, 0);
    // the cap was the whole unspent balance, so every share was burnt
    assert_eq!(r.stream.shares, 0);
    assert_eq!(r.position.as_ref().unwrap().shares, 0);
    assert_eq!(r.position.as_ref().unwrap().purchased, 500);
    let r = run(100, "a", vec![], exit(), 0, r.stream, r.position).unwrap();
    assert_eq!(r.messages, vec![send("a", "out", 500)]);
    assert_eq!(r.stream.spent_in, 50);
    let r = run(100, "treasury", vec![], finalize(), 0, r.stream, None).unwrap();
    assert_eq!(
        r.messages,
        vec![send("treasury", "in", 50), send("collector", "in", 0), send("treasury", "out", 500)]
    );
}

#[test]
fn withdrawing_part_midway_keeps_buying() {
    let stream = new_stream(1000, 0, 100);
    let r = run(0, "a", pay(100), subscribe(), 0, stream, None).unwrap();
    let w = ExecuteMsg::Withdraw { cap: Some(49), operator_target: None };
    let r = run(50, "a", vec![], w, 0, r.stream, r.position).unwrap();
    assert_eq!(r.messages, vec![send("a", "in", 49)]);
    // 49 of 50 unspent units leave: ceil(100 * 49 / 50) = 98 shares are burnt
    assert_eq!(r.stream.shares, 2);
    assert_eq!(r.stream.in_supply, 1);
    let r = run(100, "a", vec![], exit(), 0, r.stream, r.position).unwrap();
    assert_eq!(r.messages, vec![send("a", "out", 1000)]);
    assert_eq!(r.stream.spent_in, 51);
    assert_eq!(r.stream.out_remaining, 0);
}

#[test]
fn missed_threshold_makes_subscribers_whole() {
    let mut msg = create_msg(1000, 0, 100);
    msg.threshold = Some(1000);
    let stream = instantiate(&Env { now: 0 }, msg).unwrap();
    let ra = run(0, "a", pay(300), subscribe(), 1, stream, None).unwrap();
    let rb = run(10, "b", pay(100), subscribe(), 1, ra.stream, None).unwrap();
    let stream = rb.stream;
    let failed = run(100, "treasury", vec![], finalize(), 1, stream.clone(), None);
    assert_eq!(failed, Err(ContractError::ThresholdNotReached));
    let gone = run(100, "a", vec![], exit(), 1, stream.clone(), ra.position.clone());
    assert_eq!(gone, Err(ContractError::ThresholdNotReached));
    let c = run(100, "admin", vec![], ExecuteMsg::CancelStreamWithThreshold, 1, stream, None)
        .unwrap();
    assert_eq!(c.stream.status, Status::Cancelled);
    assert_eq!(c.stream.spent_in, 400);
    assert_eq!(c.messages, vec![send("treasury", "out", 1000)]);
    let leave = || ExecuteMsg::ExitCancelled { operator_target: None };
    let ea = run(101, "a", vec![], leave(), 1, c.stream, ra.position).unwrap();
    assert_eq!(ea.messages, vec![send("a", "in", 300)]);
    assert_eq!(ea.position, None);
    let eb = run(102, "b", vec![], leave(), 1, ea.stream, rb.position).unwrap();
    assert_eq!(eb.messages, vec![send("b", "in", 100)]);
    assert_eq!(eb.stream.shares, 0);
}

#[test]
fn exit_with_vesting_instantiates_the_vesting_contract() {
    let mut msg = create_msg(1000, 0, 100);
    let vesting = Vesting {
        title: "vested".to_string(),
        vesting_duration_seconds: 3600,
        unbonding_duration_seconds: 0,
    };
    msg.vesting = Some(vesting.clone());
    let stream = instantiate(&Env { now: 0 }, msg).unwrap();
    let r = run(0, "a", pay(100), subscribe(), 0, stream, None).unwrap();
    let no_salt = run(100, "a", vec![], exit(), 0, r.stream.clone(), r.position.clone());
    assert_eq!(no_salt, Err(ContractError::InvalidSalt));
    let with_salt = ExecuteMsg::ExitStream { operator_target: None, salt: Some(vec![0x61]) };
    let r = run(100, "a", vec![], with_salt, 0, r.stream, r.position).unwrap();
    assert_eq!(
        r.messages,
        vec![Msg::InstantiateVesting {
            code_id: 7,
            salt: vec![0x61],
            recipient: "a".to_string(),
            start_time: 100,
            total: 1000,
            denom: "out".to_string(),
            vesting,
        }]
    );
    assert_eq!(
        r.vesting_address,
        Some(unhex("5e865d3e45ad3e961f77fd77d46543417ced44d924dc3e079b5415ff6775f847"))
    );
    assert_eq!(r.position, None);
}

#[test]
fn settlement_seeds_the_pool() {
    let mut msg = create_msg(1000, 0, 100);
    let pool = PoolMsg {
        sender: "treasury".to_string(),
        denom0: "out".to_string(),
        denom1: "in".to_string(),
        tick_spacing: 100,
        spread_factor: "0.01".to_string(),
    };
    msg.create_pool = Some(CreatePool { out_amount_clp: 250, msg_create_pool: pool.clone() });
    let stream = instantiate(&Env { now: 0 }, msg).unwrap();
    let r = run(0, "a", pay(101), subscribe(), 10, stream, None).unwrap();
    let new_treasury = ExecuteMsg::FinalizeStream { new_treasury: Some("vault".to_string()) };
    let r = run(100, "treasury", vec![], new_treasury, 10, r.stream, None).unwrap();
    // fee: floor(101 * 0.1) = 10; pool input: floor(101 * 250 / 1000) = 25
    assert_eq!(
        r.messages,
        vec![
            send("vault", "in", 91),
            send("collector", "in", 10),
            Msg::CreatePool { msg: pool },
            Msg::CreatePosition {
                pool_id: 42,
                sender: "vault".to_string(),
                in_denom: "in".to_string(),
                in_amount: 25,
                out_denom: "out".to_string(),
                out_amount: 250,
            },
        ]
    );
    assert_eq!(r.stream.treasury, "treasury");
}

#[test]
fn settlement_without_buyers_only_refunds() {
    let mut msg = create_msg(1000, 0, 100);
    msg.create_pool = Some(CreatePool {
        out_amount_clp: 250,
        msg_create_pool: PoolMsg {
            sender: "treasury".to_string(),
            denom0: "out".to_string(),
            denom1: "in".to_string(),
            tick_spacing: 100,
            spread_factor: "0.01".to_string(),
        },
    });
    let stream = instantiate(&Env { now: 0 }, msg).unwrap();
    let r = run(100, "treasury", vec![], finalize(), 10, stream, None).unwrap();
    assert_eq!(r.messages, vec![send("treasury", "out", 1000)]);
    assert_eq!(r.stream.status, Status::Finalized);
}

#[test]
fn deposits_during_bootstrapping_earn_nothing_before_the_start() {
    let stream = instantiate(&Env { now: 0 }, {
        let mut m = create_msg(1000, 100, 200);
        m.bootstraping_start_time = 10;
        m
    })
    .unwrap();
    let early = run(5, "a", pay(100), subscribe(), 0, stream.clone(), None);
    assert_eq!(early, Err(ContractError::StreamNotStarted));
    let r = run(20, "a", pay(100), subscribe(), 0, stream, None).unwrap();
    assert_eq!(r.stream.status, Status::Bootstrapping);
    assert_eq!(r.stream.last_updated, 100);
    let r = run(90, "a", vec![], update(), 0, r.stream, r.position).unwrap();
    assert_eq!(r.stream.out_remaining, 1000);
    assert_eq!(r.stream.spent_in, 0);
    assert_eq!(r.position.as_ref().unwrap().purchased, 0);
    let r = run(150, "a", vec![], update(), 0, r.stream, r.position).unwrap();
    assert_eq!(r.stream.status, Status::Active);
    assert_eq!(r.stream.out_remaining, 500);
    assert_eq!(r.position.as_ref().unwrap().purchased, 500);
    assert_eq!(r.position.as_ref().unwrap().spent, 50);
}

#[test]
fn admin_cancel_refunds_supply_and_deposits() {
    let stream = new_stream(1000, 0, 100);
    let ra = run(0, "a", pay(80), subscribe(), 0, stream, None).unwrap();
    let r = run(25, "a", vec![], update(), 0, ra.stream, ra.position).unwrap();
    assert_eq!(r.position.as_ref().unwrap().spent, 20);
    let c = run(30, "admin", vec![], ExecuteMsg::CancelStream, 0, r.stream, None).unwrap();
    assert_eq!(c.stream.status, Status::Cancelled);
    assert_eq!(c.messages, vec![send("treasury", "out", 1000)]);
    // cancelling does not advance the stream
    assert_eq!(c.stream.last_updated, 25);
    let leave = ExecuteMsg::ExitCancelled { operator_target: None };
    let e = run(31, "a", vec![], leave, 0, c.stream, r.position).unwrap();
    assert_eq!(e.messages, vec![send("a", "in", 80)]);
}

#[test]
fn operator_acts_for_the_owner() {
    let stream = new_stream(1000, 0, 100);
    let open = ExecuteMsg::Subscribe { operator_target: None, operator: Some("op".to_string()) };
    let r = run(0, "a", pay(100), open, 0, stream, None).unwrap();
    assert_eq!(r.position.as_ref().unwrap().operator, Some("op".to_string()));
    let more = ExecuteMsg::Subscribe { operator_target: Some("a".to_string()), operator: None };
    let r = run(10, "op", pay(10), more, 0, r.stream, r.position).unwrap();
    assert_eq!(r.position.as_ref().unwrap().owner, "a");
    let w = ExecuteMsg::Withdraw { cap: Some(5), operator_target: Some("a".to_string()) };
    let r = run(20, "op", vec![], w, 0, r.stream, r.position).unwrap();
    assert_eq!(r.messages, vec![send("a", "in", 5)]);
    let drop_op = ExecuteMsg::UpdateOperator { new_operator: None };
    let r = run(21, "a", vec![], drop_op, 0, r.stream, r.position).unwrap();
    assert_eq!(r.position.as_ref().unwrap().operator, None);
    let w = ExecuteMsg::Withdraw { cap: Some(5), operator_target: Some("a".to_string()) };
    let denied = run(22, "op", vec![], w, 0, r.stream, r.position);
    assert_eq!(denied, Err(ContractError::Unauthorized));
}

#[test]
fn settling_an_exit_records_the_address_it_is_given() {
    let mut msg = create_msg(1000, 0, 100);
    let vesting = Vesting {
        title: "vested".to_string(),
        vesting_duration_seconds: 10,
        unbonding_duration_seconds: 20,
    };
    msg.vesting = Some(vesting.clone());
    let mut stream = instantiate(&Env { now: 0 }, msg).unwrap();
    stream.shares = 9;
    let mut position = Position::new("a".to_string(), 3, 4, None, 0, None);
    position.purchased = 55;
    let r = settle_exit(
        "a".to_string(),
        Some(vec![9, 9]),
        5,
        Some(vec![1, 2, 3]),
        stream.clone(),
        position.clone(),
    )
    .unwrap();
    assert_eq!(r.vesting_address, Some(vec![1, 2, 3]));
    assert_eq!(r.stream.shares, 5);
    assert_eq!(r.position, None);
    assert_eq!(
        r.messages,
        vec![
            Msg::InstantiateVesting {
                code_id: 5,
                salt: vec![9, 9],
                recipient: "a".to_string(),
                start_time: 100,
                total: 55,
                denom: "out".to_string(),
                vesting,
            },
            send("a", "in", 3),
        ]
    );
    let no_salt =
        settle_exit("a".to_string(), None, 5, None, stream.clone(), position.clone());
    assert_eq!(no_salt, Err(ContractError::InvalidSalt));
    position.shares = 10;
    let too_many = settle_exit("a".to_string(), Some(vec![1]), 5, None, stream.clone(), position);
    assert_eq!(too_many, Err(ContractError::ArithmeticOverflow));
    stream.vesting = None;
    let direct = Position::new("b".to_string(), 0, 9, None, 0, None);
    let r = settle_exit("b".to_string(), None, 5, Some(vec![7]), stream, direct).unwrap();
    assert_eq!(r.vesting_address, None);
    assert_eq!(r.messages, vec![send("b", "out", 0)]);
    assert_eq!(r.stream.shares, 0);
}

#[test]
fn vesting_address_is_the_address_the_host_derives() {
    let checksum = unhex("13a1fc994cc6d1c81b746ee0c0ff6f90043875e0bf1d9be6b7d779fc978dc2a5");
    let creator = unhex("9999999999aaaaaaaaaabbbbbbbbbbcccccccccc");
    assert_eq!(
        vesting_address(&checksum, &creator, &vec![0x61]),
        Ok(unhex("5e865d3e45ad3e961f77fd77d46543417ced44d924dc3e079b5415ff6775f847"))
    );
    let long_salt = unhex("aabbccddeeffffeeddbbccddaa66551155aaaabbcc787878789900aabbccddeeffffeeddbbccddaa66551155aaaabbcc787878789900aabbbbcc221100acadae");
    assert_eq!(
        vesting_address(&checksum, &creator, &long_salt),
        Ok(unhex("9384c6248c0bb171e306fd7da0993ec1e20eba006452a3a9e078883eb3594564"))
    );
    assert_eq!(vesting_address(&checksum, &creator, &vec![]), Err(ContractError::InvalidSalt));
    assert_eq!(
        vesting_address(&checksum[..31].to_vec(), &creator, &vec![1]),
        Err(ContractError::InvalidSalt)
    );
}
