use streamswap::contract::{execute, instantiate};
use streamswap::decimal::Decimal256;
use streamswap::error::ContractError;
use streamswap::msg::{CreateStreamMsg, Env, ExecuteMsg, MessageInfo, Msg};
use streamswap::settlement::HostInfo;
use streamswap::state::{Coin, Params, Position, Status, Stream};

/// A stream with the positions open in it, and the transfers it has made.
struct Books {
    stream: Stream,
    positions: Vec<Position>,
    deposited: u128,
    input_sent: u128,
    output_sent: u128,
}

impl Books {
    fn open(out: u128, end: u64) -> Books {
        let stream = instantiate(
            &Env { now: 0 },
            CreateStreamMsg {
                bootstraping_start_time: 0,
                start_time: 0,
                end_time: end,
                treasury: "treasury".to_string(),
                name: "sale".to_string(),
                url: None,
                threshold: None,
                out_asset: Coin { denom: "out".to_string(), amount: out },
                in_denom: "in".to_string(),
                stream_admin: "admin".to_string(),
                create_pool: None,
                vesting: None,
            },
        )
        .unwrap();
        Books { stream, positions: vec![], deposited: 0, input_sent: 0, output_sent: 0 }
    }

    fn run(&mut self, now: u64, sender: &str, paid: u128, msg: ExecuteMsg) {
        self.attempt(now, sender, paid, msg)
            .unwrap_or_else(|e| panic!("{} at {}: {:?}", sender, now, e))
    }

    fn attempt(
        &mut self,
        now: u64,
        sender: &str,
        paid: u128,
        msg: ExecuteMsg,
    ) -> Result<(), ContractError> {
        let touches_position = !matches!(
            msg,
            ExecuteMsg::UpdateStream
                | ExecuteMsg::FinalizeStream { .. }
                | ExecuteMsg::CancelStream
                | ExecuteMsg::CancelStreamWithThreshold
        );
        let slot = self.positions.iter().position(|p| p.owner == sender);
        let held = if touches_position { slot.map(|i| self.positions[i].clone()) } else { None };
        let funds =
            if paid > 0 { vec![Coin { denom: "in".to_string(), amount: paid }] } else { vec![] };
        let r = execute(
            &Env { now },
            &MessageInfo { sender: sender.to_string(), funds },
            msg,
            &Params {
                exit_fee_percent: Decimal256::from_ratio(3, 100),
                fee_collector: "collector".to_string(),
                vesting_code_id: 0,
            },
            &HostInfo { num_pools: 0, vesting_checksum: vec![], creator: vec![] },
            self.stream.clone(),
            held,
        )?;
        self.stream = r.stream;
        self.deposited += paid;
        if touches_position {
            match (slot, r.position) {
                (Some(i), Some(p)) => self.positions[i] = p,
                (Some(i), None) => {
                    self.positions.remove(i);
                }
                (None, Some(p)) => self.positions.push(p),
                (None, None) => {}
            }
        }
        for m in r.messages {
            match m {
                Msg::Send { denom, amount, .. } if denom == "in" => self.input_sent += amount,
                Msg::Send { denom, amount, .. } if denom == "out" => self.output_sent += amount,
                _ => panic!("unexpected message"),
            }
        }
        Ok(())
    }
}

fn join() -> ExecuteMsg {
    ExecuteMsg::Subscribe { operator_target: None, operator: None }
}

fn take(cap: Option<u128>) -> ExecuteMsg {
    ExecuteMsg::Withdraw { cap, operator_target: None }
}

fn leave() -> ExecuteMsg {
    ExecuteMsg::ExitStream { operator_target: None, salt: None }
}

fn busy_sale() -> Books {
    let mut b = Books::open(1_000_003, 1000);
    b.run(0, "a", 977, join());
    b.run(13, "b", 5, join());
    b.run(130, "c", 100_000, join());
    b.run(131, "a", 3, join());
    b.run(400, "b", 0, take(Some(1)));
    b.run(401, "d", 1, join());
    b.run(555, "c", 0, take(None));
    b.run(556, "c", 77, join());
    b.run(700, "a", 0, ExecuteMsg::UpdatePosition { operator_target: None });
    b.run(998, "x", 0, ExecuteMsg::UpdateStream);
    b
}

#[test]
fn a_settled_sale_returns_every_deposit() {
    let mut b = busy_sale();
    b.run(1000, "a", 0, leave());
    b.run(1001, "treasury", 0, ExecuteMsg::FinalizeStream { new_treasury: None });
    assert_eq!(b.stream.status, Status::Finalized);
    assert_eq!(b.stream.in_supply, 0);
    b.run(1002, "b", 0, leave());
    b.run(1500, "c", 0, leave());
    b.run(1500, "d", 0, leave());
    assert!(b.positions.is_empty());
    assert_eq!(b.stream.shares, 0);
    assert_eq!(b.input_sent, b.deposited);
}

#[test]
fn a_settled_sale_never_pays_more_output_than_it_had() {
    let mut b = busy_sale();
    b.run(1000, "treasury", 0, ExecuteMsg::FinalizeStream { new_treasury: None });
    for owner in ["a", "b", "c", "d"] {
        b.run(1000, owner, 0, leave());
    }
    assert!(b.positions.is_empty());
    assert!(b.output_sent <= 1_000_003);
    // one unit at most stays behind for each of the four positions
    assert!(1_000_003 - b.output_sent <= 4);
}

#[test]
fn a_cancelled_sale_returns_every_deposit() {
    let mut b = busy_sale();
    b.run(999, "admin", 0, ExecuteMsg::CancelStream);
    assert_eq!(b.output_sent, 1_000_003);
    for owner in ["d", "b", "c", "a"] {
        b.run(2000, owner, 0, ExecuteMsg::ExitCancelled { operator_target: None });
    }
    assert!(b.positions.is_empty());
    assert_eq!(b.input_sent, b.deposited);
}

#[test]
fn leaving_a_cancelled_sale_measures_the_balance_against_the_shares_left() {
    let mut b = Books::open(1000, 100);
    b.run(0, "a", 100, join());
    b.run(0, "b", 100, join());
    b.run(10, "admin", 0, ExecuteMsg::CancelStream);
    let out = || ExecuteMsg::ExitCancelled { operator_target: None };
    b.run(11, "a", 0, out());
    assert_eq!(b.input_sent, 100);
    // the 200 unspent units now stand behind b's shares alone, more than b holds
    assert_eq!((b.stream.in_supply, b.stream.shares), (200, 100));
    assert_eq!(b.attempt(12, "b", 0, out()), Err(ContractError::ArithmeticOverflow));
}

#[test]
fn index_rounding_can_leave_the_whole_supply_behind() {
    // three times 10^18 shares: one unit of output moves the index by nothing
    let mut b = Books::open(1000, 1000);
    b.run(0, "a", 3_000_000_000_000_000_000, join());
    for t in 1..=1000 {
        b.run(t, "x", 0, ExecuteMsg::UpdateStream);
    }
    assert_eq!(b.stream.out_remaining, 0);
    assert_eq!(b.stream.dist_index, Decimal256::zero());
    b.run(1000, "a", 0, leave());
    assert_eq!(b.output_sent, 0);
    assert_eq!(b.input_sent, 0);
    b.run(1000, "treasury", 0, ExecuteMsg::FinalizeStream { new_treasury: None });
    assert_eq!(b.input_sent, b.deposited);
}
