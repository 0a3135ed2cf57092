use wallet_value::amount::RawAmount;
use wallet_value::balances::{arrange_balances, balance_targets, get_balance, Landing};
use wallet_value::window::{FetchWindow, MAX_IN_FLIGHT};
use wallet_value::price::Usd;
use wallet_value::targets::{make_target, BadAddress, Target};
use wallet_value::address::Address;
use wallet_value::token::Token;

const DAI: &str = "0x6b175474e89094c44da98b954eedeac495271d0f";
const USDC: &str = "0xa0b86991c6218b36c1d19d4a2e9eb0ce3606eb48";

fn token(symbol: &str, address: &str) -> Token {
    Token {
        name: symbol.to_string(),
        symbol: symbol.to_string(),
        address: address.to_string(),
        price: Usd::from_bits(1.0f64.to_bits()),
    }
}

#[test]
fn the_bound_is_sixteen() {
    assert_eq!(MAX_IN_FLIGHT, 16);
}

#[test]
fn answered_balance_call_gives_the_answer() {
    let answer = RawAmount { limbs: [1, 2, 3, 4] };
    assert_eq!(get_balance(Some(answer)), answer);
}

#[test]
fn failed_balance_call_gives_zero() {
    assert_eq!(get_balance(None), RawAmount { limbs: [0, 0, 0, 0] });
    assert_eq!(get_balance(None).low_u64(), 0);
}

#[test]
fn window_starts_empty() {
    let window = FetchWindow::new(5);
    assert_eq!(window.in_flight(), 0);
    assert!(!window.is_done());
    assert!(FetchWindow::new(0).is_done());
}

#[test]
fn window_of_nothing_launches_nothing() {
    let mut window = FetchWindow::new(0);
    assert_eq!(window.launch(), None);
    assert!(!window.land());
    assert!(window.is_done());
}

#[test]
fn window_hands_out_positions_in_order_up_to_the_bound() {
    let mut window = FetchWindow::new(100);
    for expected in 0..16 {
        assert_eq!(window.launch(), Some(expected));
    }
    assert_eq!(window.in_flight(), 16);
    assert_eq!(window.launch(), None);
    assert_eq!(window.in_flight(), 16);
    assert!(window.land());
    assert_eq!(window.in_flight(), 15);
    assert_eq!(window.launch(), Some(16));
    assert_eq!(window.launch(), None);
}

#[test]
fn window_with_few_calls_launches_them_all() {
    let mut window = FetchWindow::new(3);
    assert_eq!(window.launch(), Some(0));
    assert_eq!(window.launch(), Some(1));
    assert_eq!(window.launch(), Some(2));
    assert_eq!(window.launch(), None);
    assert_eq!(window.in_flight(), 3);
    assert!(window.land());
    assert!(window.land());
    assert!(!window.is_done());
    assert!(window.land());
    assert!(window.is_done());
    assert!(!window.land());
    assert_eq!(window.in_flight(), 0);
}

#[test]
fn hundred_calls_never_have_more_than_sixteen_in_flight() {
    let mut window = FetchWindow::new(100);
    let mut launched = Vec::new();
    let mut landed = 0;
    let mut most = 0;
    let mut step = 0u32;
    while !window.is_done() {
        // Launch as many as may start, then let a varying number come back.
        while let Some(position) = window.launch() {
            launched.push(position);
            assert!(window.in_flight() <= 16);
            most = most.max(window.in_flight());
        }
        step += 1;
        let back = 1 + (step * 7 % 5) as usize;
        for _ in 0..back {
            if window.land() {
                landed += 1;
            }
            assert!(window.in_flight() <= 16);
        }
    }
    assert_eq!(launched, (0..100).collect::<Vec<usize>>());
    assert_eq!(landed, 100);
    assert_eq!(most, 16);
    assert_eq!(window.in_flight(), 0);
    assert_eq!(window.launch(), None);
}

#[test]
fn balances_are_asked_of_every_entry_but_the_native_one() {
    let tokens = vec![token("dai", DAI), Token::native(Usd::from_bits(0)), token("usdc", USDC)];
    let targets = balance_targets(&tokens).unwrap();
    assert_eq!(
        targets,
        vec![
            Target { index: 0, contract: Address::parse(DAI).unwrap() },
            Target { index: 2, contract: Address::parse(USDC).unwrap() },
        ]
    );
}

#[test]
fn token_with_a_bad_address_stops_the_balance_pass() {
    let tokens = vec![token("dai", DAI), token("usdc", USDC), token("bad", "0xzz"), token("b", "")];
    assert_eq!(balance_targets(&tokens), Err(BadAddress { index: 2 }));
}

#[test]
fn native_entry_alone_has_no_target() {
    let tokens = vec![Token::native(Usd::from_bits(0))];
    assert_eq!(balance_targets(&tokens), Ok(Vec::new()));
}

#[test]
fn target_is_made_from_a_parsed_address() {
    let contract = Address::parse(DAI).unwrap();
    assert_eq!(make_target(4, Some(contract)), Ok(Target { index: 4, contract }));
    assert_eq!(make_target(4, None), Err(BadAddress { index: 4 }));
}

#[test]
fn landings_are_put_in_the_order_of_the_targets() {
    let landings = vec![
        Landing { position: 2, answer: Some(RawAmount::from_u64(30)) },
        Landing { position: 0, answer: Some(RawAmount::from_u64(10)) },
        Landing { position: 3, answer: None },
        Landing { position: 1, answer: Some(RawAmount { limbs: [0, 1, 0, 0] }) },
    ];
    let balances = arrange_balances(4, &landings).unwrap();
    assert_eq!(
        balances,
        vec![
            RawAmount::from_u64(10),
            RawAmount { limbs: [0, 1, 0, 0] },
            RawAmount::from_u64(30),
            RawAmount::zero(),
        ]
    );
}

#[test]
fn run_of_failed_calls_still_gives_balances() {
    let landings = vec![Landing { position: 1, answer: None }, Landing { position: 0, answer: None }];
    assert_eq!(arrange_balances(2, &landings), Some(vec![RawAmount::zero(), RawAmount::zero()]));
}

#[test]
fn empty_run_gives_no_balances() {
    assert_eq!(arrange_balances(0, &Vec::new()), Some(Vec::new()));
}

#[test]
fn incomplete_runs_give_no_result() {
    let one = Landing { position: 0, answer: Some(RawAmount::from_u64(1)) };
    let other = Landing { position: 1, answer: None };
    // A landing is missing.
    assert_eq!(arrange_balances(2, &vec![one]), None);
    // A position is there twice.
    assert_eq!(arrange_balances(2, &vec![one, one]), None);
    // A position is out of range.
    assert_eq!(arrange_balances(2, &vec![one, Landing { position: 2, answer: None }]), None);
    // There is one landing too many.
    assert_eq!(arrange_balances(1, &vec![one, other]), None);
    assert_eq!(arrange_balances(2, &vec![other, one]).map(|b| b.len()), Some(2));
}
