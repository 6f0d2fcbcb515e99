use spin_wheel::amount::Amount;
use spin_wheel::game::{LotteryError, Result, ResultType, SpinWheelGame};
use spin_wheel::ids::{Address, TokenId};

fn owner() -> Address {
    Address::new([1u8; 32])
}

fn player() -> Address {
    Address::new([2u8; 32])
}

fn two_prize_game() -> SpinWheelGame {
    let table = vec![
        ResultType::new(TokenId::new(b"ASSETA-000001".to_vec()), Amount::from_u128(100)),
        ResultType::new(TokenId::new(b"ASSETB-000002".to_vec()), Amount::from_u128(50)),
    ];
    match SpinWheelGame::init(
        owner(),
        TokenId::new(b"WHEEL-abcdef".to_vec()),
        Amount::from_u128(10),
        table,
    ) {
        Ok(g) => g,
        Err(e) => panic!("init failed: {:?}", e),
    }
}

fn records(game: &SpinWheelGame) -> Vec<(u32, [u8; 32], u64)> {
    game.results()
        .iter()
        .map(|r: &Result| (r.result_type, r.user_address.bytes, r.timestamp))
        .collect()
}

#[test]
fn draw_transfers_the_drawn_prize_and_records_it() {
    let mut game = two_prize_game();
    let prize = game
        .do_lottery(&player(), &TokenId::native(), &Amount::from_u128(10), 1_700_000_000, 1)
        .unwrap();
    assert_eq!(prize.token_id.name, b"ASSETB-000002".to_vec());
    assert_eq!(prize.amount, Amount::from_u128(50));
    let recent = game.get_recent_lottery_results(Some(1));
    assert_eq!(recent.len(), 1);
    assert_eq!(recent[0].result_type, 1);
    assert_eq!(recent[0].user_address, player());
    assert_eq!(recent[0].timestamp, 1_700_000_000);
}

#[test]
fn each_draw_adds_exactly_one_record() {
    let mut game = two_prize_game();
    for k in 0..5u32 {
        let before = game.results().len();
        let prize = game
            .do_lottery(&player(), &TokenId::native(), &Amount::from_u128(10), 100 + k as u64, k % 2)
            .unwrap();
        let after = game.results();
        assert_eq!(after.len(), before + 1);
        let last = after[after.len() - 1];
        let table = game.result_types();
        let expected = &table[last.result_type as usize];
        assert_eq!(prize.token_id.name, expected.token_id.name);
        assert_eq!(prize.amount, expected.amount);
    }
}

#[test]
fn overpayment_is_accepted() {
    let mut game = two_prize_game();
    let prize = game.do_lottery(&player(), &TokenId::native(), &Amount::new(1, 0), 5, 0).unwrap();
    assert_eq!(prize.amount, Amount::from_u128(100));
    assert_eq!(game.results().len(), 1);
}

#[test]
fn underpayment_is_refused_and_changes_nothing() {
    let mut game = two_prize_game();
    game.do_lottery(&player(), &TokenId::native(), &Amount::from_u128(10), 1, 0).unwrap();
    let before = records(&game);
    let r = game.do_lottery(&player(), &TokenId::native(), &Amount::from_u128(9), 2, 1);
    assert!(matches!(r, Err(LotteryError::InsufficientPayment)));
    assert_eq!(records(&game), before);
    assert_eq!(game.default_input_amount(), Amount::from_u128(10));
}

#[test]
fn payment_in_another_token_is_refused() {
    let mut game = two_prize_game();
    let r = game.do_lottery(&player(), &TokenId::new(b"EGLDX".to_vec()), &Amount::from_u128(10), 1, 0);
    assert!(matches!(r, Err(LotteryError::WrongAssetType)));
    let r = game.do_lottery(&player(), &TokenId::new(b"ASSETA-000001".to_vec()), &Amount::from_u128(5), 1, 0);
    assert!(matches!(r, Err(LotteryError::WrongAssetType)));
    assert!(game.results().is_empty());
}

#[test]
fn empty_ledger_gives_no_recent_results() {
    let game = two_prize_game();
    assert!(game.get_recent_lottery_results(None).is_empty());
    assert!(game.get_recent_lottery_results(Some(5)).is_empty());
    assert!(game.get_recent_lottery_results(Some(0)).is_empty());
}

#[test]
fn recent_results_are_most_recent_first_and_bounded() {
    let mut game = two_prize_game();
    for t in 0..25u64 {
        game.do_lottery(&player(), &TokenId::native(), &Amount::from_u128(10), t, (t % 2) as u32)
            .unwrap();
    }
    let three = game.get_recent_lottery_results(Some(3));
    let times: Vec<u64> = three.iter().map(|r| r.timestamp).collect();
    assert_eq!(times, vec![24, 23, 22]);
    let default = game.get_recent_lottery_results(None);
    assert_eq!(default.len(), 20);
    assert_eq!(default[0].timestamp, 24);
    assert_eq!(default[19].timestamp, 5);
    let all = game.get_recent_lottery_results(Some(1000));
    assert_eq!(all.len(), 25);
    assert_eq!(all[24].timestamp, 0);
    assert_eq!(game.get_recent_lottery_results(Some(0)).len(), 0);
}

#[test]
fn init_with_empty_prize_table_is_invalid() {
    let r = SpinWheelGame::init(owner(), TokenId::new(b"WHEEL-abcdef".to_vec()), Amount::from_u128(10), Vec::new());
    assert!(matches!(r, Err(LotteryError::InvalidConfiguration)));
}

#[test]
fn init_keeps_configuration_and_table() {
    let game = two_prize_game();
    assert_eq!(game.owner(), owner());
    assert_eq!(game.default_input_amount(), Amount::from_u128(10));
    assert_eq!(game.lottery_output_edst_token().name, b"WHEEL-abcdef".to_vec());
    assert_eq!(game.number_of_result_types(), 2);
    let table = game.result_types();
    assert_eq!(table[0].token_id.name, b"ASSETA-000001".to_vec());
    assert_eq!(table[1].amount, Amount::from_u128(50));
    assert!(game.results().is_empty());
}

#[test]
fn only_the_owner_changes_configuration() {
    let mut game = two_prize_game();
    let r = game.set_default_input_amount(&player(), Amount::from_u128(1));
    assert!(matches!(r, Err(LotteryError::Unauthorized)));
    let r = game.set_lottery_output_edst_token(&player(), TokenId::new(b"OTHER-123456".to_vec()));
    assert!(matches!(r, Err(LotteryError::Unauthorized)));
    assert_eq!(game.default_input_amount(), Amount::from_u128(10));
    assert_eq!(game.lottery_output_edst_token().name, b"WHEEL-abcdef".to_vec());

    assert!(game.set_default_input_amount(&owner(), Amount::from_u128(7)).is_ok());
    assert!(game.set_lottery_output_edst_token(&owner(), TokenId::new(b"OTHER-123456".to_vec())).is_ok());
    assert_eq!(game.default_input_amount(), Amount::from_u128(7));
    assert_eq!(game.lottery_output_edst_token().name, b"OTHER-123456".to_vec());
    let prize = game.do_lottery(&player(), &TokenId::native(), &Amount::from_u128(7), 3, 0);
    assert!(prize.is_ok());
}

#[test]
fn uniform_source_gives_uniform_prize_counts() {
    let table: Vec<ResultType> = (0..8u128)
        .map(|k| ResultType::new(TokenId::new(b"PRIZE-000000".to_vec()), Amount::from_u128(k)))
        .collect();
    let mut game = SpinWheelGame::init(owner(), TokenId::new(b"WHEEL-abcdef".to_vec()), Amount::from_u128(1), table)
        .unwrap();
    let n = game.number_of_result_types();
    // a uniform stub: a linear congruential sequence of full period 2^32, reduced into range
    let mut state: u32 = 12345;
    let draws = 8000u32;
    for t in 0..draws {
        state = state.wrapping_mul(1_664_525).wrapping_add(1_013_904_223);
        let index = (state >> 16) % n;
        game.do_lottery(&player(), &TokenId::native(), &Amount::from_u128(1), t as u64, index).unwrap();
    }
    let mut counts = vec![0u32; n as usize];
    for r in game.results() {
        counts[r.result_type as usize] += 1;
    }
    let expected = (draws / n) as i64;
    for c in counts {
        // well within five standard deviations (about 30 here)
        assert!((c as i64 - expected).abs() < 150, "count {} far from {}", c, expected);
    }
}

#[test]
fn amounts_compare_across_both_halves() {
    let small = Amount::from_u128(u128::MAX);
    let big = Amount::new(1, 0);
    assert!(big.ge(&small));
    assert!(!small.ge(&big));
    assert!(small.ge(&small));
    assert!(Amount::new(2, 0).ge(&Amount::new(1, u128::MAX)));
    assert!(!Amount::new(1, 5).ge(&Amount::new(1, 6)));
    assert!(Amount::from_u128(0).ge(&Amount::from_u128(0)));
}

#[test]
fn native_token_is_recognised() {
    assert!(TokenId::native().is_native());
    assert_eq!(TokenId::native().name, b"EGLD".to_vec());
    assert!(TokenId::new(b"EGLD".to_vec()).is_native());
    assert!(!TokenId::new(b"EGL".to_vec()).is_native());
    assert!(!TokenId::new(b"egld".to_vec()).is_native());
    assert!(!TokenId::new(Vec::new()).is_native());
}

#[test]
fn addresses_compare_bytewise() {
    assert!(owner().same_as(&owner()));
    assert!(!owner().same_as(&player()));
    let mut b = [1u8; 32];
    b[31] = 9;
    assert!(!owner().same_as(&Address::new(b)));
}

#[test]
fn amounts_round_trip_through_bytes() {
    let a = Amount::new(0x0102, 0x0304);
    let bytes = a.to_be_bytes();
    assert_eq!(bytes.len(), 32);
    assert_eq!(bytes[14], 0x01);
    assert_eq!(bytes[15], 0x02);
    assert_eq!(bytes[30], 0x03);
    assert_eq!(bytes[31], 0x04);
    assert_eq!(Amount::from_be_bytes(&bytes), Some(a));
    assert_eq!(Amount::from_be_bytes(&[0x01, 0x00]), Some(Amount::from_u128(256)));
    assert_eq!(Amount::from_be_bytes(&[]), Some(Amount::from_u128(0)));
    let mut max = vec![0u8; 3];
    max.extend_from_slice(&[0xffu8; 32]);
    assert_eq!(Amount::from_be_bytes(&max), Some(Amount::new(u128::MAX, u128::MAX)));
    let mut over = vec![1u8];
    over.extend_from_slice(&[0u8; 32]);
    assert_eq!(Amount::from_be_bytes(&over), None);
}

#[test]
fn restore_checks_the_ledger_against_the_table() {
    let table = || vec![ResultType::new(TokenId::new(b"ASSETA-000001".to_vec()), Amount::from_u128(100))];
    let good = vec![Result { result_type: 0, user_address: player(), timestamp: 3 }];
    let game = SpinWheelGame::restore(owner(), TokenId::native(), Amount::from_u128(1), table(), good).unwrap();
    assert_eq!(game.get_recent_lottery_results(None)[0].timestamp, 3);
    let bad = vec![Result { result_type: 1, user_address: player(), timestamp: 3 }];
    let r = SpinWheelGame::restore(owner(), TokenId::native(), Amount::from_u128(1), table(), bad);
    assert!(matches!(r, Err(LotteryError::InvalidConfiguration)));
    let r = SpinWheelGame::restore(owner(), TokenId::native(), Amount::from_u128(1), Vec::new(), Vec::new());
    assert!(matches!(r, Err(LotteryError::InvalidConfiguration)));
}
