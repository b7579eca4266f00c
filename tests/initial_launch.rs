use multisig::initial_launch::{InitialLaunchBlocks, InitialLaunchInfo, InitialLaunchModule, LaunchError};

fn addr(n: u8) -> [u8; 32] {
    [n; 32]
}

fn launch() -> InitialLaunchModule {
    let blocks = InitialLaunchBlocks { start: 100, end: 110 };
    let info = InitialLaunchInfo {
        account_buy_limit: 1_000,
        tx_buy_limit: 400,
        buy_fee_percentage_start: 1_000,
        buy_fee_percentage_end: 500,
        sell_fee_percentage_start: 2_000,
        sell_fee_percentage_end: 1_000,
    };
    InitialLaunchModule::new(blocks, info, vec![addr(1)])
}

#[test]
fn fee_falls_over_the_launch() {
    let l = launch();
    assert_eq!(l.get_fee_percentage(100, 1_000, 500), Ok(1_000));
    assert_eq!(l.get_fee_percentage(105, 1_000, 500), Ok(723));
    assert_eq!(l.get_fee_percentage(110, 1_000, 500), Ok(445));
    assert_eq!(l.get_fee_percentage(111, 1_000, 500), Err(LaunchError::InvalidBuySellBlock));
}

#[test]
fn trades_need_a_known_pair_during_the_launch() {
    let l = launch();
    assert_eq!(l.buy_token_fee_percentage(101, &addr(1)), Ok(945));
    assert_eq!(l.sell_token_fee_percentage(101, &addr(1)), Ok(1_889));
    assert_eq!(l.buy_token_fee_percentage(101, &addr(2)), Err(LaunchError::UnknownPair));
    assert_eq!(l.buy_token_fee_percentage(120, &addr(1)), Err(LaunchError::InitialLaunchPassed));
    assert_eq!(l.require_initial_launch(110), Ok(()));
    assert_eq!(l.require_not_initial_launch(110), Err(LaunchError::InitialLaunchRunning));
    assert_eq!(l.require_not_initial_launch(111), Ok(()));
}

#[test]
fn purchases_respect_limits() {
    let mut l = launch();
    let buyer = addr(7);
    assert_eq!(l.record_bought_tokens(&buyer, 401), Err(LaunchError::TxLimitExceeded));
    assert_eq!(l.record_bought_tokens(&buyer, 400), Ok(400));
    assert_eq!(l.record_bought_tokens(&buyer, 400), Ok(800));
    assert_eq!(l.record_bought_tokens(&buyer, 201), Err(LaunchError::TotalBuyExceeded));
    assert_eq!(l.record_bought_tokens(&buyer, 200), Ok(1_000));
    assert_eq!(l.record_bought_tokens(&addr(8), 300), Ok(300));
}
