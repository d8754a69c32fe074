use trading::command::BrokerCommand;
use trading::database::DataBase;
use trading::strategy::algorithm::get_momentum;
use trading::strategy::algorithm::Etc;
use trading::strategy::Account;
use trading::strategy::PriceMomentumStrategyIterator;
use trading::strategy::Strategy;
use trading::strategy::TestStrategyIterator;
use trading::time_runner::TimeRunner;
use trading::time_runner::Valuation;
use trading::BacktestError;

/// One raw bar row: date, OHLC (open and close given, high/low derived),
/// volume, amount, performance.
fn row(date: u32, open: i32, close: i32) -> Vec<String> {
    vec![
        date.to_string(),
        open.to_string(),
        (open + 1).to_string(),
        (open - 1).to_string(),
        close.to_string(),
        "1000".to_string(),
        "100000".to_string(),
        "0.01".to_string(),
    ]
}

/// A store with symbol "A" flat at 100 and symbol "B" rising one unit per
/// day from 101, over `days` trading days (dates 20200001, 20200002, ...),
/// with "A" as the reference symbol.
fn sample_store(days: i32) -> DataBase {
    let mut table_a = Vec::new();
    let mut table_b = Vec::new();
    for i in 1..=days {
        table_a.push(row(20200000 + i as u32, 100, 100));
        table_b.push(row(20200000 + i as u32, 100 + i, 100 + i));
    }
    DataBase::new(
        vec!["A".to_string(), "B".to_string()],
        vec![table_a, table_b],
        0,
    )
    .unwrap()
}

#[test]
fn store_construction_and_layout() {
    let db = sample_store(3);
    assert_eq!(db.stock_list, vec!["A".to_string(), "B".to_string()]);
    // The calendar is ascending, the bars are newest-first.
    assert_eq!(db.date_list, vec![20200001, 20200002, 20200003]);
    assert_eq!(db.db[1][0].close_price, 103);
    assert_eq!(db.db[1][2].close_price, 101);
    assert_eq!(db.db[0][0].date, 20200003);
    assert_eq!(db.db[0][0].volume, 1000);
    assert_eq!(db.db[0][0].amount, 100000);
}

#[test]
fn store_rejects_malformed_row() {
    let table = vec![row(20200001, 100, 100), {
        let mut bad = row(20200002, 100, 100);
        bad[1] = "12x".to_string();
        bad
    }];
    let r = DataBase::new(vec!["A".to_string()], vec![table], 0);
    match r {
        Err(BacktestError::MalformedRecord { stock, row }) => {
            assert_eq!(stock, "A");
            assert_eq!(row, 1);
        }
        _ => panic!("expected a malformed record"),
    }
}

#[test]
fn store_rejects_wrong_arity() {
    let mut bad = row(20200001, 100, 100);
    bad.pop();
    let r = DataBase::new(vec!["A".to_string()], vec![vec![bad]], 0);
    assert!(matches!(r, Err(BacktestError::MalformedRecord { row: 0, .. })));
}

#[test]
fn store_rejects_out_of_order_dates() {
    let table = vec![row(20200002, 100, 100), row(20200001, 100, 100)];
    let r = DataBase::new(vec!["A".to_string()], vec![table], 0);
    assert!(matches!(r, Err(BacktestError::MalformedRecord { row: 1, .. })));
}

#[test]
fn store_rejects_duplicate_dates() {
    let table = vec![row(20200001, 100, 100), row(20200001, 100, 100)];
    let r = DataBase::new(vec!["A".to_string()], vec![table], 0);
    assert!(matches!(r, Err(BacktestError::MalformedRecord { row: 1, .. })));
}

#[test]
fn get_columns_finds_known_symbols_only() {
    let db = sample_store(3);
    assert!(db.get_columns("A").is_some());
    assert_eq!(db.get_columns("B").unwrap()[0].close_price, 103);
    assert!(db.get_columns("Z").is_none());
}

#[test]
fn date_resolution_lower_bound() {
    let db = sample_store(5);
    // A present date resolves to its own position.
    assert_eq!(db.idx_from_date(20200001), 0);
    assert_eq!(db.idx_from_date(20200003), 2);
    assert_eq!(db.idx_from_date(20200005), 4);
    // An absent date resolves to its insertion point.
    assert_eq!(db.idx_from_date(20190101), 0);
    assert_eq!(db.idx_from_date(20200006), 5);
}

#[test]
fn date_resolution_monotonic() {
    // Two dates both present in the calendar resolve in strict order.
    let db = sample_store(10);
    for i in 1..=10u32 {
        for j in (i + 1)..=10u32 {
            let r1 = db.idx_from_date(20200000 + i);
            let r2 = db.idx_from_date(20200000 + j);
            assert!(r1 < r2);
        }
    }
}

#[test]
fn momentum_unavailable_iff_window_too_short() {
    let db = sample_store(242);
    let cols = &db.db[0];
    // 242 bars: at start 2 the window holds exactly 240 bars.
    assert_eq!(get_momentum(cols, 2, 1, 240).unwrap(), None);
    assert!(get_momentum(cols, 1, 1, 240).unwrap().is_some());
    assert!(get_momentum(cols, 0, 1, 240).unwrap().is_some());
}

#[test]
fn momentum_of_constant_price_is_zero() {
    let db = sample_store(242);
    let cols = &db.db[0];
    for (skip, horizon) in [(1usize, 240usize), (0, 240), (1, 100), (5, 17)] {
        let m = get_momentum(cols, 0, skip, horizon).unwrap().unwrap();
        assert_eq!(m.num, 0);
        assert!(m.den > 0);
    }
}

#[test]
fn momentum_of_rising_price_is_positive() {
    let db = sample_store(242);
    let cols = &db.db[1];
    // close one day back is 341, close 240 days back is 102:
    // momentum = 341/102 - 1 = 239/102.
    let m = get_momentum(cols, 0, 1, 240).unwrap().unwrap();
    assert_eq!(m.num, 239);
    assert_eq!(m.den, 102);
}

#[test]
fn momentum_zero_close_is_division_by_zero() {
    let mut table = Vec::new();
    for i in 1..=242 {
        table.push(row(20200000 + i as u32, 100, if i == 2 { 0 } else { 100 }));
    }
    let db = DataBase::new(vec!["Z".to_string()], vec![table], 0).unwrap();
    // Newest-first, the zero close of day 2 sits exactly 240 bars back.
    let r = get_momentum(&db.db[0], 0, 1, 240);
    assert!(matches!(r, Err(BacktestError::DivisionByZero)));
    let mut account = Account::new("no".to_string(), "cd".to_string(), 1000);
    let r = db.momentum_step(0, &mut account);
    assert!(matches!(r, Err(BacktestError::DivisionByZero)));
    assert_eq!(account.amount, 1000);
}

#[test]
fn ranking_selects_highest_momentum() {
    // "A" is flat (momentum 0), "B" rises (momentum > 0): the ranking
    // phase must select "B" and emit a one-unit buy order for it.
    let db = sample_store(242);
    let mut account = Account::new("no".to_string(), "cd".to_string(), 2_500_000);
    let cmds = db.momentum_step(0, &mut account).unwrap().unwrap();
    assert_eq!(cmds.len(), 1);
    match &cmds[0] {
        BrokerCommand::OrderBuy(c) => {
            assert_eq!(c.body.PDNO, "B");
            assert_eq!(c.body.ORD_QTY, "1");
            assert_eq!(c.body.CAN0, "no");
            assert_eq!(c.body.ACNT_PRDT_CD, "cd");
        }
        _ => panic!("expected a buy order"),
    }
    // The most recent day only signals; the ledger is untouched.
    assert_eq!(account.amount, 2_500_000);
    assert!(account.stocks.is_empty());
}

#[test]
fn ranking_is_order_independent() {
    // The same data with the symbol list permuted selects the same symbol.
    let mut table_a = Vec::new();
    let mut table_b = Vec::new();
    for i in 1..=242 {
        table_a.push(row(20200000 + i as u32, 100, 100));
        table_b.push(row(20200000 + i as u32, 100 + i, 100 + i));
    }
    let db1 = DataBase::new(
        vec!["A".to_string(), "B".to_string()],
        vec![table_a.clone(), table_b.clone()],
        0,
    )
    .unwrap();
    let db2 = DataBase::new(
        vec!["B".to_string(), "A".to_string()],
        vec![table_b, table_a],
        1,
    )
    .unwrap();
    let mut a1 = Account::new("no".to_string(), "cd".to_string(), 0);
    let mut a2 = Account::new("no".to_string(), "cd".to_string(), 0);
    let pick = |r: Option<Vec<BrokerCommand>>| {
        let mut cmds = r.unwrap();
        match cmds.remove(0) {
            BrokerCommand::OrderBuy(c) => c.body.PDNO,
            _ => panic!("expected a buy order"),
        }
    };
    assert_eq!(pick(db1.momentum_step(0, &mut a1).unwrap()), "B");
    assert_eq!(pick(db2.momentum_step(0, &mut a2).unwrap()), "B");
}

#[test]
fn settlement_debits_and_credits() {
    let db = sample_store(242);
    let mut account = Account::new("no".to_string(), "cd".to_string(), 2_500_000);
    // At idx 1 the prior signal settles at "B"'s open one bar later, the
    // most recent open: 342.
    let r = db.momentum_step(1, &mut account).unwrap();
    assert!(r.is_none());
    assert_eq!(account.amount, 2_500_000 - 342);
    assert_eq!(account.stocks, vec![("B".to_string(), 1)]);
}

#[test]
fn settlement_affordability_gate() {
    let db = sample_store(242);
    let mut account = Account::new("no".to_string(), "cd".to_string(), 341);
    let r = db.momentum_step(1, &mut account).unwrap();
    assert!(r.is_none());
    // 341 < 342: the step must leave cash and holdings unchanged.
    assert_eq!(account.amount, 341);
    assert!(account.stocks.is_empty());
}

#[test]
fn no_candidates_is_a_quiet_day() {
    // 240 days of history: the momentum window is one bar short for every
    // symbol, so the day is skipped without error.
    let db = sample_store(240);
    let mut account = Account::new("no".to_string(), "cd".to_string(), 1000);
    let r = db.momentum_step(0, &mut account).unwrap();
    assert!(r.is_none());
    assert_eq!(account.amount, 1000);
}

#[test]
fn test_strategy_bundle() {
    let mut db = sample_store(3);
    let account = Account::new("12345678".to_string(), "01".to_string(), 0);
    let cmds = TestStrategyIterator::next(&mut db, 0, &account).unwrap();
    assert_eq!(cmds.len(), 5);
    assert!(matches!(cmds[0], BrokerCommand::Price(_)));
    assert!(matches!(cmds[1], BrokerCommand::DailyPrice(_)));
    assert!(matches!(cmds[2], BrokerCommand::Balance(_)));
    assert!(matches!(cmds[3], BrokerCommand::OrderBuy(_)));
    assert!(matches!(cmds[4], BrokerCommand::OrderSell(_)));
    match &cmds[3] {
        BrokerCommand::OrderBuy(c) => {
            assert_eq!(c.body.PDNO, "005930");
            assert_eq!(c.body.CAN0, "12345678");
        }
        _ => unreachable!(),
    }
}

#[test]
fn momentum_iterator_settles_like_the_step() {
    let mut db = sample_store(242);
    let mut account = Account::new("no".to_string(), "cd".to_string(), 2_500_000);
    let r = PriceMomentumStrategyIterator::next(&mut db, 1, &mut account).unwrap();
    assert!(r.is_none());
    assert_eq!(account.amount, 2_500_000 - 342);
}

#[test]
fn valuation_scenario() {
    // An account with 2,500,000 cash settles one purchase of "B" at open
    // price 100; the store's latest open for "B" is 150, so the report is
    // 150 stock + 2,499,900 cash = 2,500,050.
    let table_a = vec![row(20200001, 100, 100)];
    let table_b = vec![row(20200001, 150, 150)];
    let db = DataBase::new(
        vec!["A".to_string(), "B".to_string()],
        vec![table_a, table_b],
        0,
    )
    .unwrap();
    let mut account = Account::new("no".to_string(), "cd".to_string(), 2_500_000);
    assert!(account.settle("B", 100).unwrap());
    assert_eq!(account.amount, 2_499_900);
    let stock_value = db.calc_all_cell(&account.stocks).unwrap();
    assert_eq!(stock_value, 150);
    assert_eq!(stock_value + account.amount, 2_500_050);
}

#[test]
fn valuation_of_unknown_symbol_fails() {
    let db = sample_store(3);
    let mut account = Account::new("no".to_string(), "cd".to_string(), 1000);
    account.buy_stock("Z").unwrap();
    let r = db.calc_all_cell(&account.stocks);
    match r {
        Err(BacktestError::DataUnavailable { stock }) => assert_eq!(stock, "Z"),
        _ => panic!("expected unavailable data"),
    }
}

#[test]
fn backtest_two_days_end_to_end() {
    // Run both strategies over the last two trading days: the momentum
    // strategy settles "B" at 342 on the first day and only signals on the
    // second, so its total valuation is conserved at the starting cash.
    let db = sample_store(242);
    let mut runner = TimeRunner::new(db);
    let account = Account::new("no".to_string(), "cd".to_string(), 2_500_000);
    let mut strategies = vec![
        Strategy::Test(account.clone()),
        Strategy::PriceMomentum(account),
    ];
    let vals = runner
        .run_back_test(20200241, 20200242, &mut strategies)
        .unwrap();
    assert_eq!(
        vals,
        vec![
            Valuation { stock_value: 0, amount: 2_500_000, total: 2_500_000 },
            Valuation { stock_value: 342, amount: 2_500_000 - 342, total: 2_500_000 },
        ]
    );
    match &strategies[1] {
        Strategy::PriceMomentum(a) => {
            assert_eq!(a.stocks, vec![("B".to_string(), 1)]);
        }
        _ => panic!("expected the momentum strategy"),
    }
}

#[test]
fn backtest_empty_range_only_values() {
    // A start date beyond the calendar resolves past the end date: no day
    // is stepped and the accounts are valued as they came in.
    let db = sample_store(242);
    let mut runner = TimeRunner::new(db);
    let account = Account::new("no".to_string(), "cd".to_string(), 7);
    let mut strategies = vec![Strategy::PriceMomentum(account)];
    let vals = runner
        .run_back_test(20200243, 20200242, &mut strategies)
        .unwrap();
    assert_eq!(vals, vec![Valuation { stock_value: 0, amount: 7, total: 7 }]);
}

#[test]
fn settlement_overflow_is_fatal() {
    // "B" has the best momentum but a negative open price on the
    // settlement bar; paying it would push the cash above `i32::MAX`.
    let mut table_a = Vec::new();
    let mut table_b = Vec::new();
    for i in 1..=242 {
        table_a.push(row(20200000 + i as u32, 100, 100));
        let open = if i == 242 { -1 } else { 100 + i };
        table_b.push(row(20200000 + i as u32, open, 100 + i));
    }
    let db = DataBase::new(
        vec!["A".to_string(), "B".to_string()],
        vec![table_a, table_b],
        0,
    )
    .unwrap();
    let mut account = Account::new("no".to_string(), "cd".to_string(), i32::MAX);
    let r = db.momentum_step(1, &mut account);
    assert!(matches!(r, Err(BacktestError::Overflow)));
    assert_eq!(account.amount, i32::MAX);
    assert!(account.stocks.is_empty());
}

#[test]
fn backtest_reports_unvaluable_holding() {
    // An account arrives already holding a symbol the store does not know:
    // the final valuation fails and names that symbol.
    let db = sample_store(3);
    let mut runner = TimeRunner::new(db);
    let mut account = Account::new("no".to_string(), "cd".to_string(), 1000);
    account.buy_stock("Z").unwrap();
    let mut strategies = vec![Strategy::PriceMomentum(account)];
    let r = runner.run_back_test(20200001, 20200003, &mut strategies);
    match r {
        Err(BacktestError::DataUnavailable { stock }) => assert_eq!(stock, "Z"),
        _ => panic!("expected unavailable data"),
    }
}

#[test]
fn backtest_propagates_division_by_zero() {
    let mut table = Vec::new();
    for i in 1..=242 {
        table.push(row(20200000 + i as u32, 100, if i == 1 { 0 } else { 100 }));
    }
    let db = DataBase::new(vec!["Z".to_string()], vec![table], 0).unwrap();
    let mut runner = TimeRunner::new(db);
    let account = Account::new("no".to_string(), "cd".to_string(), 1000);
    let mut strategies = vec![Strategy::PriceMomentum(account)];
    // At the oldest runnable day (idx 241 is out of history, so the range
    // starts where the window is full), the zero close of day 1 sits at
    // the horizon when idx = 1.
    let r = runner.run_back_test(20200241, 20200242, &mut strategies);
    assert!(matches!(r, Err(BacktestError::DivisionByZero)));
}
