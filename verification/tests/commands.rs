use trading::command::Balance;
use trading::command::Command;
use trading::command::DailyPrice;
use trading::command::DailyValue;
use trading::command::OrderBuy;
use trading::command::OrderSell;
use trading::command::Period;
use trading::command::Price;
use trading::command::Sender;
use trading::strategy::Account;
use trading::BacktestError;

#[test]
fn period_codes() {
    assert_eq!(Period::Day.as_str(), "D");
    assert_eq!(Period::Week.as_str(), "W");
    assert_eq!(Period::Month.as_str(), "M");
    assert_eq!(Period::Year.as_str(), "Y");
}

#[test]
fn price_command() {
    let cmd = Command::<Price>::new().ticker("005930".to_string());
    assert_eq!(cmd.path, "/uapi/domestic-stock/v1/quotations/inquire-price");
    assert_eq!(cmd.tr_id, "FHKST01010100");
    assert!(matches!(cmd.sender, Sender::GET));
    assert_eq!(cmd.body.fid_cond_mrkt_div_code, "J");
    assert_eq!(cmd.body.fid_input_iscd, "005930");
}

#[test]
fn daily_price_command() {
    let cmd = Command::<DailyPrice>::new().ticker("005930".to_string()).period(Period::Day);
    assert_eq!(cmd.path, "/uapi/domestic-stock/v1/quotations/inquire-daily-price");
    assert_eq!(cmd.tr_id, "FHKST01010400");
    assert!(matches!(cmd.sender, Sender::GET));
    assert_eq!(cmd.body.fid_input_iscd, "005930");
    assert_eq!(cmd.body.fid_period_div_code, "D");
    assert_eq!(cmd.body.fid_org_adj_prc, "0");
}

#[test]
fn balance_command() {
    let cmd = Command::<Balance>::new()
        .account_no("12345678".to_string())
        .account_cd("01".to_string());
    assert_eq!(cmd.path, "/uapi/domestic-stock/v1/trading/inquire-balance");
    assert_eq!(cmd.tr_id, "TTTC8434R");
    assert_eq!(cmd.body.CAN0, "12345678");
    assert_eq!(cmd.body.ACNT_PRDT_CD, "01");
    assert_eq!(cmd.body.AFHR_FLPR_YN, "N");
    assert_eq!(cmd.body.INQR_DVSN, "01");
    assert_eq!(cmd.body.UNPR_DVSN, "01");
    assert_eq!(cmd.body.FUND_STTL_ICLD_YN, "N");
    assert_eq!(cmd.body.FNCG_AMT_AUTO_RDPT_YN, "N");
    assert_eq!(cmd.body.PRCS_DVSN, "00");
}

#[test]
fn order_buy_command() {
    let cmd = Command::<OrderBuy>::new()
        .account_no("12345678".to_string())
        .account_cd("01".to_string())
        .ticker("005930".to_string())
        .count("1".to_string());
    assert_eq!(cmd.path, "/uapi/domestic-stock/v1/trading/order-cash");
    assert_eq!(cmd.tr_id, "TTTC0802U");
    assert!(matches!(cmd.sender, Sender::POST));
    assert_eq!(cmd.body.PDNO, "005930");
    assert_eq!(cmd.body.ORD_QTY, "1");
    assert_eq!(cmd.body.ORD_DVSN, "01");
    assert_eq!(cmd.body.ORD_UNPR, "0");
    assert_eq!(cmd.body.CAN0, "12345678");
    assert_eq!(cmd.body.ACNT_PRDT_CD, "01");
}

#[test]
fn order_sell_command() {
    let cmd = Command::<OrderSell>::new()
        .account_no("12345678".to_string())
        .account_cd("01".to_string())
        .ticker("005930".to_string())
        .count("2".to_string());
    assert_eq!(cmd.tr_id, "TTTC0801U");
    assert!(matches!(cmd.sender, Sender::POST));
    assert_eq!(cmd.body.PDNO, "005930");
    assert_eq!(cmd.body.ORD_QTY, "2");
}

#[test]
fn daily_value_command() {
    let cmd = Command::<DailyValue>::new()
        .ticker("005930".to_string())
        .date("20230101".to_string(), "20230512".to_string())
        .period(Period::Month);
    assert_eq!(cmd.path, "/uapi/domestic-stock/v1/quotations/inquire-daily-itemchartprice");
    assert_eq!(cmd.tr_id, "FHKST03010100");
    assert_eq!(cmd.body.FID_INPUT_DATE_1, "20230101");
    assert_eq!(cmd.body.FID_INPUT_DATE_2, "20230512");
    assert_eq!(cmd.body.fid_period_div_code, "M");
    assert_eq!(cmd.body.fid_input_iscd, "005930");
}

#[test]
fn account_starts_empty() {
    let account = Account::new("no".to_string(), "cd".to_string(), 1000);
    assert_eq!(account.account_no, "no");
    assert_eq!(account.account_cd, "cd");
    assert_eq!(account.amount, 1000);
    assert!(account.stocks.is_empty());
}

#[test]
fn buying_accumulates_per_symbol() {
    let mut account = Account::new("no".to_string(), "cd".to_string(), 0);
    account.buy_stock("A").unwrap();
    account.buy_stock("B").unwrap();
    account.buy_stock("A").unwrap();
    assert_eq!(account.stocks, vec![("A".to_string(), 2), ("B".to_string(), 1)]);
    assert_eq!(account.amount, 0);
}

#[test]
fn buying_at_max_quantity_overflows() {
    let mut account = Account::new("no".to_string(), "cd".to_string(), 0);
    account.stocks.push(("A".to_string(), u32::MAX));
    let r = account.buy_stock("A");
    assert!(matches!(r, Err(BacktestError::Overflow)));
    assert_eq!(account.stocks, vec![("A".to_string(), u32::MAX)]);
}

#[test]
fn settle_pays_and_credits() {
    let mut account = Account::new("no".to_string(), "cd".to_string(), 500);
    let r = account.settle("A", 200).unwrap();
    assert!(r);
    assert_eq!(account.amount, 300);
    assert_eq!(account.stocks, vec![("A".to_string(), 1)]);
}

#[test]
fn settle_unaffordable_changes_nothing() {
    let mut account = Account::new("no".to_string(), "cd".to_string(), 100);
    let r = account.settle("A", 200).unwrap();
    assert!(!r);
    assert_eq!(account.amount, 100);
    assert!(account.stocks.is_empty());
}

#[test]
fn settle_negative_price_can_overflow() {
    let mut account = Account::new("no".to_string(), "cd".to_string(), i32::MAX);
    let r = account.settle("A", -1);
    assert!(matches!(r, Err(BacktestError::Overflow)));
    assert_eq!(account.amount, i32::MAX);
    assert!(account.stocks.is_empty());
}

#[test]
fn ledger_conservation_over_a_sequence() {
    // Starting from 100, settling prices 60, 60, 30 pays the first and the
    // third (the second is unaffordable): cash ends at 100 - 90.
    let mut account = Account::new("no".to_string(), "cd".to_string(), 100);
    let mut paid = 0;
    for price in [60, 60, 30] {
        if account.settle("A", price).unwrap() {
            paid += price;
        }
    }
    assert_eq!(paid, 90);
    assert_eq!(account.amount, 100 - paid);
    assert_eq!(account.stocks, vec![("A".to_string(), 2)]);
}
