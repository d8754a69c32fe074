//! Broker commands as plain tagged records.
//!
//! A command is data only: a resource path, a transaction id, an HTTP method
//! and a typed key-value payload.  Strategies construct commands; the
//! surrounding program is free to serialise and dispatch them, or to drop
//! them, which is a valid terminal state of a simulation run.

use vstd::prelude::*;

verus! {

/// Granularity selector for price-history requests.
pub enum Period {
    Day,
    Week,
    Month,
    Year,
}

impl Period {
    /// The wire code of the period, as the quotation endpoints expect it.
    pub fn as_str(&self) -> (r: &'static str)
        ensures
            self is Day ==> r@ == "D"@,
            self is Week ==> r@ == "W"@,
            self is Month ==> r@ == "M"@,
            self is Year ==> r@ == "Y"@,
    {
        match self {
            Period::Day => "D",
            Period::Week => "W",
            Period::Month => "M",
            Period::Year => "Y",
        }
    }
}

/// The HTTP method a command is meant to travel with.
pub enum Sender {
    GET,
    POST,
}

/// One broker request: endpoint path, transaction id, method and payload.
pub struct Command<T> {
    pub path: &'static str,
    pub tr_id: &'static str,
    pub sender: Sender,
    pub body: T,
}

/// Payload of a current-price quotation request.
#[allow(non_snake_case)]
pub struct Price {
    pub fid_cond_mrkt_div_code: String,
    pub fid_input_iscd: String,
}

/// Payload of a daily-price quotation request.
#[allow(non_snake_case)]
pub struct DailyPrice {
    pub fid_cond_mrkt_div_code: String,
    pub fid_input_iscd: String,
    pub fid_period_div_code: String,
    pub fid_org_adj_prc: String,
}

/// Payload of an account-balance inquiry.
#[allow(non_snake_case)]
pub struct Balance {
    pub fid_cond_mrkt_div_code: String,
    pub fid_input_iscd: String,
    pub CAN0: String,
    pub ACNT_PRDT_CD: String,
    pub AFHR_FLPR_YN: String,
    pub OFL_YN: String,
    pub INQR_DVSN: String,
    pub UNPR_DVSN: String,
    pub FUND_STTL_ICLD_YN: String,
    pub FNCG_AMT_AUTO_RDPT_YN: String,
    pub PRCS_DVSN: String,
    pub CTX_AREA_FK100: String,
    pub CTX_AREA_NK100: String,
}

/// Payload of a cash buy order.
#[allow(non_snake_case)]
pub struct OrderBuy {
    pub CAN0: String,
    pub ACNT_PRDT_CD: String,
    pub PDNO: String,
    pub ORD_DVSN: String,
    pub ORD_QTY: String,
    pub ORD_UNPR: String,
}

/// Payload of a cash sell order.
#[allow(non_snake_case)]
pub struct OrderSell {
    pub CAN0: String,
    pub ACNT_PRDT_CD: String,
    pub PDNO: String,
    pub ORD_DVSN: String,
    pub ORD_QTY: String,
    pub ORD_UNPR: String,
}

/// Payload of a daily-chart (period value) quotation request.
#[allow(non_snake_case)]
pub struct DailyValue {
    pub fid_cond_mrkt_div_code: String,
    pub fid_input_iscd: String,
    pub FID_INPUT_DATE_1: String,
    pub FID_INPUT_DATE_2: String,
    pub fid_period_div_code: String,
    pub fid_org_adj_prc: String,
}

/// A closed union over every command kind a strategy can emit, so that the
/// surrounding program can pattern-match on the payload to serialise it.
pub enum BrokerCommand {
    Price(Command<Price>),
    DailyPrice(Command<DailyPrice>),
    Balance(Command<Balance>),
    OrderBuy(Command<OrderBuy>),
    OrderSell(Command<OrderSell>),
    DailyValue(Command<DailyValue>),
}

impl Command<Price> {
    /// A current-price inquiry with the market code set and an empty ticker.
    pub fn new() -> (r: Self)
        ensures
            r.path@ == "/uapi/domestic-stock/v1/quotations/inquire-price"@,
            r.tr_id@ == "FHKST01010100"@,
            r.sender is GET,
            r.body.fid_cond_mrkt_div_code@ == "J"@,
            r.body.fid_input_iscd@ == Seq::<char>::empty(),
    {
        Command {
            path: "/uapi/domestic-stock/v1/quotations/inquire-price",
            tr_id: "FHKST01010100",
            sender: Sender::GET,
            body: Price { fid_cond_mrkt_div_code: "J".to_owned(), fid_input_iscd: String::new() },
        }
    }

    /// Sets the ticker to ask about; every other field is kept.
    pub fn ticker(self, ticker: String) -> (r: Self)
        ensures
            r.body.fid_input_iscd == ticker,
            r.body.fid_cond_mrkt_div_code == self.body.fid_cond_mrkt_div_code,
            r.path == self.path,
            r.tr_id == self.tr_id,
            r.sender == self.sender,
    {
        let mut this = self;
        this.body.fid_input_iscd = ticker;
        this
    }
}

impl Command<DailyPrice> {
    /// A daily-price inquiry with market code and price-adjustment flag set.
    pub fn new() -> (r: Self)
        ensures
            r.path@ == "/uapi/domestic-stock/v1/quotations/inquire-daily-price"@,
            r.tr_id@ == "FHKST01010400"@,
            r.sender is GET,
            r.body.fid_cond_mrkt_div_code@ == "J"@,
            r.body.fid_org_adj_prc@ == "0"@,
            r.body.fid_input_iscd@ == Seq::<char>::empty(),
            r.body.fid_period_div_code@ == Seq::<char>::empty(),
    {
        Command {
            path: "/uapi/domestic-stock/v1/quotations/inquire-daily-price",
            tr_id: "FHKST01010400",
            sender: Sender::GET,
            body: DailyPrice {
                fid_cond_mrkt_div_code: "J".to_owned(),
                fid_input_iscd: String::new(),
                fid_period_div_code: String::new(),
                fid_org_adj_prc: "0".to_owned(),
            },
        }
    }

    /// Sets the ticker to ask about; every other field is kept.
    pub fn ticker(self, ticker: String) -> (r: Self)
        ensures
            r.body.fid_input_iscd == ticker,
            r.body.fid_cond_mrkt_div_code == self.body.fid_cond_mrkt_div_code,
            r.body.fid_period_div_code == self.body.fid_period_div_code,
            r.body.fid_org_adj_prc == self.body.fid_org_adj_prc,
            r.path == self.path,
            r.tr_id == self.tr_id,
            r.sender == self.sender,
    {
        let mut this = self;
        this.body.fid_input_iscd = ticker;
        this
    }

    /// Sets the history granularity; every other field is kept.
    pub fn period(self, period: Period) -> (r: Self)
        ensures
            period is Day ==> r.body.fid_period_div_code@ == "D"@,
            period is Week ==> r.body.fid_period_div_code@ == "W"@,
            period is Month ==> r.body.fid_period_div_code@ == "M"@,
            period is Year ==> r.body.fid_period_div_code@ == "Y"@,
            r.body.fid_input_iscd == self.body.fid_input_iscd,
            r.body.fid_cond_mrkt_div_code == self.body.fid_cond_mrkt_div_code,
            r.body.fid_org_adj_prc == self.body.fid_org_adj_prc,
            r.path == self.path,
            r.tr_id == self.tr_id,
            r.sender == self.sender,
    {
        let mut this = self;
        this.body.fid_period_div_code = period.as_str().to_owned();
        this
    }
}

impl Command<Balance> {
    /// A balance inquiry with the fixed query flags set and account fields empty.
    pub fn new() -> (r: Self)
        ensures
            r.path@ == "/uapi/domestic-stock/v1/trading/inquire-balance"@,
            r.tr_id@ == "TTTC8434R"@,
            r.sender is GET,
            r.body.AFHR_FLPR_YN@ == "N"@,
            r.body.INQR_DVSN@ == "01"@,
            r.body.UNPR_DVSN@ == "01"@,
            r.body.FUND_STTL_ICLD_YN@ == "N"@,
            r.body.FNCG_AMT_AUTO_RDPT_YN@ == "N"@,
            r.body.PRCS_DVSN@ == "00"@,
            r.body.CAN0@ == Seq::<char>::empty(),
            r.body.ACNT_PRDT_CD@ == Seq::<char>::empty(),
            r.body.fid_cond_mrkt_div_code@ == Seq::<char>::empty(),
            r.body.fid_input_iscd@ == Seq::<char>::empty(),
            r.body.OFL_YN@ == Seq::<char>::empty(),
            r.body.CTX_AREA_FK100@ == Seq::<char>::empty(),
            r.body.CTX_AREA_NK100@ == Seq::<char>::empty(),
    {
        Command {
            path: "/uapi/domestic-stock/v1/trading/inquire-balance",
            tr_id: "TTTC8434R",
            sender: Sender::GET,
            body: Balance {
                fid_cond_mrkt_div_code: String::new(),
                fid_input_iscd: String::new(),
                CAN0: String::new(),
                ACNT_PRDT_CD: String::new(),
                AFHR_FLPR_YN: "N".to_owned(),
                OFL_YN: String::new(),
                INQR_DVSN: "01".to_owned(),
                UNPR_DVSN: "01".to_owned(),
                FUND_STTL_ICLD_YN: "N".to_owned(),
                FNCG_AMT_AUTO_RDPT_YN: "N".to_owned(),
                PRCS_DVSN: "00".to_owned(),
                CTX_AREA_FK100: String::new(),
                CTX_AREA_NK100: String::new(),
            },
        }
    }

    /// Sets the account number; every other field is kept.
    pub fn account_no(self, account_no: String) -> (r: Self)
        ensures
            r.body.CAN0 == account_no,
            r.body.ACNT_PRDT_CD == self.body.ACNT_PRDT_CD,
            r.body.fid_cond_mrkt_div_code == self.body.fid_cond_mrkt_div_code,
            r.body.fid_input_iscd == self.body.fid_input_iscd,
            r.body.AFHR_FLPR_YN == self.body.AFHR_FLPR_YN,
            r.body.OFL_YN == self.body.OFL_YN,
            r.body.INQR_DVSN == self.body.INQR_DVSN,
            r.body.UNPR_DVSN == self.body.UNPR_DVSN,
            r.body.FUND_STTL_ICLD_YN == self.body.FUND_STTL_ICLD_YN,
            r.body.FNCG_AMT_AUTO_RDPT_YN == self.body.FNCG_AMT_AUTO_RDPT_YN,
            r.body.PRCS_DVSN == self.body.PRCS_DVSN,
            r.body.CTX_AREA_FK100 == self.body.CTX_AREA_FK100,
            r.body.CTX_AREA_NK100 == self.body.CTX_AREA_NK100,
            r.path == self.path,
            r.tr_id == self.tr_id,
            r.sender == self.sender,
    {
        let mut this = self;
        this.body.CAN0 = account_no;
        this
    }

    /// Sets the account product code; every other field is kept.
    pub fn account_cd(self, account_cd: String) -> (r: Self)
        ensures
            r.body.ACNT_PRDT_CD == account_cd,
            r.body.CAN0 == self.body.CAN0,
            r.body.fid_cond_mrkt_div_code == self.body.fid_cond_mrkt_div_code,
            r.body.fid_input_iscd == self.body.fid_input_iscd,
            r.body.AFHR_FLPR_YN == self.body.AFHR_FLPR_YN,
            r.body.OFL_YN == self.body.OFL_YN,
            r.body.INQR_DVSN == self.body.INQR_DVSN,
            r.body.UNPR_DVSN == self.body.UNPR_DVSN,
            r.body.FUND_STTL_ICLD_YN == self.body.FUND_STTL_ICLD_YN,
            r.body.FNCG_AMT_AUTO_RDPT_YN == self.body.FNCG_AMT_AUTO_RDPT_YN,
            r.body.PRCS_DVSN == self.body.PRCS_DVSN,
            r.body.CTX_AREA_FK100 == self.body.CTX_AREA_FK100,
            r.body.CTX_AREA_NK100 == self.body.CTX_AREA_NK100,
            r.path == self.path,
            r.tr_id == self.tr_id,
            r.sender == self.sender,
    {
        let mut this = self;
        this.body.ACNT_PRDT_CD = account_cd;
        this
    }
}

impl Command<OrderBuy> {
    /// A market buy order with division and unit-price flags set.
    pub fn new() -> (r: Self)
        ensures
            r.path@ == "/uapi/domestic-stock/v1/trading/order-cash"@,
            r.tr_id@ == "TTTC0802U"@,
            r.sender is POST,
            r.body.ORD_DVSN@ == "01"@,
            r.body.ORD_UNPR@ == "0"@,
            r.body.CAN0@ == Seq::<char>::empty(),
            r.body.ACNT_PRDT_CD@ == Seq::<char>::empty(),
            r.body.PDNO@ == Seq::<char>::empty(),
            r.body.ORD_QTY@ == Seq::<char>::empty(),
    {
        Command {
            path: "/uapi/domestic-stock/v1/trading/order-cash",
            tr_id: "TTTC0802U",
            sender: Sender::POST,
            body: OrderBuy {
                CAN0: String::new(),
                ACNT_PRDT_CD: String::new(),
                PDNO: String::new(),
                ORD_DVSN: "01".to_owned(),
                ORD_QTY: String::new(),
                ORD_UNPR: "0".to_owned(),
            },
        }
    }

    /// Sets the account number; every other field is kept.
    pub fn account_no(self, account_no: String) -> (r: Self)
        ensures
            r.body.CAN0 == account_no,
            r.body.ACNT_PRDT_CD == self.body.ACNT_PRDT_CD,
            r.body.PDNO == self.body.PDNO,
            r.body.ORD_QTY == self.body.ORD_QTY,
            r.body.ORD_DVSN == self.body.ORD_DVSN,
            r.body.ORD_UNPR == self.body.ORD_UNPR,
            r.path == self.path,
            r.tr_id == self.tr_id,
            r.sender == self.sender,
    {
        let mut this = self;
        this.body.CAN0 = account_no;
        this
    }

    /// Sets the account product code; every other field is kept.
    pub fn account_cd(self, account_cd: String) -> (r: Self)
        ensures
            r.body.ACNT_PRDT_CD == account_cd,
            r.body.CAN0 == self.body.CAN0,
            r.body.PDNO == self.body.PDNO,
            r.body.ORD_QTY == self.body.ORD_QTY,
            r.body.ORD_DVSN == self.body.ORD_DVSN,
            r.body.ORD_UNPR == self.body.ORD_UNPR,
            r.path == self.path,
            r.tr_id == self.tr_id,
            r.sender == self.sender,
    {
        let mut this = self;
        this.body.ACNT_PRDT_CD = account_cd;
        this
    }

    /// Sets the ticker to buy; every other field is kept.
    pub fn ticker(self, ticker: String) -> (r: Self)
        ensures
            r.body.PDNO == ticker,
            r.body.CAN0 == self.body.CAN0,
            r.body.ACNT_PRDT_CD == self.body.ACNT_PRDT_CD,
            r.body.ORD_QTY == self.body.ORD_QTY,
            r.body.ORD_DVSN == self.body.ORD_DVSN,
            r.body.ORD_UNPR == self.body.ORD_UNPR,
            r.path == self.path,
            r.tr_id == self.tr_id,
            r.sender == self.sender,
    {
        let mut this = self;
        this.body.PDNO = ticker;
        this
    }

    /// Sets the ordered quantity; every other field is kept.
    pub fn count(self, count: String) -> (r: Self)
        ensures
            r.body.ORD_QTY == count,
            r.body.CAN0 == self.body.CAN0,
            r.body.ACNT_PRDT_CD == self.body.ACNT_PRDT_CD,
            r.body.PDNO == self.body.PDNO,
            r.body.ORD_DVSN == self.body.ORD_DVSN,
            r.body.ORD_UNPR == self.body.ORD_UNPR,
            r.path == self.path,
            r.tr_id == self.tr_id,
            r.sender == self.sender,
    {
        let mut this = self;
        this.body.ORD_QTY = count;
        this
    }
}

impl Command<OrderSell> {
    /// A market sell order with division and unit-price flags set.
    pub fn new() -> (r: Self)
        ensures
            r.path@ == "/uapi/domestic-stock/v1/trading/order-cash"@,
            r.tr_id@ == "TTTC0801U"@,
            r.sender is POST,
            r.body.ORD_DVSN@ == "01"@,
            r.body.ORD_UNPR@ == "0"@,
            r.body.CAN0@ == Seq::<char>::empty(),
            r.body.ACNT_PRDT_CD@ == Seq::<char>::empty(),
            r.body.PDNO@ == Seq::<char>::empty(),
            r.body.ORD_QTY@ == Seq::<char>::empty(),
    {
        Command {
            path: "/uapi/domestic-stock/v1/trading/order-cash",
            tr_id: "TTTC0801U",
            sender: Sender::POST,
            body: OrderSell {
                CAN0: String::new(),
                ACNT_PRDT_CD: String::new(),
                PDNO: String::new(),
                ORD_DVSN: "01".to_owned(),
                ORD_QTY: String::new(),
                ORD_UNPR: "0".to_owned(),
            },
        }
    }

    /// Sets the account number; every other field is kept.
    pub fn account_no(self, account_no: String) -> (r: Self)
        ensures
            r.body.CAN0 == account_no,
            r.body.ACNT_PRDT_CD == self.body.ACNT_PRDT_CD,
            r.body.PDNO == self.body.PDNO,
            r.body.ORD_QTY == self.body.ORD_QTY,
            r.body.ORD_DVSN == self.body.ORD_DVSN,
            r.body.ORD_UNPR == self.body.ORD_UNPR,
            r.path == self.path,
            r.tr_id == self.tr_id,
            r.sender == self.sender,
    {
        let mut this = self;
        this.body.CAN0 = account_no;
        this
    }

    /// Sets the account product code; every other field is kept.
    pub fn account_cd(self, account_cd: String) -> (r: Self)
        ensures
            r.body.ACNT_PRDT_CD == account_cd,
            r.body.CAN0 == self.body.CAN0,
            r.body.PDNO == self.body.PDNO,
            r.body.ORD_QTY == self.body.ORD_QTY,
            r.body.ORD_DVSN == self.body.ORD_DVSN,
            r.body.ORD_UNPR == self.body.ORD_UNPR,
            r.path == self.path,
            r.tr_id == self.tr_id,
            r.sender == self.sender,
    {
        let mut this = self;
        this.body.ACNT_PRDT_CD = account_cd;
        this
    }

    /// Sets the ticker to sell; every other field is kept.
    pub fn ticker(self, ticker: String) -> (r: Self)
        ensures
            r.body.PDNO == ticker,
            r.body.CAN0 == self.body.CAN0,
            r.body.ACNT_PRDT_CD == self.body.ACNT_PRDT_CD,
            r.body.ORD_QTY == self.body.ORD_QTY,
            r.body.ORD_DVSN == self.body.ORD_DVSN,
            r.body.ORD_UNPR == self.body.ORD_UNPR,
            r.path == self.path,
            r.tr_id == self.tr_id,
            r.sender == self.sender,
    {
        let mut this = self;
        this.body.PDNO = ticker;
        this
    }

    /// Sets the ordered quantity; every other field is kept.
    pub fn count(self, count: String) -> (r: Self)
        ensures
            r.body.ORD_QTY == count,
            r.body.CAN0 == self.body.CAN0,
            r.body.ACNT_PRDT_CD == self.body.ACNT_PRDT_CD,
            r.body.PDNO == self.body.PDNO,
            r.body.ORD_DVSN == self.body.ORD_DVSN,
            r.body.ORD_UNPR == self.body.ORD_UNPR,
            r.path == self.path,
            r.tr_id == self.tr_id,
            r.sender == self.sender,
    {
        let mut this = self;
        this.body.ORD_QTY = count;
        this
    }
}

impl Command<DailyValue> {
    /// A daily-chart inquiry with market code and price-adjustment flag set.
    pub fn new() -> (r: Self)
        ensures
            r.path@ == "/uapi/domestic-stock/v1/quotations/inquire-daily-itemchartprice"@,
            r.tr_id@ == "FHKST03010100"@,
            r.sender is GET,
            r.body.fid_cond_mrkt_div_code@ == "J"@,
            r.body.fid_org_adj_prc@ == "0"@,
            r.body.fid_input_iscd@ == Seq::<char>::empty(),
            r.body.FID_INPUT_DATE_1@ == Seq::<char>::empty(),
            r.body.FID_INPUT_DATE_2@ == Seq::<char>::empty(),
            r.body.fid_period_div_code@ == Seq::<char>::empty(),
    {
        Command {
            path: "/uapi/domestic-stock/v1/quotations/inquire-daily-itemchartprice",
            tr_id: "FHKST03010100",
            sender: Sender::GET,
            body: DailyValue {
                fid_cond_mrkt_div_code: "J".to_owned(),
                fid_input_iscd: String::new(),
                FID_INPUT_DATE_1: String::new(),
                FID_INPUT_DATE_2: String::new(),
                fid_period_div_code: String::new(),
                fid_org_adj_prc: "0".to_owned(),
            },
        }
    }

    /// Sets the inclusive date range of the chart; every other field is kept.
    pub fn date(self, start: String, end: String) -> (r: Self)
        ensures
            r.body.FID_INPUT_DATE_1 == start,
            r.body.FID_INPUT_DATE_2 == end,
            r.body.fid_input_iscd == self.body.fid_input_iscd,
            r.body.fid_period_div_code == self.body.fid_period_div_code,
            r.body.fid_cond_mrkt_div_code == self.body.fid_cond_mrkt_div_code,
            r.body.fid_org_adj_prc == self.body.fid_org_adj_prc,
            r.path == self.path,
            r.tr_id == self.tr_id,
            r.sender == self.sender,
    {
        let mut this = self;
        this.body.FID_INPUT_DATE_1 = start;
        this.body.FID_INPUT_DATE_2 = end;
        this
    }

    /// Sets the history granularity; every other field is kept.
    pub fn period(self, period: Period) -> (r: Self)
        ensures
            period is Day ==> r.body.fid_period_div_code@ == "D"@,
            period is Week ==> r.body.fid_period_div_code@ == "W"@,
            period is Month ==> r.body.fid_period_div_code@ == "M"@,
            period is Year ==> r.body.fid_period_div_code@ == "Y"@,
            r.body.fid_input_iscd == self.body.fid_input_iscd,
            r.body.FID_INPUT_DATE_1 == self.body.FID_INPUT_DATE_1,
            r.body.FID_INPUT_DATE_2 == self.body.FID_INPUT_DATE_2,
            r.body.fid_cond_mrkt_div_code == self.body.fid_cond_mrkt_div_code,
            r.body.fid_org_adj_prc == self.body.fid_org_adj_prc,
            r.path == self.path,
            r.tr_id == self.tr_id,
            r.sender == self.sender,
    {
        let mut this = self;
        this.body.fid_period_div_code = period.as_str().to_owned();
        this
    }

    /// Sets the ticker to chart; every other field is kept.
    pub fn ticker(self, ticker: String) -> (r: Self)
        ensures
            r.body.fid_input_iscd == ticker,
            r.body.FID_INPUT_DATE_1 == self.body.FID_INPUT_DATE_1,
            r.body.FID_INPUT_DATE_2 == self.body.FID_INPUT_DATE_2,
            r.body.fid_period_div_code == self.body.fid_period_div_code,
            r.body.fid_cond_mrkt_div_code == self.body.fid_cond_mrkt_div_code,
            r.body.fid_org_adj_prc == self.body.fid_org_adj_prc,
            r.path == self.path,
            r.tr_id == self.tr_id,
            r.sender == self.sender,
    {
        let mut this = self;
        this.body.fid_input_iscd = ticker;
        this
    }
}

} // verus!
