//! Strategies and the account ledger.
//!
//! An account is a cash balance plus holdings; the only ways it changes are
//! buying one unit of a symbol and settling a prior day's signal against an
//! open price.  A strategy is a closed tagged union stepped once per
//! simulated trading day.

use vstd::prelude::*;
use crate::BacktestError;
use crate::command::Balance;
use crate::command::BrokerCommand;
use crate::command::Command;
use crate::command::DailyPrice;
use crate::command::OrderBuy;
use crate::command::OrderSell;
use crate::command::Period;
use crate::command::Price;
use crate::database::DataBase;

pub mod algorithm;

use algorithm::Candidate;
use algorithm::best_of;
use algorithm::candidates;
use algorithm::candidates_upto;
use algorithm::frac_le;
use algorithm::get_momentum;
use algorithm::lemma_best_of_props;
use algorithm::mom_available;
use algorithm::mom_of;
use algorithm::ratio_le;
use algorithm::zero_close_exists;
use algorithm::Ratio;

verus! {

/// How many days back the near close of the momentum window stands.
pub const MOMENTUM_SKIP: usize = 1;

/// How many days back the far close of the momentum window stands.
pub const MOMENTUM_HORIZON: usize = 240;

/// The holdings are an association list from symbol to held quantity; a
/// symbol that does not appear is held with quantity zero.  Reads and
/// updates go by the first matching entry.
pub open spec fn holding_qty(stocks: Seq<(String, u32)>, sym: Seq<char>) -> int
    decreases stocks.len(),
{
    if stocks.len() == 0 {
        0
    } else if stocks[0].0@ == sym {
        stocks[0].1 as int
    } else {
        holding_qty(stocks.drop_first(), sym)
    }
}

/// The first matching entry decides the held quantity.
proof fn lemma_holding_qty_first(stocks: Seq<(String, u32)>, i: int, sym: Seq<char>)
    requires
        0 <= i < stocks.len(),
        stocks[i].0@ == sym,
        forall|j: int| 0 <= j < i ==> (#[trigger] stocks[j]).0@ != sym,
    ensures
        holding_qty(stocks, sym) == stocks[i].1 as int,
    decreases i,
{
    if i > 0 {
        lemma_holding_qty_first(stocks.drop_first(), i - 1, sym);
    }
}

/// Without a matching entry the held quantity is zero.
proof fn lemma_holding_qty_none(stocks: Seq<(String, u32)>, sym: Seq<char>)
    requires
        forall|j: int| 0 <= j < stocks.len() ==> (#[trigger] stocks[j]).0@ != sym,
    ensures
        holding_qty(stocks, sym) == 0,
    decreases stocks.len(),
{
    if stocks.len() > 0 {
        lemma_holding_qty_none(stocks.drop_first(), sym);
    }
}

/// Replacing the first matching entry sets that symbol's quantity and no
/// other's.
proof fn lemma_holding_qty_update(stocks: Seq<(String, u32)>, i: int, e: (String, u32), sym: Seq<
    char,
>)
    requires
        0 <= i < stocks.len(),
        stocks[i].0@ == sym,
        e.0@ == sym,
        forall|j: int| 0 <= j < i ==> (#[trigger] stocks[j]).0@ != sym,
    ensures
        holding_qty(stocks.update(i, e), sym) == e.1 as int,
        forall|s2: Seq<char>|
            s2 != sym ==> holding_qty(stocks.update(i, e), s2) == holding_qty(stocks, s2),
    decreases i,
{
    let u = stocks.update(i, e);
    if i == 0 {
        assert forall|s2: Seq<char>| s2 != sym implies holding_qty(u, s2) == holding_qty(
            stocks,
            s2,
        ) by {
            assert(u.drop_first() =~= stocks.drop_first());
        }
    } else {
        lemma_holding_qty_update(stocks.drop_first(), i - 1, e, sym);
        assert(u.drop_first() =~= stocks.drop_first().update(i - 1, e));
        assert(holding_qty(u, sym) == e.1 as int);
        assert forall|s2: Seq<char>| s2 != sym implies holding_qty(u, s2) == holding_qty(
            stocks,
            s2,
        ) by {
            if stocks[0].0@ == s2 {
            } else {
                assert(holding_qty(u.drop_first(), s2) == holding_qty(stocks.drop_first(), s2));
            }
        }
    }
}

/// Appending an entry for a symbol that has no entry sets that symbol's
/// quantity and no other's.
proof fn lemma_holding_qty_push(stocks: Seq<(String, u32)>, e: (String, u32))
    requires
        forall|j: int| 0 <= j < stocks.len() ==> (#[trigger] stocks[j]).0@ != e.0@,
    ensures
        holding_qty(stocks.push(e), e.0@) == e.1 as int,
        forall|s2: Seq<char>|
            s2 != e.0@ ==> holding_qty(stocks.push(e), s2) == holding_qty(stocks, s2),
    decreases stocks.len(),
{
    let u = stocks.push(e);
    if stocks.len() == 0 {
        assert(u[0] == e);
        assert forall|s2: Seq<char>| s2 != e.0@ implies holding_qty(u, s2) == holding_qty(
            stocks,
            s2,
        ) by {
            assert(u.drop_first() =~= Seq::<(String, u32)>::empty());
            assert(holding_qty(u.drop_first(), s2) == 0);
            assert(holding_qty(u, s2) == 0);
            assert(holding_qty(stocks, s2) == 0);
        }
    } else {
        lemma_holding_qty_push(stocks.drop_first(), e);
        assert(u[0] == stocks[0]);
        assert(u.drop_first() =~= stocks.drop_first().push(e));
        assert(holding_qty(u, e.0@) == e.1 as int);
        assert forall|s2: Seq<char>| s2 != e.0@ implies holding_qty(u, s2) == holding_qty(
            stocks,
            s2,
        ) by {
            if stocks[0].0@ == s2 {
            } else {
                assert(holding_qty(u.drop_first(), s2) == holding_qty(stocks.drop_first(), s2));
                assert(holding_qty(u, s2) == holding_qty(u.drop_first(), s2));
                assert(holding_qty(stocks, s2) == holding_qty(stocks.drop_first(), s2));
            }
        }
    }
}

/// The ledger: broker account identifiers, a cash balance, and the held
/// quantities per symbol.
#[derive(Clone)]
pub struct Account {
    pub account_no: String,
    pub account_cd: String,
    pub amount: i32,
    pub stocks: Vec<(String, u32)>,
}

impl Account {
    /// A fresh account with the given identifiers and cash, holding
    /// nothing.
    pub fn new(account_no: String, account_cd: String, amount: i32) -> (r: Account)
        ensures
            r.account_no == account_no,
            r.account_cd == account_cd,
            r.amount == amount,
            r.stocks@.len() == 0,
    {
        Account { account_no, account_cd, amount, stocks: Vec::new() }
    }

    /// Credits one unit of `stock_no` to the holdings; the cash balance and
    /// every other symbol's quantity are untouched.  Fails exactly when the
    /// held quantity is already at its maximum, leaving the account
    /// unchanged.
    pub fn buy_stock(&mut self, stock_no: &str) -> (r: Result<(), BacktestError>)
        ensures
            final(self).account_no == old(self).account_no,
            final(self).account_cd == old(self).account_cd,
            final(self).amount == old(self).amount,
            r is Ok <==> holding_qty(old(self).stocks@, stock_no@) < u32::MAX,
            r is Ok ==> holding_qty(final(self).stocks@, stock_no@) == holding_qty(
                old(self).stocks@,
                stock_no@,
            ) + 1,
            r is Ok ==> forall|s2: Seq<char>|
                s2 != stock_no@ ==> holding_qty(final(self).stocks@, s2) == holding_qty(
                    old(self).stocks@,
                    s2,
                ),
            r is Err ==> final(self).stocks@ == old(self).stocks@ && r->Err_0 is Overflow,
    {
        let key: String = stock_no.to_owned();
        let n = self.stocks.len();
        let mut i: usize = 0;
        while i < n
            invariant
                0 <= i <= n,
                n == self.stocks@.len(),
                key@ == stock_no@,
                *self == *old(self),
                forall|j: int| 0 <= j < i ==> (#[trigger] self.stocks@[j]).0@ != stock_no@,
            decreases n - i,
        {
            if self.stocks[i].0 == key {
                let (name, q) = self.stocks.remove(i);
                if q == u32::MAX {
                    self.stocks.insert(i, (name, q));
                    proof {
                        assert(self.stocks@ =~= old(self).stocks@);
                        lemma_holding_qty_first(old(self).stocks@, i as int, stock_no@);
                    }
                    return Err(BacktestError::Overflow);
                }
                self.stocks.insert(i, (name, q + 1));
                proof {
                    let e = (old(self).stocks@[i as int].0, (q + 1) as u32);
                    assert(self.stocks@ =~= old(self).stocks@.update(i as int, e));
                    lemma_holding_qty_first(old(self).stocks@, i as int, stock_no@);
                    lemma_holding_qty_update(old(self).stocks@, i as int, e, stock_no@);
                }
                return Ok(());
            }
            i = i + 1;
        }
        self.stocks.push((key, 1));
        proof {
            lemma_holding_qty_none(old(self).stocks@, stock_no@);
            lemma_holding_qty_push(old(self).stocks@, self.stocks@.last());
        }
        Ok(())
    }

    /// Settles one day-old signal against its open price.
    ///
    /// When the cash balance does not cover the price, nothing changes and
    /// `Ok(false)` says so.  When it does and the results are representable,
    /// the price is debited and one unit of `stock_no` is credited.
    /// Arithmetic that would leave the representable range is reported as
    /// overflow and changes nothing.
    pub fn settle(&mut self, stock_no: &str, price: i32) -> (r: Result<bool, BacktestError>)
        ensures
            final(self).account_no == old(self).account_no,
            final(self).account_cd == old(self).account_cd,
            old(self).amount < price ==> r is Ok && r->Ok_0 == false
                && final(self).amount == old(self).amount
                && final(self).stocks@ == old(self).stocks@,
            old(self).amount >= price && old(self).amount - price <= i32::MAX && holding_qty(
                old(self).stocks@,
                stock_no@,
            ) < u32::MAX ==> ({
                &&& r is Ok
                &&& r->Ok_0 == true
                &&& final(self).amount == old(self).amount - price
                &&& holding_qty(final(self).stocks@, stock_no@) == holding_qty(
                    old(self).stocks@,
                    stock_no@,
                ) + 1
                &&& forall|s2: Seq<char>|
                    s2 != stock_no@ ==> holding_qty(final(self).stocks@, s2) == holding_qty(
                        old(self).stocks@,
                        s2,
                    )
            }),
            r is Err <==> old(self).amount >= price && !(old(self).amount - price <= i32::MAX
                && holding_qty(old(self).stocks@, stock_no@) < u32::MAX),
            r is Err ==> r->Err_0 is Overflow && final(self).amount == old(self).amount
                && final(self).stocks@ == old(self).stocks@,
    {
        if self.amount < price {
            return Ok(false);
        }
        let diff: i64 = self.amount as i64 - price as i64;
        if diff > i32::MAX as i64 {
            return Err(BacktestError::Overflow);
        }
        match self.buy_stock(stock_no) {
            Ok(_) => {},
            Err(e) => {
                return Err(e);
            },
        }
        self.amount = diff as i32;
        Ok(true)
    }
}

/// A trading strategy: a closed set of behaviours selected by tag, each
/// carrying its own account.
pub enum Strategy {
    Test(Account),
    PriceMomentum(Account),
}

/// The account is unchanged in everything the ledger tracks.
pub open spec fn account_still(a0: Account, a1: Account) -> bool {
    &&& a1.account_no == a0.account_no
    &&& a1.account_cd == a0.account_cd
    &&& a1.amount == a0.amount
    &&& a1.stocks@ == a0.stocks@
}

/// One affordable settlement happened: the price was debited and exactly
/// one unit of `sym` was credited, nothing else moved.
pub open spec fn account_settled(a0: Account, a1: Account, sym: Seq<char>, price: int) -> bool {
    &&& a1.account_no == a0.account_no
    &&& a1.account_cd == a0.account_cd
    &&& a1.amount == a0.amount - price
    &&& holding_qty(a1.stocks@, sym) == holding_qty(a0.stocks@, sym) + 1
    &&& forall|s2: Seq<char>|
        s2 != sym ==> holding_qty(a1.stocks@, s2) == holding_qty(a0.stocks@, s2)
}

/// `cmd` is a buy order for one unit of `ticker` on the account identified
/// by `no` and `cd`.
pub open spec fn is_buy_order(cmd: BrokerCommand, ticker: Seq<char>, no: Seq<char>, cd: Seq<
    char,
>) -> bool {
    &&& cmd matches BrokerCommand::OrderBuy(c)
    &&& c.path@ == "/uapi/domestic-stock/v1/trading/order-cash"@
    &&& c.tr_id@ == "TTTC0802U"@
    &&& c.sender is POST
    &&& c.body.PDNO@ == ticker
    &&& c.body.ORD_QTY@ == "1"@
    &&& c.body.ORD_DVSN@ == "01"@
    &&& c.body.ORD_UNPR@ == "0"@
    &&& c.body.CAN0@ == no
    &&& c.body.ACNT_PRDT_CD@ == cd
}

/// `cmd` is the test bundle's current-price inquiry for the hard-coded
/// symbol, every field pinned.
pub open spec fn is_test_price(cmd: BrokerCommand) -> bool {
    &&& cmd matches BrokerCommand::Price(c)
    &&& c.path@ == "/uapi/domestic-stock/v1/quotations/inquire-price"@
    &&& c.tr_id@ == "FHKST01010100"@
    &&& c.sender is GET
    &&& c.body.fid_cond_mrkt_div_code@ == "J"@
    &&& c.body.fid_input_iscd@ == "005930"@
}

/// `cmd` is the test bundle's daily-price inquiry for the hard-coded
/// symbol, every field pinned.
pub open spec fn is_test_daily_price(cmd: BrokerCommand) -> bool {
    &&& cmd matches BrokerCommand::DailyPrice(c)
    &&& c.path@ == "/uapi/domestic-stock/v1/quotations/inquire-daily-price"@
    &&& c.tr_id@ == "FHKST01010400"@
    &&& c.sender is GET
    &&& c.body.fid_cond_mrkt_div_code@ == "J"@
    &&& c.body.fid_input_iscd@ == "005930"@
    &&& c.body.fid_period_div_code@ == "D"@
    &&& c.body.fid_org_adj_prc@ == "0"@
}

/// `cmd` is a balance inquiry for the account identified by `no` and `cd`,
/// every field pinned.
pub open spec fn is_balance_inquiry(cmd: BrokerCommand, no: Seq<char>, cd: Seq<char>) -> bool {
    &&& cmd matches BrokerCommand::Balance(c)
    &&& c.path@ == "/uapi/domestic-stock/v1/trading/inquire-balance"@
    &&& c.tr_id@ == "TTTC8434R"@
    &&& c.sender is GET
    &&& c.body.CAN0@ == no
    &&& c.body.ACNT_PRDT_CD@ == cd
    &&& c.body.AFHR_FLPR_YN@ == "N"@
    &&& c.body.INQR_DVSN@ == "01"@
    &&& c.body.UNPR_DVSN@ == "01"@
    &&& c.body.FUND_STTL_ICLD_YN@ == "N"@
    &&& c.body.FNCG_AMT_AUTO_RDPT_YN@ == "N"@
    &&& c.body.PRCS_DVSN@ == "00"@
    &&& c.body.fid_cond_mrkt_div_code@ == Seq::<char>::empty()
    &&& c.body.fid_input_iscd@ == Seq::<char>::empty()
    &&& c.body.OFL_YN@ == Seq::<char>::empty()
    &&& c.body.CTX_AREA_FK100@ == Seq::<char>::empty()
    &&& c.body.CTX_AREA_NK100@ == Seq::<char>::empty()
}

/// `cmd` is a sell order for one unit of `ticker` on the account
/// identified by `no` and `cd`, every field pinned.
pub open spec fn is_sell_order(cmd: BrokerCommand, ticker: Seq<char>, no: Seq<char>, cd: Seq<
    char,
>) -> bool {
    &&& cmd matches BrokerCommand::OrderSell(c)
    &&& c.path@ == "/uapi/domestic-stock/v1/trading/order-cash"@
    &&& c.tr_id@ == "TTTC0801U"@
    &&& c.sender is POST
    &&& c.body.PDNO@ == ticker
    &&& c.body.ORD_QTY@ == "1"@
    &&& c.body.ORD_DVSN@ == "01"@
    &&& c.body.ORD_UNPR@ == "0"@
    &&& c.body.CAN0@ == no
    &&& c.body.ACNT_PRDT_CD@ == cd
}

/// The fixed five-command bundle the test strategy emits, a function of the
/// account's two identifier fields alone: a price inquiry, a daily-price
/// inquiry, a balance inquiry, and a one-unit buy and sell order, all for
/// one hard-coded symbol.
pub open spec fn test_bundle(account: Account, cmds: Seq<BrokerCommand>) -> bool {
    &&& cmds.len() == 5
    &&& is_test_price(cmds[0])
    &&& is_test_daily_price(cmds[1])
    &&& is_balance_inquiry(cmds[2], account.account_no@, account.account_cd@)
    &&& is_buy_order(cmds[3], "005930"@, account.account_no@, account.account_cd@)
    &&& is_sell_order(cmds[4], "005930"@, account.account_no@, account.account_cd@)
}

/// The ranking candidates of the price-momentum strategy at `idx`.
pub open spec fn pm_candidates(d: DataBase, idx: int) -> Seq<Candidate> {
    candidates(d, idx, MOMENTUM_SKIP as int, MOMENTUM_HORIZON as int)
}

/// The ranking at `idx` runs into a division by zero.
pub open spec fn pm_zero_close(d: DataBase, idx: int) -> bool {
    zero_close_exists(d, idx, MOMENTUM_HORIZON as int)
}

/// Everything one price-momentum step guarantees, relating the account
/// before and after the step to its result.
///
/// A day with no candidate is silently skipped.  A zero close at the
/// horizon is a division by zero.  Otherwise, with the best candidate `b`:
/// on the most recent day (`idx == 0`) one buy order for `b` is emitted and
/// the ledger is untouched; on an earlier day the prior signal settles
/// against `b`'s open price one bar later, when the cash covers it.
pub open spec fn pm_step_rel(
    d: DataBase,
    idx: int,
    a0: Account,
    a1: Account,
    r: Result<Option<Vec<BrokerCommand>>, BacktestError>,
) -> bool {
    let c = pm_candidates(d, idx);
    &&& a1.account_no == a0.account_no
    &&& a1.account_cd == a0.account_cd
    &&& (c.len() == 0 ==> r is Ok && r->Ok_0 is None && account_still(a0, a1))
    &&& (pm_zero_close(d, idx) ==> r is Err && r->Err_0 is DivisionByZero && account_still(
        a0,
        a1,
    ))
    &&& (c.len() > 0 && !pm_zero_close(d, idx) ==> ({
        let b = c[best_of(c)].stock;
        let sym = d.stock_list@[b]@;
        &&& 0 <= b < d.stock_list@.len()
        &&& (idx == 0 ==> {
            &&& account_still(a0, a1)
            &&& r is Ok
            &&& r->Ok_0 is Some
            &&& r->Ok_0->0@.len() == 1
            &&& is_buy_order(r->Ok_0->0@[0], sym, a0.account_no@, a0.account_cd@)
        })
        &&& (idx > 0 ==> ({
            let price = d.db@[b]@[idx - 1].open_price as int;
            &&& (a0.amount < price ==> r is Ok && r->Ok_0 is None && account_still(a0, a1))
            &&& (a0.amount >= price && a0.amount - price <= i32::MAX && holding_qty(
                a0.stocks@,
                sym,
            ) < u32::MAX ==> r is Ok && r->Ok_0 is None && account_settled(a0, a1, sym, price))
            &&& (a0.amount >= price && !(a0.amount - price <= i32::MAX && holding_qty(
                a0.stocks@,
                sym,
            ) < u32::MAX) ==> r is Err && r->Err_0 is Overflow && account_still(a0, a1))
        }))
    }))
}

/// Each candidate among the first `n` symbols names a symbol in range whose
/// signal is available, and carries that symbol's momentum.
pub proof fn lemma_candidates_shape(d: DataBase, idx: int, skip: int, time: int, n: int)
    requires
        0 <= n,
    ensures
        forall|j: int| #![trigger candidates_upto(d, idx, skip, time, n)[j]]
            0 <= j < candidates_upto(d, idx, skip, time, n).len() ==> ({
                let cj = candidates_upto(d, idx, skip, time, n)[j];
                &&& 0 <= cj.stock < n
                &&& mom_available(d.db@[cj.stock]@, idx, time)
                &&& cj.mom == mom_of(d.db@[cj.stock]@, idx, skip, time)
            }),
    decreases n,
{
    if n > 0 {
        lemma_candidates_shape(d, idx, skip, time, n - 1);
        let prev = candidates_upto(d, idx, skip, time, n - 1);
        let c = candidates_upto(d, idx, skip, time, n);
        assert(forall|j: int| 0 <= j < prev.len() ==> c[j] == prev[j]);
    }
}

/// An available symbol guarantees at least one candidate.
pub proof fn lemma_candidates_cover(d: DataBase, idx: int, skip: int, time: int, k: int, n: int)
    requires
        0 <= k < n,
        mom_available(d.db@[k]@, idx, time),
    ensures
        candidates_upto(d, idx, skip, time, n).len() > 0,
    decreases n,
{
    if k < n - 1 {
        lemma_candidates_cover(d, idx, skip, time, k, n - 1);
    }
}

impl DataBase {
    /// The fixed bundle the test strategy emits every day: a price
    /// inquiry, a daily-price inquiry, a balance inquiry, and a buy and a
    /// sell order of one unit, all for one hard-coded symbol.
    pub fn test_step(&self, account: &Account) -> (r: Vec<BrokerCommand>)
        ensures
            test_bundle(*account, r@),
    {
        let price_cmd = Command::<Price>::new().ticker("005930".to_owned());
        let daily_price_cmd = Command::<DailyPrice>::new().ticker("005930".to_owned()).period(
            Period::Day,
        );
        let balance_cmd = Command::<Balance>::new().account_no(
            account.account_no.clone(),
        ).account_cd(account.account_cd.clone());
        let order_buy_cmd = Command::<OrderBuy>::new().account_no(
            account.account_no.clone(),
        ).account_cd(account.account_cd.clone()).ticker("005930".to_owned()).count("1".to_owned());
        let order_sell_cmd = Command::<OrderSell>::new().account_no(
            account.account_no.clone(),
        ).account_cd(account.account_cd.clone()).ticker("005930".to_owned()).count("1".to_owned());
        let mut cmds: Vec<BrokerCommand> = Vec::new();
        cmds.push(BrokerCommand::Price(price_cmd));
        cmds.push(BrokerCommand::DailyPrice(daily_price_cmd));
        cmds.push(BrokerCommand::Balance(balance_cmd));
        cmds.push(BrokerCommand::OrderBuy(order_buy_cmd));
        cmds.push(BrokerCommand::OrderSell(order_sell_cmd));
        cmds
    }

    /// One price-momentum day, stepped at `idx` bars back: ranks every
    /// symbol with enough history by its trailing return, and either emits
    /// a buy order for the best symbol (`idx == 0`) or settles the prior
    /// signal against that symbol's next-bar open price.  The exact
    /// guarantee is [`pm_step_rel`].
    pub fn momentum_step(&self, idx: usize, account: &mut Account) -> (r: Result<
        Option<Vec<BrokerCommand>>,
        BacktestError,
    >)
        requires
            self.wf(),
        ensures
            pm_step_rel(*self, idx as int, *old(account), *final(account), r),
    {
        let n = self.stock_list.len();
        let mut best: Option<(Ratio, usize)> = None;
        let mut s: usize = 0;
        while s < n
            invariant
                self.wf(),
                0 <= s <= n,
                n == self.stock_list@.len(),
                n == self.db@.len(),
                ({
                    let c = candidates_upto(
                        *self,
                        idx as int,
                        MOMENTUM_SKIP as int,
                        MOMENTUM_HORIZON as int,
                        s as int,
                    );
                    &&& (best is None <==> c.len() == 0)
                    &&& (best is Some ==> ({
                        let b = best_of(c);
                        &&& 0 <= b < c.len()
                        &&& (best->0).0 == c[b].mom
                        &&& (best->0).1 == c[b].stock
                    }))
                }),
                forall|k: int| #![trigger self.db@[k]]
                    0 <= k < s ==> !(mom_available(
                        self.db@[k]@,
                        idx as int,
                        MOMENTUM_HORIZON as int,
                    ) && self.db@[k]@[idx as int + MOMENTUM_HORIZON as int].close_price == 0),
            decreases n - s,
        {
            let ghost cpre = candidates_upto(
                *self,
                idx as int,
                MOMENTUM_SKIP as int,
                MOMENTUM_HORIZON as int,
                s as int,
            );
            let cols = &self.db[s];
            if cols.len() > idx {
                match get_momentum(cols, idx, MOMENTUM_SKIP, MOMENTUM_HORIZON) {
                    Err(e) => {
                        proof {
                            assert(mom_available(
                                self.db@[s as int]@,
                                idx as int,
                                MOMENTUM_HORIZON as int,
                            ));
                            assert(pm_zero_close(*self, idx as int));
                            lemma_candidates_cover(
                                *self,
                                idx as int,
                                MOMENTUM_SKIP as int,
                                MOMENTUM_HORIZON as int,
                                s as int,
                                n as int,
                            );
                        }
                        return Err(e);
                    },
                    Ok(None) => {
                        proof {
                            assert(!mom_available(
                                self.db@[s as int]@,
                                idx as int,
                                MOMENTUM_HORIZON as int,
                            ));
                            assert(candidates_upto(
                                *self,
                                idx as int,
                                MOMENTUM_SKIP as int,
                                MOMENTUM_HORIZON as int,
                                s as int + 1,
                            ) == cpre);
                        }
                    },
                    Ok(Some(m)) => {
                        let ghost cand = Candidate {
                            mom: mom_of(
                                self.db@[s as int]@,
                                idx as int,
                                MOMENTUM_SKIP as int,
                                MOMENTUM_HORIZON as int,
                            ),
                            stock: s as int,
                        };
                        let ghost cpost = candidates_upto(
                            *self,
                            idx as int,
                            MOMENTUM_SKIP as int,
                            MOMENTUM_HORIZON as int,
                            s as int + 1,
                        );
                        proof {
                            assert(mom_available(
                                self.db@[s as int]@,
                                idx as int,
                                MOMENTUM_HORIZON as int,
                            ));
                            assert(cpost == cpre.push(cand));
                            assert(cpost.drop_last() =~= cpre);
                            assert(cpost.last() == cand);
                            assert(m == cand.mom);
                        }
                        match best {
                            None => {
                                best = Some((m, s));
                                proof {
                                    assert(cpre.len() == 0);
                                    assert(best_of(cpre) == -1);
                                    assert(best_of(cpost) == cpost.len() - 1);
                                }
                            },
                            Some((bm, bs)) => {
                                proof {
                                    assert(bm == cpre[best_of(cpre)].mom);
                                    assert(cpost[best_of(cpre)] == cpre[best_of(cpre)]);
                                }
                                if ratio_le(&bm, &m) {
                                    best = Some((m, s));
                                    proof {
                                        assert(frac_le(
                                            cpost[best_of(cpre)].mom,
                                            cpost.last().mom,
                                        ));
                                        assert(best_of(cpost) == cpost.len() - 1);
                                    }
                                } else {
                                    proof {
                                        assert(!frac_le(
                                            cpost[best_of(cpre)].mom,
                                            cpost.last().mom,
                                        ));
                                        assert(best_of(cpost) == best_of(cpre));
                                        assert(cpost[best_of(cpost)] == cpre[best_of(cpre)]);
                                    }
                                }
                            },
                        }
                    },
                }
            } else {
                proof {
                    assert(!mom_available(self.db@[s as int]@, idx as int, MOMENTUM_HORIZON as int));
                    assert(candidates_upto(
                        *self,
                        idx as int,
                        MOMENTUM_SKIP as int,
                        MOMENTUM_HORIZON as int,
                        s as int + 1,
                    ) == cpre);
                }
            }
            s = s + 1;
        }
        let ghost call = pm_candidates(*self, idx as int);
        proof {
            assert(call == candidates_upto(
                *self,
                idx as int,
                MOMENTUM_SKIP as int,
                MOMENTUM_HORIZON as int,
                n as int,
            ));
            assert forall|k: int|
                0 <= k < self.db@.len() && mom_available(
                    #[trigger] self.db@[k]@,
                    idx as int,
                    MOMENTUM_HORIZON as int,
                ) implies self.db@[k]@[idx as int + MOMENTUM_HORIZON as int].close_price != 0 by {}
            assert(!pm_zero_close(*self, idx as int));
        }
        match best {
            None => {
                return Ok(None);
            },
            Some((_bm, bs)) => {
                proof {
                    lemma_candidates_shape(
                        *self,
                        idx as int,
                        MOMENTUM_SKIP as int,
                        MOMENTUM_HORIZON as int,
                        n as int,
                    );
                }
                if idx == 0 {
                    let cmd = Command::<OrderBuy>::new().account_no(
                        account.account_no.clone(),
                    ).account_cd(account.account_cd.clone()).ticker(
                        self.stock_list[bs].clone(),
                    ).count("1".to_owned());
                    let mut cmds: Vec<BrokerCommand> = Vec::new();
                    cmds.push(BrokerCommand::OrderBuy(cmd));
                    return Ok(Some(cmds));
                }
                let price = self.db[bs][idx - 1].open_price;
                match account.settle(self.stock_list[bs].as_str(), price) {
                    Ok(_) => Ok(None),
                    Err(e) => Err(e),
                }
            },
        }
    }
}

/// The stepping interface of the test strategy: one bundle of commands per
/// simulated day, never signalling completion.
pub trait TestStrategyIterator: Sized {
    type Item;

    /// The state the stepper relies on.
    spec fn test_inv(&self) -> bool;

    /// What the emitted bundle holds, given the account it was built for.
    spec fn bundle_rel(&self, account: Account, r: Option<Self::Item>) -> bool;

    /// Steps one simulated day: the stepper is read-only, and the returned
    /// bundle is pinned by [`Self::bundle_rel`].
    fn next(&mut self, idx: usize, account: &Account) -> (r: Option<Self::Item>)
        requires
            old(self).test_inv(),
        ensures
            *final(self) == *old(self),
            r is Some,
            old(self).bundle_rel(*account, r),
    ;
}

impl TestStrategyIterator for DataBase {
    type Item = Vec<BrokerCommand>;

    open spec fn test_inv(&self) -> bool {
        self.wf()
    }

    /// The fixed five-command bundle of [`test_bundle`], a function of the
    /// account's identifier fields alone.
    open spec fn bundle_rel(&self, account: Account, r: Option<Vec<BrokerCommand>>) -> bool {
        r matches Some(cmds) && test_bundle(account, cmds@)
    }

    fn next(&mut self, idx: usize, account: &Account) -> (r: Option<Vec<BrokerCommand>>) {
        Some(self.test_step(account))
    }
}

/// The stepping interface of the price-momentum strategy: one ranked and
/// possibly settled day per call.
pub trait PriceMomentumStrategyIterator: Sized {
    type Item;

    /// The state the stepper relies on.
    spec fn momentum_inv(&self) -> bool;

    /// What one step guarantees, relating the account before and after to
    /// the result.
    spec fn step_rel(&self, idx: int, a0: Account, a1: Account, r: Result<
        Option<Self::Item>,
        BacktestError,
    >) -> bool;

    /// Steps one simulated day: the stepper is read-only, and the result
    /// and the account are pinned by [`Self::step_rel`].
    fn next(&mut self, idx: usize, account: &mut Account) -> (r: Result<
        Option<Self::Item>,
        BacktestError,
    >)
        requires
            old(self).momentum_inv(),
        ensures
            *final(self) == *old(self),
            old(self).step_rel(idx as int, *old(account), *final(account), r),
    ;
}

impl PriceMomentumStrategyIterator for DataBase {
    type Item = Vec<BrokerCommand>;

    open spec fn momentum_inv(&self) -> bool {
        self.wf()
    }

    /// Exactly the per-day guarantee of [`pm_step_rel`], which
    /// [`DataBase::momentum_step`] proves.
    open spec fn step_rel(&self, idx: int, a0: Account, a1: Account, r: Result<
        Option<Vec<BrokerCommand>>,
        BacktestError,
    >) -> bool {
        pm_step_rel(*self, idx, a0, a1, r)
    }

    fn next(&mut self, idx: usize, account: &mut Account) -> (r: Result<
        Option<Vec<BrokerCommand>>,
        BacktestError,
    >) {
        self.momentum_step(idx, account)
    }
}

/// The cash balance after settling a sequence of open prices in order:
/// each price is paid only when the balance at that moment covers it.
pub open spec fn settle_cash(cash: int, prices: Seq<int>) -> int
    decreases prices.len(),
{
    if prices.len() == 0 {
        cash
    } else if cash >= prices[0] {
        settle_cash(cash - prices[0], prices.drop_first())
    } else {
        settle_cash(cash, prices.drop_first())
    }
}

/// The sum of the open prices actually paid over a settlement sequence.
pub open spec fn settle_paid(cash: int, prices: Seq<int>) -> int
    decreases prices.len(),
{
    if prices.len() == 0 {
        0
    } else if cash >= prices[0] {
        prices[0] + settle_paid(cash - prices[0], prices.drop_first())
    } else {
        settle_paid(cash, prices.drop_first())
    }
}

/// The number of units bought over a settlement sequence: one per
/// affordable step, none otherwise.
pub open spec fn settle_units(cash: int, prices: Seq<int>) -> int
    decreases prices.len(),
{
    if prices.len() == 0 {
        0
    } else if cash >= prices[0] {
        1 + settle_units(cash - prices[0], prices.drop_first())
    } else {
        settle_units(cash, prices.drop_first())
    }
}

/// Ledger conservation: after any sequence of settlement steps, the cash
/// balance is the starting balance minus exactly the sum of the open
/// prices paid, one price per unit bought.  Which steps pay is decided by
/// the affordability gate at each step, never by clamping.
pub proof fn lemma_ledger_conservation(cash: int, prices: Seq<int>)
    ensures
        settle_cash(cash, prices) == cash - settle_paid(cash, prices),
        settle_units(cash, prices) >= 0,
    decreases prices.len(),
{
    if prices.len() > 0 {
        if cash >= prices[0] {
            lemma_ledger_conservation(cash - prices[0], prices.drop_first());
        } else {
            lemma_ledger_conservation(cash, prices.drop_first());
        }
    }
}

} // verus!
