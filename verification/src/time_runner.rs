//! The backtest runner.
//!
//! The runner resolves the requested date range to positions in the
//! reference calendar, walks them oldest-first, steps every strategy once
//! per trading day (each calendar position `p` is the bar index
//! `len - 1 - p`), and finally values every account.
//!
//! Its contract folds each price-momentum account through a deterministic
//! ledger model, one day at a time: [`pm_model_day`] says what a day does
//! to the cash and the holdings, [`pm_model_run`] folds a range of days,
//! and [`pm_model_run_fails`] says whether any day of the range hits a
//! fatal error.

use vstd::prelude::*;
use crate::BacktestError;
use crate::database::DataBase;
use crate::database::resolves_to;
use crate::strategy::Account;
use crate::strategy::Strategy;
use crate::strategy::account_still;
use crate::strategy::algorithm::best_of;
use crate::strategy::holding_qty;
use crate::strategy::pm_candidates;
use crate::strategy::pm_zero_close;
use crate::strategy::algorithm::holding_resolvable;
use crate::strategy::algorithm::stocks_resolvable;
use crate::strategy::algorithm::stocks_value;

verus! {

/// The holdings of an account as a total map from symbol to quantity;
/// symbols never bought are held with quantity zero.
pub open spec fn holdings_of(a: Account) -> Map<Seq<char>, int> {
    Map::new(|s: Seq<char>| true, |s: Seq<char>| holding_qty(a.stocks@, s))
}

/// The ledger model an account starts a run with: its cash and holdings.
pub open spec fn pm_start_model(a: Account) -> (int, Map<Seq<char>, int>) {
    (a.amount as int, holdings_of(a))
}

/// What one price-momentum day does to the ledger model: on a settlement
/// day with a best candidate and enough cash, the open price is debited
/// and one unit of the best symbol is credited; every other day leaves the
/// model unchanged.
pub open spec fn pm_model_day(d: DataBase, idx: int, cash: int, h: Map<Seq<char>, int>) -> (
    int,
    Map<Seq<char>, int>,
) {
    let c = pm_candidates(d, idx);
    if c.len() == 0 || idx == 0 {
        (cash, h)
    } else {
        let b = c[best_of(c)].stock;
        let sym = d.stock_list@[b]@;
        let price = d.db@[b]@[idx - 1].open_price as int;
        if cash >= price {
            (cash - price, h.insert(sym, h[sym] + 1))
        } else {
            (cash, h)
        }
    }
}

/// Whether one price-momentum day hits a fatal error: a zero close at the
/// momentum horizon, or settlement arithmetic that would leave the
/// representable range.
pub open spec fn pm_model_day_fails(d: DataBase, idx: int, cash: int, h: Map<Seq<char>, int>) -> bool {
    ||| pm_zero_close(d, idx)
    ||| ({
        let c = pm_candidates(d, idx);
        &&& c.len() > 0
        &&& !pm_zero_close(d, idx)
        &&& idx > 0
        &&& ({
            let b = c[best_of(c)].stock;
            let sym = d.stock_list@[b]@;
            let price = d.db@[b]@[idx - 1].open_price as int;
            cash >= price && !(cash - price <= i32::MAX && h[sym] < u32::MAX)
        })
    })
}

/// The ledger model after the days at calendar positions `lo..=hi`, oldest
/// first.
pub open spec fn pm_model_run(d: DataBase, lo: int, hi: int, m: (int, Map<Seq<char>, int>)) -> (
    int,
    Map<Seq<char>, int>,
)
    decreases hi + 1 - lo,
{
    if lo > hi {
        m
    } else {
        pm_model_run(d, lo + 1, hi, pm_model_day(d, d.date_list@.len() - 1 - lo, m.0, m.1))
    }
}

/// Whether any day at calendar positions `lo..=hi` hits a fatal error.
pub open spec fn pm_model_run_fails(d: DataBase, lo: int, hi: int, m: (int, Map<Seq<char>, int>)) -> bool
    decreases hi + 1 - lo,
{
    if lo > hi {
        false
    } else {
        ||| pm_model_day_fails(d, d.date_list@.len() - 1 - lo, m.0, m.1)
        ||| pm_model_run_fails(d, lo + 1, hi, pm_model_day(d, d.date_list@.len() - 1 - lo, m.0, m.1))
    }
}

/// The position of the first failing day of a range; one past the end
/// when no day fails.
pub open spec fn pm_fail_pos(d: DataBase, lo: int, hi: int, m: (int, Map<Seq<char>, int>)) -> int
    decreases hi + 1 - lo,
{
    if lo > hi {
        hi + 1
    } else if pm_model_day_fails(d, d.date_list@.len() - 1 - lo, m.0, m.1) {
        lo
    } else {
        pm_fail_pos(d, lo + 1, hi, pm_model_day(d, d.date_list@.len() - 1 - lo, m.0, m.1))
    }
}

/// The error a failing day reports: a division by zero when a close at the
/// momentum horizon is zero, else overflow.
pub open spec fn pm_day_error(d: DataBase, idx: int) -> BacktestError {
    if pm_zero_close(d, idx) {
        BacktestError::DivisionByZero
    } else {
        BacktestError::Overflow
    }
}

/// The error of the first failing day of a range; meaningful when some day
/// of the range fails.
pub open spec fn pm_run_error(d: DataBase, lo: int, hi: int, m: (int, Map<Seq<char>, int>)) -> BacktestError
    decreases hi + 1 - lo,
{
    if lo > hi {
        BacktestError::Overflow
    } else if pm_model_day_fails(d, d.date_list@.len() - 1 - lo, m.0, m.1) {
        pm_day_error(d, d.date_list@.len() - 1 - lo)
    } else {
        pm_run_error(d, lo + 1, hi, pm_model_day(d, d.date_list@.len() - 1 - lo, m.0, m.1))
    }
}

/// The error a failing valuation reports: a held symbol that cannot be
/// valued, by name, else overflow.
pub open spec fn valuation_error(d: DataBase, a: Account, e: BacktestError) -> bool {
    if !stocks_resolvable(d, a.stocks@) {
        e matches BacktestError::DataUnavailable { stock } && exists|i: int| #![auto]
            0 <= i < a.stocks@.len() && stock == a.stocks@[i].0 && !holding_resolvable(
                d,
                a.stocks@[i],
            )
    } else {
        e is Overflow
    }
}

/// A price-momentum strategy's account has been folded through the days at
/// positions `lo..=q` without a fatal error.  Holds vacuously of the test
/// strategy.
pub open spec fn pm_tracked(d: DataBase, lo: int, q: int, s_old: Strategy, s_new: Strategy) -> bool {
    s_old is PriceMomentum ==> ({
        let m0 = pm_start_model(strat_account(s_old));
        let a1 = strat_account(s_new);
        &&& !pm_model_run_fails(d, lo, q, m0)
        &&& a1.amount as int == pm_model_run(d, lo, q, m0).0
        &&& holdings_of(a1) == pm_model_run(d, lo, q, m0).1
    })
}

/// The strategy tag and the account identifiers never change.
pub open spec fn same_shape(s_old: Strategy, s_new: Strategy) -> bool {
    &&& (s_old is Test <==> s_new is Test)
    &&& strat_account(s_new).account_no == strat_account(s_old).account_no
    &&& strat_account(s_new).account_cd == strat_account(s_old).account_cd
    &&& (s_old is Test ==> account_still(strat_account(s_old), strat_account(s_new)))
}

/// Peeling the last day off a folded range.
proof fn lemma_model_run_snoc(d: DataBase, lo: int, p: int, m: (int, Map<Seq<char>, int>))
    requires
        lo <= p,
    ensures
        pm_model_run(d, lo, p, m) == pm_model_day(
            d,
            d.date_list@.len() - 1 - p,
            pm_model_run(d, lo, p - 1, m).0,
            pm_model_run(d, lo, p - 1, m).1,
        ),
    decreases p - lo,
{
    let day = pm_model_day(d, d.date_list@.len() - 1 - lo, m.0, m.1);
    if lo < p {
        lemma_model_run_snoc(d, lo + 1, p, day);
        assert(pm_model_run(d, lo, p, m) == pm_model_run(d, lo + 1, p, day));
        assert(pm_model_run(d, lo, p - 1, m) == pm_model_run(d, lo + 1, p - 1, day));
    } else {
        assert(pm_model_run(d, lo, p, m) == pm_model_run(d, lo + 1, p, day));
        assert(pm_model_run(d, lo + 1, p, day) == day);
        assert(pm_model_run(d, lo, p - 1, m) == m);
    }
}

/// Peeling the last day off the failure test of a folded range.
proof fn lemma_model_fails_snoc(d: DataBase, lo: int, p: int, m: (int, Map<Seq<char>, int>))
    requires
        lo <= p,
    ensures
        pm_model_run_fails(d, lo, p, m) == (pm_model_run_fails(d, lo, p - 1, m)
            || pm_model_day_fails(
            d,
            d.date_list@.len() - 1 - p,
            pm_model_run(d, lo, p - 1, m).0,
            pm_model_run(d, lo, p - 1, m).1,
        )),
    decreases p - lo,
{
    let day = pm_model_day(d, d.date_list@.len() - 1 - lo, m.0, m.1);
    if lo < p {
        lemma_model_fails_snoc(d, lo + 1, p, day);
        assert(pm_model_run_fails(d, lo, p, m) == (pm_model_day_fails(
            d,
            d.date_list@.len() - 1 - lo,
            m.0,
            m.1,
        ) || pm_model_run_fails(d, lo + 1, p, day)));
        assert(pm_model_run_fails(d, lo, p - 1, m) == (pm_model_day_fails(
            d,
            d.date_list@.len() - 1 - lo,
            m.0,
            m.1,
        ) || pm_model_run_fails(d, lo + 1, p - 1, day)));
        assert(pm_model_run(d, lo, p - 1, m) == pm_model_run(d, lo + 1, p - 1, day));
    } else {
        assert(pm_model_run_fails(d, lo + 1, p, day) == false);
        assert(pm_model_run_fails(d, lo, p - 1, m) == false);
        assert(pm_model_run(d, lo, p - 1, m) == m);
    }
}

/// A failure inside a range is a failure of every enclosing range.
proof fn lemma_model_fails_mono(d: DataBase, lo: int, p: int, hi: int, m: (int, Map<Seq<char>, int>))
    requires
        lo <= p <= hi,
        pm_model_run_fails(d, lo, p, m),
    ensures
        pm_model_run_fails(d, lo, hi, m),
    decreases p - lo,
{
    if !pm_model_day_fails(d, d.date_list@.len() - 1 - lo, m.0, m.1) {
        let day = pm_model_day(d, d.date_list@.len() - 1 - lo, m.0, m.1);
        assert(pm_model_run_fails(d, lo + 1, p, day));
        assert(lo < p);
        lemma_model_fails_mono(d, lo + 1, p, hi, day);
    }
}

/// The first failing position of a failing range lies inside the range.
proof fn lemma_fail_pos_range(d: DataBase, lo: int, hi: int, m: (int, Map<Seq<char>, int>))
    requires
        pm_model_run_fails(d, lo, hi, m),
    ensures
        lo <= pm_fail_pos(d, lo, hi, m) <= hi,
    decreases hi + 1 - lo,
{
    if !pm_model_day_fails(d, d.date_list@.len() - 1 - lo, m.0, m.1) {
        lemma_fail_pos_range(d, lo + 1, hi, pm_model_day(d, d.date_list@.len() - 1 - lo, m.0, m.1));
    }
}

/// A range that is clean up to `q` fails, if at all, strictly after `q`.
proof fn lemma_fail_pos_after(d: DataBase, lo: int, q: int, hi: int, m: (int, Map<Seq<char>, int>))
    requires
        lo - 1 <= q <= hi,
        !pm_model_run_fails(d, lo, q, m),
        pm_model_run_fails(d, lo, hi, m),
    ensures
        pm_fail_pos(d, lo, hi, m) > q,
    decreases q + 1 - lo,
{
    if q < lo {
        lemma_fail_pos_range(d, lo, hi, m);
    } else {
        let day = pm_model_day(d, d.date_list@.len() - 1 - lo, m.0, m.1);
        assert(!pm_model_day_fails(d, d.date_list@.len() - 1 - lo, m.0, m.1));
        assert(!pm_model_run_fails(d, lo + 1, q, day));
        assert(pm_model_run_fails(d, lo + 1, hi, day));
        lemma_fail_pos_after(d, lo + 1, q, hi, day);
    }
}

/// When a range is clean before `p` and day `p` fails, `p` is the first
/// failing position and day `p`'s error is the range's error.
proof fn lemma_fail_pos_found(d: DataBase, lo: int, p: int, hi: int, m: (int, Map<Seq<char>, int>))
    requires
        lo <= p <= hi,
        !pm_model_run_fails(d, lo, p - 1, m),
        pm_model_day_fails(
            d,
            d.date_list@.len() - 1 - p,
            pm_model_run(d, lo, p - 1, m).0,
            pm_model_run(d, lo, p - 1, m).1,
        ),
    ensures
        pm_model_run_fails(d, lo, hi, m),
        pm_fail_pos(d, lo, hi, m) == p,
        pm_run_error(d, lo, hi, m) == pm_day_error(d, d.date_list@.len() - 1 - p),
    decreases p - lo,
{
    let day = pm_model_day(d, d.date_list@.len() - 1 - lo, m.0, m.1);
    if lo == p {
        assert(pm_model_run(d, lo, p - 1, m) == m);
    } else {
        assert(!pm_model_day_fails(d, d.date_list@.len() - 1 - lo, m.0, m.1));
        assert(!pm_model_run_fails(d, lo + 1, p - 1, day));
        assert(pm_model_run(d, lo, p - 1, m) == pm_model_run(d, lo + 1, p - 1, day));
        lemma_fail_pos_found(d, lo + 1, p, hi, day);
    }
}

/// An account's end-of-run valuation is representable: every held symbol
/// can be valued and both the stock value and the total fit in an `i32`.
pub open spec fn valuation_ok(d: DataBase, a: Account) -> bool {
    &&& stocks_resolvable(d, a.stocks@)
    &&& i32::MIN <= stocks_value(d, a.stocks@) <= i32::MAX
    &&& i32::MIN <= stocks_value(d, a.stocks@) + a.amount <= i32::MAX
}

/// The account a strategy carries.
pub open spec fn strat_account(s: Strategy) -> Account {
    match s {
        Strategy::Test(a) => a,
        Strategy::PriceMomentum(a) => a,
    }
}

/// One strategy's end-of-run report: the stock valuation, the remaining
/// cash, and their sum.
#[derive(Clone, Copy, Debug, PartialEq, Eq, Structural)]
pub struct Valuation {
    pub stock_value: i32,
    pub amount: i32,
    pub total: i32,
}

/// The backtest driver: owns the store for the duration of a run.
pub struct TimeRunner {
    pub database: DataBase,
}

impl TimeRunner {
    /// A runner over the given store.
    pub fn new(database: DataBase) -> (r: TimeRunner)
        ensures
            r.database == database,
    {
        TimeRunner { database }
    }

    /// Runs the simulation over the inclusive date range, stepping every
    /// strategy once per trading day, then values every account.
    ///
    /// On success, each price-momentum account's cash and holdings are
    /// exactly the fold of [`pm_model_day`] over the resolved range, and
    /// each report line carries the account's stock value, cash and total.
    /// The run succeeds if and only if no day of any price-momentum fold
    /// hits a fatal error and every final account's valuation is
    /// representable; test-strategy accounts never change.
    pub fn run_back_test(
        &mut self,
        start_date: u32,
        end_date: u32,
        strategies: &mut Vec<Strategy>,
    ) -> (r: Result<Vec<Valuation>, BacktestError>)
        requires
            old(self).database.wf(),
            old(self).database.date_list@.len() > 0,
            old(self).database.date_list@.last() >= end_date,
        ensures
            *final(self) == *old(self),
            final(strategies)@.len() == old(strategies)@.len(),
            forall|j: int| #![trigger final(strategies)@[j]]
                0 <= j < old(strategies)@.len() ==> same_shape(
                    old(strategies)@[j],
                    final(strategies)@[j],
                ),
            exists|lo: int, hi: int| #![auto]
                resolves_to(old(self).database.date_list@, start_date, lo) && resolves_to(
                    old(self).database.date_list@,
                    end_date,
                    hi,
                ) && ({
                    let d = old(self).database;
                    &&& (r is Ok ==> forall|j: int| #![trigger final(strategies)@[j]]
                        0 <= j < old(strategies)@.len() ==> pm_tracked(
                            d,
                            lo,
                            hi,
                            old(strategies)@[j],
                            final(strategies)@[j],
                        ))
                    &&& (r is Ok <==> (forall|j: int| #![trigger old(strategies)@[j]]
                        0 <= j < old(strategies)@.len() && old(strategies)@[j] is PriceMomentum
                            ==> !pm_model_run_fails(
                            d,
                            lo,
                            hi,
                            pm_start_model(strat_account(old(strategies)@[j])),
                        )) && (forall|j: int| #![trigger final(strategies)@[j]]
                        0 <= j < old(strategies)@.len() ==> valuation_ok(
                            d,
                            strat_account(final(strategies)@[j]),
                        )))
                    &&& (r is Err && (exists|k: int| #![auto]
                        0 <= k < old(strategies)@.len() && old(strategies)@[k] is PriceMomentum
                            && pm_model_run_fails(
                            d,
                            lo,
                            hi,
                            pm_start_model(strat_account(old(strategies)@[k])),
                        )) ==> exists|jj: int| #![trigger old(strategies)@[jj]] ({
                        let mjj = pm_start_model(strat_account(old(strategies)@[jj]));
                        &&& 0 <= jj < old(strategies)@.len()
                        &&& old(strategies)@[jj] is PriceMomentum
                        &&& pm_model_run_fails(d, lo, hi, mjj)
                        &&& r->Err_0 == pm_run_error(d, lo, hi, mjj)
                        &&& forall|k: int| #![trigger old(strategies)@[k]]
                            0 <= k < old(strategies)@.len() && old(strategies)@[k]
                                is PriceMomentum && pm_model_run_fails(
                                d,
                                lo,
                                hi,
                                pm_start_model(strat_account(old(strategies)@[k])),
                            ) ==> ({
                                let mk = pm_start_model(strat_account(old(strategies)@[k]));
                                ||| pm_fail_pos(d, lo, hi, mjj) < pm_fail_pos(d, lo, hi, mk)
                                ||| (pm_fail_pos(d, lo, hi, mjj) == pm_fail_pos(d, lo, hi, mk)
                                    && jj <= k)
                            })
                    }))
                    &&& (r is Err && !(exists|k: int| #![auto]
                        0 <= k < old(strategies)@.len() && old(strategies)@[k] is PriceMomentum
                            && pm_model_run_fails(
                            d,
                            lo,
                            hi,
                            pm_start_model(strat_account(old(strategies)@[k])),
                        )) ==> exists|jj: int| #![auto] ({
                        &&& 0 <= jj < old(strategies)@.len()
                        &&& !valuation_ok(d, strat_account(final(strategies)@[jj]))
                        &&& forall|k: int| 0 <= k < jj ==> valuation_ok(
                            d,
                            strat_account(#[trigger] final(strategies)@[k]),
                        )
                        &&& valuation_error(d, strat_account(final(strategies)@[jj]), r->Err_0)
                    }))
                }),
            r is Ok ==> ({
                let vals = r->Ok_0;
                &&& vals@.len() == old(strategies)@.len()
                &&& forall|j: int| #![trigger vals@[j]]
                    0 <= j < vals@.len() ==> ({
                        let a1 = strat_account(final(strategies)@[j]);
                        &&& vals@[j].stock_value == stocks_value(
                            old(self).database,
                            a1.stocks@,
                        )
                        &&& vals@[j].amount == a1.amount
                        &&& vals@[j].total == vals@[j].stock_value + vals@[j].amount
                    })
            }),
    {
        let ghost d = self.database;
        let start_idx = self.database.idx_from_date(start_date);
        let end_idx = self.database.idx_from_date(end_date);
        let ghost lo = start_idx as int;
        let ghost hi = end_idx as int;
        proof {
            // The last reference date covers `end_date`, so the resolved
            // end position lies inside the calendar.
            if end_idx as int == d.date_list@.len() {
                assert(d.date_list@[d.date_list@.len() - 1] < end_date);
                assert(false);
            }
        }
        let m = strategies.len();
        let mut p: usize = start_idx;
        while p <= end_idx
            invariant
                *self == *old(self),
                self.database.wf(),
                d == self.database,
                lo == start_idx as int,
                hi == end_idx as int,
                resolves_to(d.date_list@, start_date, lo),
                resolves_to(d.date_list@, end_date, hi),
                (end_idx as int) < d.date_list@.len(),
                start_idx <= p,
                p <= end_idx + 1 || p == start_idx,
                m == strategies@.len(),
                strategies@.len() == old(strategies)@.len(),
                forall|k: int| #![trigger strategies@[k]]
                    0 <= k < m ==> same_shape(old(strategies)@[k], strategies@[k]),
                forall|k: int| #![trigger strategies@[k]]
                    0 <= k < m ==> pm_tracked(
                        d,
                        lo,
                        p - 1,
                        old(strategies)@[k],
                        strategies@[k],
                    ),
            decreases end_idx + 1 - p,
        {
            let idx = self.database.date_list.len() - p - 1;
            let mut j: usize = 0;
            while j < m
                invariant
                    *self == *old(self),
                    self.database.wf(),
                    d == self.database,
                    lo == start_idx as int,
                    hi == end_idx as int,
                    resolves_to(d.date_list@, start_date, lo),
                    resolves_to(d.date_list@, end_date, hi),
                    start_idx <= p <= end_idx,
                    (end_idx as int) < d.date_list@.len(),
                    idx == d.date_list@.len() - 1 - p,
                    0 <= j <= m,
                    m == strategies@.len(),
                    strategies@.len() == old(strategies)@.len(),
                    forall|k: int| #![trigger strategies@[k]]
                        0 <= k < m ==> same_shape(old(strategies)@[k], strategies@[k]),
                    forall|k: int| #![trigger strategies@[k]]
                        j <= k < m ==> pm_tracked(
                            d,
                            lo,
                            p - 1,
                            old(strategies)@[k],
                            strategies@[k],
                        ),
                    forall|k: int| #![trigger strategies@[k]]
                        0 <= k < j ==> pm_tracked(
                            d,
                            lo,
                            p as int,
                            old(strategies)@[k],
                            strategies@[k],
                        ),
                decreases m - j,
            {
                let ghost pre = strategies@;
                let st = strategies.remove(j);
                match st {
                    Strategy::Test(account) => {
                        let _cmds = self.database.test_step(&account);
                        strategies.insert(j, Strategy::Test(account));
                        proof {
                            assert(strategies@ =~= pre);
                            assert(pm_tracked(
                                d,
                                lo,
                                p as int,
                                old(strategies)@[j as int],
                                strategies@[j as int],
                            ));
                        }
                    },
                    Strategy::PriceMomentum(mut account) => {
                        let ghost a_pre = account;
                        let ghost a0 = strat_account(old(strategies)@[j as int]);
                        let ghost m0 = pm_start_model(a0);
                        let ghost cash = pm_model_run(d, lo, p - 1, m0).0;
                        let ghost h = pm_model_run(d, lo, p - 1, m0).1;
                        let res = self.database.momentum_step(idx, &mut account);
                        proof {
                            lemma_model_run_snoc(d, lo, p as int, m0);
                            lemma_model_fails_snoc(d, lo, p as int, m0);
                            assert(pm_tracked(d, lo, p - 1, old(strategies)@[j as int], pre[j as int]));
                            assert(a_pre.amount as int == cash);
                            assert(holdings_of(a_pre) == h);
                        }
                        match res {
                            Ok(_) => {
                                proof {
                                    let c = pm_candidates(d, idx as int);
                                    assert(!pm_zero_close(d, idx as int));
                                    if c.len() == 0 || idx == 0 {
                                        assert(holdings_of(account) =~= h);
                                    } else {
                                        let b = c[best_of(c)].stock;
                                        let sym = d.stock_list@[b]@;
                                        let price = d.db@[b]@[idx - 1].open_price as int;
                                        assert(h[sym] == holding_qty(a_pre.stocks@, sym));
                                        if cash >= price {
                                            assert(holding_qty(account.stocks@, sym)
                                                == holding_qty(a_pre.stocks@, sym) + 1);
                                            assert(holdings_of(account) =~= h.insert(
                                                sym,
                                                h[sym] + 1,
                                            ));
                                        } else {
                                            assert(holdings_of(account) =~= h);
                                        }
                                    }
                                    assert(!pm_model_day_fails(d, idx as int, cash, h));
                                    assert(!pm_model_run_fails(d, lo, p as int, m0));
                                    assert(account.amount as int == pm_model_run(
                                        d,
                                        lo,
                                        p as int,
                                        m0,
                                    ).0);
                                    assert(holdings_of(account) == pm_model_run(
                                        d,
                                        lo,
                                        p as int,
                                        m0,
                                    ).1);
                                }
                                strategies.insert(j, Strategy::PriceMomentum(account));
                                proof {
                                    assert(strategies@ =~= pre.update(
                                        j as int,
                                        Strategy::PriceMomentum(account),
                                    ));
                                    assert(pm_tracked(
                                        d,
                                        lo,
                                        p as int,
                                        old(strategies)@[j as int],
                                        strategies@[j as int],
                                    ));
                                    assert(same_shape(
                                        old(strategies)@[j as int],
                                        strategies@[j as int],
                                    ));
                                }
                            },
                            Err(e) => {
                                strategies.insert(j, Strategy::PriceMomentum(account));
                                proof {
                                    assert(strategies@ =~= pre.update(
                                        j as int,
                                        Strategy::PriceMomentum(account),
                                    ));
                                    let c = pm_candidates(d, idx as int);
                                    if pm_zero_close(d, idx as int) {
                                        assert(pm_model_day_fails(d, idx as int, cash, h));
                                        assert(e is DivisionByZero);
                                    } else {
                                        let b = c[best_of(c)].stock;
                                        let sym = d.stock_list@[b]@;
                                        let price = d.db@[b]@[idx - 1].open_price as int;
                                        assert(c.len() > 0);
                                        assert(idx > 0);
                                        assert(a_pre.amount >= price);
                                        assert(!(a_pre.amount - price <= i32::MAX
                                            && holding_qty(a_pre.stocks@, sym) < u32::MAX));
                                        assert(h[sym] == holding_qty(a_pre.stocks@, sym));
                                        assert(pm_model_day_fails(d, idx as int, cash, h));
                                        assert(e is Overflow);
                                    }
                                    assert(e == pm_day_error(d, idx as int));
                                    assert(pm_model_run_fails(d, lo, p as int, m0));
                                    lemma_model_fails_mono(d, lo, p as int, hi, m0);
                                    assert(pm_model_run_fails(d, lo, hi, m0));
                                    lemma_fail_pos_found(d, lo, p as int, hi, m0);
                                    assert(pm_fail_pos(d, lo, hi, m0) == p as int);
                                    assert(pm_run_error(d, lo, hi, m0) == pm_day_error(
                                        d,
                                        idx as int,
                                    ));
                                    assert forall|k: int|
                                        0 <= k < m && old(strategies)@[k] is PriceMomentum
                                            && pm_model_run_fails(
                                            d,
                                            lo,
                                            hi,
                                            pm_start_model(
                                                strat_account(#[trigger] old(strategies)@[k]),
                                            ),
                                        ) implies ({
                                        let mk = pm_start_model(
                                            strat_account(old(strategies)@[k]),
                                        );
                                        ||| pm_fail_pos(d, lo, hi, m0) < pm_fail_pos(
                                            d,
                                            lo,
                                            hi,
                                            mk,
                                        )
                                        ||| (pm_fail_pos(d, lo, hi, m0) == pm_fail_pos(
                                            d,
                                            lo,
                                            hi,
                                            mk,
                                        ) && j as int <= k)
                                    }) by {
                                        let mk = pm_start_model(
                                            strat_account(old(strategies)@[k]),
                                        );
                                        if k < j as int {
                                            assert(pm_tracked(
                                                d,
                                                lo,
                                                p as int,
                                                old(strategies)@[k],
                                                strategies@[k],
                                            ));
                                            lemma_fail_pos_after(d, lo, p as int, hi, mk);
                                        } else if k > j as int {
                                            assert(pm_tracked(
                                                d,
                                                lo,
                                                p - 1,
                                                old(strategies)@[k],
                                                strategies@[k],
                                            ));
                                            lemma_fail_pos_after(d, lo, p - 1, hi, mk);
                                        }
                                    }
                                }
                                return Err(e);
                            },
                        }
                    },
                }
                j = j + 1;
            }
            p = p + 1;
        }
        proof {
            assert forall|k: int|
                0 <= k < m implies pm_tracked(
                d,
                lo,
                hi,
                old(strategies)@[k],
                #[trigger] strategies@[k],
            ) by {
                assert(pm_tracked(d, lo, p - 1, old(strategies)@[k], strategies@[k]));
                if old(strategies)@[k] is PriceMomentum {
                    let m0 = pm_start_model(strat_account(old(strategies)@[k]));
                    if p as int - 1 == hi {
                    } else {
                        assert(p == start_idx && hi < lo);
                        assert(pm_model_run(d, lo, hi, m0) == m0);
                        assert(pm_model_run(d, lo, p - 1, m0) == m0);
                        assert(!pm_model_run_fails(d, lo, hi, m0));
                        assert(!pm_model_run_fails(d, lo, p - 1, m0));
                    }
                }
            }
        }
        let mut vals: Vec<Valuation> = Vec::new();
        let mut j: usize = 0;
        while j < m
            invariant
                *self == *old(self),
                self.database.wf(),
                d == self.database,
                resolves_to(d.date_list@, start_date, lo),
                resolves_to(d.date_list@, end_date, hi),
                0 <= j <= m,
                m == strategies@.len(),
                strategies@.len() == old(strategies)@.len(),
                forall|k: int| #![trigger strategies@[k]]
                    0 <= k < m ==> same_shape(old(strategies)@[k], strategies@[k]),
                forall|k: int| #![trigger strategies@[k]]
                    0 <= k < m ==> pm_tracked(d, lo, hi, old(strategies)@[k], strategies@[k]),
                vals@.len() == j,
                forall|k: int| #![trigger vals@[k], strategies@[k]]
                    0 <= k < j ==> ({
                        let a1 = strat_account(strategies@[k]);
                        &&& valuation_ok(d, a1)
                        &&& vals@[k].stock_value == stocks_value(d, a1.stocks@)
                        &&& vals@[k].amount == a1.amount
                        &&& vals@[k].total == vals@[k].stock_value + vals@[k].amount
                    }),
            decreases m - j,
        {
            let account = match &strategies[j] {
                Strategy::Test(a) => a,
                Strategy::PriceMomentum(a) => a,
            };
            proof {
                assert(*account == strat_account(strategies@[j as int]));
            }
            let stock_value = match self.database.portfolio_value(&account.stocks) {
                Ok(v) => v,
                Err(e) => {
                    proof {
                        assert(!valuation_ok(d, strat_account(strategies@[j as int])));
                        assert forall|k: int|
                            0 <= k < m && old(strategies)@[k]
                                is PriceMomentum implies !pm_model_run_fails(
                            d,
                            lo,
                            hi,
                            pm_start_model(strat_account(#[trigger] old(strategies)@[k])),
                        ) by {
                            assert(pm_tracked(d, lo, hi, old(strategies)@[k], strategies@[k]));
                        }
                        assert forall|k: int| 0 <= k < j as int implies valuation_ok(
                            d,
                            strat_account(#[trigger] strategies@[k]),
                        ) by {
                            assert(vals@[k].amount == strat_account(strategies@[k]).amount);
                        }
                        assert(valuation_error(d, strat_account(strategies@[j as int]), e));
                    }
                    return Err(e);
                },
            };
            let total = stock_value as i64 + account.amount as i64;
            if total > i32::MAX as i64 || total < i32::MIN as i64 {
                proof {
                    assert(!valuation_ok(d, strat_account(strategies@[j as int])));
                    assert forall|k: int|
                        0 <= k < m && old(strategies)@[k]
                            is PriceMomentum implies !pm_model_run_fails(
                        d,
                        lo,
                        hi,
                        pm_start_model(strat_account(#[trigger] old(strategies)@[k])),
                    ) by {
                        assert(pm_tracked(d, lo, hi, old(strategies)@[k], strategies@[k]));
                    }
                    assert forall|k: int| 0 <= k < j as int implies valuation_ok(
                        d,
                        strat_account(#[trigger] strategies@[k]),
                    ) by {
                        assert(vals@[k].amount == strat_account(strategies@[k]).amount);
                    }
                    assert(valuation_error(
                        d,
                        strat_account(strategies@[j as int]),
                        BacktestError::Overflow,
                    ));
                }
                return Err(BacktestError::Overflow);
            }
            let ghost vals_pre = vals@;
            vals.push(Valuation { stock_value, amount: account.amount, total: total as i32 });
            proof {
                assert forall|k: int| 0 <= k <= j as int implies ({
                    let a1 = strat_account(#[trigger] strategies@[k]);
                    &&& valuation_ok(d, a1)
                    &&& vals@[k].stock_value == stocks_value(d, a1.stocks@)
                    &&& vals@[k].amount == a1.amount
                    &&& vals@[k].total == vals@[k].stock_value + vals@[k].amount
                }) by {
                    if k < j as int {
                        assert(vals@[k] == vals_pre[k]);
                    } else {
                        assert(vals@[k] == vals@.last());
                        assert(strat_account(strategies@[k]) == *account);
                    }
                }
            }
            j = j + 1;
        }
        proof {
            assert forall|k: int|
                0 <= k < m && old(strategies)@[k] is PriceMomentum implies !pm_model_run_fails(
                d,
                lo,
                hi,
                pm_start_model(strat_account(#[trigger] old(strategies)@[k])),
            ) by {
                assert(pm_tracked(d, lo, hi, old(strategies)@[k], strategies@[k]));
            }
            assert forall|k: int| 0 <= k < m implies valuation_ok(
                d,
                strat_account(#[trigger] strategies@[k]),
            ) by {
                assert(vals@[k].amount == strat_account(strategies@[k]).amount);
            }
        }
        Ok(vals)
    }
}

} // verus!
