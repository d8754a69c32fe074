//! The momentum signal, the ranking order, and the portfolio valuation.
//!
//! The trailing return `close[skip] / close[horizon] - 1` is kept as an
//! exact rational with a positive denominator, so that ranking compares the
//! true values instead of rounded ones.  Selection takes the candidate with
//! the greatest momentum, and of equal greatest values the one listed last,
//! which is what an ascending stable sort followed by taking the last
//! element yields.

use vstd::prelude::*;
use crate::BacktestError;
use crate::database::Column;
use crate::database::DataBase;

verus! {

/// An exact rational `num / den`.  Every ratio the engine builds is
/// normalised to `den > 0`.
#[derive(Clone, Copy, Debug, PartialEq, Eq, Structural)]
pub struct Ratio {
    pub num: i64,
    pub den: i64,
}

/// `a <= b` as rationals, by cross-multiplication; meaningful when both
/// denominators are positive.
pub open spec fn frac_le(a: Ratio, b: Ratio) -> bool {
    a.num * b.den <= b.num * a.den
}

/// `a < b` as rationals, by cross-multiplication; meaningful when both
/// denominators are positive.
pub open spec fn frac_lt(a: Ratio, b: Ratio) -> bool {
    a.num * b.den < b.num * a.den
}

/// The rational order is transitive over positive denominators.
pub proof fn lemma_frac_le_trans(a: Ratio, b: Ratio, c: Ratio)
    requires
        a.den > 0,
        b.den > 0,
        c.den > 0,
        frac_le(a, b),
        frac_le(b, c),
    ensures
        frac_le(a, c),
{
    assert(a.num * c.den <= c.num * a.den) by (nonlinear_arith)
        requires
            a.den > 0,
            b.den > 0,
            c.den > 0,
            a.num * b.den <= b.num * a.den,
            b.num * c.den <= c.num * b.den,
    ;
}

/// Compares two ratios exactly.
pub fn ratio_le(a: &Ratio, b: &Ratio) -> (r: bool)
    ensures
        r == frac_le(*a, *b),
{
    proof {
        assert(i128::MIN <= (a.num as int) * (b.den as int) <= i128::MAX) by (nonlinear_arith)
            requires
                i64::MIN <= a.num <= i64::MAX,
                i64::MIN <= b.den <= i64::MAX,
        ;
        assert(i128::MIN <= (b.num as int) * (a.den as int) <= i128::MAX) by (nonlinear_arith)
            requires
                i64::MIN <= b.num <= i64::MAX,
                i64::MIN <= a.den <= i64::MAX,
        ;
    }
    let x: i128 = (a.num as i128) * (b.den as i128);
    let y: i128 = (b.num as i128) * (a.den as i128);
    x <= y
}

/// Numerator of the momentum ratio, with the sign of the denominator
/// already factored out.
pub open spec fn mom_num(cs: int, ct: int) -> int {
    if ct > 0 {
        cs - ct
    } else {
        ct - cs
    }
}

/// Denominator of the momentum ratio, normalised positive.
pub open spec fn mom_den(ct: int) -> int {
    if ct > 0 {
        ct
    } else {
        -ct
    }
}

/// The momentum `cs / ct - 1` as a normalised exact rational; meaningful
/// when `ct != 0`.
pub open spec fn momentum_ratio(cs: int, ct: int) -> Ratio {
    Ratio { num: mom_num(cs, ct) as i64, den: mom_den(ct) as i64 }
}

/// The trailing return of a window of bars ordered newest-first, starting
/// `start` bars back: `close[start+skip] / close[start+horizon] - 1`.
///
/// Exactly when the window holds `time` or fewer bars the signal is
/// unavailable (`Ok(None)`), which is a normal "no signal" outcome; a zero
/// close at the horizon is a division by zero and is reported, not masked.
pub fn get_momentum(columns: &Vec<Column>, start: usize, skip: usize, time: usize) -> (r: Result<
    Option<Ratio>,
    BacktestError,
>)
    requires
        skip <= time,
        start <= columns@.len(),
    ensures
        columns@.len() - start <= time <==> r == Ok::<Option<Ratio>, BacktestError>(
            None::<Ratio>,
        ),
        columns@.len() - start > time ==> ({
            let cs = columns@[start + skip].close_price as int;
            let ct = columns@[start + time].close_price as int;
            &&& ct == 0 ==> r == Err::<Option<Ratio>, BacktestError>(
                BacktestError::DivisionByZero,
            )
            &&& ct != 0 ==> r == Ok::<Option<Ratio>, BacktestError>(
                Some(momentum_ratio(cs, ct)),
            )
            &&& ct != 0 ==> momentum_ratio(cs, ct).den > 0
        }),
{
    if columns.len() - start <= time {
        return Ok(None);
    }
    let cs = columns[start + skip].close_price;
    let ct = columns[start + time].close_price;
    if ct == 0 {
        return Err(BacktestError::DivisionByZero);
    }
    if ct > 0 {
        Ok(Some(Ratio { num: (cs as i64) - (ct as i64), den: ct as i64 }))
    } else {
        Ok(Some(Ratio { num: (ct as i64) - (cs as i64), den: -(ct as i64) }))
    }
}

/// A window of constant close price has zero momentum, whatever the skip
/// and horizon offsets.
pub proof fn lemma_momentum_of_constant_price(
    cols: Seq<Column>,
    c: i32,
    start: int,
    skip: int,
    time: int,
)
    requires
        c != 0,
        forall|i: int| 0 <= i < cols.len() ==> #[trigger] cols[i].close_price == c,
        0 <= start,
        0 <= skip <= time,
        start + time < cols.len(),
    ensures
        momentum_ratio(
            cols[start + skip].close_price as int,
            cols[start + time].close_price as int,
        ).num == 0,
        momentum_ratio(
            cols[start + skip].close_price as int,
            cols[start + time].close_price as int,
        ).den > 0,
{
}

/// One symbol's entry in the ranking: its momentum and its position in the
/// store's symbol list.
pub struct Candidate {
    pub mom: Ratio,
    pub stock: int,
}

/// The momentum signal is available for a bar table at `idx` exactly when
/// more than `time` bars remain at and after `idx`.
pub open spec fn mom_available(cols: Seq<Column>, idx: int, time: int) -> bool {
    cols.len() > idx + time
}

/// The momentum ratio of a bar table at `idx`.
pub open spec fn mom_of(cols: Seq<Column>, idx: int, skip: int, time: int) -> Ratio {
    momentum_ratio(cols[idx + skip].close_price as int, cols[idx + time].close_price as int)
}

/// The ranking candidates among the first `n` symbols of the store, in
/// symbol-list order: every symbol whose signal is available at `idx`.
pub open spec fn candidates_upto(d: DataBase, idx: int, skip: int, time: int, n: int) -> Seq<
    Candidate,
>
    decreases n,
{
    if n <= 0 {
        Seq::empty()
    } else {
        let prev = candidates_upto(d, idx, skip, time, n - 1);
        if mom_available(d.db@[n - 1]@, idx, time) {
            prev.push(Candidate { mom: mom_of(d.db@[n - 1]@, idx, skip, time), stock: n - 1 })
        } else {
            prev
        }
    }
}

/// The ranking candidates of the whole store at `idx`.
pub open spec fn candidates(d: DataBase, idx: int, skip: int, time: int) -> Seq<Candidate> {
    candidates_upto(d, idx, skip, time, d.db@.len() as int)
}

/// Some symbol's close at the horizon is zero, which makes the ranking
/// phase fail with a division by zero.
pub open spec fn zero_close_exists(d: DataBase, idx: int, time: int) -> bool {
    exists|s: int| #![trigger d.db@[s]]
        0 <= s < d.db@.len() && mom_available(d.db@[s]@, idx, time) && d.db@[s]@[idx
            + time].close_price == 0
}

/// The position the ranking selects: the greatest momentum, and of equal
/// greatest values the one that comes last.  `-1` when there is no
/// candidate.
pub open spec fn best_of(c: Seq<Candidate>) -> int
    decreases c.len(),
{
    if c.len() == 0 {
        -1
    } else {
        let p = best_of(c.drop_last());
        if p == -1 {
            c.len() - 1
        } else if frac_le(c[p].mom, c.last().mom) {
            c.len() - 1
        } else {
            p
        }
    }
}

/// What the selection guarantees: the selected candidate's momentum is
/// greatest, and every later candidate's momentum is strictly smaller.
pub proof fn lemma_best_of_props(c: Seq<Candidate>)
    requires
        c.len() > 0,
        forall|j: int| 0 <= j < c.len() ==> (#[trigger] c[j].mom).den > 0,
    ensures
        0 <= best_of(c) < c.len(),
        forall|j: int| 0 <= j < c.len() ==> frac_le((#[trigger] c[j]).mom, c[best_of(c)].mom),
        forall|j: int| best_of(c) < j < c.len() ==> frac_lt((#[trigger] c[j]).mom, c[best_of(c)].mom),
    decreases c.len(),
{
    let t = c.drop_last();
    let b = best_of(c);
    if c.len() == 1 {
        assert(b == 0);
    } else {
        assert(forall|j: int| 0 <= j < t.len() ==> (#[trigger] t[j].mom).den > 0);
        lemma_best_of_props(t);
        let p = best_of(t);
        assert(forall|j: int| 0 <= j < t.len() ==> t[j] == c[j]);
        if frac_le(c[p].mom, c.last().mom) {
            assert(b == c.len() - 1);
            assert forall|j: int| 0 <= j < c.len() implies frac_le((c[j]).mom, c[b].mom) by {
                if j < c.len() - 1 {
                    lemma_frac_le_trans(c[j].mom, c[p].mom, c[b].mom);
                }
            }
        } else {
            assert(b == p);
            assert(frac_lt(c.last().mom, c[p].mom));
        }
    }
}

/// `i` is the position of a unique greatest momentum: every other
/// candidate's momentum is strictly smaller.
pub open spec fn unique_max_at(c: Seq<Candidate>, i: int) -> bool {
    &&& 0 <= i < c.len()
    &&& forall|j: int| 0 <= j < c.len() && j != i ==> frac_lt((#[trigger] c[j]).mom, c[i].mom)
}

/// Ranking determinism: when one candidate's momentum is strictly greater
/// than every other's, the selection picks that candidate, in whatever
/// order the candidates are listed.  Two candidate lists that hold the same
/// multiset of entries select the same entry.
pub proof fn lemma_ranking_deterministic(c1: Seq<Candidate>, c2: Seq<Candidate>, i: int)
    requires
        c1.to_multiset() == c2.to_multiset(),
        forall|j: int| 0 <= j < c1.len() ==> (#[trigger] c1[j].mom).den > 0,
        unique_max_at(c1, i),
    ensures
        c1.len() > 0,
        best_of(c1) == i,
        0 <= best_of(c2) < c2.len(),
        c2[best_of(c2)] == c1[i],
{
    broadcast use vstd::seq_lib::group_to_multiset_ensures;

    assert(c2.len() == c1.len()) by {
        assert(c1.to_multiset().len() == c1.len());
        assert(c2.to_multiset().len() == c2.len());
    }
    lemma_best_of_props(c1);
    let b1 = best_of(c1);
    if b1 != i {
        assert(frac_lt(c1[b1].mom, c1[i].mom));
        assert(frac_le(c1[i].mom, c1[b1].mom));
        assert(false);
    }
    assert forall|j: int| 0 <= j < c2.len() implies (#[trigger] c2[j].mom).den > 0 by {
        assert(c2.contains(c2[j]));
        assert(c2.to_multiset().count(c2[j]) > 0);
        assert(c1.to_multiset().count(c2[j]) > 0);
        assert(c1.contains(c2[j]));
        let k = choose|k: int| 0 <= k < c1.len() && c1[k] == c2[j];
        assert(c1[k].mom.den > 0);
    }
    lemma_best_of_props(c2);
    let b2 = best_of(c2);
    // The selected entry of `c2` is some entry of `c1`; if it were not the
    // unique maximum, the maximum would still be in `c2` and would beat it.
    assert(c2.contains(c2[b2]));
    assert(c1.to_multiset().count(c2[b2]) > 0);
    assert(c1.contains(c2[b2]));
    let k = choose|k: int| 0 <= k < c1.len() && c1[k] == c2[b2];
    if k != i {
        assert(frac_lt(c1[k].mom, c1[i].mom));
        assert(c1.contains(c1[i]));
        assert(c2.to_multiset().count(c1[i]) > 0);
        assert(c2.contains(c1[i]));
        let m = choose|m: int| 0 <= m < c2.len() && c2[m] == c1[i];
        assert(frac_le(c2[m].mom, c2[b2].mom));
        assert(false);
    }
    assert(c2[b2] == c1[i]);
}

/// The position of `name` in the symbol list, first match, `-1` when
/// absent.
pub open spec fn find_stock(sl: Seq<String>, name: Seq<char>) -> int
    decreases sl.len(),
{
    if sl.len() == 0 {
        -1
    } else if sl[0]@ == name {
        0
    } else {
        let r = find_stock(sl.drop_first(), name);
        if r == -1 {
            -1
        } else {
            r + 1
        }
    }
}

/// `find_stock` returns the first match.
pub proof fn lemma_find_stock_first(sl: Seq<String>, name: Seq<char>, k: int)
    requires
        0 <= k < sl.len(),
        sl[k]@ == name,
        forall|j: int| 0 <= j < k ==> (#[trigger] sl[j])@ != name,
    ensures
        find_stock(sl, name) == k,
    decreases k,
{
    if k == 0 {
    } else {
        lemma_find_stock_first(sl.drop_first(), name, k - 1);
    }
}

/// `find_stock` misses exactly when no entry matches.
pub proof fn lemma_find_stock_none(sl: Seq<String>, name: Seq<char>)
    requires
        forall|j: int| 0 <= j < sl.len() ==> (#[trigger] sl[j])@ != name,
    ensures
        find_stock(sl, name) == -1,
    decreases sl.len(),
{
    if sl.len() > 0 {
        lemma_find_stock_none(sl.drop_first(), name);
    }
}

/// A held symbol can be valued: it is in the store and has at least one
/// bar.
pub open spec fn holding_resolvable(d: DataBase, h: (String, u32)) -> bool {
    let k = find_stock(d.stock_list@, h.0@);
    &&& 0 <= k < d.db@.len()
    &&& d.db@[k]@.len() > 0
}

/// The value of one holding: the symbol's most recent open price times the
/// held quantity.
pub open spec fn holding_value(d: DataBase, h: (String, u32)) -> int {
    d.db@[find_stock(d.stock_list@, h.0@)]@[0].open_price * h.1
}

/// Every holding of the list can be valued.
pub open spec fn stocks_resolvable(d: DataBase, stocks: Seq<(String, u32)>) -> bool {
    forall|i: int| 0 <= i < stocks.len() ==> holding_resolvable(d, #[trigger] stocks[i])
}

/// The portfolio's stock value: the sum over the holdings of most recent
/// open price times quantity.
pub open spec fn stocks_value(d: DataBase, stocks: Seq<(String, u32)>) -> int
    decreases stocks.len(),
{
    if stocks.len() == 0 {
        0
    } else {
        stocks_value(d, stocks.drop_last()) + holding_value(d, stocks.last())
    }
}

/// One holding's value is bounded by the extreme price times the extreme
/// quantity.
proof fn lemma_holding_value_bound(d: DataBase, h: (String, u32))
    ensures
        -0x7FFF_FFFF_8000_0000 <= holding_value(d, h) <= 0x7FFF_FFFF_8000_0000,
{
    let p = d.db@[find_stock(d.stock_list@, h.0@)]@[0].open_price;
    let q = h.1;
    assert(-0x7FFF_FFFF_8000_0000 <= (p as int) * (q as int) <= 0x7FFF_FFFF_8000_0000)
        by (nonlinear_arith)
        requires
            -0x8000_0000 <= p <= 0x7FFF_FFFF,
            0 <= q <= 0xFFFF_FFFF,
    ;
}

/// Everything valuing a holdings list guarantees: success exactly when
/// every held symbol is in the store with at least one bar and the exact
/// sum of latest open price times quantity fits in an `i32`; the sum on
/// success, the first missing symbol or an overflow on failure.
pub open spec fn valuation_rel(d: DataBase, stocks: Seq<(String, u32)>, r: Result<
    i32,
    BacktestError,
>) -> bool {
    &&& (r is Ok <==> stocks_resolvable(d, stocks) && i32::MIN <= stocks_value(d, stocks)
        <= i32::MAX)
    &&& (r is Ok ==> r->Ok_0 == stocks_value(d, stocks))
    &&& (!stocks_resolvable(d, stocks) ==> exists|i: int| #![auto]
        0 <= i < stocks.len() && !holding_resolvable(d, stocks[i]) && r == Err::<
            i32,
            BacktestError,
        >(BacktestError::DataUnavailable { stock: stocks[i].0 }))
    &&& (stocks_resolvable(d, stocks) && !(i32::MIN <= stocks_value(d, stocks) <= i32::MAX)
        ==> r == Err::<i32, BacktestError>(BacktestError::Overflow))
}

/// Interface to the engine's auxiliary calculations on the store.
pub trait Etc {
    /// The store state the calculations rely on.
    spec fn etc_inv(&self) -> bool;

    /// What valuing a holdings list guarantees.
    spec fn cell_rel(&self, stocks: Seq<(String, u32)>, r: Result<i32, BacktestError>) -> bool;

    /// Values a holdings list against the store; the result is pinned by
    /// [`Self::cell_rel`].
    fn calc_all_cell(&self, stocks: &Vec<(String, u32)>) -> (r: Result<i32, BacktestError>)
        requires
            self.etc_inv(),
        ensures
            self.cell_rel(stocks@, r),
    ;
}

impl Etc for DataBase {
    open spec fn etc_inv(&self) -> bool {
        self.wf()
    }

    /// Exactly [`valuation_rel`], which [`DataBase::portfolio_value`]
    /// proves.
    open spec fn cell_rel(&self, stocks: Seq<(String, u32)>, r: Result<i32, BacktestError>) -> bool {
        valuation_rel(*self, stocks, r)
    }

    fn calc_all_cell(&self, stocks: &Vec<(String, u32)>) -> (r: Result<i32, BacktestError>) {
        self.portfolio_value(stocks)
    }
}

impl DataBase {
    /// Values a holdings list: the sum over the holdings of the symbol's
    /// most recent open price times the held quantity.  Succeeds exactly
    /// when every held symbol is in the store with at least one bar and the
    /// exact sum fits in an `i32`; a symbol that cannot be valued is
    /// reported by name, an overflowing sum as overflow.
    pub fn portfolio_value(&self, stocks: &Vec<(String, u32)>) -> (r: Result<i32, BacktestError>)
        requires
            self.wf(),
        ensures
            valuation_rel(*self, stocks@, r),
    {
        let n = stocks.len();
        let mut acc: i128 = 0;
        let mut i: usize = 0;
        while i < n
            invariant
                self.wf(),
                0 <= i <= n,
                n == stocks@.len(),
                forall|j: int| 0 <= j < i ==> holding_resolvable(*self, #[trigger] stocks@[j]),
                acc == stocks_value(*self, stocks@.take(i as int)),
                -(i as int) * 0x7FFF_FFFF_8000_0000 <= acc <= (i as int) * 0x7FFF_FFFF_8000_0000,
            decreases n - i,
        {
            let cols = match self.get_columns(stocks[i].0.as_str()) {
                Some(cols) => cols,
                None => {
                    proof {
                        lemma_find_stock_none(self.stock_list@, stocks@[i as int].0@);
                        assert(!holding_resolvable(*self, stocks@[i as int]));
                    }
                    return Err(
                        BacktestError::DataUnavailable { stock: stocks[i].0.clone() },
                    );
                },
            };
            proof {
                let k = choose|k: int|
                    0 <= k < self.stock_list@.len() && self.stock_list@[k]@ == stocks@[
                        i as int
                    ].0@ && (forall|j: int|
                        0 <= j < k ==> self.stock_list@[j]@ != stocks@[i as int].0@) && cols@
                        == self.db@[k]@;
                lemma_find_stock_first(self.stock_list@, stocks@[i as int].0@, k);
            }
            if cols.len() == 0 {
                proof {
                    assert(!holding_resolvable(*self, stocks@[i as int]));
                }
                return Err(BacktestError::DataUnavailable { stock: stocks[i].0.clone() });
            }
            proof {
                assert(holding_resolvable(*self, stocks@[i as int]));
                lemma_holding_value_bound(*self, stocks@[i as int]);
                assert(i128::MIN <= (cols@[0].open_price as int) * (stocks@[i as int].1 as int)
                    <= i128::MAX) by (nonlinear_arith)
                    requires
                        -0x8000_0000 <= cols@[0].open_price <= 0x7FFF_FFFF,
                        0 <= stocks@[i as int].1 <= 0xFFFF_FFFF,
                ;
            }
            let term: i128 = (cols[0].open_price as i128) * (stocks[i].1 as i128);
            proof {
                assert(term == holding_value(*self, stocks@[i as int]));
                assert(stocks@.take(i + 1).drop_last() =~= stocks@.take(i as int));
                assert(stocks@.take(i + 1).last() == stocks@[i as int]);
            }
            acc = acc + term;
            i = i + 1;
        }
        proof {
            assert(stocks@.take(n as int) =~= stocks@);
        }
        if acc < i32::MIN as i128 || acc > i32::MAX as i128 {
            Err(BacktestError::Overflow)
        } else {
            Ok(acc as i32)
        }
    }
}

} // verus!
