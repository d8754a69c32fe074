//! The time-indexed price store.
//!
//! The store owns, per symbol, the ordered sequence of daily bars, and the
//! trading-calendar date list derived from one designated reference symbol.
//! Raw rows arrive oldest-first as plain strings (the surrounding program
//! reads the files); the store validates every row, keeps each symbol's bars
//! **newest-first** (index `idx` means "`idx` trading days back from the most
//! recent day"), and keeps the reference dates **ascending**, so that a
//! calendar position `p` corresponds to the bar index `len - 1 - p`.

use vstd::prelude::*;
use crate::BacktestError;
use crate::parse::all_digits;
use crate::parse::date_val;
use crate::parse::digits_val;
use crate::parse::int_val;
use crate::parse::is_date_field;
use crate::parse::is_decimal_lit;
use crate::parse::is_i32_field;
use crate::parse::is_u32_field;
use crate::parse::is_u64_field;
use crate::parse::lemma_digits_val_nonneg;
use crate::parse::parse_date;
use crate::parse::parse_i32;
use crate::parse::parse_u32;
use crate::parse::parse_u64;
use crate::parse::is_decimal;
use crate::parse::uint_val;
use crate::parse::undashed;

verus! {

/// One trading day's record for one symbol.  Prices are in currency minor
/// units; `performance` is the daily return exactly as the data source wrote
/// it, kept as text because the engine never reads its value.
#[derive(Debug, Clone)]
pub struct Column {
    pub date: u32,
    pub open_price: i32,
    pub high_price: i32,
    pub low_price: i32,
    pub close_price: i32,
    pub volume: u32,
    pub amount: u64,
    pub performance: String,
}

/// A raw row is valid when it has exactly the eight expected fields and each
/// parses in its place: date, four signed prices, volume, amount, and a
/// decimal-shaped performance figure.
pub open spec fn row_ok(row: Seq<String>) -> bool {
    &&& row.len() == 8
    &&& is_date_field(row[0]@)
    &&& is_i32_field(row[1]@)
    &&& is_i32_field(row[2]@)
    &&& is_i32_field(row[3]@)
    &&& is_i32_field(row[4]@)
    &&& is_u32_field(row[5]@)
    &&& is_u64_field(row[6]@)
    &&& is_decimal_lit(row[7]@)
}

/// The bar a valid raw row denotes.
pub open spec fn column_of_row(row: Seq<String>) -> Column {
    Column {
        date: date_val(row[0]@) as u32,
        open_price: int_val(row[1]@) as i32,
        high_price: int_val(row[2]@) as i32,
        low_price: int_val(row[3]@) as i32,
        close_price: int_val(row[4]@) as i32,
        volume: uint_val(row[5]@) as u32,
        amount: uint_val(row[6]@) as u64,
        performance: row[7],
    }
}

/// Every row of the table is valid.
pub open spec fn rows_ok(t: Seq<Vec<String>>) -> bool {
    forall|r: int| #![trigger t[r]] 0 <= r < t.len() ==> row_ok(t[r]@)
}

/// The table's dates are strictly ascending: oldest first, no duplicates.
pub open spec fn dates_ascending(t: Seq<Vec<String>>) -> bool {
    forall|i: int, j: int| #![trigger t[i], t[j]]
        0 <= i < j < t.len() ==> date_val(t[i]@[0]@) < date_val(t[j]@[0]@)
}

/// A table can enter the store iff every row is valid and the dates are
/// strictly ascending.
pub open spec fn table_ok(t: Seq<Vec<String>>) -> bool {
    rows_ok(t) && dates_ascending(t)
}

/// The bars of a valid table, newest first.
pub open spec fn cols_of_table(t: Seq<Vec<String>>) -> Seq<Column> {
    Seq::new(t.len(), |i: int| column_of_row(t[t.len() - 1 - i]@))
}

/// The dates of a valid table in input (ascending) order.
pub open spec fn dates_of_table(t: Seq<Vec<String>>) -> Seq<u32> {
    Seq::new(t.len(), |i: int| (date_val(t[i]@[0]@) as u32))
}

/// Position `rr` breaks the table: its row is invalid, or its date fails to
/// increase over the previous row's.
pub open spec fn table_flaw(t: Seq<Vec<String>>, rr: int) -> bool {
    &&& 0 <= rr < t.len()
    &&& (!row_ok(t[rr]@) || (rr > 0 && date_val(t[rr]@[0]@) <= date_val(t[rr - 1]@[0]@)))
}

/// A strictly ascending list of date integers.
pub open spec fn sorted_strict(s: Seq<u32>) -> bool {
    forall|i: int, j: int| #![trigger s[i], s[j]] 0 <= i < j < s.len() ==> s[i] < s[j]
}

/// `r` is where a lower-bound search for `date` lands in `dl`: everything
/// before `r` is strictly older, everything from `r` on is `date` or newer.
pub open spec fn resolves_to(dl: Seq<u32>, date: u32, r: int) -> bool {
    &&& 0 <= r <= dl.len()
    &&& forall|i: int| 0 <= i < r ==> dl[i] < date
    &&& forall|i: int| r <= i < dl.len() ==> dl[i] >= date
}

/// The store: per-symbol bars (parallel to `stock_list`), the symbol
/// manifest in load order, and the reference trading calendar.
pub struct DataBase {
    /// Bars per symbol, newest first, parallel to `stock_list`.
    pub db: Vec<Vec<Column>>,
    /// The symbol manifest, load order preserved.
    pub stock_list: Vec<String>,
    /// The reference symbol's dates, strictly ascending.
    pub date_list: Vec<u32>,
}

impl DataBase {
    /// The store invariant: one bar table per symbol and a strictly
    /// ascending trading calendar.
    pub open spec fn wf(&self) -> bool {
        &&& self.db@.len() == self.stock_list@.len()
        &&& sorted_strict(self.date_list@)
    }

    /// Builds the store from raw tables, one per symbol of `stock_list`,
    /// each row oldest-first.  Every row of every table is validated; the
    /// first flaw is reported as a malformed record naming the symbol and
    /// the row.  Bars are kept newest-first and the calendar is taken from
    /// the table of `stock_list[reference]`.
    pub fn new(stock_list: Vec<String>, tables: Vec<Vec<Vec<String>>>, reference: usize) -> (r:
        Result<DataBase, BacktestError>)
        requires
            tables@.len() == stock_list@.len(),
            reference < stock_list@.len(),
        ensures
            r is Ok <==> forall|s: int| #![trigger tables@[s]]
                0 <= s < tables@.len() ==> table_ok(tables@[s]@),
            r is Ok ==> ({
                let d = r->Ok_0;
                &&& d.wf()
                &&& d.stock_list == stock_list
                &&& d.db@.len() == stock_list@.len()
                &&& forall|s: int| #![trigger d.db@[s]]
                    0 <= s < tables@.len() ==> d.db@[s]@ == cols_of_table(tables@[s]@)
                &&& d.date_list@ == dates_of_table(tables@[reference as int]@)
            }),
            r is Err ==> exists|s: int, rr: int| #![auto]
                0 <= s < tables@.len() && table_flaw(tables@[s]@, rr) && (forall|s2: int|
                    #![trigger tables@[s2]]
                    0 <= s2 < s ==> table_ok(tables@[s2]@)) && (forall|rr2: int|
                    0 <= rr2 < rr ==> !table_flaw(tables@[s]@, rr2)) && r->Err_0 == (
                BacktestError::MalformedRecord { stock: stock_list@[s], row: rr as usize }),
    {
        let n = stock_list.len();
        let mut db: Vec<Vec<Column>> = Vec::new();
        let mut s: usize = 0;
        while s < n
            invariant
                0 <= s <= n,
                n == stock_list@.len(),
                tables@.len() == n,
                db@.len() == s,
                forall|k: int| #![trigger tables@[k]] 0 <= k < s ==> table_ok(tables@[k]@),
                forall|k: int| #![trigger db@[k]]
                    0 <= k < s ==> db@[k]@ == cols_of_table(tables@[k]@),
            decreases n - s,
        {
            let ghost t = tables@[s as int]@;
            let m = tables[s].len();
            let mut parsed: Vec<Column> = Vec::new();
            let mut rr: usize = 0;
            while rr < m
                invariant
                    0 <= rr <= m,
                    s < n,
                    n == stock_list@.len(),
                    tables@.len() == n,
                    forall|k: int| #![trigger tables@[k]] 0 <= k < s ==> table_ok(tables@[k]@),
                    t == tables@[s as int]@,
                    m == t.len(),
                    parsed@.len() == rr,
                    forall|k: int| #![trigger t[k]] 0 <= k < rr ==> row_ok(t[k]@),
                    forall|k: int| #![trigger parsed@[k]]
                        0 <= k < rr ==> parsed@[k] == column_of_row(t[k]@),
                    forall|k: int| #![trigger t[k]]
                        1 <= k < rr ==> date_val(t[k - 1]@[0]@) < date_val(t[k]@[0]@),
                decreases m - rr,
            {
                let row_len = tables[s][rr].len();
                if row_len != 8 {
                    proof {
                        assert(table_flaw(t, rr as int));
                            lemma_no_earlier_flaw(t, rr as int);
                    }
                    return Err(
                        BacktestError::MalformedRecord { stock: stock_list[s].clone(), row: rr },
                    );
                }
                let date = match parse_date(&tables[s][rr][0]) {
                    Some(d) => d,
                    None => {
                        proof {
                            assert(table_flaw(t, rr as int));
                            lemma_no_earlier_flaw(t, rr as int);
                        }
                        return Err(
                            BacktestError::MalformedRecord {
                                stock: stock_list[s].clone(),
                                row: rr,
                            },
                        );
                    },
                };
                let open_price = match parse_i32(&tables[s][rr][1]) {
                    Some(v) => v,
                    None => {
                        proof {
                            assert(table_flaw(t, rr as int));
                            lemma_no_earlier_flaw(t, rr as int);
                        }
                        return Err(
                            BacktestError::MalformedRecord {
                                stock: stock_list[s].clone(),
                                row: rr,
                            },
                        );
                    },
                };
                let high_price = match parse_i32(&tables[s][rr][2]) {
                    Some(v) => v,
                    None => {
                        proof {
                            assert(table_flaw(t, rr as int));
                            lemma_no_earlier_flaw(t, rr as int);
                        }
                        return Err(
                            BacktestError::MalformedRecord {
                                stock: stock_list[s].clone(),
                                row: rr,
                            },
                        );
                    },
                };
                let low_price = match parse_i32(&tables[s][rr][3]) {
                    Some(v) => v,
                    None => {
                        proof {
                            assert(table_flaw(t, rr as int));
                            lemma_no_earlier_flaw(t, rr as int);
                        }
                        return Err(
                            BacktestError::MalformedRecord {
                                stock: stock_list[s].clone(),
                                row: rr,
                            },
                        );
                    },
                };
                let close_price = match parse_i32(&tables[s][rr][4]) {
                    Some(v) => v,
                    None => {
                        proof {
                            assert(table_flaw(t, rr as int));
                            lemma_no_earlier_flaw(t, rr as int);
                        }
                        return Err(
                            BacktestError::MalformedRecord {
                                stock: stock_list[s].clone(),
                                row: rr,
                            },
                        );
                    },
                };
                let volume = match parse_u32(&tables[s][rr][5]) {
                    Some(v) => v,
                    None => {
                        proof {
                            assert(table_flaw(t, rr as int));
                            lemma_no_earlier_flaw(t, rr as int);
                        }
                        return Err(
                            BacktestError::MalformedRecord {
                                stock: stock_list[s].clone(),
                                row: rr,
                            },
                        );
                    },
                };
                let amount = match parse_u64(&tables[s][rr][6]) {
                    Some(v) => v,
                    None => {
                        proof {
                            assert(table_flaw(t, rr as int));
                            lemma_no_earlier_flaw(t, rr as int);
                        }
                        return Err(
                            BacktestError::MalformedRecord {
                                stock: stock_list[s].clone(),
                                row: rr,
                            },
                        );
                    },
                };
                if !is_decimal(&tables[s][rr][7]) {
                    proof {
                        assert(table_flaw(t, rr as int));
                            lemma_no_earlier_flaw(t, rr as int);
                    }
                    return Err(
                        BacktestError::MalformedRecord { stock: stock_list[s].clone(), row: rr },
                    );
                }
                if rr > 0 && date <= parsed[rr - 1].date {
                    proof {
                        lemma_digits_val_nonneg(undashed(t[rr as int - 1]@[0]@));
                        lemma_digits_val_nonneg(undashed(t[rr as int]@[0]@));
                        assert(table_flaw(t, rr as int));
                            lemma_no_earlier_flaw(t, rr as int);
                    }
                    return Err(
                        BacktestError::MalformedRecord { stock: stock_list[s].clone(), row: rr },
                    );
                }
                let performance = tables[s][rr][7].clone();
                proof {
                    lemma_digits_val_nonneg(undashed(t[rr as int]@[0]@));
                    if rr > 0 {
                        lemma_digits_val_nonneg(undashed(t[rr as int - 1]@[0]@));
                    }
                }
                parsed.push(
                    Column {
                        date,
                        open_price,
                        high_price,
                        low_price,
                        close_price,
                        volume,
                        amount,
                        performance,
                    },
                );
                rr = rr + 1;
            }
            // Adjacent ascending dates give the full pairwise ordering.
            proof {
                assert forall|i: int, j: int|
                    0 <= i < j < t.len() implies date_val(t[i]@[0]@) < date_val(t[j]@[0]@) by {
                    lemma_dates_ascending_from_adjacent(t, i, j);
                }
            }
            let ghost full = parsed@;
            let mut cols: Vec<Column> = Vec::new();
            loop
                invariant
                    full.len() == m,
                    cols@.len() + parsed@.len() == m,
                    parsed@ == full.take(parsed@.len() as int),
                    forall|k: int| #![trigger cols@[k]]
                        0 <= k < cols@.len() ==> cols@[k] == full[m - 1 - k],
                ensures
                    cols@.len() == m,
                    forall|k: int| #![trigger cols@[k]]
                        0 <= k < cols@.len() ==> cols@[k] == full[m - 1 - k],
                decreases parsed@.len(),
            {
                if parsed.len() == 0 {
                    break ;
                }
                let c = match parsed.pop() {
                    Some(c) => c,
                    None => {
                        proof {
                            assert(false);
                        }
                        break ;
                    },
                };
                cols.push(c);
            }
            proof {
                assert(cols@ =~= cols_of_table(t));
            }
            db.push(cols);
            s = s + 1;
        }
        let rm = db[reference].len();
        let mut date_list: Vec<u32> = Vec::new();
        let mut p: usize = 0;
        while p < rm
            invariant
                0 <= p <= rm,
                n == stock_list@.len(),
                tables@.len() == n,
                reference < n,
                db@.len() == n,
                db@[reference as int]@ == cols_of_table(tables@[reference as int]@),
                rm == db@[reference as int]@.len(),
                date_list@.len() == p,
                forall|k: int| #![trigger date_list@[k]]
                    0 <= k < p ==> date_list@[k] == db@[reference as int]@[rm - 1 - k].date,
            decreases rm - p,
        {
            let d = db[reference][rm - 1 - p].date;
            date_list.push(d);
            p = p + 1;
        }
        proof {
            let rt = tables@[reference as int]@;
            assert forall|k: int| 0 <= k < rm implies date_list@[k] == dates_of_table(rt)[k] by {
                assert(db@[reference as int]@[rm - 1 - k] == column_of_row(rt[k]@));
            }
            assert(date_list@ =~= dates_of_table(rt));
            assert forall|i: int, j: int|
                0 <= i < j < date_list@.len() implies date_list@[i] < date_list@[j] by {
                lemma_digits_val_nonneg(undashed(rt[i]@[0]@));
                lemma_digits_val_nonneg(undashed(rt[j]@[0]@));
            }
        }
        Ok(DataBase { db, stock_list, date_list })
    }

    /// Resolves a calendar date to its lower-bound position in the
    /// ascending reference calendar: the number of reference dates that are
    /// strictly older than `date`.
    pub fn idx_from_date(&self, date: u32) -> (r: usize)
        requires
            self.wf(),
        ensures
            resolves_to(self.date_list@, date, r as int),
    {
        let mut lo: usize = 0;
        let mut hi: usize = self.date_list.len();
        while lo < hi
            invariant
                self.wf(),
                lo <= hi <= self.date_list@.len(),
                forall|i: int| 0 <= i < lo ==> self.date_list@[i] < date,
                forall|i: int| hi <= i < self.date_list@.len() ==> self.date_list@[i] >= date,
            decreases hi - lo,
        {
            let mid = lo + (hi - lo) / 2;
            if self.date_list[mid] < date {
                lo = mid + 1;
            } else {
                hi = mid;
            }
        }
        lo
    }

    /// Returns the cached bars of `stock_no` (newest first), or nothing when
    /// the symbol is not in the store.
    pub fn get_columns(&self, stock_no: &str) -> (r: Option<&Vec<Column>>)
        requires
            self.wf(),
        ensures
            r is Some <==> exists|k: int| #![trigger self.stock_list@[k]]
                0 <= k < self.stock_list@.len() && self.stock_list@[k]@ == stock_no@,
            r is Some ==> exists|k: int| #![auto]
                0 <= k < self.stock_list@.len() && self.stock_list@[k]@ == stock_no@ && (forall|
                    j: int,
                |
                    0 <= j < k ==> self.stock_list@[j]@ != stock_no@) && (*r->0)@ == self.db@[k]@,
    {
        let key: String = stock_no.to_owned();
        let n = self.stock_list.len();
        let mut i: usize = 0;
        while i < n
            invariant
                self.wf(),
                0 <= i <= n,
                n == self.stock_list@.len(),
                key@ == stock_no@,
                forall|j: int| 0 <= j < i ==> self.stock_list@[j]@ != stock_no@,
            decreases n - i,
        {
            if self.stock_list[i] == key {
                return Some(&self.db[i]);
            }
            i = i + 1;
        }
        None
    }
}

/// A prefix of valid rows with adjacent ascending dates holds no flaw.
proof fn lemma_no_earlier_flaw(t: Seq<Vec<String>>, rr: int)
    requires
        0 <= rr <= t.len(),
        forall|k: int| #![trigger t[k]] 0 <= k < rr ==> row_ok(t[k]@),
        forall|k: int| #![trigger t[k]]
            1 <= k < rr ==> date_val(t[k - 1]@[0]@) < date_val(t[k]@[0]@),
    ensures
        forall|rr2: int| 0 <= rr2 < rr ==> !table_flaw(t, rr2),
{
}

/// Adjacent ascending dates extend to any pair of positions.
proof fn lemma_dates_ascending_from_adjacent(t: Seq<Vec<String>>, i: int, j: int)
    requires
        0 <= i < j < t.len(),
        forall|k: int| #![trigger t[k]]
            1 <= k < t.len() ==> date_val(t[k - 1]@[0]@) < date_val(t[k]@[0]@),
    ensures
        date_val(t[i]@[0]@) < date_val(t[j]@[0]@),
    decreases j - i,
{
    if j == i + 1 {
    } else {
        lemma_dates_ascending_from_adjacent(t, i, j - 1);
    }
}

/// Lower-bound resolution is strictly monotonic over dates that are present
/// in the calendar: of two distinct listed dates, the older one always
/// resolves strictly before the newer one.
pub proof fn lemma_date_resolution_monotonic(dl: Seq<u32>, d1: u32, d2: u32, r1: int, r2: int)
    requires
        sorted_strict(dl),
        d1 < d2,
        dl.contains(d1),
        dl.contains(d2),
        resolves_to(dl, d1, r1),
        resolves_to(dl, d2, r2),
    ensures
        r1 < r2,
{
    let i1 = choose|i: int| 0 <= i < dl.len() && dl[i] == d1;
    assert(dl[i1] < d2);
    assert(i1 < r2);
    assert(r1 <= i1);
}

} // verus!
