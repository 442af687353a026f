//! The check extractor for PostgreSQL: it turns the entries of a check log
//! into keyed reads of the source, and hands the rows that come back to the
//! buffer.

use vstd::prelude::*;
use std::collections::VecDeque;
use crate::buffer::{push_row, row_item, Buffer};
use crate::check_log::{CheckLog, LogType};
use crate::col_value::{ColValue, ColValueView};
use crate::dt_data::{DtItemView, Position};
use crate::error::Error;
use crate::pg_meta::{typed_value, PgColValueConvertor, PgTbMeta};
use crate::rdb_query_builder::{
    batch_binds, batch_select_sql, col_names, row_binds, rows_view, select_sql, texts, values_view,
    RdbQueryBuilder, SelectQuery,
};
use crate::router::RdbRouter;
use crate::row_data::{pairs_map, ColMap, RowData, RowDataView, RowPairs, RowType};
use crate::struct_extractor::ExtractStep;

verus! {

/// The typed value of column `i` of a check-log entry: `Error::Decode`
/// where the entry has no value at that place or its text does not fit the
/// column's type, `Error::Schema` where the table has no such column, and
/// `Null` where the value is absent.
pub open spec fn log_value(log: CheckLog, meta: PgTbMeta, i: int) -> Result<ColValueView, Error> {
    if i >= log.col_values@.len() {
        Err(Error::Decode)
    } else {
        match meta.col_type_spec(log.cols@[i]@) {
            None => Err(Error::Schema),
            Some(t) => match log.col_values@[i] {
                Some(text) => typed_value(t, text@),
                None => Ok(ColValueView::Null),
            },
        }
    }
}

/// The first `n` columns of a check-log entry with their typed values, or
/// the first error among them.
pub open spec fn log_pairs(log: CheckLog, meta: PgTbMeta, n: int) -> Result<Seq<(Seq<char>, ColValueView)>, Error>
    decreases n,
{
    if n <= 0 {
        Ok(Seq::empty())
    } else {
        match log_pairs(log, meta, n - 1) {
            Err(e) => Err(e),
            Ok(p) => match log_value(log, meta, n - 1) {
                Err(e) => Err(e),
                Ok(v) => Ok(p.push((log.cols@[n - 1]@, v))),
            },
        }
    }
}

/// The row that a check-log entry stands for: an insert into the table of
/// `meta` with the entry's columns as its image.
pub open spec fn log_row(log: CheckLog, meta: PgTbMeta) -> Result<RowDataView, Error> {
    match log_pairs(log, meta, log.cols@.len() as int) {
        Err(e) => Err(e),
        Ok(p) => Ok(
            RowDataView {
                schema: meta.schema@,
                tb: meta.tb@,
                row_type: RowType::Insert,
                before: None,
                after: Some(pairs_map(p)),
            },
        ),
    }
}

/// The rows that the first `n` check-log entries stand for, or the first
/// error among them.
pub open spec fn log_rows(logs: Seq<CheckLog>, meta: PgTbMeta, n: int) -> Result<Seq<RowDataView>, Error>
    decreases n,
{
    if n <= 0 {
        Ok(Seq::empty())
    } else {
        match log_rows(logs, meta, n - 1) {
            Err(e) => Err(e),
            Ok(rows) => match log_row(logs[n - 1], meta) {
                Err(e) => Err(e),
                Ok(row) => Ok(rows.push(row)),
            },
        }
    }
}

/// What a fetched row becomes before it is pushed: for an entry of kind
/// `Diff` an update whose image before is its image after, so that the
/// sinker overwrites the destination; otherwise the row as it is.
pub open spec fn stamped(row: RowPairs, log_type: LogType) -> RowPairs {
    if log_type == LogType::Diff {
        RowPairs { row_type: RowType::Update, before: row.after, ..row }
    } else {
        row
    }
}

/// The buffer elements that the fetched rows become, in their order.
pub open spec fn check_items(router: RdbRouter, rows: Seq<RowData>, log_type: LogType) -> Seq<DtItemView> {
    rows.map_values(|r: RowData| row_item(Some(router), stamped(r.deep(), log_type), None))
}

/// The statement that a batch of check-log entries owes, given the rows
/// they stand for.
pub open spec fn batch_query_fits(meta: PgTbMeta, rows: Seq<RowDataView>, q: SelectQuery) -> bool {
    &&& texts(q.cols@) == col_names(meta.cols@)
    &&& q.sql@ == if rows.len() == 1 {
        select_sql(q.cols@, meta.schema@, meta.tb@, meta.key_cols@)
    } else {
        batch_select_sql(q.cols@, meta.schema@, meta.tb@, meta.key_cols@, rows.len() as int)
    }
    &&& values_view(q.binds@) == batch_binds(rows, meta.key_cols@, 0, rows.len() as int)
}

/// Stamps a fetched row with the kind of the check-log entries it was
/// fetched for.
pub fn check_row(row: RowData, log_type: &LogType) -> (r: RowData)
    ensures
        r.deep() == stamped(row.deep(), *log_type),
{
    match log_type {
        LogType::Diff => {
            let before = match &row.after {
                Some(m) => Some(m.duplicate()),
                None => None,
            };
            RowData { schema: row.schema, tb: row.tb, row_type: RowType::Update, before, after: row.after }
        },
        LogType::Miss => row,
    }
}

/// The check extractor of one PostgreSQL source.
#[derive(Clone, Debug, PartialEq, Eq)]
pub struct PgCheckExtractor {
    pub check_log_dir: String,
    pub batch_size: usize,
    pub router: RdbRouter,
}

impl PgCheckExtractor {
    fn build_check_row_data(&self, check_log: &CheckLog, tb_meta: &PgTbMeta) -> (r: Result<RowData, Error>)
        ensures
            match r {
                Ok(row) => log_row(*check_log, *tb_meta) == Ok::<RowDataView, Error>(row@),
                Err(e) => log_row(*check_log, *tb_meta) == Err::<RowDataView, Error>(e),
            },
    {
        let mut after = ColMap::new();
        let mut i: usize = 0;
        assert(after.pairs() =~= Seq::empty());
        while i < check_log.cols.len()
            invariant
                i <= check_log.cols.len(),
                log_pairs(*check_log, *tb_meta, i as int) == Ok::<Seq<(Seq<char>, ColValueView)>, Error>(
                    after.pairs(),
                ),
            decreases check_log.cols.len() - i,
        {
            let col = &check_log.cols[i];
            if i >= check_log.col_values.len() {
                proof {
                    lemma_log_pairs_err(*check_log, *tb_meta, i + 1, check_log.cols@.len() as int);
                }
                return Err(Error::Decode);
            }
            let col_type = match tb_meta.col_type(col) {
                Some(t) => t,
                None => {
                    proof {
                        lemma_log_pairs_err(*check_log, *tb_meta, i + 1, check_log.cols@.len() as int);
                    }
                    return Err(Error::Schema);
                },
            };
            let col_value = match &check_log.col_values[i] {
                Some(text) => match PgColValueConvertor::from_str(&col_type, text) {
                    Ok(v) => v,
                    Err(e) => {
                        proof {
                            lemma_log_pairs_err(*check_log, *tb_meta, i + 1, check_log.cols@.len() as int);
                        }
                        return Err(e);
                    },
                },
                None => ColValue::Null,
            };
            after.insert(col.clone(), col_value);
            i = i + 1;
        }
        Ok(RowData::build_insert_row_data(after, &tb_meta.schema, &tb_meta.tb))
    }

    /// The rows that a batch of check-log entries stands for: one insert
    /// per entry, with each value converted to the type of its column.
    ///
    /// Returns the first error in the order of the entries and of their
    /// columns.
    pub fn build_check_row_datas(&self, check_logs: &Vec<CheckLog>, tb_meta: &PgTbMeta) -> (r: Result<
        Vec<RowData>,
        Error,
    >)
        ensures
            match r {
                Ok(rows) => log_rows(check_logs@, *tb_meta, check_logs@.len() as int) == Ok::<
                    Seq<RowDataView>,
                    Error,
                >(rows_view(rows@)),
                Err(e) => log_rows(check_logs@, *tb_meta, check_logs@.len() as int) == Err::<
                    Seq<RowDataView>,
                    Error,
                >(e),
            },
    {
        let mut result: Vec<RowData> = Vec::new();
        let mut i: usize = 0;
        assert(rows_view(result@) =~= Seq::empty());
        while i < check_logs.len()
            invariant
                i <= check_logs.len(),
                log_rows(check_logs@, *tb_meta, i as int) == Ok::<Seq<RowDataView>, Error>(rows_view(result@)),
            decreases check_logs.len() - i,
        {
            let ghost before = result@;
            match self.build_check_row_data(&check_logs[i], tb_meta) {
                Ok(row) => {
                    result.push(row);
                    assert(rows_view(result@) =~= rows_view(before).push(row@));
                },
                Err(e) => {
                    proof {
                        lemma_log_rows_err(check_logs@, *tb_meta, i + 1, check_logs@.len() as int);
                    }
                    return Err(e);
                },
            }
            i = i + 1;
        }
        Ok(result)
    }

    /// The statement with which a batch of check-log entries is read back
    /// from the source: none for an empty batch, a keyed read of one row
    /// for a batch of one, and a read of all rows by their keys otherwise.
    ///
    /// Returns the first error of `build_check_row_datas`, if any, and
    /// `Error::Query` where the rows cannot be read back in one statement.
    pub fn batch_query(&self, check_logs: &Vec<CheckLog>, tb_meta: &PgTbMeta) -> (r: Result<
        Option<SelectQuery>,
        Error,
    >)
        ensures
            check_logs@.len() == 0 ==> r == Ok::<Option<SelectQuery>, Error>(None),
            check_logs@.len() > 0 ==> match log_rows(check_logs@, *tb_meta, check_logs@.len() as int) {
                Err(e) => r == Err::<Option<SelectQuery>, Error>(e),
                Ok(rows) => if (RdbQueryBuilder { tb_meta }).can_select(rows, 0, rows.len() as int) {
                    match r {
                        Ok(Some(q)) => batch_query_fits(*tb_meta, rows, q),
                        _ => false,
                    }
                } else {
                    r == Err::<Option<SelectQuery>, Error>(Error::Query)
                },
            },
    {
        if check_logs.len() == 0 {
            return Ok(None);
        }
        let rows = match self.build_check_row_datas(check_logs, tb_meta) {
            Ok(rows) => rows,
            Err(e) => {
                return Err(e);
            },
        };
        proof {
            lemma_log_rows_len(check_logs@, *tb_meta, check_logs@.len() as int);
        }
        let query_builder = RdbQueryBuilder::new_for_pg(tb_meta);
        let built = if check_logs.len() == 1 {
            proof {
                let views = rows_view(rows@);
                assert(views =~= seq![rows@[0]@]);
                assert(batch_binds(views, tb_meta.key_cols@, 0, 0) =~= Seq::empty());
                assert(batch_binds(views, tb_meta.key_cols@, 0, 1) =~= row_binds(
                    rows@[0]@,
                    tb_meta.key_cols@,
                    tb_meta.key_cols@.len() as int,
                ));
            }
            query_builder.get_select_query(&rows[0])
        } else {
            query_builder.get_batch_select_query(&rows, 0, rows.len())
        };
        match built {
            Ok(q) => Ok(Some(q)),
            Err(e) => Err(e),
        }
    }

    /// Stamps the fetched rows of `rows`, front first, routes them and
    /// pushes them for as long as the buffer has room, and takes each
    /// pushed one out of `rows`.
    ///
    /// Returns `Pushed` when nothing is left. With something left, which
    /// means the buffer is full, it returns `Error::Shutdown` under
    /// shutdown and `Yield` otherwise.
    pub fn batch_extract(&self, buffer: &mut Buffer, rows: &mut VecDeque<RowData>, log_type: &LogType, shut_down: bool) -> (r:
        Result<ExtractStep, Error>)
        requires
            old(buffer).wf(),
        ensures
            final(buffer).wf(),
            final(buffer).cap() == old(buffer).cap(),
            ({
                let room = old(buffer).cap() - old(buffer)@.len();
                let n = if old(rows)@.len() <= room {
                    old(rows)@.len() as int
                } else {
                    room
                };
                &&& final(buffer)@ == old(buffer)@ + check_items(self.router, old(rows)@.take(n), *log_type)
                &&& final(rows)@ == old(rows)@.skip(n)
                &&& r == if n == old(rows)@.len() {
                    Ok::<ExtractStep, Error>(ExtractStep::Pushed)
                } else if shut_down {
                    Err::<ExtractStep, Error>(Error::Shutdown)
                } else {
                    Ok::<ExtractStep, Error>(ExtractStep::Yield)
                }
            }),
    {
        let ghost n: int = 0;
        proof {
            buffer.lemma_bounded();
            assert(check_items(self.router, old(rows)@.take(0), *log_type) =~= Seq::empty());
            assert(buffer@ =~= old(buffer)@ + check_items(self.router, old(rows)@.take(0), *log_type));
            assert(rows@ =~= old(rows)@.skip(0));
        }
        while rows.len() > 0 && !buffer.is_full()
            invariant
                buffer.wf(),
                buffer.cap() == old(buffer).cap(),
                0 <= n <= old(rows)@.len(),
                buffer@.len() == old(buffer)@.len() + n,
                buffer@.len() <= buffer.cap(),
                buffer@ == old(buffer)@ + check_items(self.router, old(rows)@.take(n), *log_type),
                rows@ == old(rows)@.skip(n),
            decreases rows@.len(),
        {
            let row = match rows.pop_front() {
                Some(r) => r,
                None => {
                    return Err(Error::Shutdown);
                },
            };
            assert(row == old(rows)@[n]);
            let row_data = check_row(row, log_type);
            let _ = push_row(buffer, row_data, Position::Unset, Some(&self.router), shut_down);
            proof {
                assert(old(rows)@.take(n + 1) =~= old(rows)@.take(n).push(old(rows)@[n]));
                assert(check_items(self.router, old(rows)@.take(n + 1), *log_type) =~= check_items(
                    self.router,
                    old(rows)@.take(n),
                    *log_type,
                ).push(row_item(Some(self.router), stamped(row.deep(), *log_type), None)));
                assert(buffer@ =~= old(buffer)@ + check_items(self.router, old(rows)@.take(n + 1), *log_type));
                assert(rows@ =~= old(rows)@.skip(n + 1));
                n = n + 1;
            }
        }
        if rows.len() == 0 {
            Ok(ExtractStep::Pushed)
        } else if shut_down {
            Err(Error::Shutdown)
        } else {
            Ok(ExtractStep::Yield)
        }
    }
}

proof fn lemma_log_pairs_err(log: CheckLog, meta: PgTbMeta, at: int, n: int)
    requires
        0 < at <= n,
        log_pairs(log, meta, at).is_err(),
    ensures
        log_pairs(log, meta, n) == log_pairs(log, meta, at),
    decreases n - at,
{
    if at < n {
        lemma_log_pairs_err(log, meta, at, n - 1);
    }
}

proof fn lemma_log_rows_err(logs: Seq<CheckLog>, meta: PgTbMeta, at: int, n: int)
    requires
        0 < at <= n,
        log_rows(logs, meta, at).is_err(),
    ensures
        log_rows(logs, meta, n) == log_rows(logs, meta, at),
    decreases n - at,
{
    if at < n {
        lemma_log_rows_err(logs, meta, at, n - 1);
    }
}

proof fn lemma_log_rows_len(logs: Seq<CheckLog>, meta: PgTbMeta, n: int)
    requires
        0 <= n,
    ensures
        match log_rows(logs, meta, n) {
            Ok(rows) => rows.len() == n,
            Err(_) => true,
        },
    decreases n,
{
    if n > 0 {
        lemma_log_rows_len(logs, meta, n - 1);
    }
}

} // verus!
