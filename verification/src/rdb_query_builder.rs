//! Builds the parameterised SELECT statements with which the check
//! extractor reads rows back by their key.

use vstd::prelude::*;
use crate::col_value::{ColValue, ColValueView};
use crate::error::Error;
use crate::pg_meta::{PgColMeta, PgTbMeta};
use crate::row_data::{RowData, RowDataView};
use crate::text::{append_nat, nat_text, push_char, to_chars};

verus! {

/// The most bind parameters one statement can carry.
pub const MAX_BINDS: usize = 65535;

/// An identifier with every double quote in it doubled.
pub open spec fn escaped(name: Seq<char>) -> Seq<char>
    decreases name.len(),
{
    if name.len() == 0 {
        Seq::empty()
    } else if name.last() == '"' {
        escaped(name.drop_last()).push('"').push('"')
    } else {
        escaped(name.drop_last()).push(name.last())
    }
}

/// An identifier in double quotes.
pub open spec fn quoted(name: Seq<char>) -> Seq<char> {
    seq!['"'] + escaped(name) + seq!['"']
}

/// The first `n` names, each quoted, with commas between them.
pub open spec fn name_list(names: Seq<String>, n: int) -> Seq<char>
    decreases n,
{
    if n <= 0 {
        Seq::empty()
    } else if n == 1 {
        quoted(names[0]@)
    } else {
        name_list(names, n - 1) + ","@ + quoted(names[n - 1]@)
    }
}

/// The placeholder with number `i`.
pub open spec fn placeholder(i: nat) -> Seq<char> {
    "$"@ + nat_text(i)
}

/// `n` placeholders numbered from `first`, with commas between them.
pub open spec fn placeholders(first: nat, n: int) -> Seq<char>
    decreases n,
{
    if n <= 0 {
        Seq::empty()
    } else if n == 1 {
        placeholder(first)
    } else {
        placeholders(first, n - 1) + ","@ + placeholder((first + n - 1) as nat)
    }
}

/// For the first `n` key columns, `"col" = $i` with placeholders numbered
/// from one, joined by `AND`.
pub open spec fn key_equalities(keys: Seq<String>, n: int) -> Seq<char>
    decreases n,
{
    if n <= 0 {
        Seq::empty()
    } else if n == 1 {
        quoted(keys[0]@) + " = "@ + placeholder(1)
    } else {
        key_equalities(keys, n - 1) + " AND "@ + quoted(keys[n - 1]@) + " = "@ + placeholder(n as nat)
    }
}

/// For the first `n` rows, one tuple of `k` placeholders each, numbered
/// row by row from one, with commas between the tuples.
pub open spec fn row_tuples(k: int, n: int) -> Seq<char>
    decreases n,
{
    if n <= 0 {
        Seq::empty()
    } else if n == 1 {
        "("@ + placeholders(1, k) + ")"@
    } else {
        row_tuples(k, n - 1) + ","@ + "("@ + placeholders(((n - 1) * k + 1) as nat, k) + ")"@
    }
}

/// The names of a table's columns, in order.
pub open spec fn col_names(cols: Seq<PgColMeta>) -> Seq<Seq<char>> {
    cols.map_values(|c: PgColMeta| c.name@)
}

/// The texts of a list of strings.
pub open spec fn texts(names: Seq<String>) -> Seq<Seq<char>> {
    names.map_values(|s: String| s@)
}

/// `SELECT` of all columns `FROM` the table, up to and including `WHERE`.
pub open spec fn select_head(cols: Seq<String>, schema: Seq<char>, tb: Seq<char>) -> Seq<char> {
    "SELECT "@ + name_list(cols, cols.len() as int) + " FROM "@ + quoted(schema) + "."@ + quoted(tb) + " WHERE "@
}

/// The statement that reads one row by its key.
pub open spec fn select_sql(cols: Seq<String>, schema: Seq<char>, tb: Seq<char>, keys: Seq<String>) -> Seq<char> {
    select_head(cols, schema, tb) + key_equalities(keys, keys.len() as int)
}

/// The statement that reads `n` rows by their keys.
pub open spec fn batch_select_sql(
    cols: Seq<String>,
    schema: Seq<char>,
    tb: Seq<char>,
    keys: Seq<String>,
    n: int,
) -> Seq<char> {
    select_head(cols, schema, tb) + "("@ + name_list(keys, keys.len() as int) + ") IN ("@ + row_tuples(
        keys.len() as int,
        n,
    ) + ")"@
}

/// Whether a row has a value for each of the first `n` key columns.
pub open spec fn has_keys(row: RowDataView, keys: Seq<String>, n: int) -> bool {
    row.after.is_some() && forall|i: int| 0 <= i < n ==> row.after.unwrap().contains_key(#[trigger] keys[i]@)
}

/// The values of a row's first `n` key columns, in the order of the key.
pub open spec fn row_binds(row: RowDataView, keys: Seq<String>, n: int) -> Seq<ColValueView>
    decreases n,
{
    if n <= 0 {
        Seq::empty()
    } else {
        row_binds(row, keys, n - 1).push(row.after.unwrap()[keys[n - 1]@])
    }
}

/// The key values of the rows `rows[start..start + n]`, row after row.
pub open spec fn batch_binds(rows: Seq<RowDataView>, keys: Seq<String>, start: int, n: int) -> Seq<ColValueView>
    decreases n,
{
    if n <= 0 {
        Seq::empty()
    } else {
        batch_binds(rows, keys, start, n - 1) + row_binds(rows[start + n - 1], keys, keys.len() as int)
    }
}

/// The mathematical values of a list of rows.
pub open spec fn rows_view(rows: Seq<RowData>) -> Seq<RowDataView> {
    rows.map_values(|r: RowData| r@)
}

/// The mathematical values of a list of column values.
pub open spec fn values_view(values: Seq<ColValue>) -> Seq<ColValueView> {
    values.map_values(|v: ColValue| v@)
}

/// A statement, the columns it selects, and the values for its
/// placeholders: `binds[i]` is the value for placeholder `i + 1`.
#[derive(Clone, Debug, PartialEq, Eq)]
pub struct SelectQuery {
    pub sql: String,
    pub cols: Vec<String>,
    pub binds: Vec<ColValue>,
}

fn append_quoted(s: &mut String, name: &String)
    ensures
        final(s)@ == old(s)@ + quoted(name@),
{
    let chars = to_chars(name);
    push_char(s, '"');
    let mut i: usize = 0;
    assert(chars@.take(0) =~= Seq::empty());
    assert(s@ =~= old(s)@ + seq!['"'] + escaped(chars@.take(0)));
    while i < chars.len()
        invariant
            i <= chars.len(),
            s@ == old(s)@ + seq!['"'] + escaped(chars@.take(i as int)),
        decreases chars.len() - i,
    {
        proof {
            assert(chars@.take(i + 1).drop_last() =~= chars@.take(i as int));
            assert(chars@.take(i + 1).last() == chars@[i as int]);
        }
        if chars[i] == '"' {
            push_char(s, '"');
            push_char(s, '"');
        } else {
            push_char(s, chars[i]);
        }
        assert(s@ =~= old(s)@ + seq!['"'] + escaped(chars@.take(i + 1)));
        i = i + 1;
    }
    assert(chars@.take(i as int) =~= chars@);
    push_char(s, '"');
    assert(s@ =~= old(s)@ + quoted(name@));
}

fn append_name_list(s: &mut String, names: &Vec<String>)
    ensures
        final(s)@ == old(s)@ + name_list(names@, names@.len() as int),
{
    let mut i: usize = 0;
    assert(s@ =~= old(s)@ + name_list(names@, 0));
    while i < names.len()
        invariant
            i <= names.len(),
            s@ == old(s)@ + name_list(names@, i as int),
        decreases names.len() - i,
    {
        if i > 0 {
            s.append(",");
        }
        append_quoted(s, &names[i]);
        assert(s@ =~= old(s)@ + name_list(names@, i + 1));
        i = i + 1;
    }
}

fn append_placeholder(s: &mut String, i: u64)
    ensures
        final(s)@ == old(s)@ + placeholder(i as nat),
{
    s.append("$");
    append_nat(s, i);
    assert(s@ =~= old(s)@ + placeholder(i as nat));
}

fn append_placeholders(s: &mut String, first: u64, n: usize)
    requires
        first + n <= u64::MAX,
    ensures
        final(s)@ == old(s)@ + placeholders(first as nat, n as int),
{
    let mut i: usize = 0;
    assert(s@ =~= old(s)@ + placeholders(first as nat, 0));
    while i < n
        invariant
            i <= n,
            first + n <= u64::MAX,
            s@ == old(s)@ + placeholders(first as nat, i as int),
        decreases n - i,
    {
        if i > 0 {
            s.append(",");
        }
        append_placeholder(s, first + i as u64);
        assert(s@ =~= old(s)@ + placeholders(first as nat, i + 1));
        i = i + 1;
    }
}

fn append_key_equalities(s: &mut String, keys: &Vec<String>)
    requires
        keys@.len() <= MAX_BINDS,
    ensures
        final(s)@ == old(s)@ + key_equalities(keys@, keys@.len() as int),
{
    let mut i: usize = 0;
    assert(s@ =~= old(s)@ + key_equalities(keys@, 0));
    while i < keys.len()
        invariant
            i <= keys.len(),
            keys@.len() <= MAX_BINDS,
            s@ == old(s)@ + key_equalities(keys@, i as int),
        decreases keys.len() - i,
    {
        if i > 0 {
            s.append(" AND ");
        }
        append_quoted(s, &keys[i]);
        s.append(" = ");
        append_placeholder(s, i as u64 + 1);
        assert(s@ =~= old(s)@ + key_equalities(keys@, i + 1));
        i = i + 1;
    }
}

fn append_row_tuples(s: &mut String, k: usize, n: usize)
    requires
        k <= MAX_BINDS,
        n <= MAX_BINDS,
    ensures
        final(s)@ == old(s)@ + row_tuples(k as int, n as int),
{
    let mut i: usize = 0;
    let mut first: u64 = 1;
    assert(s@ =~= old(s)@ + row_tuples(k as int, 0));
    while i < n
        invariant
            i <= n,
            k <= MAX_BINDS,
            n <= MAX_BINDS,
            first == i * k + 1,
            s@ == old(s)@ + row_tuples(k as int, i as int),
        decreases n - i,
    {
        proof {
            assert(i * k <= 65535 * 65535) by (nonlinear_arith)
                requires
                    i <= 65535,
                    k <= 65535,
            ;
            assert((i + 1) * k == i * k + k) by (nonlinear_arith);
        }
        if i > 0 {
            s.append(",");
        }
        s.append("(");
        append_placeholders(s, first, k);
        s.append(")");
        assert(s@ =~= old(s)@ + row_tuples(k as int, i + 1));
        first = first + k as u64;
        i = i + 1;
    }
}

fn append_row_binds(binds: &mut Vec<ColValue>, row: &RowData, keys: &Vec<String>) -> (r: bool)
    ensures
        r == has_keys(row@, keys@, keys@.len() as int),
        r ==> values_view(final(binds)@) == values_view(old(binds)@) + row_binds(row@, keys@, keys@.len() as int),
{
    let after = match &row.after {
        Some(m) => m,
        None => {
            return false;
        },
    };
    assert(row@.after == Some(after@));
    let mut i: usize = 0;
    assert(values_view(binds@) =~= values_view(old(binds)@) + row_binds(row@, keys@, 0));
    while i < keys.len()
        invariant
            i <= keys.len(),
            row@.after == Some(after@),
            has_keys(row@, keys@, i as int),
            values_view(binds@) == values_view(old(binds)@) + row_binds(row@, keys@, i as int),
        decreases keys.len() - i,
    {
        let ghost before = binds@;
        match after.get(&keys[i]) {
            None => {
                assert(!row@.after.unwrap().contains_key(keys@[i as int]@));
                return false;
            },
            Some(v) => {
                binds.push(v.duplicate());
                assert(values_view(binds@) =~= values_view(before).push(v@));
                assert(values_view(binds@) =~= values_view(old(binds)@) + row_binds(row@, keys@, i + 1));
            },
        }
        i = i + 1;
    }
    true
}

fn names_of(cols: &Vec<PgColMeta>) -> (r: Vec<String>)
    ensures
        texts(r@) == col_names(cols@),
{
    let mut out: Vec<String> = Vec::new();
    let mut i: usize = 0;
    while i < cols.len()
        invariant
            i <= cols.len(),
            out@.len() == i,
            forall|j: int| 0 <= j < i ==> (#[trigger] out@[j])@ == cols@[j].name@,
        decreases cols.len() - i,
    {
        out.push(cols[i].name.clone());
        i = i + 1;
    }
    assert(texts(out@) =~= col_names(cols@));
    out
}

/// The builder of statements against one table.
pub struct RdbQueryBuilder<'a> {
    pub tb_meta: &'a PgTbMeta,
}

impl<'a> RdbQueryBuilder<'a> {
    /// The builder for a PostgreSQL table.
    pub fn new_for_pg(tb_meta: &'a PgTbMeta) -> (r: RdbQueryBuilder<'a>)
        ensures
            r.tb_meta == tb_meta,
    {
        RdbQueryBuilder { tb_meta }
    }

    /// Whether the rows `rows[start..start + n]` can be read back in one
    /// statement: the table has a key, there is at least one row, the rows
    /// lie within `rows`, each has a value for every key column, and the
    /// key values are no more than `MAX_BINDS`.
    pub open spec fn can_select(&self, rows: Seq<RowDataView>, start: int, n: int) -> bool {
        &&& 0 < self.tb_meta.key_cols@.len()
        &&& 0 <= start
        &&& 0 < n
        &&& start + n <= rows.len()
        &&& n * self.tb_meta.key_cols@.len() <= MAX_BINDS
        &&& forall|i: int|
            start <= i < start + n ==> has_keys(
                #[trigger] rows[i],
                self.tb_meta.key_cols@,
                self.tb_meta.key_cols@.len() as int,
            )
    }

    fn head(&self) -> (r: (String, Vec<String>))
        ensures
            texts(r.1@) == col_names(self.tb_meta.cols@),
            r.0@ == select_head(r.1@, self.tb_meta.schema@, self.tb_meta.tb@),
    {
        let cols = names_of(&self.tb_meta.cols);
        let mut sql = String::new();
        sql.append("SELECT ");
        append_name_list(&mut sql, &cols);
        sql.append(" FROM ");
        append_quoted(&mut sql, &self.tb_meta.schema);
        sql.append(".");
        append_quoted(&mut sql, &self.tb_meta.tb);
        sql.append(" WHERE ");
        assert(sql@ =~= select_head(cols@, self.tb_meta.schema@, self.tb_meta.tb@));
        (sql, cols)
    }

    /// The statement that reads `row_data` back by its key.
    ///
    /// Returns `Error::Query` exactly when the table has no key, or has
    /// more than `MAX_BINDS` key columns, or the row lacks a key value.
    pub fn get_select_query(&self, row_data: &RowData) -> (r: Result<SelectQuery, Error>)
        ensures
            match r {
                Ok(q) => {
                    &&& self.can_select(seq![row_data@], 0, 1)
                    &&& texts(q.cols@) == col_names(self.tb_meta.cols@)
                    &&& q.sql@ == select_sql(
                        q.cols@,
                        self.tb_meta.schema@,
                        self.tb_meta.tb@,
                        self.tb_meta.key_cols@,
                    )
                    &&& values_view(q.binds@) == row_binds(
                        row_data@,
                        self.tb_meta.key_cols@,
                        self.tb_meta.key_cols@.len() as int,
                    )
                },
                Err(e) => e == Error::Query && !self.can_select(seq![row_data@], 0, 1),
            },
    {
        let keys = &self.tb_meta.key_cols;
        if keys.len() == 0 || keys.len() > MAX_BINDS {
            return Err(Error::Query);
        }
        let mut binds: Vec<ColValue> = Vec::new();
        if !append_row_binds(&mut binds, row_data, keys) {
            assert(seq![row_data@][0] == row_data@);
            return Err(Error::Query);
        }
        let (mut sql, cols) = self.head();
        append_key_equalities(&mut sql, keys);
        proof {
            assert(values_view(binds@) =~= row_binds(row_data@, keys@, keys@.len() as int));
        }
        Ok(SelectQuery { sql, cols, binds })
    }

    /// The statement that reads the rows `row_datas[start..start + size]`
    /// back by their keys.
    ///
    /// Returns `Error::Query` exactly when the rows cannot be read back
    /// in one statement.
    pub fn get_batch_select_query(&self, row_datas: &Vec<RowData>, start: usize, size: usize) -> (r: Result<
        SelectQuery,
        Error,
    >)
        ensures
            match r {
                Ok(q) => {
                    &&& self.can_select(rows_view(row_datas@), start as int, size as int)
                    &&& texts(q.cols@) == col_names(self.tb_meta.cols@)
                    &&& q.sql@ == batch_select_sql(
                        q.cols@,
                        self.tb_meta.schema@,
                        self.tb_meta.tb@,
                        self.tb_meta.key_cols@,
                        size as int,
                    )
                    &&& values_view(q.binds@) == batch_binds(
                        rows_view(row_datas@),
                        self.tb_meta.key_cols@,
                        start as int,
                        size as int,
                    )
                },
                Err(e) => e == Error::Query && !self.can_select(rows_view(row_datas@), start as int, size as int),
            },
    {
        let keys = &self.tb_meta.key_cols;
        let k = keys.len();
        if k == 0 || size == 0 || k > MAX_BINDS || size > MAX_BINDS || start > row_datas.len() || size
            > row_datas.len() - start {
            proof {
                if k > 0 && size > 0 {
                    assert(size * k >= size && size * k >= k) by (nonlinear_arith)
                        requires
                            k >= 1,
                            size >= 1,
                    ;
                }
            }
            return Err(Error::Query);
        }
        proof {
            assert(size * k <= 65535 * 65535) by (nonlinear_arith)
                requires
                    size <= 65535,
                    k <= 65535,
            ;
        }
        if size * k > MAX_BINDS {
            return Err(Error::Query);
        }
        let mut binds: Vec<ColValue> = Vec::new();
        let mut i: usize = 0;
        assert(values_view(binds@) =~= batch_binds(rows_view(row_datas@), keys@, start as int, 0));
        while i < size
            invariant
                i <= size,
                start + size <= row_datas@.len(),
                row_datas@.len() <= usize::MAX,
                keys == &self.tb_meta.key_cols,
                forall|j: int|
                    start <= j < start + i ==> has_keys(#[trigger] rows_view(row_datas@)[j], keys@, keys@.len() as int),
                values_view(binds@) == batch_binds(rows_view(row_datas@), keys@, start as int, i as int),
            decreases size - i,
        {
            assert(rows_view(row_datas@)[start + i] == row_datas@[start + i]@);
            if !append_row_binds(&mut binds, &row_datas[start + i], keys) {
                return Err(Error::Query);
            }
            i = i + 1;
        }
        let (mut sql, cols) = self.head();
        sql.append("(");
        append_name_list(&mut sql, keys);
        sql.append(") IN (");
        append_row_tuples(&mut sql, k, size);
        sql.append(")");
        proof {
            assert(sql@ =~= batch_select_sql(cols@, self.tb_meta.schema@, self.tb_meta.tb@, keys@, size as int));
        }
        Ok(SelectQuery { sql, cols, binds })
    }
}

} // verus!
