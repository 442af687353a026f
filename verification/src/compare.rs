//! The row comparison rules: when a destination value, row or table counts
//! as equal to its source.

use vstd::prelude::*;
use crate::col_value::{ColValue, ColValueView};
use crate::config::DbType;
use crate::error::Error;
use crate::router::{col_target, lemma_renamed_lookup, rename_col, renamed_pairs, ColRename, RdbRouter};
use crate::row_data::{lemma_pairs_map_dom, pairs_map, ColMap, RowData, RowDataView, RowPairs};

verus! {

/// When a destination value counts as equal to a source value: the two are
/// the same value, or both are not-a-number, or the engines differ and the
/// string projections agree.
pub open spec fn values_match(src: ColValueView, dst: ColValueView, src_db_type: DbType, dst_db_type: DbType) -> bool {
    src == dst || (src.is_nan() && dst.is_nan()) || (src_db_type != dst_db_type && src.option_text()
        == dst.option_text())
}

/// Two values that are both not-a-number compare equal, whatever the
/// engines.
pub proof fn lemma_nan_values_match(src: ColValueView, dst: ColValueView, src_db_type: DbType, dst_db_type: DbType)
    requires
        src.is_nan(),
        dst.is_nan(),
    ensures
        values_match(src, dst, src_db_type, dst_db_type),
{
}

/// Across different engines, two values with the same string projection
/// compare equal.
pub proof fn lemma_cross_engine_values_match(
    src: ColValueView,
    dst: ColValueView,
    src_db_type: DbType,
    dst_db_type: DbType,
)
    requires
        src_db_type != dst_db_type,
        src.option_text() == dst.option_text(),
    ensures
        values_match(src, dst, src_db_type, dst_db_type),
{
}

/// For a fixed pair of engines the comparison of values is reflexive,
/// symmetric and transitive.
pub proof fn lemma_values_match_equivalence(
    a: ColValueView,
    b: ColValueView,
    c: ColValueView,
    src_db_type: DbType,
    dst_db_type: DbType,
)
    ensures
        values_match(a, a, src_db_type, dst_db_type),
        values_match(a, b, src_db_type, dst_db_type) ==> values_match(b, a, src_db_type, dst_db_type),
        values_match(a, b, src_db_type, dst_db_type) && values_match(b, c, src_db_type, dst_db_type)
            ==> values_match(a, c, src_db_type, dst_db_type),
{
}

/// Whether a destination value counts as equal to a source value.
pub fn compare_col_value(
    src_col_value: &ColValue,
    dst_col_value: &ColValue,
    src_db_type: &DbType,
    dst_db_type: &DbType,
) -> (r: bool)
    ensures
        r == values_match(src_col_value@, dst_col_value@, *src_db_type, *dst_db_type),
{
    if src_col_value.same(dst_col_value) {
        return true;
    }
    if src_col_value.is_nan() && dst_col_value.is_nan() {
        return true;
    }
    if *src_db_type != *dst_db_type {
        return match (src_col_value.to_option_string(), dst_col_value.to_option_string()) {
            (Some(a), Some(b)) => a == b,
            (None, None) => true,
            _ => false,
        };
    }
    false
}

/// Whether the source column `col` has a counterpart in the destination
/// image that matches it.
pub open spec fn col_matches(
    src: Map<Seq<char>, ColValueView>,
    dst: Map<Seq<char>, ColValueView>,
    renames: Option<Seq<ColRename>>,
    col: Seq<char>,
    src_db_type: DbType,
    dst_db_type: DbType,
) -> bool {
    values_match(src[col], dst[col_target(renames, col)], src_db_type, dst_db_type)
}

/// A pair of rows can be compared when both have an image after the change
/// and every source column has its counterpart at the destination.
pub open spec fn row_comparable(src: RowDataView, dst: RowDataView, renames: Option<Seq<ColRename>>) -> bool {
    &&& src.after.is_some()
    &&& dst.after.is_some()
    &&& forall|col: Seq<char>| #[trigger]
        src.after.unwrap().contains_key(col) ==> dst.after.unwrap().contains_key(
            col_target(renames, col),
        )
}

/// A pair of rows matches when every source column matches its counterpart.
pub open spec fn row_matches(
    src: RowDataView,
    dst: RowDataView,
    renames: Option<Seq<ColRename>>,
    src_db_type: DbType,
    dst_db_type: DbType,
) -> bool {
    forall|col: Seq<char>| #[trigger]
        src.after.unwrap().contains_key(col) ==> col_matches(
            src.after.unwrap(),
            dst.after.unwrap(),
            renames,
            col,
            src_db_type,
            dst_db_type,
        )
}

/// Two row lists can be compared when they are equally long and each pair
/// of rows can be compared.
pub open spec fn rows_comparable(src: Seq<RowData>, dst: Seq<RowData>, renames: Option<Seq<ColRename>>) -> bool {
    &&& src.len() == dst.len()
    &&& forall|i: int| 0 <= i < src.len() ==> row_comparable((#[trigger] src[i])@, dst[i]@, renames)
}

/// Two row lists match when each pair of rows matches.
pub open spec fn rows_match(
    src: Seq<RowData>,
    dst: Seq<RowData>,
    renames: Option<Seq<ColRename>>,
    src_db_type: DbType,
    dst_db_type: DbType,
) -> bool {
    forall|i: int|
        0 <= i < src.len() ==> row_matches((#[trigger] src[i])@, dst[i]@, renames, src_db_type, dst_db_type)
}

/// The view of an optional list of renames.
pub open spec fn renames_view(col_map: Option<&Vec<ColRename>>) -> Option<Seq<ColRename>> {
    match col_map {
        Some(v) => Some(v@),
        None => None,
    }
}

spec fn entry_found(src: ColMap, dst: ColMap, renames: Option<Seq<ColRename>>, j: int) -> bool {
    dst@.contains_key(col_target(renames, src.pairs()[j].0))
}

spec fn entry_matches(
    src: ColMap,
    dst: ColMap,
    renames: Option<Seq<ColRename>>,
    j: int,
    src_db_type: DbType,
    dst_db_type: DbType,
) -> bool {
    col_matches(src@, dst@, renames, src.pairs()[j].0, src_db_type, dst_db_type)
}

/// Compares one destination row with its source row.
///
/// Returns `Error::Consistency` exactly when the pair cannot be compared,
/// and otherwise whether every source column matches its counterpart.
pub fn compare_row(
    src: &RowData,
    dst: &RowData,
    col_map: Option<&Vec<ColRename>>,
    src_db_type: &DbType,
    dst_db_type: &DbType,
) -> (r: Result<bool, Error>)
    ensures
        match r {
            Ok(b) => row_comparable(src@, dst@, renames_view(col_map)) && b == row_matches(
                src@,
                dst@,
                renames_view(col_map),
                *src_db_type,
                *dst_db_type,
            ),
            Err(e) => e == Error::Consistency && !row_comparable(src@, dst@, renames_view(col_map)),
        },
{
    let ghost rs = renames_view(col_map);
    let sa = match &src.after {
        Some(m) => m,
        None => {
            return Err(Error::Consistency);
        },
    };
    let da = match &dst.after {
        Some(m) => m,
        None => {
            return Err(Error::Consistency);
        },
    };
    proof {
        lemma_pairs_map_dom(sa.pairs());
        assert(src@.after == Some(sa@));
        assert(dst@.after == Some(da@));
    }
    let mut ok = true;
    let mut k: usize = 0;
    while k < sa.entries.len()
        invariant
            k <= sa.entries.len(),
            rs == renames_view(col_map),
            src@.after == Some(sa@),
            dst@.after == Some(da@),
            forall|c: Seq<char>|
                sa@.contains_key(c) <==> exists|i: int|
                    0 <= i < sa.pairs().len() && (#[trigger] sa.pairs()[i]).0 == c,
            forall|j: int| 0 <= j < k ==> #[trigger] entry_found(*sa, *da, rs, j),
            ok ==> forall|j: int|
                0 <= j < k ==> #[trigger] entry_matches(*sa, *da, rs, j, *src_db_type, *dst_db_type),
            !ok ==> exists|j: int|
                0 <= j < k && !#[trigger] entry_matches(*sa, *da, rs, j, *src_db_type, *dst_db_type),
        decreases sa.entries.len() - k,
    {
        let name = &sa.entries[k].name;
        assert(sa.pairs()[k as int].0 == name@);
        assert(sa@.contains_key(name@));
        let dst_name = rename_col(col_map, name);
        let src_value = match sa.get(name) {
            Some(v) => v,
            None => {
                return Err(Error::Consistency);
            },
        };
        match da.get(dst_name) {
            None => {
                assert(src@.after.unwrap().contains_key(name@));
                assert(!dst@.after.unwrap().contains_key(col_target(rs, name@)));
                return Err(Error::Consistency);
            },
            Some(dst_value) => {
                let same = compare_col_value(src_value, dst_value, src_db_type, dst_db_type);
                assert(same == entry_matches(*sa, *da, rs, k as int, *src_db_type, *dst_db_type));
                assert(entry_found(*sa, *da, rs, k as int));
                if !same {
                    ok = false;
                }
            },
        }
        k = k + 1;
    }
    proof {
        assert(src@.after.unwrap() == sa@);
        assert(dst@.after.unwrap() == da@);
        assert forall|c: Seq<char>| #[trigger] sa@.contains_key(c) implies da@.contains_key(
            col_target(rs, c),
        ) by {
            let i = choose|i: int| 0 <= i < sa.pairs().len() && (#[trigger] sa.pairs()[i]).0 == c;
            assert(entry_found(*sa, *da, rs, i));
        }
        if ok {
            assert forall|c: Seq<char>| #[trigger] sa@.contains_key(c) implies col_matches(
                sa@,
                da@,
                rs,
                c,
                *src_db_type,
                *dst_db_type,
            ) by {
                let i = choose|i: int| 0 <= i < sa.pairs().len() && (#[trigger] sa.pairs()[i]).0 == c;
                assert(entry_matches(*sa, *da, rs, i, *src_db_type, *dst_db_type));
            }
        } else {
            let j = choose|j: int|
                0 <= j < k && !#[trigger] entry_matches(*sa, *da, rs, j, *src_db_type, *dst_db_type);
            let c = sa.pairs()[j].0;
            assert(sa@.contains_key(c));
            assert(!col_matches(sa@, da@, rs, c, *src_db_type, *dst_db_type));
        }
    }
    Ok(ok)
}

/// Compares the rows of a destination table with those of its source, pair
/// by pair in the order given.
///
/// Returns `Error::Consistency` exactly when the lists cannot be compared
/// (different row counts, a row without an image after the change, or a
/// source column without its counterpart), and otherwise whether every pair
/// of rows matches.
pub fn compare_row_data(
    src_data: &Vec<RowData>,
    dst_data: &Vec<RowData>,
    col_map: Option<&Vec<ColRename>>,
    src_db_type: &DbType,
    dst_db_type: &DbType,
) -> (r: Result<bool, Error>)
    ensures
        match r {
            Ok(b) => rows_comparable(src_data@, dst_data@, renames_view(col_map)) && b == rows_match(
                src_data@,
                dst_data@,
                renames_view(col_map),
                *src_db_type,
                *dst_db_type,
            ),
            Err(e) => e == Error::Consistency && !rows_comparable(
                src_data@,
                dst_data@,
                renames_view(col_map),
            ),
        },
{
    let ghost rs = renames_view(col_map);
    if src_data.len() != dst_data.len() {
        return Err(Error::Consistency);
    }
    let mut ok = true;
    let mut i: usize = 0;
    while i < src_data.len()
        invariant
            i <= src_data.len(),
            src_data.len() == dst_data.len(),
            rs == renames_view(col_map),
            forall|j: int| 0 <= j < i ==> row_comparable((#[trigger] src_data@[j])@, dst_data@[j]@, rs),
            ok ==> forall|j: int|
                0 <= j < i ==> row_matches(
                    (#[trigger] src_data@[j])@,
                    dst_data@[j]@,
                    rs,
                    *src_db_type,
                    *dst_db_type,
                ),
            !ok ==> exists|j: int|
                0 <= j < i && !row_matches(
                    (#[trigger] src_data@[j])@,
                    dst_data@[j]@,
                    rs,
                    *src_db_type,
                    *dst_db_type,
                ),
        decreases src_data.len() - i,
    {
        match compare_row(&src_data[i], &dst_data[i], col_map, src_db_type, dst_db_type) {
            Err(e) => {
                return Err(e);
            },
            Ok(same) => {
                if !same {
                    ok = false;
                }
            },
        }
        i = i + 1;
    }
    Ok(ok)
}

/// Rows compare equal to themselves: where the destination holds exactly
/// the rows of the source, under the same column names, the comparison
/// succeeds for every pair of engines.
pub proof fn lemma_rows_match_themselves(rows: Seq<RowData>, src_db_type: DbType, dst_db_type: DbType)
    requires
        forall|i: int| 0 <= i < rows.len() ==> (#[trigger] rows[i])@.after.is_some(),
    ensures
        rows_comparable(rows, rows, None),
        rows_match(rows, rows, None, src_db_type, dst_db_type),
{
    assert forall|i: int| 0 <= i < rows.len() implies row_comparable((#[trigger] rows[i])@, rows[i]@, None)
        && row_matches(rows[i]@, rows[i]@, None, src_db_type, dst_db_type) by {
        let m = rows[i]@.after.unwrap();
        assert forall|col: Seq<char>| #[trigger] m.contains_key(col) implies m.contains_key(
            col_target(None, col),
        ) && col_matches(m, m, None, col, src_db_type, dst_db_type) by {}
    }
}

/// A routed row compares equal to its source: every source column is found
/// at the destination under the name the router gives it, with the same
/// value, as long as no two columns of the row are sent to the same name.
pub proof fn lemma_routed_row_matches(router: RdbRouter, src: RowPairs, src_db_type: DbType, dst_db_type: DbType)
    requires
        src.after.is_some(),
        forall|i: int, j: int|
            0 <= i < src.after.unwrap().len() && 0 <= j < src.after.unwrap().len() && col_target(
                router.col_renames(src.schema, src.tb),
                (#[trigger] src.after.unwrap()[i]).0,
            ) == col_target(router.col_renames(src.schema, src.tb), (#[trigger] src.after.unwrap()[j]).0)
                ==> src.after.unwrap()[i].0 == src.after.unwrap()[j].0,
    ensures
        row_comparable(src.to_view(), router.routed(src).to_view(), router.col_renames(src.schema, src.tb)),
        row_matches(
            src.to_view(),
            router.routed(src).to_view(),
            router.col_renames(src.schema, src.tb),
            src_db_type,
            dst_db_type,
        ),
{
    let renames = router.col_renames(src.schema, src.tb);
    let p = src.after.unwrap();
    let sm = src.to_view().after.unwrap();
    let dm = router.routed(src).to_view().after.unwrap();
    assert(sm == pairs_map(p));
    assert(dm == pairs_map(renamed_pairs(p, renames)));
    assert forall|col: Seq<char>| #[trigger] sm.contains_key(col) implies dm.contains_key(
        col_target(renames, col),
    ) && col_matches(sm, dm, renames, col, src_db_type, dst_db_type) by {
        lemma_renamed_lookup(p, renames, col);
    }
}

/// One table to compare: its source and destination names, and the rows
/// fetched from each side in the same order.
pub struct TbData {
    pub src_db_tb: (String, String),
    pub dst_db_tb: (String, String),
    pub src_data: Vec<RowData>,
    pub dst_data: Vec<RowData>,
}

/// The names in a list of `(db, tb)` pairs.
pub open spec fn db_tbs_view(list: Seq<(String, String)>) -> Seq<(Seq<char>, Seq<char>)> {
    list.map_values(|p: (String, String)| (p.0@, p.1@))
}

/// Whether `(db, tb)` is one of the filtered tables.
pub open spec fn is_filtered(filtered: Seq<(String, String)>, db_tb: (Seq<char>, Seq<char>)) -> bool {
    db_tbs_view(filtered).contains(db_tb)
}

/// Whether `db_tb` is one of the filtered tables.
pub fn contains_db_tb(filtered: &Vec<(String, String)>, db_tb: &(String, String)) -> (r: bool)
    ensures
        r == is_filtered(filtered@, (db_tb.0@, db_tb.1@)),
{
    let mut i: usize = 0;
    while i < filtered.len()
        invariant
            i <= filtered.len(),
            forall|j: int| 0 <= j < i ==> (#[trigger] db_tbs_view(filtered@)[j]) != (db_tb.0@, db_tb.1@),
        decreases filtered.len() - i,
    {
        if filtered[i].0 == db_tb.0 && filtered[i].1 == db_tb.1 {
            assert(db_tbs_view(filtered@)[i as int] == (db_tb.0@, db_tb.1@));
            return true;
        }
        assert(db_tbs_view(filtered@)[i as int] != (db_tb.0@, db_tb.1@));
        i = i + 1;
    }
    false
}

/// A table can be judged when, if it is filtered, its destination holds no
/// rows, and, if it is not, its rows can be compared.
pub open spec fn tb_comparable(t: TbData, filtered: Seq<(String, String)>, router: RdbRouter) -> bool {
    if is_filtered(filtered, (t.src_db_tb.0@, t.src_db_tb.1@)) {
        t.dst_data@.len() == 0
    } else {
        rows_comparable(t.src_data@, t.dst_data@, router.col_renames(t.src_db_tb.0@, t.src_db_tb.1@))
    }
}

/// A table matches when it is filtered or its rows match.
pub open spec fn tb_matches(
    t: TbData,
    filtered: Seq<(String, String)>,
    router: RdbRouter,
    src_db_type: DbType,
    dst_db_type: DbType,
) -> bool {
    is_filtered(filtered, (t.src_db_tb.0@, t.src_db_tb.1@)) || rows_match(
        t.src_data@,
        t.dst_data@,
        router.col_renames(t.src_db_tb.0@, t.src_db_tb.1@),
        src_db_type,
        dst_db_type,
    )
}

/// Compares the rows of one destination table with those of its source,
/// with the column renames that the router has for the source table.
pub fn compare_tb_data(t: &TbData, router: &RdbRouter, src_db_type: &DbType, dst_db_type: &DbType) -> (r:
    Result<bool, Error>)
    ensures
        match r {
            Ok(b) => rows_comparable(
                t.src_data@,
                t.dst_data@,
                router.col_renames(t.src_db_tb.0@, t.src_db_tb.1@),
            ) && b == rows_match(
                t.src_data@,
                t.dst_data@,
                router.col_renames(t.src_db_tb.0@, t.src_db_tb.1@),
                *src_db_type,
                *dst_db_type,
            ),
            Err(e) => e == Error::Consistency && !rows_comparable(
                t.src_data@,
                t.dst_data@,
                router.col_renames(t.src_db_tb.0@, t.src_db_tb.1@),
            ),
        },
{
    let col_map = router.get_col_map(&t.src_db_tb.0, &t.src_db_tb.1);
    compare_row_data(&t.src_data, &t.dst_data, col_map, src_db_type, dst_db_type)
}

/// Judges every table of a run.
///
/// A filtered table must have an empty destination; any other table is
/// compared row by row. Returns `Error::Consistency` exactly when some
/// table cannot be judged, and otherwise whether every table matches: one
/// table that does not match makes the whole result `false`.
pub fn compare_data_for_tbs(
    tbs: &Vec<TbData>,
    filtered: &Vec<(String, String)>,
    router: &RdbRouter,
    src_db_type: &DbType,
    dst_db_type: &DbType,
) -> (r: Result<bool, Error>)
    ensures
        match r {
            Ok(b) => (forall|i: int| 0 <= i < tbs@.len() ==> tb_comparable(#[trigger] tbs@[i], filtered@, *router))
                && b == (forall|i: int|
                0 <= i < tbs@.len() ==> tb_matches(
                    #[trigger] tbs@[i],
                    filtered@,
                    *router,
                    *src_db_type,
                    *dst_db_type,
                )),
            Err(e) => e == Error::Consistency && exists|i: int|
                0 <= i < tbs@.len() && !tb_comparable(#[trigger] tbs@[i], filtered@, *router),
        },
{
    let mut ok = true;
    let mut i: usize = 0;
    while i < tbs.len()
        invariant
            i <= tbs.len(),
            forall|j: int| 0 <= j < i ==> tb_comparable(#[trigger] tbs@[j], filtered@, *router),
            ok ==> forall|j: int|
                0 <= j < i ==> tb_matches(#[trigger] tbs@[j], filtered@, *router, *src_db_type, *dst_db_type),
            !ok ==> exists|j: int|
                0 <= j < i && !tb_matches(#[trigger] tbs@[j], filtered@, *router, *src_db_type, *dst_db_type),
        decreases tbs.len() - i,
    {
        let t = &tbs[i];
        if contains_db_tb(filtered, &t.src_db_tb) {
            if t.dst_data.len() != 0 {
                assert(!tb_comparable(tbs@[i as int], filtered@, *router));
                return Err(Error::Consistency);
            }
        } else {
            match compare_tb_data(t, router, src_db_type, dst_db_type) {
                Err(e) => {
                    assert(!tb_comparable(tbs@[i as int], filtered@, *router));
                    return Err(e);
                },
                Ok(same) => {
                    if !same {
                        ok = false;
                    }
                },
            }
        }
        i = i + 1;
    }
    Ok(ok)
}

/// The tables of `list` that are not filtered, in their order.
pub open spec fn unfiltered(list: Seq<(Seq<char>, Seq<char>)>, filtered: Seq<(String, String)>) -> Seq<
    (Seq<char>, Seq<char>),
>
    decreases list.len(),
{
    if list.len() == 0 {
        Seq::empty()
    } else if is_filtered(filtered, list.last()) {
        unfiltered(list.drop_last(), filtered)
    } else {
        unfiltered(list.drop_last(), filtered).push(list.last())
    }
}

/// The tables to compare in a run whose set of tables can shift: those
/// created by the schema script followed by those created by the data
/// script, without the filtered ones, each with its destination under the
/// router.
pub fn get_compare_db_tbs(
    ddl_db_tbs: &Vec<(String, String)>,
    dml_db_tbs: &Vec<(String, String)>,
    filtered: &Vec<(String, String)>,
    router: &RdbRouter,
) -> (r: (Vec<(String, String)>, Vec<(String, String)>))
    ensures
        db_tbs_view(r.0@) == unfiltered(db_tbs_view(ddl_db_tbs@) + db_tbs_view(dml_db_tbs@), filtered@),
        r.1@.len() == r.0@.len(),
        forall|i: int|
            0 <= i < r.0@.len() ==> (#[trigger] db_tbs_view(r.1@)[i]) == router.tb_target(
                db_tbs_view(r.0@)[i].0,
                db_tbs_view(r.0@)[i].1,
            ),
{
    let mut src: Vec<(String, String)> = Vec::new();
    let mut dst: Vec<(String, String)> = Vec::new();
    let ghost all = db_tbs_view(ddl_db_tbs@) + db_tbs_view(dml_db_tbs@);
    let mut i: usize = 0;
    assert(db_tbs_view(src@) =~= unfiltered(all.take(0), filtered@));
    while i < ddl_db_tbs.len()
        invariant
            i <= ddl_db_tbs.len(),
            all == db_tbs_view(ddl_db_tbs@) + db_tbs_view(dml_db_tbs@),
            db_tbs_view(src@) == unfiltered(all.take(i as int), filtered@),
            dst@.len() == src@.len(),
            forall|j: int|
                0 <= j < src@.len() ==> (#[trigger] db_tbs_view(dst@)[j]) == router.tb_target(
                    db_tbs_view(src@)[j].0,
                    db_tbs_view(src@)[j].1,
                ),
        decreases ddl_db_tbs.len() - i,
    {
        let ghost before_src = src@;
        let ghost before_dst = dst@;
        proof {
            assert(all.take(i + 1).drop_last() =~= all.take(i as int));
            assert(all.take(i + 1).last() == (ddl_db_tbs@[i as int].0@, ddl_db_tbs@[i as int].1@));
        }
        if !contains_db_tb(filtered, &ddl_db_tbs[i]) {
            let target = router.get_tb_map(&ddl_db_tbs[i].0, &ddl_db_tbs[i].1);
            dst.push((target.0.clone(), target.1.clone()));
            src.push((ddl_db_tbs[i].0.clone(), ddl_db_tbs[i].1.clone()));
            proof {
                assert(db_tbs_view(src@) =~= db_tbs_view(before_src).push(all.take(i + 1).last()));
                assert forall|j: int| 0 <= j < src@.len() implies (#[trigger] db_tbs_view(dst@)[j])
                    == router.tb_target(db_tbs_view(src@)[j].0, db_tbs_view(src@)[j].1) by {
                    if j < before_src.len() {
                        assert(db_tbs_view(dst@)[j] == db_tbs_view(before_dst)[j]);
                        assert(db_tbs_view(src@)[j] == db_tbs_view(before_src)[j]);
                    }
                }
            }
        }
        i = i + 1;
    }
    let mut k: usize = 0;
    while k < dml_db_tbs.len()
        invariant
            k <= dml_db_tbs.len(),
            all == db_tbs_view(ddl_db_tbs@) + db_tbs_view(dml_db_tbs@),
            db_tbs_view(src@) == unfiltered(all.take(ddl_db_tbs@.len() + k), filtered@),
            dst@.len() == src@.len(),
            forall|j: int|
                0 <= j < src@.len() ==> (#[trigger] db_tbs_view(dst@)[j]) == router.tb_target(
                    db_tbs_view(src@)[j].0,
                    db_tbs_view(src@)[j].1,
                ),
        decreases dml_db_tbs.len() - k,
    {
        let ghost before_src = src@;
        let ghost before_dst = dst@;
        let ghost n = ddl_db_tbs@.len() + k;
        proof {
            assert(all.take(n + 1).drop_last() =~= all.take(n as int));
            assert(all.take(n + 1).last() == (dml_db_tbs@[k as int].0@, dml_db_tbs@[k as int].1@));
        }
        if !contains_db_tb(filtered, &dml_db_tbs[k]) {
            let target = router.get_tb_map(&dml_db_tbs[k].0, &dml_db_tbs[k].1);
            dst.push((target.0.clone(), target.1.clone()));
            src.push((dml_db_tbs[k].0.clone(), dml_db_tbs[k].1.clone()));
            proof {
                assert(db_tbs_view(src@) =~= db_tbs_view(before_src).push(all.take(n + 1).last()));
                assert forall|j: int| 0 <= j < src@.len() implies (#[trigger] db_tbs_view(dst@)[j])
                    == router.tb_target(db_tbs_view(src@)[j].0, db_tbs_view(src@)[j].1) by {
                    if j < before_src.len() {
                        assert(db_tbs_view(dst@)[j] == db_tbs_view(before_dst)[j]);
                        assert(db_tbs_view(src@)[j] == db_tbs_view(before_src)[j]);
                    }
                }
            }
        }
        k = k + 1;
    }
    assert(all.take(ddl_db_tbs@.len() + k) =~= all);
    (src, dst)
}

} // verus!
