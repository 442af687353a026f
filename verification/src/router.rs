//! Routing of source tables and columns to their destination names.

use vstd::prelude::*;
use crate::col_value::ColValueView;
use crate::row_data::{pairs_map, ColEntry, ColMap, RowData, RowPairs};

verus! {

/// One table route: rows of `src_tb` in `src_db` go to `dst_tb` in `dst_db`.
#[derive(Clone, Debug, PartialEq, Eq)]
pub struct TbRoute {
    pub src_db: String,
    pub src_tb: String,
    pub dst_db: String,
    pub dst_tb: String,
}

/// One column rename.
#[derive(Clone, Debug, PartialEq, Eq)]
pub struct ColRename {
    pub src: String,
    pub dst: String,
}

/// The column renames of one source table.
#[derive(Clone, Debug, PartialEq, Eq)]
pub struct ColRoute {
    pub db: String,
    pub tb: String,
    pub cols: Vec<ColRename>,
}

/// The routes of a task. Where several routes name the same source, the
/// first one counts. Immutable after construction.
#[derive(Clone, Debug, PartialEq, Eq)]
pub struct RdbRouter {
    pub tb_map: Vec<TbRoute>,
    pub col_map: Vec<ColRoute>,
}

/// The destination of column `col` under `renames[from..]`: that of the
/// first rename of `col`, or `col` itself where there is none.
pub open spec fn col_target_from(renames: Seq<ColRename>, from: int, col: Seq<char>) -> Seq<char>
    decreases renames.len() - from,
{
    if from < 0 || from >= renames.len() {
        col
    } else if renames[from].src@ == col {
        renames[from].dst@
    } else {
        col_target_from(renames, from + 1, col)
    }
}

/// The destination of column `col` under an optional list of renames.
pub open spec fn col_target(renames: Option<Seq<ColRename>>, col: Seq<char>) -> Seq<char> {
    match renames {
        Some(r) => col_target_from(r, 0, col),
        None => col,
    }
}

/// The index of the first table route from `(db, tb)` in `routes[from..]`,
/// or the length of `routes` where there is none.
pub open spec fn tb_route_index(routes: Seq<TbRoute>, from: int, db: Seq<char>, tb: Seq<char>) -> int
    decreases routes.len() - from,
{
    if from < 0 || from >= routes.len() {
        routes.len() as int
    } else if routes[from].src_db@ == db && routes[from].src_tb@ == tb {
        from
    } else {
        tb_route_index(routes, from + 1, db, tb)
    }
}

/// The index of the first column route of `(db, tb)` in `routes[from..]`,
/// or the length of `routes` where there is none.
pub open spec fn col_route_index(routes: Seq<ColRoute>, from: int, db: Seq<char>, tb: Seq<char>) -> int
    decreases routes.len() - from,
{
    if from < 0 || from >= routes.len() {
        routes.len() as int
    } else if routes[from].db@ == db && routes[from].tb@ == tb {
        from
    } else {
        col_route_index(routes, from + 1, db, tb)
    }
}

/// The pairs of a column map after each name went through `renames`.
pub open spec fn renamed_pairs(
    p: Seq<(Seq<char>, ColValueView)>,
    renames: Option<Seq<ColRename>>,
) -> Seq<(Seq<char>, ColValueView)> {
    p.map_values(|e: (Seq<char>, ColValueView)| (col_target(renames, e.0), e.1))
}

/// The image of a row after each column name went through `renames`.
pub open spec fn renamed_image(
    image: Option<Seq<(Seq<char>, ColValueView)>>,
    renames: Option<Seq<ColRename>>,
) -> Option<Seq<(Seq<char>, ColValueView)>> {
    match image {
        Some(p) => Some(renamed_pairs(p, renames)),
        None => None,
    }
}

/// The destination name of `col` under `renames`.
pub fn rename_col<'a>(renames: Option<&'a Vec<ColRename>>, col: &'a String) -> (r: &'a String)
    ensures
        r@ == col_target(
            match renames {
                Some(v) => Some(v@),
                None => None,
            },
            col@,
        ),
{
    match renames {
        None => col,
        Some(v) => {
            let mut i: usize = 0;
            while i < v.len()
                invariant
                    i <= v.len(),
                    renames == Some(v),
                    col_target_from(v@, 0, col@) == col_target_from(v@, i as int, col@),
                decreases v.len() - i,
            {
                if v[i].src == *col {
                    return &v[i].dst;
                }
                i = i + 1;
            }
            col
        },
    }
}

fn rename_cols(m: &ColMap, renames: Option<&Vec<ColRename>>) -> (r: ColMap)
    ensures
        r.pairs() == renamed_pairs(
            m.pairs(),
            match renames {
                Some(v) => Some(v@),
                None => None,
            },
        ),
{
    let ghost rs: Option<Seq<ColRename>> = match renames {
        Some(v) => Some(v@),
        None => None,
    };
    let mut out: Vec<ColEntry> = Vec::new();
    let mut i: usize = 0;
    while i < m.entries.len()
        invariant
            i <= m.entries.len(),
            out@.len() == i,
            rs == match renames {
                Some(v) => Some(v@),
                None => None,
            },
            forall|j: int|
                0 <= j < i ==> (#[trigger] out@[j]).name@ == col_target(rs, m.entries@[j].name@)
                    && out@[j].value@ == m.entries@[j].value@,
        decreases m.entries.len() - i,
    {
        let e = &m.entries[i];
        let name = rename_col(renames, &e.name).clone();
        out.push(ColEntry { name, value: e.value.duplicate() });
        i = i + 1;
    }
    let r = ColMap { entries: out };
    assert(r.pairs() =~= renamed_pairs(m.pairs(), rs));
    r
}

impl RdbRouter {
    /// The destination `(db, tb)` of a source table: that of its first
    /// route, or the source names themselves where it has none.
    pub open spec fn tb_target(&self, db: Seq<char>, tb: Seq<char>) -> (Seq<char>, Seq<char>) {
        let i = tb_route_index(self.tb_map@, 0, db, tb);
        if i < self.tb_map@.len() {
            (self.tb_map@[i].dst_db@, self.tb_map@[i].dst_tb@)
        } else {
            (db, tb)
        }
    }

    /// The column renames of a source table, if it has any.
    pub open spec fn col_renames(&self, db: Seq<char>, tb: Seq<char>) -> Option<Seq<ColRename>> {
        let i = col_route_index(self.col_map@, 0, db, tb);
        if i < self.col_map@.len() {
            Some(self.col_map@[i].cols@)
        } else {
            None
        }
    }

    /// What a row becomes on its way to the destination: its table goes
    /// through the table routes, its column names through the renames of its
    /// source table, and its values and kind stay.
    pub open spec fn routed(&self, row: RowPairs) -> RowPairs {
        let target = self.tb_target(row.schema, row.tb);
        let renames = self.col_renames(row.schema, row.tb);
        RowPairs {
            schema: target.0,
            tb: target.1,
            row_type: row.row_type,
            before: renamed_image(row.before, renames),
            after: renamed_image(row.after, renames),
        }
    }

    /// A router of the given routes.
    pub fn new(tb_map: Vec<TbRoute>, col_map: Vec<ColRoute>) -> (r: RdbRouter)
        ensures
            r.tb_map == tb_map,
            r.col_map == col_map,
    {
        RdbRouter { tb_map, col_map }
    }

    /// The destination `(db, tb)` of a source table. Never fails: a table
    /// without a route keeps its names.
    pub fn get_tb_map<'a>(&'a self, db: &'a String, tb: &'a String) -> (r: (&'a String, &'a String))
        ensures
            (r.0@, r.1@) == self.tb_target(db@, tb@),
    {
        let mut i: usize = 0;
        while i < self.tb_map.len()
            invariant
                i <= self.tb_map.len(),
                tb_route_index(self.tb_map@, 0, db@, tb@) == tb_route_index(
                    self.tb_map@,
                    i as int,
                    db@,
                    tb@,
                ),
            decreases self.tb_map.len() - i,
        {
            if self.tb_map[i].src_db == *db && self.tb_map[i].src_tb == *tb {
                return (&self.tb_map[i].dst_db, &self.tb_map[i].dst_tb);
            }
            i = i + 1;
        }
        (db, tb)
    }

    /// The column renames of a source table, if it has any.
    pub fn get_col_map(&self, db: &String, tb: &String) -> (r: Option<&Vec<ColRename>>)
        ensures
            match r {
                Some(v) => self.col_renames(db@, tb@) == Some(v@),
                None => self.col_renames(db@, tb@).is_none(),
            },
    {
        let mut i: usize = 0;
        while i < self.col_map.len()
            invariant
                i <= self.col_map.len(),
                col_route_index(self.col_map@, 0, db@, tb@) == col_route_index(
                    self.col_map@,
                    i as int,
                    db@,
                    tb@,
                ),
            decreases self.col_map.len() - i,
        {
            if self.col_map[i].db == *db && self.col_map[i].tb == *tb {
                return Some(&self.col_map[i].cols);
            }
            i = i + 1;
        }
        None
    }

    /// Routes one row to its destination names.
    pub fn route_row(&self, row: RowData) -> (r: RowData)
        ensures
            r.deep() == self.routed(row.deep()),
            r@ == self.routed(row.deep()).to_view(),
            r@.wf() == row@.wf(),
    {
        let renames = self.get_col_map(&row.schema, &row.tb);
        let before = match &row.before {
            Some(m) => Some(rename_cols(m, renames)),
            None => None,
        };
        let after = match &row.after {
            Some(m) => Some(rename_cols(m, renames)),
            None => None,
        };
        let target = self.get_tb_map(&row.schema, &row.tb);
        RowData {
            schema: target.0.clone(),
            tb: target.1.clone(),
            row_type: row.row_type,
            before,
            after,
        }
    }
}

/// Renaming the columns of a map keeps every value findable under its new
/// name, as long as no two columns of the map are sent to the same name.
pub proof fn lemma_renamed_lookup(
    p: Seq<(Seq<char>, ColValueView)>,
    renames: Option<Seq<ColRename>>,
    col: Seq<char>,
)
    requires
        pairs_map(p).contains_key(col),
        forall|i: int, j: int|
            0 <= i < p.len() && 0 <= j < p.len() && col_target(renames, (#[trigger] p[i]).0)
                == col_target(renames, (#[trigger] p[j]).0) ==> p[i].0 == p[j].0,
    ensures
        pairs_map(renamed_pairs(p, renames)).contains_key(col_target(renames, col)),
        pairs_map(renamed_pairs(p, renames))[col_target(renames, col)] == pairs_map(p)[col],
    decreases p.len(),
{
    if p.len() > 0 {
        let q = p.drop_last();
        let last = p.last();
        assert(renamed_pairs(p, renames).drop_last() =~= renamed_pairs(q, renames));
        assert(renamed_pairs(p, renames).last() == (col_target(renames, last.0), last.1));
        if last.0 != col {
            assert(pairs_map(q).contains_key(col));
            crate::row_data::lemma_pairs_map_dom(q);
            let i = choose|i: int| 0 <= i < q.len() && (#[trigger] q[i]).0 == col;
            assert(p[i] == q[i]);
            assert(p[p.len() - 1] == last);
            assert(col_target(renames, last.0) != col_target(renames, col));
            assert forall|i: int, j: int|
                0 <= i < q.len() && 0 <= j < q.len() && col_target(renames, (#[trigger] q[i]).0)
                    == col_target(renames, (#[trigger] q[j]).0) implies q[i].0 == q[j].0 by {
                assert(q[i] == p[i]);
                assert(q[j] == p[j]);
            }
            lemma_renamed_lookup(q, renames, col);
        }
    }
}

} // verus!
