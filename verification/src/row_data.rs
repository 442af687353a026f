//! Rows: a column map per image, and the kind of change a row stands for.

use vstd::prelude::*;
use crate::col_value::{ColValue, ColValueView};

verus! {

/// One named column value.
#[derive(Clone, Debug, PartialEq, Eq)]
pub struct ColEntry {
    pub name: String,
    pub value: ColValue,
}

/// A map from raw column name (case preserved) to value.
///
/// The entries are kept in the order in which they were inserted; a later
/// entry for a name replaces every earlier one.
#[derive(Clone, Debug, PartialEq, Eq)]
pub struct ColMap {
    pub entries: Vec<ColEntry>,
}

/// The map that a sequence of (name, value) pairs stands for: each pair in
/// turn is inserted, so the last pair for a name wins.
pub open spec fn pairs_map(p: Seq<(Seq<char>, ColValueView)>) -> Map<Seq<char>, ColValueView>
    decreases p.len(),
{
    if p.len() == 0 {
        Map::empty()
    } else {
        pairs_map(p.drop_last()).insert(p.last().0, p.last().1)
    }
}

/// Every key of the map is the name of some pair, and the other way round.
pub proof fn lemma_pairs_map_dom(p: Seq<(Seq<char>, ColValueView)>)
    ensures
        forall|k: Seq<char>|
            pairs_map(p).contains_key(k) <==> exists|i: int| 0 <= i < p.len() && (#[trigger] p[i]).0 == k,
    decreases p.len(),
{
    if p.len() > 0 {
        let q = p.drop_last();
        lemma_pairs_map_dom(q);
        assert(pairs_map(p) == pairs_map(q).insert(p.last().0, p.last().1));
        assert forall|k: Seq<char>| pairs_map(p).contains_key(k) implies exists|i: int|
            0 <= i < p.len() && (#[trigger] p[i]).0 == k by {
            if p.last().0 == k {
                assert(p[p.len() - 1].0 == k);
            } else {
                assert(pairs_map(q).contains_key(k));
                let i = choose|i: int| 0 <= i < q.len() && (#[trigger] q[i]).0 == k;
                assert(q[i] == p[i]);
                assert(p[i].0 == k);
            }
        }
        assert forall|k: Seq<char>|
            (exists|i: int| 0 <= i < p.len() && (#[trigger] p[i]).0 == k) implies pairs_map(
                p,
            ).contains_key(k) by {
            let i = choose|i: int| 0 <= i < p.len() && (#[trigger] p[i]).0 == k;
            if i < p.len() - 1 {
                assert(q[i] == p[i]);
                assert(q[i].0 == k);
                assert(pairs_map(q).contains_key(k));
            } else {
                assert(p.last().0 == k);
            }
        }
    } else {
        assert forall|k: Seq<char>| !pairs_map(p).contains_key(k) by {}
    }
}

impl ColMap {
    /// The entries as pairs of mathematical values, in insertion order.
    pub open spec fn pairs(&self) -> Seq<(Seq<char>, ColValueView)> {
        self.entries@.map_values(|e: ColEntry| (e.name@, e.value@))
    }
}

impl View for ColMap {
    type V = Map<Seq<char>, ColValueView>;

    open spec fn view(&self) -> Map<Seq<char>, ColValueView> {
        pairs_map(self.pairs())
    }
}

impl ColMap {
    /// The empty map.
    pub fn new() -> (r: ColMap)
        ensures
            r@ == Map::<Seq<char>, ColValueView>::empty(),
            r.entries@.len() == 0,
    {
        let r = ColMap { entries: Vec::new() };
        assert(r.pairs() =~= Seq::empty());
        r
    }

    /// Binds `name` to `value`, replacing what `name` was bound to.
    pub fn insert(&mut self, name: String, value: ColValue)
        ensures
            final(self)@ == old(self)@.insert(name@, value@),
            final(self).pairs() == old(self).pairs().push((name@, value@)),
    {
        self.entries.push(ColEntry { name, value });
        proof {
            assert(self.pairs() =~= old(self).pairs().push((name@, value@)));
            assert(self.pairs().drop_last() =~= old(self).pairs());
        }
    }

    /// The value bound to `name`, if any.
    pub fn get(&self, name: &String) -> (r: Option<&ColValue>)
        ensures
            match r {
                Some(v) => self@.contains_key(name@) && self@[name@] == v@,
                None => !self@.contains_key(name@),
            },
    {
        let mut i: usize = self.entries.len();
        proof {
            assert(self.pairs().take(i as int) =~= self.pairs());
        }
        while i > 0
            invariant
                i <= self.entries.len(),
                self@.contains_key(name@) == pairs_map(self.pairs().take(i as int)).contains_key(
                    name@,
                ),
                self@.contains_key(name@) ==> self@[name@] == pairs_map(
                    self.pairs().take(i as int),
                )[name@],
            decreases i,
        {
            proof {
                assert(self.pairs().take(i as int).drop_last() =~= self.pairs().take(i - 1));
                assert(self.pairs().take(i as int).last() == self.pairs()[i - 1]);
            }
            i = i - 1;
            if self.entries[i].name == *name {
                return Some(&self.entries[i].value);
            }
        }
        None
    }

    /// Whether `name` is bound.
    pub fn contains(&self, name: &String) -> (r: bool)
        ensures
            r == self@.contains_key(name@),
    {
        self.get(name).is_some()
    }

    /// A copy with the same entries.
    pub fn duplicate(&self) -> (r: ColMap)
        ensures
            r.pairs() == self.pairs(),
            r@ == self@,
    {
        let mut out: Vec<ColEntry> = Vec::new();
        let mut i: usize = 0;
        while i < self.entries.len()
            invariant
                i <= self.entries.len(),
                out@.len() == i,
                forall|j: int|
                    0 <= j < i ==> (#[trigger] out@[j]).name@ == self.entries@[j].name@ && out@[j].value@
                        == self.entries@[j].value@,
            decreases self.entries.len() - i,
        {
            let e = &self.entries[i];
            out.push(ColEntry { name: e.name.clone(), value: e.value.duplicate() });
            i = i + 1;
        }
        let r = ColMap { entries: out };
        assert(r.pairs() =~= self.pairs());
        r
    }
}

/// The kind of change a row stands for.
#[derive(Clone, Copy, Debug, PartialEq, Eq, Structural, Hash)]
pub enum RowType {
    Insert,
    Update,
    Delete,
}

/// One row with its images before and after the change.
#[derive(Clone, Debug, PartialEq, Eq)]
pub struct RowData {
    pub schema: String,
    pub tb: String,
    pub row_type: RowType,
    pub before: Option<ColMap>,
    pub after: Option<ColMap>,
}

/// The mathematical value of a `RowData`.
pub struct RowDataView {
    pub schema: Seq<char>,
    pub tb: Seq<char>,
    pub row_type: RowType,
    pub before: Option<Map<Seq<char>, ColValueView>>,
    pub after: Option<Map<Seq<char>, ColValueView>>,
}

impl RowDataView {
    /// An insert has only the image after, a delete only the image before,
    /// an update both.
    pub open spec fn wf(self) -> bool {
        match self.row_type {
            RowType::Insert => self.before.is_none() && self.after.is_some(),
            RowType::Update => self.before.is_some() && self.after.is_some(),
            RowType::Delete => self.before.is_some() && self.after.is_none(),
        }
    }
}

/// A row with the entries of its images in insertion order.
pub struct RowPairs {
    pub schema: Seq<char>,
    pub tb: Seq<char>,
    pub row_type: RowType,
    pub before: Option<Seq<(Seq<char>, ColValueView)>>,
    pub after: Option<Seq<(Seq<char>, ColValueView)>>,
}

/// The map that an optional sequence of pairs stands for.
pub open spec fn image_map(p: Option<Seq<(Seq<char>, ColValueView)>>) -> Option<Map<Seq<char>, ColValueView>> {
    match p {
        Some(s) => Some(pairs_map(s)),
        None => None,
    }
}

/// The entries of an optional column map.
pub open spec fn image_pairs(m: Option<ColMap>) -> Option<Seq<(Seq<char>, ColValueView)>> {
    match m {
        Some(c) => Some(c.pairs()),
        None => None,
    }
}

impl RowPairs {
    /// The row with each image as a map.
    pub open spec fn to_view(self) -> RowDataView {
        RowDataView {
            schema: self.schema,
            tb: self.tb,
            row_type: self.row_type,
            before: image_map(self.before),
            after: image_map(self.after),
        }
    }
}

/// The view of an optional column map.
pub open spec fn image_view(m: Option<ColMap>) -> Option<Map<Seq<char>, ColValueView>> {
    match m {
        Some(c) => Some(c@),
        None => None,
    }
}

impl View for RowData {
    type V = RowDataView;

    open spec fn view(&self) -> RowDataView {
        RowDataView {
            schema: self.schema@,
            tb: self.tb@,
            row_type: self.row_type,
            before: image_view(self.before),
            after: image_view(self.after),
        }
    }
}

impl RowData {
    /// The row with the entries of its images in insertion order.
    pub open spec fn deep(&self) -> RowPairs {
        RowPairs {
            schema: self.schema@,
            tb: self.tb@,
            row_type: self.row_type,
            before: image_pairs(self.before),
            after: image_pairs(self.after),
        }
    }

    /// The view of a row is its entries read as maps.
    pub proof fn lemma_deep_view(&self)
        ensures
            self.deep().to_view() == self@,
    {
    }

    /// The insert of `after` into table `tb` of `schema`.
    pub fn build_insert_row_data(after: ColMap, schema: &String, tb: &String) -> (r: RowData)
        ensures
            r@ == (RowDataView {
                schema: schema@,
                tb: tb@,
                row_type: RowType::Insert,
                before: None,
                after: Some(after@),
            }),
            r@.wf(),
    {
        RowData {
            schema: schema.clone(),
            tb: tb.clone(),
            row_type: RowType::Insert,
            before: None,
            after: Some(after),
        }
    }

    /// Whether the images fit the kind of change.
    pub fn is_wf(&self) -> (r: bool)
        ensures
            r == self@.wf(),
    {
        match self.row_type {
            RowType::Insert => self.before.is_none() && self.after.is_some(),
            RowType::Update => self.before.is_some() && self.after.is_some(),
            RowType::Delete => self.before.is_some() && self.after.is_none(),
        }
    }
}

} // verus!
