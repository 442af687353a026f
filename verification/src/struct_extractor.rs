//! The struct extractor for MySQL: it hands the schema objects of one
//! database to the buffer, tables first, then indexes, then constraints.

use vstd::prelude::*;
use std::collections::VecDeque;
use crate::buffer::{push_dt_data, push_outcome, Buffer, PushStep};
use crate::dt_data::{
    DdlData, DdlDataView, DdlType, DtData, DtDataView, DtItemView, Position, StructModel, StructModelView,
};
use crate::error::Error;
use crate::filter::RdbFilter;

verus! {

impl StructModel {
    /// A copy with the same value.
    pub fn duplicate(&self) -> (r: StructModel)
        ensures
            r@ == self@,
    {
        StructModel {
            kind: self.kind,
            schema: self.schema.clone(),
            tb: self.tb.clone(),
            name: self.name.clone(),
            definition: self.definition.clone(),
        }
    }
}

/// The mathematical values of a list of schema objects.
pub open spec fn models_view(models: Seq<StructModel>) -> Seq<StructModelView> {
    models.map_values(|m: StructModel| m@)
}

/// The buffer element that carries schema object `meta` of database `db`:
/// a schema change of unknown kind with no query text and no position.
pub open spec fn ddl_item(db: Seq<char>, meta: StructModelView) -> DtItemView {
    DtItemView {
        dt_data: DtDataView::Ddl {
            ddl_data: DdlDataView { schema: db, query: Seq::empty(), meta: Some(meta), ddl_type: DdlType::Unknown },
        },
        position: None,
    }
}

/// The buffer elements that carry `models`, in their order.
pub open spec fn ddl_items(db: Seq<char>, models: Seq<StructModel>) -> Seq<DtItemView> {
    models.map_values(|m: StructModel| ddl_item(db, m@))
}

/// What reads the schema objects of one database: the database's name and
/// the filter that says which of its tables are in scope.
pub struct MysqlStructFetcher<'a> {
    pub db: &'a String,
    pub filter: Option<&'a RdbFilter>,
}

impl<'a> MysqlStructFetcher<'a> {
    /// Whether a schema object is in scope: it belongs to the fetcher's
    /// database, and the filter, if there is one, does not leave its table
    /// out.
    pub open spec fn in_scope_spec(&self, model: StructModelView) -> bool {
        model.schema == self.db@ && match self.filter {
            Some(f) => !f.filtered(model.schema, model.tb),
            None => true,
        }
    }

    /// Whether a schema object is in scope.
    pub fn in_scope(&self, model: &StructModel) -> (r: bool)
        ensures
            r == self.in_scope_spec(model@),
    {
        if model.schema != *self.db {
            return false;
        }
        match self.filter {
            Some(f) => !f.filter_tb(&model.schema, &model.tb),
            None => true,
        }
    }
}

/// What the extractor does after a round of pushing.
#[derive(Clone, Copy, Debug, PartialEq, Eq, Structural)]
pub enum ExtractStep {
    /// Everything has been pushed: wait for the task to finish.
    Pushed,
    /// The buffer is full: yield, then go on with what is left.
    Yield,
}

/// The struct extractor of one MySQL database.
#[derive(Clone, Debug, PartialEq, Eq)]
pub struct MysqlStructExtractor {
    pub db: String,
    pub filter: RdbFilter,
}

impl MysqlStructExtractor {
    /// The fetcher for this extractor's database and filter.
    pub fn build_fetcher(&self) -> (r: MysqlStructFetcher<'_>)
        ensures
            r.db == &self.db,
            r.filter == Some(&self.filter),
    {
        MysqlStructFetcher { db: &self.db, filter: Some(&self.filter) }
    }

    /// The order in which fetched schema objects are emitted: the in-scope
    /// tables, then the in-scope indexes, then the in-scope constraints,
    /// each group in the order given.
    pub fn emission_order(
        &self,
        tables: &Vec<StructModel>,
        indexes: &Vec<StructModel>,
        constraints: &Vec<StructModel>,
    ) -> (r: VecDeque<StructModel>)
        ensures
            models_view(r@) == models_view(tables@).filter(|m: StructModelView| self.in_scope_view(m))
                + models_view(indexes@).filter(|m: StructModelView| self.in_scope_view(m)) + models_view(
                constraints@,
            ).filter(|m: StructModelView| self.in_scope_view(m)),
    {
        let mut out: VecDeque<StructModel> = VecDeque::new();
        assert(models_view(out@) =~= Seq::empty());
        self.append_in_scope(&mut out, tables);
        self.append_in_scope(&mut out, indexes);
        self.append_in_scope(&mut out, constraints);
        assert(models_view(tables@).filter(|m: StructModelView| self.in_scope_view(m)) =~= Seq::empty()
            + models_view(tables@).filter(|m: StructModelView| self.in_scope_view(m)));
        out
    }

    /// Whether a schema object is in scope for this extractor.
    pub open spec fn in_scope_view(&self, model: StructModelView) -> bool {
        model.schema == self.db@ && !self.filter.filtered(model.schema, model.tb)
    }

    fn append_in_scope(&self, out: &mut VecDeque<StructModel>, models: &Vec<StructModel>)
        ensures
            models_view(final(out)@) == models_view(old(out)@) + models_view(models@).filter(
                |m: StructModelView| self.in_scope_view(m),
            ),
    {
        let fetcher = self.build_fetcher();
        let ghost keep = |m: StructModelView| self.in_scope_view(m);
        let mut i: usize = 0;
        assert(models_view(models@).take(0).filter(keep) =~= Seq::empty()) by {
            reveal(Seq::filter);
        }
        assert(models_view(out@) =~= models_view(old(out)@) + models_view(models@).take(0).filter(keep));
        while i < models.len()
            invariant
                i <= models.len(),
                fetcher.db == &self.db,
                fetcher.filter == Some(&self.filter),
                keep == |m: StructModelView| self.in_scope_view(m),
                models_view(out@) == models_view(old(out)@) + models_view(models@).take(i as int).filter(keep),
            decreases models.len() - i,
        {
            let ghost before = out@;
            proof {
                let s = models_view(models@);
                assert(s.take(i + 1).drop_last() =~= s.take(i as int));
                assert(s.take(i + 1).last() == models@[i as int]@);
                reveal(Seq::filter);
            }
            if fetcher.in_scope(&models[i]) {
                out.push_back(models[i].duplicate());
                assert(models_view(out@) =~= models_view(before).push(models@[i as int]@));
            }
            assert(models_view(out@) =~= models_view(old(out)@) + models_view(models@).take(i + 1).filter(
                keep,
            ));
            i = i + 1;
        }
        assert(models_view(models@).take(i as int) =~= models_view(models@));
    }

    fn ddl_item_of(&self, meta: StructModel) -> (r: DtData)
        ensures
            (DtItemView { dt_data: r@, position: None }) == ddl_item(self.db@, meta@),
    {
        DtData::Ddl {
            ddl_data: DdlData {
                schema: self.db.clone(),
                query: String::new(),
                meta: Some(meta),
                ddl_type: DdlType::Unknown,
            },
        }
    }

    /// Offers schema object `meta` to the buffer, as a schema change of
    /// unknown kind for this extractor's database.
    ///
    /// With room in the buffer the change is appended. With a full buffer
    /// nothing changes: under shutdown `Error::Shutdown` is returned,
    /// otherwise the item comes back to be offered again.
    pub fn push_dt_data(&self, buffer: &mut Buffer, meta: &StructModel, shut_down: bool) -> (r: Result<
        PushStep,
        Error,
    >)
        requires
            old(buffer).wf(),
        ensures
            final(buffer).wf(),
            final(buffer).cap() == old(buffer).cap(),
            match push_outcome(old(buffer)@.len(), old(buffer).cap(), shut_down) {
                Ok(true) => r == Ok::<PushStep, Error>(PushStep::Accepted) && final(buffer)@ == old(
                    buffer,
                )@.push(ddl_item(self.db@, meta@)),
                Ok(false) => final(buffer)@ == old(buffer)@ && match r {
                    Ok(PushStep::Retry { item }) => item@ == ddl_item(self.db@, meta@),
                    _ => false,
                },
                Err(e) => r == Err::<PushStep, Error>(e) && final(buffer)@ == old(buffer)@,
            },
    {
        let dt_data = self.ddl_item_of(meta.duplicate());
        push_dt_data(buffer, dt_data, Position::Unset, shut_down)
    }

    /// Pushes the schema objects of `pending`, front first, for as long as
    /// the buffer has room, and takes each pushed one out of `pending`.
    ///
    /// Returns `Pushed` when nothing is left. With something left, which
    /// means the buffer is full, it returns `Error::Shutdown` under
    /// shutdown and `Yield` otherwise.
    pub fn extract_internal(&self, buffer: &mut Buffer, pending: &mut VecDeque<StructModel>, shut_down: bool) -> (r:
        Result<ExtractStep, Error>)
        requires
            old(buffer).wf(),
        ensures
            final(buffer).wf(),
            final(buffer).cap() == old(buffer).cap(),
            ({
                let room = old(buffer).cap() - old(buffer)@.len();
                let n = if old(pending)@.len() <= room {
                    old(pending)@.len() as int
                } else {
                    room
                };
                &&& final(buffer)@ == old(buffer)@ + ddl_items(self.db@, old(pending)@.take(n))
                &&& final(pending)@ == old(pending)@.skip(n)
                &&& r == if n == old(pending)@.len() {
                    Ok::<ExtractStep, Error>(ExtractStep::Pushed)
                } else if shut_down {
                    Err::<ExtractStep, Error>(Error::Shutdown)
                } else {
                    Ok::<ExtractStep, Error>(ExtractStep::Yield)
                }
            }),
    {
        let ghost n: int = 0;
        proof {
            buffer.lemma_bounded();
            assert(ddl_items(self.db@, old(pending)@.take(0)) =~= Seq::empty());
            assert(buffer@ =~= old(buffer)@ + ddl_items(self.db@, old(pending)@.take(0)));
            assert(pending@ =~= old(pending)@.skip(0));
        }
        while pending.len() > 0 && !buffer.is_full()
            invariant
                buffer.wf(),
                buffer.cap() == old(buffer).cap(),
                0 <= n <= old(pending)@.len(),
                buffer@.len() == old(buffer)@.len() + n,
                buffer@.len() <= buffer.cap(),
                buffer@ == old(buffer)@ + ddl_items(self.db@, old(pending)@.take(n)),
                pending@ == old(pending)@.skip(n),
            decreases pending@.len(),
        {
            let ghost before = buffer@;
            let meta = match pending.pop_front() {
                Some(m) => m,
                None => {
                    return Err(Error::Shutdown);
                },
            };
            assert(meta == old(pending)@[n]);
            let dt_data = self.ddl_item_of(meta);
            let _ = push_dt_data(buffer, dt_data, Position::Unset, shut_down);
            proof {
                assert(old(pending)@.take(n + 1) =~= old(pending)@.take(n).push(old(pending)@[n]));
                assert(ddl_items(self.db@, old(pending)@.take(n + 1)) =~= ddl_items(
                    self.db@,
                    old(pending)@.take(n),
                ).push(ddl_item(self.db@, meta@)));
                assert(buffer@ =~= old(buffer)@ + ddl_items(self.db@, old(pending)@.take(n + 1)));
                assert(pending@ =~= old(pending)@.skip(n + 1));
                n = n + 1;
            }
        }
        if pending.len() == 0 {
            Ok(ExtractStep::Pushed)
        } else if shut_down {
            Err(Error::Shutdown)
        } else {
            Ok(ExtractStep::Yield)
        }
    }
}

} // verus!
