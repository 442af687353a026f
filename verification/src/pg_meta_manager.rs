//! The cache of table schemas. A schema is put in after it was fetched and
//! is gone again once a schema change is seen on its database, so that the
//! next row is decoded against a fresh one.

use vstd::prelude::*;
use crate::dt_data::DtData;
use crate::pg_meta::PgTbMeta;

verus! {

/// One event in the life of the cache.
#[derive(Clone, Debug, PartialEq, Eq)]
pub enum CacheEvent {
    /// The schema of a table was fetched.
    Put { meta: PgTbMeta },
    /// A schema change was seen on a database.
    Evict { schema: String },
}

/// What the first `n` events leave cached for table `tb` of `schema`: the
/// last schema put in for it, unless a later schema change on `schema`
/// evicted it.
pub open spec fn cached(events: Seq<CacheEvent>, n: int, schema: Seq<char>, tb: Seq<char>) -> Option<PgTbMeta>
    decreases n,
{
    if n <= 0 || n > events.len() {
        None
    } else {
        match events[n - 1] {
            CacheEvent::Put { meta } => if meta.schema@ == schema && meta.tb@ == tb {
                Some(meta)
            } else {
                cached(events, n - 1, schema, tb)
            },
            CacheEvent::Evict { schema: evicted } => if evicted@ == schema {
                None
            } else {
                cached(events, n - 1, schema, tb)
            },
        }
    }
}

/// What is cached after `n` events depends on those events only.
pub proof fn lemma_cached_prefix(a: Seq<CacheEvent>, b: Seq<CacheEvent>, n: int, schema: Seq<char>, tb: Seq<char>)
    requires
        0 <= n <= a.len(),
        n <= b.len(),
        forall|i: int| 0 <= i < n ==> a[i] == b[i],
    ensures
        cached(a, n, schema, tb) == cached(b, n, schema, tb),
    decreases n,
{
    if n > 0 {
        lemma_cached_prefix(a, b, n - 1, schema, tb);
    }
}

/// The cache of table schemas, keyed by `(schema, tb)`.
#[derive(Clone, Debug, PartialEq, Eq)]
pub struct PgMetaManager {
    pub events: Vec<CacheEvent>,
}

impl PgMetaManager {
    /// What is cached for table `tb` of `schema`.
    pub open spec fn lookup(&self, schema: Seq<char>, tb: Seq<char>) -> Option<PgTbMeta> {
        cached(self.events@, self.events@.len() as int, schema, tb)
    }

    /// An empty cache.
    pub fn new() -> (r: PgMetaManager)
        ensures
            forall|schema: Seq<char>, tb: Seq<char>| r.lookup(schema, tb).is_none(),
    {
        PgMetaManager { events: Vec::new() }
    }

    /// The cached schema of table `tb` of `schema`, if there is one.
    pub fn get_tb_meta(&self, schema: &String, tb: &String) -> (r: Option<&PgTbMeta>)
        ensures
            match r {
                Some(meta) => self.lookup(schema@, tb@) == Some(*meta),
                None => self.lookup(schema@, tb@).is_none(),
            },
    {
        let mut i: usize = self.events.len();
        while i > 0
            invariant
                i <= self.events.len(),
                self.lookup(schema@, tb@) == cached(self.events@, i as int, schema@, tb@),
            decreases i,
        {
            i = i - 1;
            match &self.events[i] {
                CacheEvent::Put { meta } => {
                    if meta.schema == *schema && meta.tb == *tb {
                        return Some(meta);
                    }
                },
                CacheEvent::Evict { schema: evicted } => {
                    if *evicted == *schema {
                        return None;
                    }
                },
            }
        }
        None
    }

    /// Caches a fetched schema under its table, in place of what was
    /// cached for that table. Every other table keeps what it had.
    pub fn put(&mut self, meta: PgTbMeta)
        ensures
            forall|schema: Seq<char>, tb: Seq<char>|
                #[trigger] final(self).lookup(schema, tb) == if meta.schema@ == schema && meta.tb@ == tb {
                    Some(meta)
                } else {
                    old(self).lookup(schema, tb)
                },
    {
        self.events.push(CacheEvent::Put { meta });
        proof {
            let n = old(self).events@.len() as int;
            assert forall|schema: Seq<char>, tb: Seq<char>|
                #[trigger] self.lookup(schema, tb) == if meta.schema@ == schema && meta.tb@ == tb {
                    Some(meta)
                } else {
                    old(self).lookup(schema, tb)
                } by {
                lemma_cached_prefix(self.events@, old(self).events@, n, schema, tb);
            }
        }
    }

    /// Forgets every table of `schema`. The tables of other databases keep
    /// what they had.
    pub fn invalidate(&mut self, schema: &String)
        ensures
            forall|s: Seq<char>, tb: Seq<char>|
                #[trigger] final(self).lookup(s, tb) == if s == schema@ {
                    None
                } else {
                    old(self).lookup(s, tb)
                },
    {
        self.events.push(CacheEvent::Evict { schema: schema.clone() });
        proof {
            let n = old(self).events@.len() as int;
            assert forall|s: Seq<char>, tb: Seq<char>|
                #[trigger] self.lookup(s, tb) == if s == schema@ {
                    None
                } else {
                    old(self).lookup(s, tb)
                } by {
                lemma_cached_prefix(self.events@, old(self).events@, n, s, tb);
            }
        }
    }

    /// Takes note of an item of the stream: a schema change evicts the
    /// tables of its database, anything else leaves the cache as it is.
    pub fn observe(&mut self, dt_data: &DtData)
        ensures
            forall|s: Seq<char>, tb: Seq<char>|
                #[trigger] final(self).lookup(s, tb) == match dt_data {
                    DtData::Ddl { ddl_data } => if s == ddl_data.schema@ {
                        None
                    } else {
                        old(self).lookup(s, tb)
                    },
                    _ => old(self).lookup(s, tb),
                },
    {
        match dt_data {
            DtData::Ddl { ddl_data } => {
                self.invalidate(&ddl_data.schema);
            },
            _ => {},
        }
    }
}

} // verus!
