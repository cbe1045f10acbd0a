use vstd::prelude::*;
use std::marker::PhantomData;
use crate::error::{BuilderError, Error, RequiredProperties};
use crate::id::IdAllocator;
use crate::logs::{
    Level, Log, SimpleLog, hydratable_rows, hydrate_rows, level_token, logs_match_rows,
    serialize_level,
};
use crate::model::{LogModel, RawRow, RowV, rows_view};
use crate::query::{FilterV, describes_filter, filter_rows, select_rows};
use crate::source::Source;

verus! {

/// A page request; `page` is 1-based.
#[derive(Clone, Copy, Debug, PartialEq, Eq, Structural)]
pub enum Pagination {
    Page { page: usize, page_size: usize },
}

/// A page request asks for a positive page and a positive page size; the
/// absence of pagination means "no limit or offset".
pub open spec fn pagination_valid(p: Option<Pagination>) -> bool {
    p matches Some(Pagination::Page { page, page_size }) ==> page >= 1 && page_size >= 1
}

/// The window of `rows` a page request selects: everything when absent, else
/// rows `[(page-1)*page_size, (page-1)*page_size + page_size)`, clipped to
/// the end.
pub open spec fn page_slice(rows: Seq<RowV>, p: Option<Pagination>) -> Seq<RowV> {
    match p {
        None => rows,
        Some(Pagination::Page { page, page_size }) => {
            let len = rows.len() as int;
            let start = (page - 1) * page_size;
            let end = start + page_size;
            rows.subrange(
                if start > len {
                    len
                } else {
                    start
                },
                if end > len {
                    len
                } else {
                    end
                },
            )
        },
    }
}

/// Apply a page request to a batch of rows.
fn page_of(rows: Vec<LogModel>, pagination: Option<Pagination>) -> (r: Vec<LogModel>)
    requires
        pagination_valid(pagination),
    ensures
        rows_view(r@) == page_slice(rows_view(rows@), pagination),
{
    match pagination {
        None => {
            proof {
                assert(rows_view(rows@) =~= page_slice(rows_view(rows@), pagination));
            }
            rows
        },
        Some(Pagination::Page { page, page_size }) => {
            let len = rows.len();
            let start: usize = match (page - 1).checked_mul(page_size) {
                Some(s) => if s > len {
                    len
                } else {
                    s
                },
                None => len,
            };
            let end: usize = if page_size > len - start {
                len
            } else {
                start + page_size
            };
            let mut out: Vec<LogModel> = Vec::new();
            let mut i: usize = start;
            proof {
                assert(rows_view(out@) =~= rows_view(rows@).subrange(start as int, start as int));
            }
            while i < end
                invariant
                    start <= i <= end <= len,
                    len == rows@.len(),
                    rows_view(out@) == rows_view(rows@).subrange(start as int, i as int),
                decreases end - i,
            {
                let row_copy = rows[i].duplicate();
                let ghost old_out = out@;
                out.push(row_copy);
                proof {
                    assert(rows_view(out@) =~= rows_view(old_out).push(rows@[i as int]@));
                    assert(rows_view(rows@).subrange(start as int, i as int + 1) =~= rows_view(
                        rows@,
                    ).subrange(start as int, i as int).push(rows@[i as int]@));
                }
                i += 1;
            }
            proof {
                assert(rows_view(out@) =~= page_slice(rows_view(rows@), pagination));
            }
            out
        },
    }
}

/// The persisted rows carry ids inside the 32-bit range, strictly increasing
/// in storage order: the monotonic-id invariant the store must satisfy.
pub open spec fn raw_rows_valid(rows: Seq<RawRow>) -> bool {
    &&& forall|i: int| 0 <= i < rows.len() ==> 0 <= #[trigger] rows[i].id <= u32::MAX
    &&& forall|i: int, j: int|
        0 <= i < j < rows.len() ==> #[trigger] rows[i].id < #[trigger] rows[j].id
}

/// Strictly increasing adjacent ids make all pairs strictly increasing.
proof fn lemma_adjacent_sorted(rows: Seq<RawRow>, i: int, j: int)
    requires
        forall|k: int| 0 < k < rows.len() ==> #[trigger] rows[k - 1].id < rows[k].id,
        0 <= i < j < rows.len(),
    ensures
        rows[i].id < rows[j].id,
    decreases j - i,
{
    if i + 1 < j {
        lemma_adjacent_sorted(rows, i + 1, j);
        assert(rows[i + 1 - 1].id < rows[i + 1].id);
    } else {
        assert(rows[j - 1].id < rows[j].id);
    }
}

/// Strictly increasing adjacent ids make all pairs of stored ids strictly
/// increasing.
proof fn lemma_adjacent_sorted_models(rows: Seq<LogModel>, i: int, j: int)
    requires
        forall|k: int| 0 < k < rows.len() ==> #[trigger] rows[k - 1].id < rows[k].id,
        0 <= i < j < rows.len(),
    ensures
        rows[i].id < rows[j].id,
    decreases j - i,
{
    if i + 1 < j {
        lemma_adjacent_sorted_models(rows, i + 1, j);
        assert(rows[i + 1 - 1].id < rows[i + 1].id);
    } else {
        assert(rows[j - 1].id < rows[j].id);
    }
}

/// `store` holds exactly the persisted rows, row for row, with every column
/// carried over unchanged.
pub open spec fn store_holds_raw(store: Seq<LogModel>, raws: Seq<RawRow>) -> bool {
    &&& store.len() == raws.len()
    &&& forall|i: int|
        0 <= i < raws.len() ==> {
            let r = #[trigger] store[i]@;
            &&& r.id as i64 == raws[i].id
            &&& r.source == raws[i].source@
            &&& r.timestamp == raws[i].timestamp@
            &&& r.level == raws[i].level@
            &&& r.location == raws[i].location@
            &&& r.content == raws[i].content@
        }
}

/// Validates and assembles `LogManager` construction parameters. The backing
/// store's location is the one required property; the stop flag is optional
/// and defaults to "not stopped".
#[derive(Debug)]
pub struct Builder {
    pub database_url: Option<String>,
    pub stop: Option<bool>,
}

impl Default for Builder {
    /// An empty builder: nothing supplied yet.
    fn default() -> (r: Builder)
        ensures
            r.database_url is None,
            r.stop is None,
    {
        Builder { database_url: None, stop: None }
    }
}

impl Builder {
    /// Supply an initial value for the stop flag.
    pub fn stop(self, stop: bool) -> (r: Builder)
        ensures
            r.stop == Some(stop),
            r.database_url == self.database_url,
    {
        Builder { stop: Some(stop), ..self }
    }

    /// Supply the backing store's location, the one required property.
    pub fn database_url(self, database_url: String) -> (r: Builder)
        ensures
            r.database_url == Some(database_url),
            r.stop == self.stop,
    {
        Builder { database_url: Some(database_url), ..self }
    }

    /// Validate and construct. Every missing required property is collected
    /// and reported at once. The persisted rows the store already holds are
    /// checked against the monotonic-id invariant — a fatal
    /// `InvalidPersistedId` when corrupt — and the id allocator is seeded
    /// with `max(id) + 1` (`1` when the store is empty).
    pub fn build<S: Source>(self, initial_rows: Vec<RawRow>) -> (r: Result<LogManager<S>, Error>)
        ensures
            self.database_url is None ==> (r matches Err(e) && e matches Error::Builder(b)
                && b matches BuilderError::MissingProperties(ps) && ps@ =~= seq![
                RequiredProperties::DatabaseUrl,
            ]),
            self.database_url is Some && !raw_rows_valid(initial_rows@) ==> (r matches Err(e)
                && e matches Error::InvalidPersistedId(_)),
            self.database_url is Some && raw_rows_valid(initial_rows@) ==> (r matches Ok(m) && {
                &&& m.wf()
                &&& m.database_url@ == self.database_url->0@
                &&& m.stopped == (if self.stop is Some {
                    self.stop->0
                } else {
                    false
                })
                &&& store_holds_raw(m.store@, initial_rows@)
                &&& m.allocator.next == (if initial_rows@.len() == 0 {
                    1int
                } else {
                    initial_rows@.last().id + 1
                })
            }),
    {
        let mut missing: Vec<RequiredProperties> = Vec::new();
        if self.database_url.is_none() {
            missing.push(RequiredProperties::DatabaseUrl);
        }
        if missing.len() > 0 {
            return Err(Error::Builder(BuilderError::MissingProperties(missing)));
        }
        let database_url = match self.database_url {
            Some(u) => u,
            None => {
                proof {
                    assert(false);
                }
                return Err(Error::Builder(BuilderError::MissingProperties(missing)));
            },
        };
        let stopped = match self.stop {
            Some(b) => b,
            None => false,
        };
        let n = initial_rows.len();
        let mut store: Vec<LogModel> = Vec::new();
        let mut prev_id: u32 = 0;
        let mut i: usize = 0;
        while i < n
            invariant
                i <= n,
                n == initial_rows@.len(),
                self.database_url is Some,
                database_url@ == self.database_url->0@,
                stopped == (if self.stop is Some {
                    self.stop->0
                } else {
                    false
                }),
                store_holds_raw(store@, initial_rows@.subrange(0, i as int)),
                i > 0 ==> prev_id as i64 == initial_rows@[i as int - 1].id,
                forall|k: int| 0 <= k < i ==> 0 <= #[trigger] initial_rows@[k].id <= u32::MAX,
                forall|k: int|
                    0 < k < i ==> #[trigger] initial_rows@[k - 1].id < initial_rows@[k].id,
            decreases n - i,
        {
            let row = &initial_rows[i];
            if row.id < 0 || row.id > u32::MAX as i64 {
                proof {
                    assert(!(0 <= initial_rows@[i as int].id <= u32::MAX));
                }
                return Err(Error::InvalidPersistedId(row.id));
            }
            let id = row.id as u32;
            if i > 0 && id <= prev_id {
                proof {
                    assert(initial_rows@[i as int - 1].id >= initial_rows@[i as int].id);
                }
                return Err(Error::InvalidPersistedId(row.id));
            }
            store.push(
                LogModel {
                    id,
                    source: row.source.clone(),
                    timestamp: row.timestamp.clone(),
                    level: row.level.clone(),
                    location: row.location.clone(),
                    content: row.content.clone(),
                },
            );
            prev_id = id;
            i += 1;
        }
        proof {
            assert(initial_rows@.subrange(0, n as int) =~= initial_rows@);
            assert forall|a: int, b: int| 0 <= a < b < n implies #[trigger] initial_rows@[a].id
                < #[trigger] initial_rows@[b].id by {
                lemma_adjacent_sorted(initial_rows@, a, b);
            }
        }
        let allocator = if store.len() == 0 {
            IdAllocator::bootstrap(0)
        } else {
            let last = store[store.len() - 1].id;
            proof {
                assert(store_holds_raw(store@, initial_rows@));
                assert(store@[n as int - 1]@.id as i64 == initial_rows@[n as int - 1].id);
                assert forall|k: int| 0 <= k < n implies #[trigger] initial_rows@[k].id
                    <= initial_rows@[n - 1].id by {
                    if k < n - 1 {
                        lemma_adjacent_sorted(initial_rows@, k, n - 1);
                    }
                }
            }
            IdAllocator::bootstrap(last)
        };
        let manager = LogManager {
            database_url,
            stopped,
            allocator,
            store,
            _phantom: PhantomData,
        };
        proof {
            assert forall|a: int, b: int|
                0 <= a < b < manager.store@.len() implies #[trigger] manager.store@[a].id
                < #[trigger] manager.store@[b].id by {
                assert(manager.store@[a]@.id as i64 == initial_rows@[a].id);
                assert(manager.store@[b]@.id as i64 == initial_rows@[b].id);
            }
            assert forall|a: int|
                0 <= a < manager.store@.len() implies (#[trigger] manager.store@[a].id as u64)
                < manager.allocator.next by {
                assert(manager.store@[a]@.id as i64 == initial_rows@[a].id);
                if a < manager.store@.len() - 1 {
                    lemma_adjacent_sorted(initial_rows@, a, n - 1);
                }
                assert(manager.store@[n - 1]@.id as i64 == initial_rows@[n - 1].id);
            }
            assert(manager.database_url@ == self.database_url->0@);
            assert(manager.stopped == (if self.stop is Some {
                self.stop->0
            } else {
                false
            }));
            assert(store_holds_raw(manager.store@, initial_rows@));
            assert(manager.allocator.next == (if initial_rows@.len() == 0 {
                1int
            } else {
                initial_rows@.last().id + 1
            }));
        }
        Ok(manager)
    }
}

/// The conjunctive filter a search builds: serialized-source equality when a
/// source is given, level-token membership when `levels` is non-empty, and a
/// literal content substring when a search text is given.
pub open spec fn search_filter<S: Source>(
    source: Option<S>,
    levels: Seq<Level>,
    content: Option<&str>,
) -> FilterV {
    FilterV {
        source: match source {
            Some(s) => Some(s.canon()),
            None => None,
        },
        levels: levels.map_values(|l: Level| level_token(l)),
        content: match content {
            Some(c) => Some(c@),
            None => None,
        },
    }
}

/// The log store: identity allocation, the save path, and the
/// search/filter/pagination/count pipeline over the backing log table.
pub struct LogManager<S: Source> {
    /// Location of the backing store; read-only shared state after
    /// construction.
    pub database_url: String,
    /// Cooperative shutdown signal; advisory only.
    pub stopped: bool,
    /// The identity allocator, seeded once at construction.
    pub allocator: IdAllocator,
    /// The backing log table, in id order.
    pub store: Vec<LogModel>,
    pub _phantom: PhantomData<S>,
}

impl<S: Source> LogManager<S> {
    /// Well-formedness: stored ids are strictly increasing in storage order
    /// (hence unique), and every identity the allocator will ever hand out
    /// strictly exceeds every stored id.
    pub open spec fn wf(self) -> bool {
        &&& forall|i: int, j: int|
            0 <= i < j < self.store@.len() ==> #[trigger] self.store@[i].id
                < #[trigger] self.store@[j].id
        &&& forall|i: int|
            0 <= i < self.store@.len() ==> (#[trigger] self.store@[i].id as u64)
                < self.allocator.next
        &&& self.allocator.next >= 1
    }

    /// Decide well-formedness at run time, for callers that must test it
    /// before trusting a manager value that crossed an unverified boundary.
    pub fn is_well_formed(&self) -> (r: bool)
        ensures
            r == self.wf(),
    {
        if self.allocator.next < 1 {
            return false;
        }
        let n = self.store.len();
        let mut i: usize = 0;
        while i < n
            invariant
                i <= n,
                n == self.store@.len(),
                self.allocator.next >= 1,
                forall|k: int|
                    0 < k < i ==> #[trigger] self.store@[k - 1].id < self.store@[k].id,
                forall|k: int|
                    0 <= k < i ==> (#[trigger] self.store@[k].id as u64) < self.allocator.next,
            decreases n - i,
        {
            if (self.store[i].id as u64) >= self.allocator.next {
                return false;
            }
            if i > 0 && self.store[i - 1].id >= self.store[i].id {
                return false;
            }
            i += 1;
        }
        proof {
            assert forall|a: int, b: int|
                0 <= a < b < self.store@.len() implies #[trigger] self.store@[a].id
                < #[trigger] self.store@[b].id by {
                lemma_adjacent_sorted_models(self.store@, a, b);
            }
        }
        true
    }

    /// In a well-formed store, the id at position `i` is at least `i`.
    proof fn lemma_id_ge_index(self, i: int)
        requires
            self.wf(),
            0 <= i < self.store@.len(),
        ensures
            self.store@[i].id >= i,
        decreases i,
    {
        if i > 0 {
            self.lemma_id_ge_index(i - 1);
        }
    }

    /// Strictly increasing 32-bit ids bound the size of the table.
    pub proof fn lemma_store_len_bound(self)
        requires
            self.wf(),
        ensures
            self.store@.len() <= u32::MAX + 1,
    {
        if self.store@.len() > u32::MAX + 1 {
            self.lemma_id_ge_index(u32::MAX + 1);
        }
    }

    /// Id monotonicity: ids were assigned in strictly increasing storage
    /// order, and every identity still to be handed out exceeds them all.
    pub proof fn lemma_id_monotonicity(self)
        requires
            self.wf(),
        ensures
            forall|i: int, j: int|
                0 <= i < j < self.store@.len() ==> #[trigger] self.store@[i].id
                    < #[trigger] self.store@[j].id,
            forall|i: int|
                0 <= i < self.store@.len() ==> (#[trigger] self.store@[i].id as u64)
                    < self.allocator.next,
    {
    }

    /// Persist one entry tagged with `source`: allocate the next identity,
    /// serialize every field to its canonical form, and append the row.
    /// Returns the number of rows affected. Fails only when the id space is
    /// exhausted; an id allocated here is burned even if the row is never
    /// durable elsewhere.
    pub fn save_log(&mut self, log: SimpleLog, source: S) -> (r: Result<usize, Error>)
        requires
            old(self).wf(),
        ensures
            final(self).wf(),
            final(self).database_url@ == old(self).database_url@,
            final(self).stopped == old(self).stopped,
            old(self).allocator.next <= u32::MAX ==> (r matches Ok(n) && n == 1 && rows_view(
                final(self).store@,
            ) == rows_view(old(self).store@).push(
                RowV {
                    id: old(self).allocator.next as u32,
                    source: source.canon(),
                    timestamp: log.timestamp@,
                    level: level_token(log.level),
                    location: log.location@,
                    content: log.content@,
                },
            ) && final(self).allocator.next == old(self).allocator.next + 1),
            old(self).allocator.next > u32::MAX ==> (r matches Err(e) && e matches
                Error::IdSpaceExhausted && final(self).store@ == old(self).store@
                && final(self).allocator.next == old(self).allocator.next),
    {
        let id = match self.allocator.allocate() {
            Some(id) => id,
            None => {
                return Err(Error::IdSpaceExhausted);
            },
        };
        let row = LogModel::from(log, &source, id);
        let ghost old_store = self.store@;
        self.store.push(row);
        proof {
            assert(rows_view(self.store@) =~= rows_view(old_store).push(
                RowV {
                    id: old(self).allocator.next as u32,
                    source: source.canon(),
                    timestamp: log.timestamp@,
                    level: level_token(log.level),
                    location: log.location@,
                    content: log.content@,
                },
            ));
        }
        Ok(1)
    }

    /// Filtered, paginated search with the hydration diagnostic exposed:
    /// returns the total count of matching rows (independent of pagination
    /// and of hydration failures), the hydrated page, and — when some
    /// matched rows failed to hydrate — one aggregate error carrying every
    /// per-row failure.
    pub fn search_with_diagnostics(
        &self,
        source: Option<S>,
        pagination: Option<Pagination>,
        content_search: Option<&str>,
        levels: &[Level],
    ) -> (r: (i64, Vec<Log<S>>, Option<Error>))
        requires
            self.wf(),
            pagination_valid(pagination),
        ensures
            ({
                let f = search_filter(source, levels@, content_search);
                let all = filter_rows(rows_view(self.store@), f);
                let page = page_slice(all, pagination);
                &&& r.0 == all.len()
                &&& logs_match_rows(r.1@, hydratable_rows::<S>(page))
                &&& (r.2 is None <==> r.1@.len() == page.len())
                &&& (r.2 matches Some(e) ==> e matches Error::Errors(es) && es@.len() + r.1@.len()
                    == page.len())
            }),
    {
        let ghost f = search_filter::<S>(source, levels@, content_search);
        let source_canon: Option<String> = match &source {
            Some(s) => Some(s.serialize_source()),
            None => None,
        };
        let mut level_tokens: Vec<String> = Vec::new();
        let nl = levels.len();
        let mut i: usize = 0;
        while i < nl
            invariant
                i <= nl,
                nl == levels@.len(),
                level_tokens@.len() == i,
                forall|k: int|
                    0 <= k < i ==> #[trigger] level_tokens@[k]@ == level_token(levels@[k]),
            decreases nl - i,
        {
            level_tokens.push(serialize_level(levels[i]));
            i += 1;
        }
        let source_canon_ref: Option<&String> = match &source_canon {
            Some(s) => Some(s),
            None => None,
        };
        proof {
            assert(f.levels =~= level_tokens@.map_values(|t: String| t@));
            assert(describes_filter(source_canon_ref, level_tokens@, content_search, f));
        }
        let matched = select_rows(
            &self.store,
            source_canon_ref,
            &level_tokens,
            content_search,
            Ghost(f),
        );
        proof {
            self.lemma_store_len_bound();
            rows_view(self.store@).lemma_filter_len(|r: RowV| crate::query::row_matches(r, f));
        }
        let total = matched.len() as i64;
        let paged = page_of(matched, pagination);
        let (logs, errs) = hydrate_rows::<S>(&paged);
        let diag: Option<Error> = if errs.len() > 0 {
            Some(Error::Errors(errs))
        } else {
            None
        };
        (total, logs, diag)
    }

    /// Filtered, paginated search. The filter is conjunctive: serialized
    /// source equality when `source` is given, level membership when
    /// `levels` is non-empty, literal content substring when given.
    /// `total_count` counts every matching row, unaffected by pagination and
    /// by hydration failures; matched rows that fail to hydrate are dropped
    /// from the returned page rather than failing the call.
    pub fn search(
        &self,
        source: Option<S>,
        pagination: Option<Pagination>,
        content_search: Option<&str>,
        levels: &[Level],
    ) -> (r: Result<(i64, Vec<Log<S>>), Error>)
        requires
            self.wf(),
            pagination_valid(pagination),
        ensures
            r matches Ok(p) && ({
                let f = search_filter(source, levels@, content_search);
                let all = filter_rows(rows_view(self.store@), f);
                let page = page_slice(all, pagination);
                &&& p.0 == all.len()
                &&& logs_match_rows(p.1@, hydratable_rows::<S>(page))
            }),
    {
        let (total, logs, _diag) = self.search_with_diagnostics(
            source,
            pagination,
            content_search,
            levels,
        );
        Ok((total, logs))
    }

    /// Cooperative shutdown: set the shared stop flag. It closes no
    /// connection and cancels no in-flight operation.
    pub fn stop(&mut self)
        ensures
            final(self).stopped,
            final(self).database_url@ == old(self).database_url@,
            final(self).allocator == old(self).allocator,
            final(self).store@ == old(self).store@,
    {
        self.stopped = true;
    }
}

} // verus!
