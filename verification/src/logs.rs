use vstd::prelude::*;
use crate::error::Error;
use crate::model::{LogModel, RowV, rows_view};
use crate::source::{Source, source_parses};

verus! {

/// Severity of a log entry, ordered `Trace < Debug < Info < Warn < Error`.
#[derive(Clone, Copy, Debug, PartialEq, Eq, Structural)]
pub enum Level {
    Trace,
    Debug,
    Info,
    Warn,
    Error,
}

impl Level {
    /// Numeric rank of this level in the severity order.
    pub open spec fn severity_spec(self) -> nat {
        match self {
            Level::Trace => 0,
            Level::Debug => 1,
            Level::Info => 2,
            Level::Warn => 3,
            Level::Error => 4,
        }
    }

    /// Numeric rank of this level in the severity order.
    pub fn severity(self) -> (r: u32)
        ensures
            r == self.severity_spec(),
    {
        match self {
            Level::Trace => 0,
            Level::Debug => 1,
            Level::Info => 2,
            Level::Warn => 3,
            Level::Error => 4,
        }
    }
}

/// The human-readable name of each level; `Warn` reads `Warning`.
pub open spec fn level_display(l: Level) -> Seq<char> {
    match l {
        Level::Trace => "Trace"@,
        Level::Debug => "Debug"@,
        Level::Info => "Info"@,
        Level::Warn => "Warning"@,
        Level::Error => "Error"@,
    }
}

impl Level {
    /// Human-readable name of this level.
    pub fn display_name(self) -> (r: String)
        ensures
            r@ == level_display(self),
    {
        match self {
            Level::Trace => "Trace".to_owned(),
            Level::Debug => "Debug".to_owned(),
            Level::Info => "Info".to_owned(),
            Level::Warn => "Warning".to_owned(),
            Level::Error => "Error".to_owned(),
        }
    }
}

/// The canonical token each level serializes to.
pub open spec fn level_token(l: Level) -> Seq<char> {
    match l {
        Level::Trace => "Trace"@,
        Level::Debug => "Debug"@,
        Level::Info => "Info"@,
        Level::Warn => "Warn"@,
        Level::Error => "Error"@,
    }
}

/// The level whose canonical token is `s`, if any.
pub open spec fn parse_level_spec(s: Seq<char>) -> Option<Level> {
    if s == level_token(Level::Trace) {
        Some(Level::Trace)
    } else if s == level_token(Level::Debug) {
        Some(Level::Debug)
    } else if s == level_token(Level::Info) {
        Some(Level::Info)
    } else if s == level_token(Level::Warn) {
        Some(Level::Warn)
    } else if s == level_token(Level::Error) {
        Some(Level::Error)
    } else {
        None
    }
}

/// The five canonical tokens name five distinct strings.
pub proof fn lemma_level_tokens_distinct(l1: Level, l2: Level)
    requires
        level_token(l1) == level_token(l2),
    ensures
        l1 == l2,
{
    reveal_strlit("Trace");
    reveal_strlit("Debug");
    reveal_strlit("Info");
    reveal_strlit("Warn");
    reveal_strlit("Error");
    assert("Trace"@[0] == 'T');
    assert("Debug"@[0] == 'D');
    assert("Info"@[0] == 'I');
    assert("Warn"@[0] == 'W');
    assert("Error"@[0] == 'E');
}

/// Serializing a level and parsing the token back yields the same level.
pub proof fn lemma_level_round_trip(l: Level)
    ensures
        parse_level_spec(level_token(l)) == Some(l),
{
    if level_token(l) == level_token(Level::Trace) {
        lemma_level_tokens_distinct(l, Level::Trace);
    } else if level_token(l) == level_token(Level::Debug) {
        lemma_level_tokens_distinct(l, Level::Debug);
    } else if level_token(l) == level_token(Level::Info) {
        lemma_level_tokens_distinct(l, Level::Info);
    } else if level_token(l) == level_token(Level::Warn) {
        lemma_level_tokens_distinct(l, Level::Warn);
    } else if level_token(l) == level_token(Level::Error) {
        lemma_level_tokens_distinct(l, Level::Error);
    }
}

/// Canonical serialization of a level: one of the five fixed tokens.
pub fn serialize_level(l: Level) -> (r: String)
    ensures
        r@ == level_token(l),
{
    match l {
        Level::Trace => "Trace".to_owned(),
        Level::Debug => "Debug".to_owned(),
        Level::Info => "Info".to_owned(),
        Level::Warn => "Warn".to_owned(),
        Level::Error => "Error".to_owned(),
    }
}

/// Parse a canonical level token; `None` when `s` is not one of the five tokens.
pub fn deserialize_level(s: &str) -> (r: Option<Level>)
    ensures
        r == parse_level_spec(s@),
{
    if crate::strings::str_eq(s, "Trace") {
        Some(Level::Trace)
    } else if crate::strings::str_eq(s, "Debug") {
        Some(Level::Debug)
    } else if crate::strings::str_eq(s, "Info") {
        Some(Level::Info)
    } else if crate::strings::str_eq(s, "Warn") {
        Some(Level::Warn)
    } else if crate::strings::str_eq(s, "Error") {
        Some(Level::Error)
    } else {
        None
    }
}

/// A caller-facing log entry before a source or an id is attached.
#[derive(Debug)]
pub struct SimpleLog {
    /// RFC 3339 timestamp text.
    pub timestamp: String,
    pub level: Level,
    pub location: String,
    pub content: String,
}

impl SimpleLog {
    /// A log entry stamped with the current time. `None` when the system
    /// clock cannot be read or stamped (before the Unix epoch, or outside
    /// the representable range).
    pub fn generate_log(level: Level, location: String, content: String) -> (r: Option<SimpleLog>)
        ensures
            r matches Some(l) ==> l.level == level && l.location@ == location@ && l.content@
                == content@,
    {
        match crate::time::now_rfc3339() {
            Some(ts) => Some(SimpleLog { timestamp: ts, level, location, content }),
            None => None,
        }
    }

    /// A log entry stamped with the current time shifted by `offset_seconds`.
    /// `None` when the system clock cannot be read, or the shift or the
    /// shifted time falls outside the representable range.
    pub fn generate_log_with_offset(
        level: Level,
        location: String,
        content: String,
        offset_seconds: i64,
    ) -> (r: Option<SimpleLog>)
        ensures
            r matches Some(l) ==> l.level == level && l.location@ == location@ && l.content@
                == content@,
    {
        match crate::time::now_with_offset_rfc3339(offset_seconds) {
            Some(ts) => Some(SimpleLog { timestamp: ts, level, location, content }),
            None => None,
        }
    }
}

/// A hydrated log entry as returned by a search: the stored row with its
/// source deserialized back into the caller's type.
#[derive(Debug)]
pub struct Log<S> {
    pub id: u32,
    pub source: S,
    /// RFC 3339 timestamp text.
    pub timestamp: String,
    pub level: Level,
    pub location: String,
    pub content: String,
}

impl<S> Log<S> {
    /// The identity the manager assigned to this entry when it was saved.
    pub fn id(&self) -> (r: u32)
        ensures
            r == self.id,
    {
        self.id
    }

    /// The deserialized source value this entry was saved with.
    pub fn source(&self) -> (r: &S)
        ensures
            r == &self.source,
    {
        &self.source
    }

    /// The severity this entry was saved with.
    pub fn level(&self) -> (r: Level)
        ensures
            r == self.level,
    {
        self.level
    }

    /// Drop the id and the source, keeping the caller-facing fields.
    pub fn into_simple_log(self) -> (r: SimpleLog)
        ensures
            r.timestamp == self.timestamp,
            r.level == self.level,
            r.location == self.location,
            r.content == self.content,
    {
        SimpleLog {
            timestamp: self.timestamp,
            level: self.level,
            location: self.location,
            content: self.content,
        }
    }
}

/// A stored row can be hydrated back into a `Log<S>`.
pub open spec fn row_hydrates<S: Source>(r: RowV) -> bool {
    parse_level_spec(r.level) is Some && source_parses::<S>(r.source)
}

/// `l` is the hydrated form of the stored row `r`.
pub open spec fn hydrated<S: Source>(l: Log<S>, r: RowV) -> bool {
    &&& l.id == r.id
    &&& l.source.canon() == r.source
    &&& l.timestamp@ == r.timestamp
    &&& Some(l.level) == parse_level_spec(r.level)
    &&& l.location@ == r.location
    &&& l.content@ == r.content
}

/// The hydratable rows among `rows`, in order.
pub open spec fn hydratable_rows<S: Source>(rows: Seq<RowV>) -> Seq<RowV> {
    rows.filter(|r: RowV| row_hydrates::<S>(r))
}

/// `logs` hydrates `rows`, row for row and in order.
pub open spec fn logs_match_rows<S: Source>(logs: Seq<Log<S>>, rows: Seq<RowV>) -> bool {
    &&& logs.len() == rows.len()
    &&& forall|i: int| 0 <= i < rows.len() ==> hydrated(#[trigger] logs[i], rows[i])
}

impl<S: Source> Log<S> {
    /// Hydrate a stored row. Fails with an error naming the first field whose
    /// column is not a canonical serialized form.
    pub fn from(value: LogModel) -> (r: Result<Log<S>, Error>)
        ensures
            r matches Ok(l) ==> row_hydrates::<S>(value@) && hydrated(l, value@),
            r is Err ==> !row_hydrates::<S>(value@),
            !source_parses::<S>(value@.source) ==> (r matches Err(e) && e matches
                Error::DeserializingField(f, _) && f@ == "source"@),
            source_parses::<S>(value@.source) && parse_level_spec(value@.level) is None ==> (
            r matches Err(e) && e matches Error::DeserializingField(f, _) && f@ == "level"@),
    {
        let source: S = match S::deserialize_source(value.source.as_str()) {
            Some(s) => s,
            None => {
                return Err(
                    Error::DeserializingField(
                        "source".to_owned(),
                        "not a canonical source encoding".to_owned(),
                    ),
                );
            },
        };
        let level: Level = match deserialize_level(value.level.as_str()) {
            Some(l) => l,
            None => {
                return Err(
                    Error::DeserializingField(
                        "level".to_owned(),
                        "not a level token".to_owned(),
                    ),
                );
            },
        };
        Ok(
            Log {
                id: value.id,
                source,
                timestamp: value.timestamp,
                level,
                location: value.location,
                content: value.content,
            },
        )
    }
}

/// Hydrate each row of a batch independently: rows that fail to deserialize
/// are dropped and their errors collected, so a corrupt row never aborts the
/// whole batch.
pub fn hydrate_rows<S: Source>(rows: &Vec<LogModel>) -> (r: (Vec<Log<S>>, Vec<Error>))
    ensures
        logs_match_rows(r.0@, hydratable_rows::<S>(rows_view(rows@))),
        r.0@.len() + r.1@.len() == rows@.len(),
        r.0@.len() == hydratable_rows::<S>(rows_view(rows@)).len(),
{
    broadcast use vstd::seq_lib::group_filter_ensures, Seq::lemma_filter_push;

    let mut logs: Vec<Log<S>> = Vec::new();
    let mut errs: Vec<Error> = Vec::new();
    let n = rows.len();
    let mut i: usize = 0;
    proof {
        assert(rows_view(rows@.subrange(0, 0)) =~= Seq::<RowV>::empty());
        assert(hydratable_rows::<S>(Seq::<RowV>::empty()).len() <= 0);
    }
    while i < n
        invariant
            i <= n,
            n == rows@.len(),
            logs_match_rows(logs@, hydratable_rows::<S>(rows_view(rows@.subrange(0, i as int)))),
            logs@.len() + errs@.len() == i,
        decreases n - i,
    {
        let ghost prefix = rows@.subrange(0, i as int);
        let ghost prefix1 = rows@.subrange(0, i as int + 1);
        let ghost x = rows@[i as int]@;
        let ghost h_old = hydratable_rows::<S>(rows_view(prefix));
        let ghost h_new = hydratable_rows::<S>(rows_view(prefix1));
        let ghost old_logs = logs@;
        proof {
            assert(prefix1 =~= prefix.push(rows@[i as int]));
            assert(rows_view(prefix1) =~= rows_view(prefix).push(x));
            rows_view(prefix).lemma_filter_push(x, |r: RowV| row_hydrates::<S>(r));
            assert(hydratable_rows::<S>(rows_view(prefix).push(x)) == (if row_hydrates::<S>(x) {
                h_old.push(x)
            } else {
                h_old
            }));
        }
        match Log::<S>::from(rows[i].duplicate()) {
            Ok(l) => {
                logs.push(l);
                proof {
                    assert(h_new == h_old.push(x));
                    assert forall|k: int| 0 <= k < h_new.len() implies hydrated(
                        #[trigger] logs@[k],
                        h_new[k],
                    ) by {
                        if k < h_old.len() {
                            assert(hydrated(old_logs[k], h_old[k]));
                        }
                    }
                }
            },
            Err(e) => {
                errs.push(e);
                proof {
                    assert(h_new == h_old);
                }
            },
        }
        i += 1;
    }
    proof {
        assert(rows@.subrange(0, n as int) =~= rows@);
    }
    (logs, errs)
}

} // verus!
