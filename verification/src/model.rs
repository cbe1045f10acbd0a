use vstd::prelude::*;
use crate::logs::{SimpleLog, level_token, serialize_level};
use crate::source::Source;

verus! {

/// A durable row of the log table: all non-id columns hold canonical
/// serialized strings, not native typed values.
#[derive(Debug)]
pub struct LogModel {
    pub id: u32,
    pub source: String,
    pub timestamp: String,
    pub level: String,
    pub location: String,
    pub content: String,
}

/// Mathematical view of a stored row.
#[verifier::ext_equal]
pub struct RowV {
    pub id: u32,
    pub source: Seq<char>,
    pub timestamp: Seq<char>,
    pub level: Seq<char>,
    pub location: Seq<char>,
    pub content: Seq<char>,
}

impl View for LogModel {
    type V = RowV;

    open spec fn view(&self) -> RowV {
        RowV {
            id: self.id,
            source: self.source@,
            timestamp: self.timestamp@,
            level: self.level@,
            location: self.location@,
            content: self.content@,
        }
    }
}

/// The views of the rows of `rows`, in order.
pub open spec fn rows_view(rows: Seq<LogModel>) -> Seq<RowV> {
    rows.map_values(|m: LogModel| m@)
}

impl LogModel {
    /// Build the durable row for `value` tagged with `source` under the
    /// identity `id`: every non-id column holds the field's canonical
    /// serialized form.
    pub fn from<S: Source>(value: SimpleLog, source: &S, id: u32) -> (r: LogModel)
        ensures
            r.id == id,
            r.source@ == source.canon(),
            r.timestamp@ == value.timestamp@,
            r.level@ == level_token(value.level),
            r.location@ == value.location@,
            r.content@ == value.content@,
    {
        LogModel {
            id,
            source: source.serialize_source(),
            timestamp: value.timestamp,
            level: serialize_level(value.level),
            location: value.location,
            content: value.content,
        }
    }

    /// An identical copy of this row.
    pub fn duplicate(&self) -> (r: LogModel)
        ensures
            r@ == self@,
    {
        let r = LogModel {
            id: self.id,
            source: self.source.clone(),
            timestamp: self.timestamp.clone(),
            level: self.level.clone(),
            location: self.location.clone(),
            content: self.content.clone(),
        };
        proof {
            assert(r@ =~= self@);
        }
        r
    }
}

/// A row as the external store reports it at bootstrap, before its id is
/// validated against the monotonic-id invariant.
#[derive(Debug)]
pub struct RawRow {
    pub id: i64,
    pub source: String,
    pub timestamp: String,
    pub level: String,
    pub location: String,
    pub content: String,
}

} // verus!
