use vstd::prelude::*;

verus! {

/// A construction property the caller must supply.
#[derive(Clone, Copy, Debug, PartialEq, Eq, Structural)]
pub enum RequiredProperties {
    DatabaseUrl,
}

/// Construction-time validation failure.
#[derive(Debug)]
pub enum BuilderError {
    /// Every required property missing from the builder, collected at once.
    MissingProperties(Vec<RequiredProperties>),
}

/// The error taxonomy of the log store.
#[derive(Debug)]
pub enum Error {
    /// The backing store could not be reached or opened.
    Connection(String),
    /// An insert, select or count failed at the storage layer.
    Storage(String),
    /// Applying pending schema migrations failed at construction.
    RunningMigrations(String),
    /// Serializing one field failed; the first component names the field.
    SerializingField(String, String),
    /// Deserializing one field failed; the first component names the field.
    DeserializingField(String, String),
    /// A persisted row carries an id outside the valid range, or ids out of
    /// order: the monotonic-id invariant of the store is corrupt.
    InvalidPersistedId(i64),
    /// The 32-bit id space is used up; no further identity can be assigned.
    IdSpaceExhausted,
    /// Construction-time validation failure.
    Builder(BuilderError),
    /// Several errors collected while hydrating one batch of rows.
    Errors(Vec<Error>),
}

} // verus!
