//! What a store operation can fail with.
use vstd::prelude::*;

use crate::chars::{append_str, decimal, decimal_string, push_char};

verus! {

/// Why a store operation failed. The errors of the database, the JSON
/// reader and the file system arrive as their messages.
#[derive(Debug, Clone, PartialEq, Eq)]
pub enum StoreError {
    Sqlite(String),
    Json(String),
    Io(String),
    /// The vocabulary is fixed. An event type outside it means an agent emitted
    /// something nothing can read back, so it is rejected at the boundary
    /// rather than stored.
    UnknownEventType(String),
    ProjectionFieldMissing { event_type: String, field: &'static str },
    SchemaVersion { found: i32, expected: i32 },
    /// Migrations run with foreign keys off, because a table rebuild has to
    /// drop a parent table. This is the check that they went back on clean.
    MigrationBrokeReferences { version: i32, rows: i64 },
    /// The message is what the shell shows, so it says what happened and what
    /// is on offer rather than quoting SQLite at a person.
    Corrupt { detail: String },
    /// A write that named a card the store does not hold: the alternative is
    /// an `UPDATE` that matches nothing and reports success.
    CardMissing(String),
    BlobMissing(String),
    BlobCorrupt { expected: String, actual: String },
}

impl StoreError {
    /// The sentence a person is shown.
    pub open spec fn message_spec(&self) -> Seq<char> {
        match self {
            StoreError::Sqlite(d) => "sqlite: "@ + d@,
            StoreError::Json(d) => "json: "@ + d@,
            StoreError::Io(d) => "io: "@ + d@,
            StoreError::UnknownEventType(t) => "unknown event type `"@ + t@
                + "`; add it to EVENT_VOCABULARY before emitting it"@,
            StoreError::ProjectionFieldMissing { event_type, field } => "the projection for `"@
                + event_type@ + "` needs `"@ + field@ + "` in its payload"@,
            StoreError::SchemaVersion { found, expected } => "no migration path from schema version "@
                + decimal(*found as int) + " to "@ + decimal(*expected as int),
            StoreError::MigrationBrokeReferences { version, rows } =>
                "migration to schema version "@ + decimal(*version as int) + " left "@ + decimal(
                *rows as int,
            ) + " broken foreign key references"@,
            StoreError::Corrupt { detail } =>
                "this profile's database is damaged and cannot be opened: "@ + detail@,
            StoreError::CardMissing(id) => "card "@ + id@ + " is not in the store"@,
            StoreError::BlobMissing(id) => "blob "@ + id@ + " is not in the store"@,
            StoreError::BlobCorrupt { expected, actual } => "blob "@ + expected@
                + " does not hash to its content (got "@ + actual@ + seq![')'],
        }
    }

    pub fn message(&self) -> (m: String)
        ensures
            m@ == self.message_spec(),
    {
        let mut m = String::new();
        match self {
            StoreError::Sqlite(d) => {
                append_str(&mut m, "sqlite: ");
                append_str(&mut m, d.as_str());
            },
            StoreError::Json(d) => {
                append_str(&mut m, "json: ");
                append_str(&mut m, d.as_str());
            },
            StoreError::Io(d) => {
                append_str(&mut m, "io: ");
                append_str(&mut m, d.as_str());
            },
            StoreError::UnknownEventType(t) => {
                append_str(&mut m, "unknown event type `");
                append_str(&mut m, t.as_str());
                append_str(&mut m, "`; add it to EVENT_VOCABULARY before emitting it");
            },
            StoreError::ProjectionFieldMissing { event_type, field } => {
                append_str(&mut m, "the projection for `");
                append_str(&mut m, event_type.as_str());
                append_str(&mut m, "` needs `");
                append_str(&mut m, field);
                append_str(&mut m, "` in its payload");
            },
            StoreError::SchemaVersion { found, expected } => {
                append_str(&mut m, "no migration path from schema version ");
                append_str(&mut m, decimal_string(*found as i64).as_str());
                append_str(&mut m, " to ");
                append_str(&mut m, decimal_string(*expected as i64).as_str());
            },
            StoreError::MigrationBrokeReferences { version, rows } => {
                append_str(&mut m, "migration to schema version ");
                append_str(&mut m, decimal_string(*version as i64).as_str());
                append_str(&mut m, " left ");
                append_str(&mut m, decimal_string(*rows).as_str());
                append_str(&mut m, " broken foreign key references");
            },
            StoreError::Corrupt { detail } => {
                append_str(&mut m, "this profile's database is damaged and cannot be opened: ");
                append_str(&mut m, detail.as_str());
            },
            StoreError::CardMissing(id) => {
                append_str(&mut m, "card ");
                append_str(&mut m, id.as_str());
                append_str(&mut m, " is not in the store");
            },
            StoreError::BlobMissing(id) => {
                append_str(&mut m, "blob ");
                append_str(&mut m, id.as_str());
                append_str(&mut m, " is not in the store");
            },
            StoreError::BlobCorrupt { expected, actual } => {
                append_str(&mut m, "blob ");
                append_str(&mut m, expected.as_str());
                append_str(&mut m, " does not hash to its content (got ");
                append_str(&mut m, actual.as_str());
                push_char(&mut m, ')');
            },
        }
        m
    }
}

} // verus!
