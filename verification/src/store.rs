//! What the service asks of the document store, and what the store can
//! answer. The store itself is reached by the program around this crate.

use crate::model::{Log, LogView};
use crate::object_id::BinaryId;
use vstd::prelude::*;

verus! {

/// The database that holds the service's collection.
pub const MONGO_DB: &'static str = "iotPlantDB";

/// The collection of log entries.
pub const MONGO_COLL_LOGS: &'static str = "logs";

/// The field that holds an entry's identifier.
pub const FIELD_ID: &'static str = "_id";

/// The field that holds an entry's device, in the store and on the wire.
pub const FIELD_DEVICE_ID: &'static str = "deviceId";

/// The field that holds an entry's message.
pub const FIELD_MESSAGE: &'static str = "message";

/// The field that holds an entry's timestamp.
pub const FIELD_TIMESTAMP: &'static str = "timestamp";

/// The view of an optional text.
pub open spec fn text_view(text: Option<String>) -> Option<Seq<char>> {
    match text {
        Some(t) => Some(t@),
        None => None,
    }
}

/// The view of an optional entry.
pub open spec fn entry_view(entry: Option<Log>) -> Option<LogView> {
    match entry {
        Some(e) => Some(e@),
        None => None,
    }
}

/// One operation on the collection of log entries.
#[derive(Clone, Debug, PartialEq, Eq)]
pub enum StoreCommand {
    /// Read the entries whose device is `device`, or all entries when no
    /// device is named, the highest identifier first.
    Find { device: Option<String> },
    /// Read the entry with this identifier, if there is one.
    FindOne { id: BinaryId },
    /// Add an entry with these fields; the store assigns its identifier.
    InsertOne { device_id: String, message: String, timestamp: i64 },
}

/// What a `StoreCommand` holds, as mathematical values.
pub enum StoreCommandView {
    Find { device: Option<Seq<char>> },
    FindOne { id: Seq<u8> },
    InsertOne { device_id: Seq<char>, message: Seq<char>, timestamp: i64 },
}

impl View for StoreCommand {
    type V = StoreCommandView;

    open spec fn view(&self) -> StoreCommandView {
        match *self {
            StoreCommand::Find { device } => StoreCommandView::Find { device: text_view(device) },
            StoreCommand::FindOne { id } => StoreCommandView::FindOne { id: id@ },
            StoreCommand::InsertOne { device_id, message, timestamp } => {
                StoreCommandView::InsertOne { device_id: device_id@, message: message@, timestamp }
            },
        }
    }
}

/// One thing the store reports while it carries out a command.
#[derive(Clone, Debug, PartialEq, Eq)]
pub enum StoreEvent {
    /// A `Find` came upon one more entry.
    Row(Log),
    /// A `Find` has no more entries.
    End,
    /// A `FindOne` completed, with the entry or without one.
    Found(Option<Log>),
    /// An `InsertOne` was acknowledged; the new entry has this identifier.
    Inserted(BinaryId),
    /// The store could not be reached or the command did not complete.
    Failed,
}

/// What a `StoreEvent` holds, as mathematical values.
pub enum StoreEventView {
    Row(LogView),
    End,
    Found(Option<LogView>),
    Inserted(Seq<u8>),
    Failed,
}

impl View for StoreEvent {
    type V = StoreEventView;

    open spec fn view(&self) -> StoreEventView {
        match *self {
            StoreEvent::Row(row) => StoreEventView::Row(row@),
            StoreEvent::End => StoreEventView::End,
            StoreEvent::Found(entry) => StoreEventView::Found(entry_view(entry)),
            StoreEvent::Inserted(id) => StoreEventView::Inserted(id@),
            StoreEvent::Failed => StoreEventView::Failed,
        }
    }
}

} // verus!
