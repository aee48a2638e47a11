//! The log entry, the one entity of the service, and the body of an insert.

use crate::object_id::{be_value, BinaryId};
use vstd::prelude::*;

verus! {

/// One stored log entry. Entries are created by an insert and never changed.
#[derive(Clone, Debug, PartialEq, Eq)]
pub struct Log {
    /// Assigned by the store at insert; unique, and larger for later inserts.
    pub id: BinaryId,
    /// The device the entry came from.
    pub device_id: String,
    /// What the device reported.
    pub message: String,
    /// When the service received the entry: milliseconds since 1970-01-01
    /// 00:00:00 UTC.
    pub timestamp: i64,
}

/// What a `Log` holds, as mathematical values.
pub struct LogView {
    pub id: Seq<u8>,
    pub device_id: Seq<char>,
    pub message: Seq<char>,
    pub timestamp: i64,
}

impl View for Log {
    type V = LogView;

    open spec fn view(&self) -> LogView {
        LogView {
            id: self.id@,
            device_id: self.device_id@,
            message: self.message@,
            timestamp: self.timestamp,
        }
    }
}

impl LogView {
    /// The number by which entries are ordered: that of the identifier.
    pub open spec fn rank(self) -> nat {
        be_value(self.id)
    }
}

/// The views of `rows`, in the same order.
pub open spec fn log_views(rows: Seq<Log>) -> Seq<LogView> {
    rows.map_values(|row: Log| row@)
}

/// The body of an insert request: the client names the device and gives the
/// message; identifier and timestamp are not the client's to choose.
#[derive(Clone, Debug, PartialEq, Eq)]
pub struct NewLog {
    pub device_id: String,
    pub message: String,
}

/// What a `NewLog` holds, as mathematical values.
pub struct NewLogView {
    pub device_id: Seq<char>,
    pub message: Seq<char>,
}

impl View for NewLog {
    type V = NewLogView;

    open spec fn view(&self) -> NewLogView {
        NewLogView { device_id: self.device_id@, message: self.message@ }
    }
}

impl NewLogView {
    /// True when both fields are there: neither is empty.
    pub open spec fn is_complete(self) -> bool {
        self.device_id.len() > 0 && self.message.len() > 0
    }
}

impl NewLog {
    /// True when both fields are there: neither is empty.
    pub fn is_complete(&self) -> (complete: bool)
        ensures
            complete == self@.is_complete(),
    {
        !self.device_id.as_str().is_empty() && !self.message.as_str().is_empty()
    }
}

} // verus!
