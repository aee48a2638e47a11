//! The three request handlers, as decisions.
//!
//! A request is received, checked, carried out by the store, and answered.
//! The handler functions take a request as far as it can go without the
//! store: they either answer it at once or name the one command the store
//! has to run. `advance` then takes each thing the store reports and says
//! whether to keep waiting or what to answer. No step ever asks the store a
//! second time.

use crate::error::LogError;
use crate::listing::{
    insert_row, is_newest_first, lemma_newest_first_is_ordered, lemma_newest_first_keeps_rows,
    lemma_newest_first_of_ordered, newest_first, place,
};
use crate::model::{log_views, Log, LogView, NewLog, NewLogView};
use crate::object_id::{
    decode, encode, hex_bytes, hex_text, is_wire_id, lemma_encode_then_decode,
};
use crate::store::{text_view, StoreCommand, StoreCommandView, StoreEvent, StoreEventView};
use vstd::prelude::*;
use vstd::string::*;

verus! {

/// What a request is answered with.
#[derive(Clone, Debug, PartialEq, Eq)]
pub enum Reply {
    /// The entries asked for, newest first; there may be none.
    Entries(Vec<Log>),
    /// The one entry asked for.
    Entry(Log),
    /// The wire form of the identifier that a new entry was given.
    Created(String),
    /// The request was not served. `detail` is the text shown to the client;
    /// it never holds anything the store said.
    Failed { error: LogError, detail: String },
}

/// What a `Reply` holds, as mathematical values.
pub enum ReplyView {
    Entries(Seq<LogView>),
    Entry(LogView),
    Created(Seq<char>),
    Failed { error: LogError, detail: Seq<char> },
}

impl View for Reply {
    type V = ReplyView;

    open spec fn view(&self) -> ReplyView {
        match *self {
            Reply::Entries(rows) => ReplyView::Entries(log_views(rows@)),
            Reply::Entry(row) => ReplyView::Entry(row@),
            Reply::Created(id) => ReplyView::Created(id@),
            Reply::Failed { error, detail } => ReplyView::Failed { error, detail: detail@ },
        }
    }
}

impl ReplyView {
    /// The HTTP status of the reply: 200 for what was read, 201 for what was
    /// created, and the status of the failure otherwise.
    pub open spec fn status(self) -> u16 {
        match self {
            ReplyView::Entries(_) => 200,
            ReplyView::Entry(_) => 200,
            ReplyView::Created(_) => 201,
            ReplyView::Failed { error, .. } => error.spec_status(),
        }
    }
}

impl Reply {
    /// The HTTP status of the reply.
    pub fn status(&self) -> (code: u16)
        ensures
            code == self@.status(),
    {
        match self {
            Reply::Entries(_) => 200,
            Reply::Entry(_) => 200,
            Reply::Created(_) => 201,
            Reply::Failed { error, .. } => error.status(),
        }
    }
}

/// A request whose command the store is carrying out.
#[derive(Clone, Debug, PartialEq, Eq)]
pub enum Pending {
    /// A listing; `rows` are the entries that have arrived so far.
    Listing { rows: Vec<Log> },
    /// A lookup of the entry that the path named as `log_id`.
    Looking { log_id: String },
    /// An insert.
    Inserting,
}

/// What a `Pending` holds, as mathematical values.
pub enum PendingView {
    Listing { rows: Seq<LogView> },
    Looking { log_id: Seq<char> },
    Inserting,
}

impl View for Pending {
    type V = PendingView;

    open spec fn view(&self) -> PendingView {
        match *self {
            Pending::Listing { rows } => PendingView::Listing { rows: log_views(rows@) },
            Pending::Looking { log_id } => PendingView::Looking { log_id: log_id@ },
            Pending::Inserting => PendingView::Inserting,
        }
    }
}

impl PendingView {
    /// True unless this is a listing whose rows are out of order. Every
    /// request that started with one of the handlers is in order, and
    /// `advance` keeps it so.
    pub open spec fn is_ordered(self) -> bool {
        self matches PendingView::Listing { rows } ==> is_newest_first(rows)
    }
}

/// What the service has to do next for a request.
#[derive(Clone, Debug, PartialEq, Eq)]
pub enum Step {
    /// Have the store run `command`, and hand what it reports to `advance`
    /// together with `pending`.
    Ask { command: StoreCommand, pending: Pending },
    /// The command is still running: hand the next thing the store reports
    /// to `advance`.
    Wait(Pending),
    /// Answer the request; nothing is left to do for it.
    Reply(Reply),
}

/// What a `Step` holds, as mathematical values.
pub enum StepView {
    Ask { command: StoreCommandView, pending: PendingView },
    Wait(PendingView),
    Reply(ReplyView),
}

impl View for Step {
    type V = StepView;

    open spec fn view(&self) -> StepView {
        match *self {
            Step::Ask { command, pending } => StepView::Ask { command: command@, pending: pending@ },
            Step::Wait(pending) => StepView::Wait(pending@),
            Step::Reply(reply) => StepView::Reply(reply@),
        }
    }
}

/// The step that turns a request away with `error` and no further text.
pub open spec fn refusal(error: LogError) -> StepView {
    StepView::Reply(ReplyView::Failed { error, detail: Seq::empty() })
}

/// The text that answers a lookup which found nothing.
pub open spec fn not_found_detail(log_id: Seq<char>) -> Seq<char> {
    "No log found with id: "@ + log_id
}

/// The first step of a listing: ask for the entries of `device`, or for all
/// entries when no device is named. Nothing has arrived yet.
pub open spec fn get_logs_step(device: Option<Seq<char>>) -> StepView {
    StepView::Ask {
        command: StoreCommandView::Find { device },
        pending: PendingView::Listing { rows: Seq::empty() },
    }
}

/// The first step of a lookup: a path that is no wire identifier is turned
/// away as `InvalidIdentifier`; for any other, the entry with the identifier
/// that it spells is asked for.
pub open spec fn get_log_by_id_step(log_id: Seq<char>) -> StepView {
    if is_wire_id(log_id) {
        StepView::Ask {
            command: StoreCommandView::FindOne { id: hex_bytes(log_id) },
            pending: PendingView::Looking { log_id },
        }
    } else {
        refusal(LogError::InvalidIdentifier)
    }
}

/// The first step of an insert received at the instant `now`: a body with an
/// empty field is turned away as `ValidationError`; for any other, an entry
/// with the body's two fields and `now` as its timestamp is handed to the
/// store.
pub open spec fn add_log_step(new_log: NewLogView, now: i64) -> StepView {
    if new_log.is_complete() {
        StepView::Ask {
            command: StoreCommandView::InsertOne {
                device_id: new_log.device_id,
                message: new_log.message,
                timestamp: now,
            },
            pending: PendingView::Inserting,
        }
    } else {
        refusal(LogError::ValidationError)
    }
}

/// The step that follows when the store reports `event` for `pending`.
///
/// A listing takes each row into its place and waits for more, and is
/// answered with all of them when the store has no more. A lookup is answered
/// with the entry found, or as `NotFound` when there is none. An insert is
/// answered with the wire form of the new identifier. A failure of the
/// store, or a report that does not belong to the command that is running,
/// answers the request as `StoreUnavailable`, and what had arrived is
/// dropped.
pub open spec fn advance_step(pending: PendingView, event: StoreEventView) -> StepView {
    match (pending, event) {
        (PendingView::Listing { rows }, StoreEventView::Row(row)) => StepView::Wait(
            PendingView::Listing { rows: place(rows, row) },
        ),
        (PendingView::Listing { rows }, StoreEventView::End) => StepView::Reply(
            ReplyView::Entries(rows),
        ),
        (PendingView::Looking { log_id }, StoreEventView::Found(Some(row))) => StepView::Reply(
            ReplyView::Entry(row),
        ),
        (PendingView::Looking { log_id }, StoreEventView::Found(None)) => StepView::Reply(
            ReplyView::Failed { error: LogError::NotFound, detail: not_found_detail(log_id) },
        ),
        (PendingView::Inserting, StoreEventView::Inserted(id)) => StepView::Reply(
            ReplyView::Created(hex_text(id)),
        ),
        _ => refusal(LogError::StoreUnavailable),
    }
}

/// A listing for which `arrived` have come in, in that order.
pub open spec fn listing_after(arrived: Seq<LogView>) -> PendingView
    decreases arrived.len(),
{
    if arrived.len() == 0 {
        PendingView::Listing { rows: Seq::empty() }
    } else {
        match advance_step(listing_after(arrived.drop_last()), StoreEventView::Row(arrived.last())) {
            StepView::Wait(pending) => pending,
            _ => listing_after(arrived.drop_last()),
        }
    }
}

/// The entry that the store holds once it has acknowledged the insert of
/// `new_log`, received at `now`, with the identifier `id`.
pub open spec fn inserted_entry(new_log: NewLogView, now: i64, id: Seq<u8>) -> LogView {
    LogView { id, device_id: new_log.device_id, message: new_log.message, timestamp: now }
}

/// An insert can be read back. When a complete body is inserted at `now` and
/// the store gives the entry the identifier `id`, the request is answered
/// with the wire form of `id`; a lookup of that text asks the store for
/// `id`; and when the store hands back the entry it holds, the lookup is
/// answered with the device and message of the insert and with `now` as its
/// timestamp.
pub proof fn lemma_insert_then_lookup(new_log: NewLogView, now: i64, id: Seq<u8>)
    requires
        new_log.is_complete(),
        id.len() == 12,
    ensures
        add_log_step(new_log, now) == (StepView::Ask {
            command: StoreCommandView::InsertOne {
                device_id: new_log.device_id,
                message: new_log.message,
                timestamp: now,
            },
            pending: PendingView::Inserting,
        }),
        advance_step(PendingView::Inserting, StoreEventView::Inserted(id)) == StepView::Reply(
            ReplyView::Created(hex_text(id)),
        ),
        get_log_by_id_step(hex_text(id)) == (StepView::Ask {
            command: StoreCommandView::FindOne { id },
            pending: PendingView::Looking { log_id: hex_text(id) },
        }),
        advance_step(
            PendingView::Looking { log_id: hex_text(id) },
            StoreEventView::Found(Some(inserted_entry(new_log, now, id))),
        ) == StepView::Reply(ReplyView::Entry(inserted_entry(new_log, now, id))),
{
    lemma_encode_then_decode(id);
}

/// A lookup of an identifier that no entry carries is answered as
/// `NotFound`, status 404, whatever the identifier; it is not a failure of
/// the store.
pub proof fn lemma_unassigned_is_not_found(log_id: Seq<char>)
    requires
        is_wire_id(log_id),
    ensures
        get_log_by_id_step(log_id) matches StepView::Ask { pending, .. } && advance_step(
            pending,
            StoreEventView::Found(None),
        ) == StepView::Reply(
            ReplyView::Failed { error: LogError::NotFound, detail: not_found_detail(log_id) },
        ),
        LogError::NotFound.spec_status() == 404,
{
}

/// A listing is answered newest first. In whatever order the store hands the
/// rows over, the answer holds exactly those rows, the one with the highest
/// identifier first; rows that arrive in that order are answered as they
/// came.
pub proof fn lemma_listing_is_newest_first(arrived: Seq<LogView>)
    ensures
        listing_after(arrived) == (PendingView::Listing { rows: newest_first(arrived) }),
        advance_step(listing_after(arrived), StoreEventView::End) == StepView::Reply(
            ReplyView::Entries(newest_first(arrived)),
        ),
        is_newest_first(newest_first(arrived)),
        newest_first(arrived).to_multiset() == arrived.to_multiset(),
        is_newest_first(arrived) ==> newest_first(arrived) == arrived,
    decreases arrived.len(),
{
    if arrived.len() > 0 {
        let front = arrived.drop_last();
        lemma_listing_is_newest_first(front);
        assert(newest_first(arrived) == place(newest_first(front), arrived.last()));
        assert(advance_step(listing_after(front), StoreEventView::Row(arrived.last()))
            == StepView::Wait(PendingView::Listing { rows: newest_first(arrived) }));
    } else {
        assert(arrived =~= Seq::empty());
    }
    lemma_newest_first_is_ordered(arrived);
    lemma_newest_first_keeps_rows(arrived);
    if is_newest_first(arrived) {
        lemma_newest_first_of_ordered(arrived);
    }
}

/// No report of the store makes a request ask the store again, and a request
/// that is answered is answered with one of the four statuses 200, 201, 404
/// and 500.
pub proof fn lemma_one_command_per_request(pending: PendingView, event: StoreEventView)
    ensures
        !(advance_step(pending, event) is Ask),
        advance_step(pending, event) matches StepView::Reply(reply) ==> (reply.status() == 200
            || reply.status() == 201 || reply.status() == 404 || reply.status() == 500),
{
}

/// The reply that turns a request away with `error` and no further text.
fn refuse(error: LogError) -> (step: Step)
    ensures
        step@ == refusal(error),
{
    Step::Reply(Reply::Failed { error, detail: String::new() })
}

/// `chrono::Utc::now`, read as milliseconds since 1970-01-01 00:00:00 UTC by
/// `DateTime::timestamp_millis`.
///
/// Trusted, not proved. The result depends on the clock, so nothing is
/// claimed of it. The call panics on a machine whose clock is set before
/// 1970.
#[verifier::external_body]
fn utc_now_millis() -> (now: i64) {
    chrono::Utc::now().timestamp_millis()
}

/// Handles a request for the list of entries, of one device or of all.
///
/// Nothing can be wrong with such a request: the store is asked.
pub fn get_logs(device: Option<String>) -> (step: Step)
    ensures
        step@ == get_logs_step(text_view(device)),
        step@ matches StepView::Ask { pending, .. } && pending.is_ordered(),
{
    let step = Step::Ask {
        command: StoreCommand::Find { device },
        pending: Pending::Listing { rows: Vec::new() },
    };
    assert(log_views(Seq::<Log>::empty()) =~= Seq::<LogView>::empty());
    step
}

/// Handles a request for the entry that the path names as `log_id`.
///
/// The store is asked exactly when `log_id` is 24 hexadecimal characters;
/// any other path is answered as `InvalidIdentifier`, status 400, without a
/// word to the store.
pub fn get_log_by_id(log_id: String) -> (step: Step)
    ensures
        step@ == get_log_by_id_step(log_id@),
        !is_wire_id(log_id@) ==> step@ == refusal(LogError::InvalidIdentifier),
{
    match decode(log_id.as_str()) {
        Ok(id) => Step::Ask {
            command: StoreCommand::FindOne { id },
            pending: Pending::Looking { log_id },
        },
        Err(error) => refuse(error),
    }
}

/// Handles a request to insert `new_log`, received at the instant `now`
/// (milliseconds since 1970-01-01 00:00:00 UTC).
///
/// The store is asked exactly when neither field is empty; a body with an
/// empty field is answered as `ValidationError`, status 400, without a word
/// to the store.
pub fn add_log_at(new_log: NewLog, now: i64) -> (step: Step)
    ensures
        step@ == add_log_step(new_log@, now),
        !new_log@.is_complete() ==> step@ == refusal(LogError::ValidationError),
{
    if new_log.is_complete() {
        Step::Ask {
            command: StoreCommand::InsertOne {
                device_id: new_log.device_id,
                message: new_log.message,
                timestamp: now,
            },
            pending: Pending::Inserting,
        }
    } else {
        refuse(LogError::ValidationError)
    }
}

/// Handles a request to insert `new_log`, received now.
///
/// The timestamp of the entry is the time of this call, read from the
/// clock; the client has no say in it. Apart from that instant the step is
/// the one that `add_log_at` gives.
pub fn add_log(new_log: NewLog) -> (step: Step)
    ensures
        exists|now: i64| step@ == #[trigger] add_log_step(new_log@, now),
        !new_log@.is_complete() ==> step@ == refusal(LogError::ValidationError),
{
    let now: i64 = utc_now_millis();
    add_log_at(new_log, now)
}

/// Takes a request one step further with what the store reported.
///
/// The store is never asked again, so each request costs one command. A
/// listing that was newest first stays so.
pub fn advance(pending: Pending, event: StoreEvent) -> (step: Step)
    ensures
        step@ == advance_step(pending@, event@),
        !(step is Ask),
        pending@.is_ordered() ==> (step@ matches StepView::Wait(next) ==> next.is_ordered()),
        pending@.is_ordered() ==> (step@ matches StepView::Reply(ReplyView::Entries(rows))
            ==> is_newest_first(rows)),
{
    match pending {
        Pending::Listing { rows } => match event {
            StoreEvent::Row(row) => {
                let mut rows = rows;
                insert_row(&mut rows, row);
                Step::Wait(Pending::Listing { rows })
            },
            StoreEvent::End => Step::Reply(Reply::Entries(rows)),
            _ => refuse(LogError::StoreUnavailable),
        },
        Pending::Looking { log_id } => match event {
            StoreEvent::Found(Some(row)) => Step::Reply(Reply::Entry(row)),
            StoreEvent::Found(None) => {
                let detail = "No log found with id: ".to_owned().concat(log_id.as_str());
                Step::Reply(Reply::Failed { error: LogError::NotFound, detail })
            },
            _ => refuse(LogError::StoreUnavailable),
        },
        Pending::Inserting => match event {
            StoreEvent::Inserted(id) => Step::Reply(Reply::Created(encode(&id))),
            _ => refuse(LogError::StoreUnavailable),
        },
    }
}

} // verus!
