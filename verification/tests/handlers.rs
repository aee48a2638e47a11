use plant_logs::error::LogError;
use plant_logs::handlers::{add_log, add_log_at, advance, get_log_by_id, get_logs, Pending, Reply, Step};
use plant_logs::listing::insert_row;
use plant_logs::model::{Log, NewLog};
use plant_logs::object_id::{decode, BinaryId};
use plant_logs::store::{StoreCommand, StoreEvent};
use std::time::{SystemTime, UNIX_EPOCH};

fn id_ending(last: u8) -> BinaryId {
    BinaryId { bytes: [0x5f, 0x1d, 0x7f, 0x3e, 0x9b, 0x2a, 0x4c, 0x00, 0x12, 0x00, 0x00, last] }
}

fn entry(last: u8, device: &str, message: &str) -> Log {
    Log {
        id: id_ending(last),
        device_id: device.to_string(),
        message: message.to_string(),
        timestamp: 1_600_000_000_000 + last as i64,
    }
}

fn new_log(device: &str, message: &str) -> NewLog {
    NewLog { device_id: device.to_string(), message: message.to_string() }
}

fn refused(error: LogError) -> Step {
    Step::Reply(Reply::Failed { error, detail: String::new() })
}

fn now_millis() -> i64 {
    SystemTime::now().duration_since(UNIX_EPOCH).unwrap().as_millis() as i64
}

/// A store that keeps its entries in memory, hands them out in the order
/// they were inserted, and numbers them upwards.
struct MemoryStore {
    rows: Vec<Log>,
    commands: usize,
    down: bool,
}

impl MemoryStore {
    fn new() -> MemoryStore {
        MemoryStore { rows: Vec::new(), commands: 0, down: false }
    }

    fn run(&mut self, command: StoreCommand) -> Vec<StoreEvent> {
        self.commands += 1;
        if self.down {
            return vec![StoreEvent::Failed];
        }
        match command {
            StoreCommand::Find { device } => {
                let mut events: Vec<StoreEvent> = self
                    .rows
                    .iter()
                    .filter(|row| device.as_ref().map_or(true, |d| &row.device_id == d))
                    .map(|row| StoreEvent::Row(row.clone()))
                    .collect();
                events.push(StoreEvent::End);
                events
            }
            StoreCommand::FindOne { id } => {
                vec![StoreEvent::Found(self.rows.iter().find(|row| row.id == id).cloned())]
            }
            StoreCommand::InsertOne { device_id, message, timestamp } => {
                let id = id_ending(self.rows.len() as u8 + 1);
                self.rows.push(Log { id, device_id, message, timestamp });
                vec![StoreEvent::Inserted(id)]
            }
        }
    }

    fn serve(&mut self, first: Step) -> Reply {
        let (command, mut pending) = match first {
            Step::Reply(reply) => return reply,
            Step::Wait(_) => panic!("nothing was asked yet"),
            Step::Ask { command, pending } => (command, pending),
        };
        for event in self.run(command) {
            match advance(pending, event) {
                Step::Reply(reply) => return reply,
                Step::Wait(next) => pending = next,
                Step::Ask { .. } => panic!("the store was asked twice"),
            }
        }
        panic!("the store fell silent")
    }
}

#[test]
fn a_listing_asks_for_all_entries_when_no_device_is_named() {
    assert_eq!(
        get_logs(None),
        Step::Ask {
            command: StoreCommand::Find { device: None },
            pending: Pending::Listing { rows: vec![] },
        }
    );
}

#[test]
fn a_listing_asks_for_the_entries_of_the_named_device() {
    assert_eq!(
        get_logs(Some("sensor-7".to_string())),
        Step::Ask {
            command: StoreCommand::Find { device: Some("sensor-7".to_string()) },
            pending: Pending::Listing { rows: vec![] },
        }
    );
}

#[test]
fn a_lookup_asks_for_the_identifier_that_the_path_spells() {
    assert_eq!(
        get_log_by_id("DEADBEEFdeadbeefdeadbeef".to_string()),
        Step::Ask {
            command: StoreCommand::FindOne {
                id: BinaryId {
                    bytes: [0xde, 0xad, 0xbe, 0xef, 0xde, 0xad, 0xbe, 0xef, 0xde, 0xad, 0xbe, 0xef],
                },
            },
            pending: Pending::Looking { log_id: "DEADBEEFdeadbeefdeadbeef".to_string() },
        }
    );
}

#[test]
fn a_lookup_of_a_malformed_path_is_an_invalid_identifier() {
    for path in ["xyz", "", "deadbeefdeadbeefdeadbee", "deadbeefdeadbeefdeadbeef0", "deadbeefdeadbeefdeadbeeg"] {
        let step = get_log_by_id(path.to_string());
        assert_eq!(step, refused(LogError::InvalidIdentifier));
        match step {
            Step::Reply(reply) => assert_eq!(reply.status(), 400),
            _ => unreachable!(),
        }
    }
}

#[test]
fn an_insert_hands_the_fields_and_the_instant_to_the_store() {
    assert_eq!(
        add_log_at(new_log("dev-1", "hello"), 1_700_000_000_123),
        Step::Ask {
            command: StoreCommand::InsertOne {
                device_id: "dev-1".to_string(),
                message: "hello".to_string(),
                timestamp: 1_700_000_000_123,
            },
            pending: Pending::Inserting,
        }
    );
}

#[test]
fn an_insert_without_a_device_is_a_validation_error() {
    assert_eq!(add_log_at(new_log("", "hello"), 5), refused(LogError::ValidationError));
    assert_eq!(add_log(new_log("", "hello")), refused(LogError::ValidationError));
}

#[test]
fn an_insert_without_a_message_is_a_validation_error() {
    assert_eq!(add_log_at(new_log("dev-1", ""), 5), refused(LogError::ValidationError));
    assert_eq!(add_log(new_log("dev-1", "")), refused(LogError::ValidationError));
    assert_eq!(add_log(new_log("", "")), refused(LogError::ValidationError));
}

#[test]
fn a_rejected_insert_never_reaches_the_store() {
    let mut store = MemoryStore::new();
    let reply = store.serve(add_log(new_log("dev-1", "")));
    assert_eq!(reply.status(), 400);
    assert_eq!(reply, Reply::Failed { error: LogError::ValidationError, detail: String::new() });
    assert_eq!(store.commands, 0);
    assert!(store.rows.is_empty());
}

#[test]
fn an_insert_is_stamped_with_the_time_of_the_call() {
    let before = now_millis();
    let step = add_log(new_log("dev-1", "hello"));
    let after = now_millis();
    match step {
        Step::Ask {
            command: StoreCommand::InsertOne { device_id, message, timestamp },
            pending: Pending::Inserting,
        } => {
            assert_eq!(device_id, "dev-1");
            assert_eq!(message, "hello");
            assert!(before - 2_000 <= timestamp && timestamp <= after + 2_000);
        }
        other => panic!("unexpected step {:?}", other),
    }
}

#[test]
fn a_blank_is_a_field_like_any_other() {
    assert!(matches!(add_log_at(new_log(" ", " "), 0), Step::Ask { .. }));
}

#[test]
fn an_acknowledged_insert_is_answered_with_the_wire_identifier() {
    let reply = advance(Pending::Inserting, StoreEvent::Inserted(id_ending(0xa7)));
    assert_eq!(reply, Step::Reply(Reply::Created("5f1d7f3e9b2a4c00120000a7".to_string())));
    match reply {
        Step::Reply(reply) => assert_eq!(reply.status(), 201),
        _ => unreachable!(),
    }
}

#[test]
fn a_lookup_that_finds_the_entry_answers_with_it() {
    let found = entry(3, "dev-1", "hello");
    let step = advance(
        Pending::Looking { log_id: "5f1d7f3e9b2a4c0012000003".to_string() },
        StoreEvent::Found(Some(found.clone())),
    );
    assert_eq!(step, Step::Reply(Reply::Entry(found)));
    match step {
        Step::Reply(reply) => assert_eq!(reply.status(), 200),
        _ => unreachable!(),
    }
}

#[test]
fn a_lookup_that_finds_nothing_is_not_found() {
    let step = advance(
        Pending::Looking { log_id: "DEADbeefdeadbeefdeadbeef".to_string() },
        StoreEvent::Found(None),
    );
    assert_eq!(
        step,
        Step::Reply(Reply::Failed {
            error: LogError::NotFound,
            detail: "No log found with id: DEADbeefdeadbeefdeadbeef".to_string(),
        })
    );
    match step {
        Step::Reply(reply) => assert_eq!(reply.status(), 404),
        _ => unreachable!(),
    }
}

#[test]
fn a_failure_of_the_store_answers_every_kind_of_request_with_500() {
    let waiting = [
        Pending::Listing { rows: vec![entry(1, "dev-1", "kept so far")] },
        Pending::Looking { log_id: "deadbeefdeadbeefdeadbeef".to_string() },
        Pending::Inserting,
    ];
    for pending in waiting {
        let step = advance(pending, StoreEvent::Failed);
        assert_eq!(step, refused(LogError::StoreUnavailable));
        match step {
            Step::Reply(reply) => assert_eq!(reply.status(), 500),
            _ => unreachable!(),
        }
    }
}

#[test]
fn a_report_that_answers_another_command_counts_as_a_failure() {
    let looking = || Pending::Looking { log_id: "deadbeefdeadbeefdeadbeef".to_string() };
    let listing = || Pending::Listing { rows: vec![] };
    let unavailable = refused(LogError::StoreUnavailable);
    assert_eq!(advance(looking(), StoreEvent::End), unavailable);
    assert_eq!(advance(looking(), StoreEvent::Row(entry(1, "d", "m"))), unavailable);
    assert_eq!(advance(looking(), StoreEvent::Inserted(id_ending(1))), unavailable);
    assert_eq!(advance(listing(), StoreEvent::Found(None)), unavailable);
    assert_eq!(advance(listing(), StoreEvent::Found(Some(entry(1, "d", "m")))), unavailable);
    assert_eq!(advance(listing(), StoreEvent::Inserted(id_ending(1))), unavailable);
    assert_eq!(advance(Pending::Inserting, StoreEvent::End), unavailable);
    assert_eq!(advance(Pending::Inserting, StoreEvent::Found(None)), unavailable);
    assert_eq!(advance(Pending::Inserting, StoreEvent::Row(entry(1, "d", "m"))), unavailable);
}

#[test]
fn a_listing_without_entries_is_an_empty_answer() {
    let step = advance(Pending::Listing { rows: vec![] }, StoreEvent::End);
    assert_eq!(step, Step::Reply(Reply::Entries(vec![])));
    match step {
        Step::Reply(reply) => assert_eq!(reply.status(), 200),
        _ => unreachable!(),
    }
}

#[test]
fn a_row_makes_a_listing_wait_for_more() {
    let a = entry(1, "dev-1", "a");
    assert_eq!(
        advance(Pending::Listing { rows: vec![] }, StoreEvent::Row(a.clone())),
        Step::Wait(Pending::Listing { rows: vec![a] })
    );
}

#[test]
fn rows_that_arrive_newest_first_stay_as_they_came() {
    let (a, b, c) = (entry(1, "dev-1", "a"), entry(2, "dev-1", "b"), entry(3, "dev-1", "c"));
    let mut rows = Vec::new();
    for row in [c.clone(), b.clone(), a.clone()] {
        insert_row(&mut rows, row);
    }
    assert_eq!(rows, vec![c, b, a]);
}

#[test]
fn rows_that_arrive_oldest_first_are_turned_round() {
    let (a, b, c) = (entry(1, "dev-1", "a"), entry(2, "dev-1", "b"), entry(3, "dev-1", "c"));
    let mut rows = Vec::new();
    for row in [a.clone(), b.clone(), c.clone()] {
        insert_row(&mut rows, row);
    }
    assert_eq!(rows, vec![c, b, a]);
}

#[test]
fn rows_that_arrive_in_any_order_are_listed_newest_first() {
    let rows: Vec<Log> = [4u8, 9, 1, 7, 3, 8, 2, 6, 5].iter().map(|&n| entry(n, "dev-1", "m")).collect();
    let mut listing = Vec::new();
    for row in rows {
        insert_row(&mut listing, row);
    }
    let order: Vec<u8> = listing.iter().map(|row| row.id.bytes[11]).collect();
    assert_eq!(order, vec![9, 8, 7, 6, 5, 4, 3, 2, 1]);
}

#[test]
fn a_row_goes_behind_the_rows_with_the_same_identifier() {
    let first = entry(5, "dev-1", "first");
    let second = entry(5, "dev-1", "second");
    let mut listing = vec![entry(9, "dev-1", "top"), first.clone(), entry(2, "dev-1", "bottom")];
    insert_row(&mut listing, second.clone());
    assert_eq!(
        listing,
        vec![entry(9, "dev-1", "top"), first, second, entry(2, "dev-1", "bottom")]
    );
}

#[test]
fn the_order_goes_by_the_whole_identifier() {
    let mut high = entry(0, "dev-1", "high");
    high.id.bytes[0] = 0x60;
    let low = entry(0xff, "dev-1", "low");
    let mut listing = Vec::new();
    insert_row(&mut listing, low.clone());
    insert_row(&mut listing, high.clone());
    assert_eq!(listing, vec![high, low]);
}

#[test]
fn entries_inserted_a_b_c_are_listed_c_b_a() {
    let mut store = MemoryStore::new();
    for message in ["A", "B", "C"] {
        assert_eq!(store.serve(add_log(new_log("dev-1", message))).status(), 201);
    }
    assert_eq!(store.serve(add_log(new_log("dev-2", "elsewhere"))).status(), 201);
    match store.serve(get_logs(Some("dev-1".to_string()))) {
        Reply::Entries(rows) => {
            let messages: Vec<&str> = rows.iter().map(|row| row.message.as_str()).collect();
            assert_eq!(messages, vec!["C", "B", "A"]);
            assert!(rows.windows(2).all(|pair| pair[0].id.key() > pair[1].id.key()));
        }
        other => panic!("unexpected reply {:?}", other),
    }
    match store.serve(get_logs(None)) {
        Reply::Entries(rows) => {
            let messages: Vec<&str> = rows.iter().map(|row| row.message.as_str()).collect();
            assert_eq!(messages, vec!["elsewhere", "C", "B", "A"]);
        }
        other => panic!("unexpected reply {:?}", other),
    }
}

#[test]
fn a_listing_for_a_device_without_entries_is_empty_not_an_error() {
    let mut store = MemoryStore::new();
    store.serve(add_log(new_log("dev-1", "A")));
    let reply = store.serve(get_logs(Some("dev-9".to_string())));
    assert_eq!(reply.status(), 200);
    assert_eq!(reply, Reply::Entries(vec![]));
}

#[test]
fn a_failure_in_the_middle_of_a_listing_drops_what_had_arrived() {
    let mut pending = Pending::Listing { rows: vec![] };
    for n in [3u8, 2] {
        match advance(pending, StoreEvent::Row(entry(n, "dev-1", "m"))) {
            Step::Wait(next) => pending = next,
            other => panic!("unexpected step {:?}", other),
        }
    }
    assert_eq!(advance(pending, StoreEvent::Failed), refused(LogError::StoreUnavailable));
}

#[test]
fn an_inserted_entry_is_found_under_the_identifier_returned() {
    let mut store = MemoryStore::new();
    let before = now_millis();
    let created = store.serve(add_log(new_log("dev-1", "hello")));
    let after = now_millis();
    let id_text = match created {
        Reply::Created(text) => text,
        other => panic!("unexpected reply {:?}", other),
    };
    match store.serve(get_log_by_id(id_text.clone())) {
        Reply::Entry(found) => {
            assert_eq!(found.device_id, "dev-1");
            assert_eq!(found.message, "hello");
            assert_eq!(Ok(found.id), decode(&id_text));
            assert!(before - 2_000 <= found.timestamp && found.timestamp <= after + 2_000);
        }
        other => panic!("unexpected reply {:?}", other),
    }
}

#[test]
fn a_well_formed_identifier_that_was_never_assigned_is_not_found() {
    let mut store = MemoryStore::new();
    store.serve(add_log(new_log("dev-1", "hello")));
    let reply = store.serve(get_log_by_id("deadbeefdeadbeefdeadbeef".to_string()));
    assert_eq!(reply.status(), 404);
    assert!(matches!(reply, Reply::Failed { error: LogError::NotFound, .. }));
    assert_eq!(store.commands, 2);
}

#[test]
fn a_store_that_is_down_answers_every_request_with_500() {
    let mut store = MemoryStore::new();
    store.down = true;
    let unavailable = Reply::Failed { error: LogError::StoreUnavailable, detail: String::new() };
    assert_eq!(store.serve(get_logs(None)), unavailable);
    assert_eq!(store.serve(get_log_by_id("deadbeefdeadbeefdeadbeef".to_string())), unavailable);
    assert_eq!(store.serve(add_log(new_log("dev-1", "hello"))), unavailable);
    assert_eq!(unavailable.status(), 500);
    assert_eq!(store.commands, 3);
}

#[test]
fn every_request_costs_at_most_one_command() {
    let mut store = MemoryStore::new();
    store.serve(add_log(new_log("dev-1", "A")));
    assert_eq!(store.commands, 1);
    store.serve(add_log(new_log("dev-1", "B")));
    assert_eq!(store.commands, 2);
    store.serve(get_logs(None));
    assert_eq!(store.commands, 3);
    store.serve(get_log_by_id("5f1d7f3e9b2a4c0012000001".to_string()));
    assert_eq!(store.commands, 4);
    store.serve(get_log_by_id("xyz".to_string()));
    assert_eq!(store.commands, 4);
}

#[test]
fn post_then_get_then_two_misses() {
    let mut store = MemoryStore::new();

    let created = store.serve(add_log(new_log("sensor-7", "temp=21.3")));
    assert_eq!(created.status(), 201);
    let id_text = match created {
        Reply::Created(text) => text,
        other => panic!("unexpected reply {:?}", other),
    };
    assert_eq!(id_text.len(), 24);
    assert!(id_text.chars().all(|c| c.is_ascii_digit() || ('a'..='f').contains(&c)));

    let fetched = store.serve(get_log_by_id(id_text.clone()));
    assert_eq!(fetched.status(), 200);
    match fetched {
        Reply::Entry(found) => {
            assert_eq!(found.device_id, "sensor-7");
            assert_eq!(found.message, "temp=21.3");
            assert_eq!(found.timestamp, store.rows[0].timestamp);
            assert_eq!(plant_logs::object_id::encode(&found.id), id_text);
        }
        other => panic!("unexpected reply {:?}", other),
    }

    let absent = store.serve(get_log_by_id("deadbeefdeadbeefdeadbeef".to_string()));
    assert_eq!(absent.status(), 404);
    assert_eq!(
        absent,
        Reply::Failed {
            error: LogError::NotFound,
            detail: "No log found with id: deadbeefdeadbeefdeadbeef".to_string(),
        }
    );

    let malformed = store.serve(get_log_by_id("xyz".to_string()));
    assert_eq!(malformed.status(), 400);
    assert!(matches!(malformed, Reply::Failed { error: LogError::InvalidIdentifier, .. }));
}

#[test]
fn a_new_log_knows_whether_it_is_complete() {
    assert!(new_log("dev-1", "hello").is_complete());
    assert!(!new_log("", "hello").is_complete());
    assert!(!new_log("dev-1", "").is_complete());
    assert!(!new_log("", "").is_complete());
}
