use space_weather::db::{EventTable, NewEvent, RecordDB, StorageError};
use space_weather::instant::Instant;
use space_weather::bulletin::RecordMessage;
use space_weather::product::ID;
use space_weather::records::Record;

fn at(secs: i64) -> Instant {
    Instant { secs, nanos: 0, offset: 0 }
}

fn event(serial_num: u64, secs: i64, serial_num_ext: Option<u64>) -> NewEvent {
    NewEvent { issue_time: at(secs), serial_num, serial_num_ext }
}

fn row(id: i32, serial_num: u64, secs: i64, serial_num_ext: Option<u64>, id_ext: Option<i32>) -> RecordDB {
    RecordDB { issue_time: at(secs), serial_num, serial_num_ext, id, id_ext }
}

fn record(sn: u64, secs: i64) -> Record {
    Record {
        issue_datetime: at(secs),
        message: RecordMessage {
            space_weather_access_code: "WATA10".to_string(),
            sn,
            issue_time: at(secs),
            message: String::new(),
        },
        product_id: ID::Message("WATA10".to_string()),
    }
}

#[test]
fn new_table_is_empty() {
    assert_eq!(EventTable::new().rows(), &Vec::new());
    assert!(EventTable::with_first_key(0).is_none());
    assert!(EventTable::with_first_key(-3).is_none());
    assert!(EventTable::with_first_key(1).is_some());
}

#[test]
fn duplicate_in_one_batch_is_inserted_once() {
    let mut table = EventTable::new();
    let batch = vec![record(42, 100), record(42, 100)];
    assert_eq!(RecordDB::add_all_records(&batch, &mut table), Ok(1));
    assert_eq!(table.rows(), &vec![row(1, 42, 100, None, None)]);
}

#[test]
fn either_axis_keeps_a_candidate_out() {
    let mut table = EventTable::new();
    assert_eq!(table.insert_events(&vec![event(1, 100, None)]), Ok(1));
    let batch = vec![event(1, 200, None), event(2, 100, None), event(3, 300, None), event(3, 400, None)];
    assert_eq!(table.insert_events(&batch), Ok(1));
    assert_eq!(table.rows(), &vec![row(1, 1, 100, None, None), row(2, 3, 300, None, None)]);
}

#[test]
fn issue_times_are_compared_by_wall_clock() {
    let mut table = EventTable::new();
    let first = NewEvent { issue_time: Instant { secs: 100, nanos: 5, offset: 0 }, serial_num: 1, serial_num_ext: None };
    let same_clock = NewEvent { issue_time: Instant { secs: 40, nanos: 5, offset: 60 }, serial_num: 2, serial_num_ext: None };
    let same_instant = NewEvent { issue_time: Instant { secs: 100, nanos: 5, offset: 60 }, serial_num: 3, serial_num_ext: None };
    let other_nanos = NewEvent { issue_time: Instant { secs: 100, nanos: 6, offset: 0 }, serial_num: 4, serial_num_ext: None };
    assert_eq!(table.insert_events(&vec![first, same_clock, same_instant, other_nanos]), Ok(3));
    assert!(!table.admits(&same_clock));
    assert!(table.admits(&event(9, 999, None)));
}

#[test]
fn stored_records_are_not_inserted_again() {
    let mut table = EventTable::new();
    let batch = vec![record(1, 100), record(2, 200)];
    assert_eq!(RecordDB::add_all_records(&batch, &mut table), Ok(2));
    let stored = table.rows().clone();
    assert_eq!(RecordDB::add_all_records(&batch, &mut table), Ok(0));
    assert_eq!(table.rows(), &stored);
    assert_eq!(RecordDB::add_all_records(&vec![record(2, 200), record(3, 300)], &mut table), Ok(1));
    assert_eq!(
        table.rows(),
        &vec![row(1, 1, 100, None, None), row(2, 2, 200, None, None), row(3, 3, 300, None, None)]
    );
}

#[test]
fn link_resolution_sets_the_back_reference() {
    let mut table = EventTable::new();
    assert_eq!(table.insert_events(&vec![event(5, 100, None), event(7, 200, Some(5))]), Ok(2));
    assert_eq!(table.rows(), &vec![row(1, 5, 100, None, None), row(2, 7, 200, Some(5), None)]);
    table.update_id_references();
    let once = table.rows().clone();
    assert_eq!(once, vec![row(1, 5, 100, None, None), row(2, 7, 200, Some(5), Some(1))]);
    RecordDB::update_id_references(&mut table);
    assert_eq!(table.rows(), &once);
}

#[test]
fn link_to_a_row_that_arrives_later() {
    let mut table = EventTable::with_first_key(10).unwrap();
    assert_eq!(table.insert_events(&vec![event(7, 200, Some(5)), event(8, 300, Some(6))]), Ok(2));
    table.update_id_references();
    assert_eq!(table.rows(), &vec![row(10, 7, 200, Some(5), None), row(11, 8, 300, Some(6), None)]);
    assert_eq!(table.insert_events(&vec![event(5, 100, Some(8))]), Ok(1));
    table.update_id_references();
    assert_eq!(
        table.rows(),
        &vec![row(10, 7, 200, Some(5), Some(12)), row(11, 8, 300, Some(6), None), row(12, 5, 100, Some(8), Some(11))]
    );
}

#[test]
fn row_does_not_link_to_itself() {
    let mut table = EventTable::new();
    assert_eq!(table.insert_events(&vec![event(5, 100, Some(5))]), Ok(1));
    table.update_id_references();
    assert_eq!(table.rows(), &vec![row(1, 5, 100, Some(5), None)]);
}

#[test]
fn batch_that_needs_more_keys_than_are_left() {
    let mut table = EventTable::with_first_key(i32::MAX - 1).unwrap();
    assert_eq!(table.insert_events(&vec![event(1, 100, None), event(2, 200, None)]), Err(StorageError::Insert));
    assert_eq!(table.rows(), &Vec::new());
    assert_eq!(RecordDB::add_all_records(&vec![record(1, 100), record(1, 100)], &mut table), Ok(1));
    let stored = vec![row(i32::MAX - 1, 1, 100, None, None)];
    assert_eq!(table.rows(), &stored);
    assert_eq!(table.insert_events(&vec![event(1, 300, None), event(3, 300, None)]), Err(StorageError::Insert));
    assert_eq!(table.rows(), &stored);
}

#[test]
fn table_without_keys_still_refuses_what_it_holds() {
    let mut table = EventTable::with_first_key(i32::MAX - 1).unwrap();
    assert_eq!(table.insert_events(&vec![event(1, 100, None)]), Ok(1));
    let stored = table.rows().clone();
    assert_eq!(table.insert_events(&vec![event(1, 100, None), event(1, 500, None), event(7, 100, None)]), Ok(0));
    assert_eq!(RecordDB::add_all_records(&vec![record(1, 100), record(1, 100)], &mut table), Ok(0));
    assert_eq!(table.insert_events(&Vec::new()), Ok(0));
    assert_eq!(table.rows(), &stored);
}

#[test]
fn table_from_stored_rows() {
    let rows = vec![row(3, 5, 100, None, None), row(8, 7, 200, Some(5), None)];
    let mut table = EventTable::from_rows(rows.clone(), 9).unwrap();
    assert_eq!(table.rows(), &rows);
    table.update_id_references();
    let once = table.rows().clone();
    assert_eq!(once, vec![row(3, 5, 100, None, None), row(8, 7, 200, Some(5), Some(3))]);
    table.update_id_references();
    assert_eq!(table.rows(), &once);
    assert_eq!(table.insert_events(&vec![event(9, 300, None)]), Ok(1));
    assert_eq!(table.rows()[2], row(9, 9, 300, None, None));
}

#[test]
fn stored_rows_that_are_no_table() {
    assert!(EventTable::from_rows(Vec::new(), 1).is_some());
    assert!(EventTable::from_rows(Vec::new(), 0).is_none());
    assert!(EventTable::from_rows(vec![row(1, 5, 100, None, None), row(2, 5, 200, None, None)], 3).is_none());
    assert!(EventTable::from_rows(vec![row(1, 5, 100, None, None), row(2, 6, 100, None, None)], 3).is_none());
    assert!(EventTable::from_rows(vec![row(1, 5, 100, None, None), row(1, 6, 200, None, None)], 3).is_none());
    assert!(EventTable::from_rows(vec![row(1, 5, 100, None, None), row(3, 6, 200, None, None)], 3).is_none());
    assert!(EventTable::from_rows(vec![row(0, 5, 100, None, None)], 3).is_none());
    assert!(EventTable::from_rows(vec![row(2, 6, 200, None, None), row(1, 5, 100, None, None)], 3).is_some());
}

#[test]
fn resolution_keeps_a_link_without_a_target() {
    let rows = vec![row(1, 5, 100, Some(6), Some(4)), row(2, 7, 200, None, Some(1))];
    let mut table = EventTable::from_rows(rows.clone(), 3).unwrap();
    table.update_id_references();
    assert_eq!(table.rows(), &rows);
}

#[test]
fn single_record_is_inserted_and_returned() {
    let mut table = EventTable::from_rows(vec![row(1, 7, 200, Some(5), None)], 2).unwrap();
    assert_eq!(RecordDB::add_record(&record(5, 100), &mut table), Ok(row(2, 5, 100, None, None)));
    assert_eq!(table.rows(), &vec![row(1, 7, 200, Some(5), Some(2)), row(2, 5, 100, None, None)]);
}

#[test]
fn single_record_that_the_table_holds() {
    let mut table = EventTable::new();
    assert_eq!(RecordDB::add_record(&record(5, 100), &mut table), Ok(row(1, 5, 100, None, None)));
    let stored = table.rows().clone();
    assert_eq!(RecordDB::add_record(&record(5, 100), &mut table), Err(StorageError::Insert));
    assert_eq!(RecordDB::add_record(&record(5, 300), &mut table), Err(StorageError::Insert));
    assert_eq!(RecordDB::add_record(&record(6, 100), &mut table), Err(StorageError::Insert));
    assert_eq!(table.rows(), &stored);
    let mut full = EventTable::with_first_key(i32::MAX).unwrap();
    assert_eq!(RecordDB::add_record(&record(5, 100), &mut full), Err(StorageError::Insert));
}

#[test]
fn second_run_of_a_batch_changes_nothing() {
    let mut table = EventTable::from_rows(vec![row(1, 7, 200, Some(5), None)], 2).unwrap();
    let batch = vec![record(5, 100), record(5, 100), record(7, 900), record(8, 300)];
    assert_eq!(RecordDB::add_all_records(&batch, &mut table), Ok(2));
    let stored = table.rows().clone();
    assert_eq!(
        stored,
        vec![row(1, 7, 200, Some(5), Some(2)), row(2, 5, 100, None, None), row(3, 8, 300, None, None)]
    );
    assert_eq!(RecordDB::add_all_records(&batch, &mut table), Ok(0));
    assert_eq!(table.rows(), &stored);
    assert_eq!(RecordDB::add_all_records(&Vec::new(), &mut table), Ok(0));
    assert_eq!(table.rows(), &stored);
}
