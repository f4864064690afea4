use ticket_queue::api::{create_new_queue, get_current_queues};
use ticket_queue::clock::{LocalDate, Timestamp};
use ticket_queue::store::{CreateQueueRequest, QueueStore};

fn ts(year: u32, month: u32, day: u32) -> Timestamp {
    Timestamp::new(year, month, day, 8, 0, 0, 0).unwrap()
}

fn request(loket: &str) -> CreateQueueRequest {
    CreateQueueRequest {
        loket_type: String::from(loket),
        patient_type: String::from("Umum"),
    }
}

#[test]
fn sweep_removes_strictly_older_rows_only() {
    let mut store = QueueStore::new();
    store.create_queue(&request("A"), &ts(2024, 1, 1));
    store.create_queue(&request("A"), &ts(2024, 1, 2));
    store.create_queue(&request("A"), &ts(2024, 1, 3));
    store.create_queue(&request("A"), &ts(2024, 1, 9));
    let cutoff = LocalDate { year: 2024, month: 1, day: 3 };
    store.clean_old_queues(&cutoff);
    let dates: Vec<&str> = store
        .rows
        .iter()
        .map(|q| &q.created_at[0..10])
        .collect();
    assert_eq!(dates, vec!["2024-01-03", "2024-01-09"]);
}

#[test]
fn sweep_twice_is_a_no_op_the_second_time() {
    let mut store = QueueStore::new();
    store.create_queue(&request("A"), &ts(2024, 1, 1));
    store.create_queue(&request("B"), &ts(2024, 1, 5));
    store.create_queue(&request("A"), &ts(2024, 1, 10));
    let cutoff = LocalDate { year: 2024, month: 1, day: 3 };
    store.clean_old_queues(&cutoff);
    let after_first: Vec<String> =
        store.rows.iter().map(|q| q.queue_code.clone()).collect();
    store.clean_old_queues(&cutoff);
    let after_second: Vec<String> =
        store.rows.iter().map(|q| q.queue_code.clone()).collect();
    assert_eq!(after_first, after_second);
    assert_eq!(store.rows.len(), 2);
}

#[test]
fn sweep_on_empty_store_is_safe() {
    let mut store = QueueStore::new();
    let cutoff = LocalDate { year: 2024, month: 1, day: 3 };
    store.clean_old_queues(&cutoff);
    assert_eq!(store.rows.len(), 0);
}

#[test]
fn operations_sweep_with_the_seven_day_window() {
    let mut store = QueueStore::new();
    // 2024-01-01 is more than seven days before 2024-01-10; 2024-01-05 is not.
    store.create_queue(&request("A"), &ts(2024, 1, 1));
    store.create_queue(&request("A"), &ts(2024, 1, 5));
    let now = ts(2024, 1, 10);
    let counts = get_current_queues(&mut store, &now);
    assert_eq!(store.rows.len(), 1);
    assert_eq!(&store.rows[0].created_at[0..10], "2024-01-05");
    assert_eq!(counts.loket_a, 0);
    assert_eq!(counts.loket_b, 0);
}

#[test]
fn allocation_counts_after_the_sweep() {
    let mut store = QueueStore::new();
    store.create_queue(&request("A"), &ts(2024, 1, 1));
    store.create_queue(&request("A"), &ts(2024, 1, 10));
    let now = ts(2024, 1, 10);
    let q = create_new_queue(&mut store, &request("A"), &now);
    // The 2024-01-01 row was swept; the same-day row still counts.
    assert_eq!(q.queue_number, 2);
    assert_eq!(q.queue_code.as_str(), "A002");
    assert_eq!(store.rows.len(), 2);
}
