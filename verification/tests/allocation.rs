use ticket_queue::clock::Timestamp;
use ticket_queue::store::{CreateQueueRequest, QueueStore};

fn ts(year: u32, month: u32, day: u32, hour: u32) -> Timestamp {
    Timestamp::new(year, month, day, hour, 0, 0, 0).unwrap()
}

fn request(loket: &str, patient: &str) -> CreateQueueRequest {
    CreateQueueRequest {
        loket_type: String::from(loket),
        patient_type: String::from(patient),
    }
}

#[test]
fn sequence_numbers_are_one_through_n() {
    let mut store = QueueStore::new();
    let now = ts(2024, 5, 20, 9);
    let mut numbers = Vec::new();
    for _ in 0..5 {
        let q = store.create_queue(&request("A", "Umum"), &now);
        numbers.push(q.queue_number);
    }
    assert_eq!(numbers, vec![1, 2, 3, 4, 5]);
}

#[test]
fn codes_join_counter_and_padded_number() {
    let mut store = QueueStore::new();
    let now = ts(2024, 5, 20, 9);
    let q1 = store.create_queue(&request("A", "Umum"), &now);
    let q2 = store.create_queue(&request("A", "BPJS"), &now);
    assert_eq!(q1.queue_code.as_str(), "A001");
    assert_eq!(q2.queue_code.as_str(), "A002");
    assert_eq!(q1.status.as_str(), "waiting");
    assert_eq!(q1.created_at.as_str(), "2024-05-20T09:00:00.000Z");
    assert_eq!(q1.created_at, q1.updated_at);
}

#[test]
fn counters_have_independent_sequences() {
    let mut store = QueueStore::new();
    let now = ts(2024, 5, 20, 9);
    let a1 = store.create_queue(&request("A", "Umum"), &now);
    let b1 = store.create_queue(&request("B", "Umum"), &now);
    let a2 = store.create_queue(&request("A", "Umum"), &now);
    assert_eq!(a1.queue_number, 1);
    assert_eq!(b1.queue_number, 1);
    assert_eq!(a2.queue_number, 2);
}

#[test]
fn new_day_resets_sequence_to_one() {
    let mut store = QueueStore::new();
    let yesterday = ts(2024, 5, 20, 23);
    for _ in 0..3 {
        store.create_queue(&request("A", "Umum"), &yesterday);
    }
    store.create_queue(&request("B", "Umum"), &yesterday);
    // The first moment of the next local day.
    let midnight = Timestamp::new(2024, 5, 21, 0, 0, 0, 0).unwrap();
    let a = store.create_queue(&request("A", "Umum"), &midnight);
    assert_eq!(a.queue_number, 1);
    assert_eq!(a.queue_code.as_str(), "A001");
    let b = store.create_queue(&request("B", "Umum"), &midnight);
    assert_eq!(b.queue_number, 1);
}

#[test]
fn identifiers_are_unique_and_increasing() {
    let mut store = QueueStore::new();
    let now = ts(2024, 5, 20, 9);
    let q1 = store.create_queue(&request("A", "Umum"), &now);
    let q2 = store.create_queue(&request("B", "Umum"), &now);
    let q3 = store.create_queue(&request("A", "Umum"), &now);
    assert!(q1.id < q2.id && q2.id < q3.id);
}

#[test]
fn counts_are_per_counter_and_per_day() {
    let mut store = QueueStore::new();
    let day_one = ts(2024, 5, 20, 9);
    let day_two = ts(2024, 5, 21, 9);
    store.create_queue(&request("A", "Umum"), &day_one);
    store.create_queue(&request("A", "Umum"), &day_one);
    store.create_queue(&request("B", "Umum"), &day_one);
    store.create_queue(&request("A", "Umum"), &day_two);
    let counts_one = store.get_queue_counts(&day_one);
    assert_eq!(counts_one.loket_a, 2);
    assert_eq!(counts_one.loket_b, 1);
    let counts_two = store.get_queue_counts(&day_two);
    assert_eq!(counts_two.loket_a, 1);
    assert_eq!(counts_two.loket_b, 0);
}
