use ticket_queue::codes::{format_date, format_timestamp, make_queue_code};
use ticket_queue::encoder::{generate_escpos_data, PrintTicketRequest};

#[test]
fn queue_code_pads_to_three_digits() {
    assert_eq!(make_queue_code("A", 7).as_str(), "A007");
    assert_eq!(make_queue_code("B", 1).as_str(), "B001");
    assert_eq!(make_queue_code("A", 42).as_str(), "A042");
    assert_eq!(make_queue_code("B", 999).as_str(), "B999");
}

#[test]
fn queue_code_keeps_all_digits_past_three() {
    assert_eq!(make_queue_code("A", 1000).as_str(), "A1000");
    assert_eq!(make_queue_code("A", 12345).as_str(), "A12345");
}

#[test]
fn queue_code_shape_matches_pattern() {
    let code = make_queue_code("A", 7);
    let bytes = code.as_bytes();
    assert_eq!(bytes.len(), 4);
    assert!(bytes[0].is_ascii_uppercase());
    assert!(bytes[1..].iter().all(|b| b.is_ascii_digit()));
}

#[test]
fn date_format_is_iso() {
    assert_eq!(format_date(2024, 1, 9).as_str(), "2024-01-09");
    assert_eq!(format_date(987, 12, 31).as_str(), "0987-12-31");
}

#[test]
fn timestamp_format_has_millisecond_precision() {
    assert_eq!(
        format_timestamp(2024, 1, 1, 8, 0, 0, 0).as_str(),
        "2024-01-01T08:00:00.000Z"
    );
    assert_eq!(
        format_timestamp(2025, 10, 12, 23, 59, 59, 999).as_str(),
        "2025-10-12T23:59:59.999Z"
    );
}

#[test]
fn encoder_golden_bytes() {
    let request = PrintTicketRequest {
        queue_code: String::from("A007"),
        loket_type: String::from("A"),
        patient_type: String::from("Umum"),
        created_at: String::from("2024-01-01T08:00:00.000Z"),
    };
    let data = generate_escpos_data(&request);

    let mut expected: Vec<u8> = Vec::new();
    expected.extend_from_slice(&[0x1b, 0x40]);
    expected.extend_from_slice(&[0x1b, 0x61, 1]);
    expected.extend_from_slice(&[0x1d, 0x21, 0x11]);
    expected.extend_from_slice(b"PUSKESMAS MREBET\n");
    expected.extend_from_slice(&[0x1d, 0x21, 0x00]);
    expected.extend_from_slice(b"Nomor Antrian\n\n");
    expected.extend_from_slice(&[0x1d, 0x21, 0x22]);
    expected.extend_from_slice(b"A007");
    expected.extend_from_slice(b"\n\n");
    expected.extend_from_slice(&[0x1d, 0x21, 0x00]);
    expected.extend_from_slice(&[0x1b, 0x61, 0]);
    expected.extend_from_slice(b"Loket: A\n");
    expected.extend_from_slice(b"Jenis: Umum\n");
    expected.extend_from_slice(b"Waktu: 2024-01-01T08:00:00.000Z\n\n");
    expected.extend_from_slice(&[0x1b, 0x61, 1]);
    expected.extend_from_slice(b"Terima Kasih\n");
    expected.extend_from_slice(b"Harap Menunggu\n\n\n");
    expected.extend_from_slice(&[0x1b, 0x64, 3]);
    expected.extend_from_slice(&[0x1d, 0x56, 0]);

    assert_eq!(data, expected);
    assert_eq!(&data[0..2], &[0x1b, 0x40]);
    assert_eq!(&data[data.len() - 3..], &[0x1d, 0x56, 0x00]);
}

#[test]
fn encoder_is_deterministic() {
    let request = PrintTicketRequest {
        queue_code: String::from("B012"),
        loket_type: String::from("B"),
        patient_type: String::from("BPJS"),
        created_at: String::from("2024-06-30T12:34:56.789Z"),
    };
    let again = PrintTicketRequest {
        queue_code: String::from("B012"),
        loket_type: String::from("B"),
        patient_type: String::from("BPJS"),
        created_at: String::from("2024-06-30T12:34:56.789Z"),
    };
    assert_eq!(generate_escpos_data(&request), generate_escpos_data(&again));
}
