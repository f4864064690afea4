use ticket_queue::dispatch::{fallback_message, success_message, Dispatcher};
use ticket_queue::resolver::{
    build_candidates, is_likely_thermal_printer, spooler_candidate_names, DeviceCandidate,
    TransportKind,
};

#[test]
fn serial_port_filter_matches_expectations() {
    assert!(is_likely_thermal_printer("/dev/ttyUSB0"));
    assert!(!is_likely_thermal_printer("/dev/ttyS0"));
    assert!(is_likely_thermal_printer("COM-POS1"));
    assert!(is_likely_thermal_printer("/dev/ttyACM2"));
    assert!(is_likely_thermal_printer("/dev/cu.usbserial-1420"));
    assert!(is_likely_thermal_printer("/dev/cu.usbmodem101"));
    assert!(is_likely_thermal_printer("Generic Printer Port"));
    assert!(!is_likely_thermal_printer(""));
    assert!(!is_likely_thermal_printer("/dev/tty0"));
    // The containment match is case-sensitive.
    assert!(!is_likely_thermal_printer("/dev/ttyusb0"));
}

#[test]
fn curated_names_come_in_order() {
    let names = spooler_candidate_names();
    let expected = vec![
        "USB-001", "USB001", "USB-002", "USB002", "POS-80", "TP806", "TP860",
        "Thermal Printer", "XP-80C", "ZJ-80",
    ];
    let got: Vec<&str> = names.iter().map(|s| s.as_str()).collect();
    assert_eq!(got, expected);
}

#[test]
fn candidates_are_ordered_and_filtered() {
    let registered = vec![String::from("Office Laser"), String::from("Receipt-1")];
    let ports = vec![
        String::from("/dev/ttyS0"),
        String::from("/dev/ttyUSB0"),
        String::from("COM-POS1"),
    ];
    let candidates = build_candidates(true, &registered, &ports);
    assert_eq!(candidates.len(), 10 + 2 + 2);
    assert!(candidates[..12]
        .iter()
        .all(|c| c.kind == TransportKind::Spooler));
    assert_eq!(candidates[0].name.as_str(), "USB-001");
    assert_eq!(candidates[10].name.as_str(), "Office Laser");
    assert_eq!(candidates[11].name.as_str(), "Receipt-1");
    assert_eq!(candidates[12].kind, TransportKind::Serial);
    assert_eq!(candidates[12].name.as_str(), "/dev/ttyUSB0");
    assert_eq!(candidates[13].name.as_str(), "COM-POS1");
}

#[test]
fn dispatch_reports_all_devices_failed_with_one_reason_each() {
    let ports = vec![String::from("/dev/ttyUSB0"), String::from("COM-POS1")];
    let candidates = build_candidates(true, &Vec::new(), &ports);
    let total = candidates.len();
    assert_eq!(total, 12);
    let mut dispatcher = Dispatcher::new(candidates);
    let mut attempts = 0;
    while let Some(candidate) = dispatcher.current() {
        let reason = format!("open failed on {}", candidate.name);
        dispatcher.record_failure(reason);
        attempts += 1;
    }
    assert_eq!(attempts, total);
    let outcome = dispatcher.finish();
    let failure = outcome.err().expect("every candidate failed");
    assert_eq!(failure.reasons.len(), total);
    assert_eq!(failure.reasons[0].as_str(), "open failed on USB-001");
    assert_eq!(
        failure.reasons[total - 1].as_str(),
        "open failed on COM-POS1"
    );
}

#[test]
fn dispatch_stops_at_first_success() {
    let candidates = vec![
        DeviceCandidate { kind: TransportKind::Spooler, name: String::from("USB-001") },
        DeviceCandidate { kind: TransportKind::Spooler, name: String::from("USB001") },
        DeviceCandidate { kind: TransportKind::Serial, name: String::from("/dev/ttyUSB0") },
    ];
    let mut dispatcher = Dispatcher::new(candidates);
    dispatcher.record_failure(String::from("no such device"));
    dispatcher.record_success();
    assert!(dispatcher.current().is_none());
    let outcome = dispatcher.finish();
    assert_eq!(outcome.ok().expect("succeeded").as_str(), "USB001");
}

#[test]
fn user_messages_name_the_device_and_the_fallback() {
    assert_eq!(
        success_message("USB001").as_str(),
        "Berhasil mencetak ke USB001"
    );
    assert_eq!(
        fallback_message("Tidak ada printer thermal yang ditemukan").as_str(),
        "Printer thermal tidak ditemukan: Tidak ada printer thermal yang ditemukan. Gunakan print dialog."
    );
}

#[test]
fn without_a_spooler_only_serial_ports_are_candidates() {
    let registered = vec![String::from("Office Laser")];
    let ports = vec![
        String::from("/dev/ttyS0"),
        String::from("/dev/ttyUSB0"),
        String::from("COM-POS1"),
    ];
    let candidates = build_candidates(false, &registered, &ports);
    assert_eq!(candidates.len(), 2);
    assert!(candidates.iter().all(|c| c.kind == TransportKind::Serial));
    assert_eq!(candidates[0].name.as_str(), "/dev/ttyUSB0");
    assert_eq!(candidates[1].name.as_str(), "COM-POS1");
}
