use g13_nexus::hid::{is_g13_device, presses, scan_order, G13Key, ReportTracker};

fn idle_report() -> Vec<u8> {
    // stick centred, nothing pressed
    vec![1, 128, 128, 0, 0, 0, 0, 0]
}

fn names(keys: &[G13Key]) -> Vec<String> {
    keys.iter().map(|k| k.name()).collect()
}

#[test]
fn scan_order_lists_every_control_once() {
    let order = scan_order();
    assert_eq!(order.len(), 37);
    let n = names(&order);
    assert_eq!(n[0], "TOP1");
    assert_eq!(n[7], "MR");
    assert_eq!(n[10], "STICK_CLICK");
    assert_eq!(n[11], "G1");
    assert_eq!(n[32], "G22");
    assert_eq!(&n[33..], &["STICK_UP", "STICK_DOWN", "STICK_LEFT", "STICK_RIGHT"]);
}

#[test]
fn report_bits_match_the_device_layout() {
    assert_eq!(G13Key::Top1.report_bit(), Some((6, 0x02)));
    assert_eq!(G13Key::M3.report_bit(), Some((6, 0x80)));
    assert_eq!(G13Key::Mr.report_bit(), Some((7, 0x01)));
    assert_eq!(G13Key::StickClick.report_bit(), Some((7, 0x08)));
    assert_eq!(G13Key::G1.report_bit(), Some((3, 0x01)));
    assert_eq!(G13Key::G9.report_bit(), Some((4, 0x01)));
    assert_eq!(G13Key::G16.report_bit(), Some((4, 0x80)));
    assert_eq!(G13Key::G22.report_bit(), Some((5, 0x20)));
    assert_eq!(G13Key::StickUp.report_bit(), None);
}

#[test]
fn pressing_g1_is_reported() {
    let prev = idle_report();
    let mut now = idle_report();
    now[3] = 0x01;
    assert_eq!(names(&presses(&now, &prev)), vec!["G1"]);
}

#[test]
fn several_presses_come_in_scan_order() {
    let prev = idle_report();
    let mut now = idle_report();
    now[3] = 0x81; // G1 and G8
    now[6] = 0x20; // M1
    now[7] = 0x01; // MR
    assert_eq!(names(&presses(&now, &prev)), vec!["M1", "MR", "G1", "G8"]);
}

#[test]
fn held_key_is_not_reported_again() {
    let mut now = idle_report();
    now[4] = 0x10; // G13
    assert!(presses(&now, &now).is_empty());
}

#[test]
fn released_key_is_not_reported() {
    let mut prev = idle_report();
    prev[5] = 0x20; // G22 held before
    let now = idle_report();
    assert!(presses(&now, &prev).is_empty());
}

#[test]
fn stick_directions_fire_on_crossing_thresholds() {
    let prev = idle_report();
    let mut now = idle_report();
    now[2] = 49; // up
    now[1] = 201; // right
    assert_eq!(names(&presses(&now, &prev)), vec!["STICK_UP", "STICK_RIGHT"]);
    let mut down_left = idle_report();
    down_left[2] = 201;
    down_left[1] = 10;
    assert_eq!(names(&presses(&down_left, &prev)), vec!["STICK_DOWN", "STICK_LEFT"]);
}

#[test]
fn stick_at_threshold_is_not_a_press() {
    let prev = idle_report();
    let mut now = idle_report();
    now[2] = 50;
    now[1] = 200;
    assert!(presses(&now, &prev).is_empty());
}

#[test]
fn tracker_reports_once_and_remembers() {
    let mut t = ReportTracker::new();
    assert_eq!(t.prev, [0u8; 8]);
    let mut buf = vec![0u8; 64];
    buf[1] = 128;
    buf[2] = 128;
    buf[3] = 0x02; // G2
    let first = t.process(&buf, 8);
    assert_eq!(names(&first), vec!["G2"]);
    assert_eq!(t.prev, [0, 128, 128, 0x02, 0, 0, 0, 0]);
    let second = t.process(&buf, 64);
    assert!(second.is_empty());
}

#[test]
fn tracker_starts_with_stick_pressed_up_and_left() {
    // before any report the stick reads 0,0, which counts as up and left
    let mut t = ReportTracker::new();
    let mut buf = vec![0u8; 8];
    buf[1] = 0;
    buf[2] = 0;
    assert!(t.process(&buf, 8).is_empty());
}

#[test]
fn short_report_is_ignored() {
    let mut t = ReportTracker::new();
    let mut buf = vec![0xffu8; 64];
    buf[0] = 1;
    let events = t.process(&buf, 7);
    assert!(events.is_empty());
    assert_eq!(t.prev, [0u8; 8]);
}

#[test]
fn g13_is_recognised_by_ids() {
    assert!(is_g13_device(0x046d, 0xc21c));
    assert!(!is_g13_device(0x046d, 0xc21d));
    assert!(!is_g13_device(0x046e, 0xc21c));
}
