use k210_shared::ns2009::{
    calibrate, calibration_is_valid, is_contact, read, Event, EventKind, TSFilter, TouchScreen,
    command,
};

const IDENTITY: [i32; 7] = [1, 0, 0, 0, 1, 0, 1];

fn ev(kind: EventKind, x: i32, y: i32, z: i32) -> Option<Event> {
    Some(Event { kind, x, y, z })
}

fn screen(median_len: usize, mean_len: usize) -> TouchScreen {
    TouchScreen::init_with_windows(IDENTITY, median_len, mean_len, Ok(0)).unwrap()
}

#[test]
fn read_decodes_twelve_bits() {
    assert_eq!(read(Ok([0xAB, 0xCD])), Ok(0xABC));
    assert_eq!(read(Ok([0xFF, 0xFF])), Ok(4095));
    assert_eq!(read(Ok([0, 0x0F])), Ok(0));
    assert_eq!(read(Err(())), Err(()));
}

#[test]
fn command_codes() {
    assert_eq!(command::LOW_POWER_READ_X.code(), 0xc0);
    assert_eq!(command::LOW_POWER_READ_Y.code(), 0xd0);
    assert_eq!(command::LOW_POWER_READ_Z1.code(), 0xe0);
    assert_eq!(command::LOW_POWER_READ_Z2.code(), 0xf0);
}

#[test]
fn contact_bounds_are_exclusive() {
    assert!(!is_contact(80));
    assert!(is_contact(81));
    assert!(is_contact(1999));
    assert!(!is_contact(2000));
    assert!(!is_contact(0));
}

#[test]
fn calibrate_exact_values() {
    assert_eq!(calibrate(&IDENTITY, 100, 200), (100, 200));
    // x = (10 + 3*7 + 2*5) / 4 = 41 / 4, y = (-50 + 1*7 - 1*5) / 4 = -48 / 4
    assert_eq!(calibrate(&[3, 2, 10, 1, -1, -50, 4], 7, 5), (10, -12));
    // -49 / 4 truncates toward zero
    assert_eq!(calibrate(&[0, 0, 0, 0, 0, -49, 4], 1, 1), (0, -12));
    // negative divisor
    assert_eq!(calibrate(&[1, 0, 0, 0, 1, 0, -3], 10, 11), (-3, -3));
}

#[test]
fn calibrate_is_pure() {
    let cal = [-7356, 13, 27048096, 8, 5102, -1262300, 65536];
    assert!(calibration_is_valid(&cal));
    let a = calibrate(&cal, 1234, 2345);
    let b = calibrate(&cal, 1234, 2345);
    assert_eq!(a, b);
    assert_eq!(a, ((27048096 - 7356 * 1234 + 13 * 2345) / 65536, (-1262300 + 8 * 1234 + 5102 * 2345) / 65536));
}

#[test]
fn calibration_validity() {
    assert!(calibration_is_valid(&IDENTITY));
    assert!(!calibration_is_valid(&[1, 0, 0, 0, 1, 0, 0]));
    assert!(!calibration_is_valid(&[i32::MAX, 0, 0, 0, 1, 0, 1]));
    assert!(!calibration_is_valid(&[0, 0, i32::MIN, 0, 1, 0, 1]));
}

#[test]
fn filter_rejects_single_spike() {
    let mut f = TSFilter::new(IDENTITY);
    assert_eq!(f.update(100, 100), (100, 100));
    assert_eq!(f.update(100, 100), (100, 100));
    assert_eq!(f.update(4000, 100), (100, 100));
}

#[test]
fn filter_averages_and_clears() {
    let mut f = TSFilter::with_windows(IDENTITY, 1, 2);
    assert_eq!(f.update(100, 10), (100, 10));
    assert_eq!(f.update(201, 20), (150, 15));
    f.clear();
    assert_eq!(f.update(300, 30), (300, 30));
}

#[test]
fn init_needs_an_answer() {
    assert!(TouchScreen::init(IDENTITY, Err(())).is_none());
    let t = TouchScreen::init(IDENTITY, Ok(5)).unwrap();
    assert!(!t.pressed());
}

#[test]
fn scenario_begin_move_end() {
    let mut t = screen(1, 1);
    assert_eq!(t.poll(Ok(50), Err(()), Err(())), None);
    assert_eq!(t.poll(Ok(500), Ok(100), Ok(100)), ev(EventKind::Begin, 100, 100, 500));
    assert_eq!(t.poll(Ok(500), Ok(100), Ok(100)), None);
    assert_eq!(t.poll(Ok(500), Ok(150), Ok(100)), ev(EventKind::Move, 150, 100, 500));
    assert_eq!(t.poll(Ok(50), Err(()), Err(())), ev(EventKind::End, 150, 100, 0));
}

#[test]
fn scenario_default_windows_hold_back_a_jump() {
    let mut t = TouchScreen::init(IDENTITY, Ok(0)).unwrap();
    assert_eq!(t.poll(Ok(50), Err(()), Err(())), None);
    assert_eq!(t.poll(Ok(500), Ok(100), Ok(100)), ev(EventKind::Begin, 100, 100, 500));
    assert_eq!(t.poll(Ok(500), Ok(100), Ok(100)), None);
    assert_eq!(t.poll(Ok(500), Ok(150), Ok(100)), None);
    assert_eq!(t.poll(Ok(50), Err(()), Err(())), ev(EventKind::End, 100, 100, 0));
}

#[test]
fn position_read_failure_is_ignored() {
    let mut t = screen(1, 1);
    assert_eq!(t.poll(Ok(500), Err(()), Ok(100)), None);
    assert!(!t.pressed());
    assert_eq!(t.poll(Ok(500), Ok(100), Ok(100)), ev(EventKind::Begin, 100, 100, 500));
    assert_eq!(t.poll(Ok(500), Err(()), Ok(300)), None);
    assert!(t.pressed());
    assert_eq!(t.poll(Ok(500), Ok(120), Err(())), None);
    assert!(t.pressed());
    assert_eq!(t.poll(Ok(50), Err(()), Err(())), ev(EventKind::End, 100, 100, 0));
}

#[test]
fn pressure_read_failure_is_ignored() {
    let mut t = screen(1, 1);
    assert_eq!(t.poll(Ok(500), Ok(7), Ok(8)), ev(EventKind::Begin, 7, 8, 500));
    assert_eq!(t.poll(Err(()), Ok(9), Ok(9)), None);
    assert!(t.pressed());
    assert_eq!(t.poll(Ok(500), Ok(9), Ok(9)), ev(EventKind::Move, 9, 9, 500));
}

#[test]
fn low_pressure_never_touches() {
    let mut t = screen(3, 2);
    for z in [0u16, 10, 50, 79, 80] {
        let e = t.poll(Ok(z), Ok(100), Ok(100));
        assert_eq!(e, None);
    }
    assert!(!t.pressed());
}

#[test]
fn too_much_pressure_is_no_contact() {
    let mut t = screen(1, 1);
    assert_eq!(t.poll(Ok(2500), Ok(100), Ok(100)), None);
    assert_eq!(t.poll(Ok(500), Ok(100), Ok(100)), ev(EventKind::Begin, 100, 100, 500));
    assert_eq!(t.poll(Ok(2000), Ok(100), Ok(100)), ev(EventKind::End, 100, 100, 0));
}

#[test]
fn one_begin_per_touch() {
    let mut t = screen(1, 1);
    let mut begins = 0;
    for (z, x) in [(500u16, 10u16), (600, 11), (700, 11), (50, 0), (500, 30), (500, 31)] {
        if let Some(e) = t.poll(Ok(z), Ok(x), Ok(x)) {
            if e.kind == EventKind::Begin {
                begins += 1;
            }
        }
    }
    assert_eq!(begins, 2);
}

#[test]
fn end_reports_last_reported_position() {
    let mut t = screen(1, 2);
    assert_eq!(t.poll(Ok(500), Ok(100), Ok(100)), ev(EventKind::Begin, 100, 100, 500));
    assert_eq!(t.poll(Ok(500), Ok(200), Ok(100)), ev(EventKind::Move, 150, 100, 500));
    assert_eq!(t.poll(Ok(500), Ok(200), Err(())), None);
    assert_eq!(t.poll(Ok(3000), Ok(999), Ok(999)), ev(EventKind::End, 150, 100, 0));
}

#[test]
fn end_resets_the_filter() {
    let mut t = screen(3, 2);
    let first = t.poll(Ok(500), Ok(100), Ok(200));
    assert_eq!(first, ev(EventKind::Begin, 100, 200, 500));
    // two samples: the upper median, then the mean of 100 and 300
    assert_eq!(t.poll(Ok(500), Ok(300), Ok(400)), ev(EventKind::Move, 200, 300, 500));
    assert_eq!(t.poll(Ok(50), Err(()), Err(())), ev(EventKind::End, 200, 300, 0));
    assert_eq!(t.poll(Ok(500), Ok(100), Ok(200)), first);
}
