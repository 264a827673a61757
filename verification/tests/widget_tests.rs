use statusbar::w::{BatteryW, DateTimeW, MemoryW, TimeParts, gather};
use statusbar::Error;

#[test]
fn clock_renders_fixed_format() {
    let w = DateTimeW::new();
    let v = w.render(&TimeParts { month0: 0, day: 5, hour: 7, minute: 3, second: 9 });
    assert_eq!(v.len(), 1);
    assert_eq!(v[0].text, "Jan 5    07:03:09");
    assert_eq!(v[0].color, "#ffffff");

    let v2 = w.render(&TimeParts { month0: 11, day: 31, hour: 23, minute: 59, second: 58 });
    assert_eq!(v2[0].text, "Dec 31    23:59:58");
}

#[test]
fn battery_discharging_forty_two_percent() {
    let w = BatteryW::new();
    let v = w
        .render(&Ok("Battery 0: Discharging, 42%, 01:30:00".to_string()))
        .expect("battery text should render");
    // "bat: [", 4 filled glyphs, the blank, "]  ", the percentage, the time
    assert_eq!(v.len(), 9);
    assert_eq!(v[0].text, "bat: [");
    for e in v.iter().skip(1).take(4) {
        assert_eq!(e.text, "#");
    }
    assert_eq!(v[5].text, "    ");
    assert_eq!(v[5].color, "#000000");
    assert_eq!(v[6].text, "]  ");
    assert_eq!(v[7].text, "42% ");
    assert_eq!(v[7].color, "#51e800");
    assert_eq!(v[8].text, " 1h30");
    assert_eq!(v[8].color, "#3d3d53");
}

#[test]
fn battery_charging_uses_arrow_glyph() {
    let w = BatteryW::new();
    let v = w
        .render(&Ok("Battery 0: Charging, 9%, 00:20:00".to_string()))
        .expect("battery text should render");
    // 9% fills min(8 * 9 / 100 + 1, 8) = 1 slot
    assert_eq!(v.len(), 6);
    assert_eq!(v[1].text, ">");
    assert_eq!(v[4].text, "09% ");
    assert_eq!(v[4].color, "#0062d7");
    assert_eq!(v[5].text, " 0h20");
}

#[test]
fn battery_full_shows_full_text() {
    let w = BatteryW::new();
    let v = w
        .render(&Ok("Battery 0: Full, 100%, discharging at zero rate".to_string()))
        .expect("battery text should render");
    // 100% fills the whole eight-slot bar
    assert_eq!(v.len(), 13);
    assert_eq!(v[11].text, "100% ");
    assert_eq!(v[11].color, "#ffffff");
    assert_eq!(v[12].text, "full.");
}

#[test]
fn battery_reports_no_match() {
    let w = BatteryW::new();
    match w.render(&Ok("garbage".to_string())) {
        Err(Error::BadCmdFormat(m)) => assert_eq!(m, "acpi doesn't match regex"),
        other => panic!("expected a format error, got {:?}", other),
    }
}

#[test]
fn battery_reports_unknown_status_word() {
    let w = BatteryW::new();
    match w.render(&Ok("Battery 0: Unknown, 50%, 01:00:00".to_string())) {
        Err(Error::BadCmdFormat(m)) => assert_eq!(m, "not charging or discharging?"),
        other => panic!("expected a format error, got {:?}", other),
    }
}

#[test]
fn battery_reports_percentage_overflow() {
    let w = BatteryW::new();
    match w.render(&Ok("Battery 0: Discharging, 99999999999%, 01:30:00".to_string())) {
        Err(Error::BadCmdFormat(m)) => assert_eq!(m, "invalid int"),
        other => panic!("expected a format error, got {:?}", other),
    }
}

#[test]
fn battery_passes_source_failure_through() {
    let w = BatteryW::new();
    match w.render(&Err(Error::CmdFailed)) {
        Err(Error::CmdFailed) => {},
        other => panic!("expected the source failure, got {:?}", other),
    }
}

#[test]
fn memory_renders_used_megabytes() {
    let w = MemoryW::new();
    let v = w
        .render(&Ok("Mem: 16000000 8000000 123456".to_string()))
        .expect("memory text should render");
    // 8000000 kB and 16000000 kB are 7812 and 15625 whole megabytes
    assert_eq!(v[0].text, "mem: [");
    let filled = std::cmp::min(12 * 7812 / 15625 + 1, 12) as usize;
    assert_eq!(v.len(), filled + 4);
    for e in v.iter().skip(1).take(filled) {
        assert_eq!(e.text, "\\");
        assert_eq!(e.color, "#20ba00");
    }
    assert_eq!(v[filled + 1].text.len(), 12 - filled);
    assert_eq!(v[filled + 2].text, "] ");
    assert_eq!(v[filled + 3].text, "7812mb");
    assert_eq!(v[filled + 3].color, "#3d3d53");
}

#[test]
fn memory_reports_no_match() {
    let w = MemoryW::new();
    match w.render(&Ok("Swap: 1 2 3".to_string())) {
        Err(Error::BadCmdFormat(m)) => assert_eq!(m, "free doesn't match regex"),
        other => panic!("expected a format error, got {:?}", other),
    }
}

#[test]
fn memory_reports_zero_total() {
    let w = MemoryW::new();
    match w.render(&Ok("Mem: 100 50 10".to_string())) {
        Err(Error::BadCmdFormat(m)) => assert_eq!(m, "zero total memory"),
        other => panic!("expected a format error, got {:?}", other),
    }
}

#[test]
fn memory_reports_unparsable_number() {
    let w = MemoryW::new();
    match w.render(&Ok("Mem: 99999999999999999999 5 1".to_string())) {
        Err(Error::BadCmdFormat(m)) => assert_eq!(m, "invalid int"),
        other => panic!("expected a format error, got {:?}", other),
    }
}

#[test]
fn gather_keeps_texts_and_reads_a_valid_time() {
    let r = gather(Ok("abc".to_string()), Err(Error::CmdFailed));
    assert!(matches!(r.battery, Ok(ref s) if s == "abc"));
    assert!(matches!(r.memory, Err(Error::CmdFailed)));
    assert!(r.time.month0 < 12);
    assert!((1..=31).contains(&r.time.day));
    assert!(r.time.hour < 24);
    assert!(r.time.minute < 60);
    assert!(r.time.second < 60);
}

#[test]
fn error_messages_are_fixed() {
    assert_eq!(Error::CmdFailed.message(), "command failed to execute");
    assert_eq!(Error::Utf8Error.message(), "encountered invalid utf8 string");
    assert_eq!(
        Error::BadCmdFormat("free doesn't match regex").message(),
        "bad command output: free doesn't match regex"
    );
}
