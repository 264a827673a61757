use statusbar::bar::{error_blit, StatusBar};
use statusbar::render::{tick_json, version_json_string, Elem};
use statusbar::w::{Readings, TimeParts};
use statusbar::Error;

fn fixed_time() -> TimeParts {
    TimeParts { month0: 3, day: 7, hour: 12, minute: 30, second: 0 }
}

fn good_readings() -> Readings {
    Readings {
        time: fixed_time(),
        battery: Ok("Battery 0: Discharging, 42%, 01:30:00".to_string()),
        memory: Ok("Mem: 16000000 8000000 123456".to_string()),
    }
}

fn texts(v: &[Elem]) -> Vec<String> {
    v.iter().map(|e| e.text.clone()).collect()
}

#[test]
fn first_tick_renders_every_widget() {
    let mut sb = StatusBar::new();
    assert_eq!(sb.timers, vec![0, 0, 0]);
    assert!(sb.cache.iter().all(|c| c.is_empty()));
    sb.step(&good_readings()).expect("first tick should succeed");
    assert!(sb.cache.iter().all(|c| !c.is_empty()));
    // timers restart from each widget's cooldown and are decremented once
    assert_eq!(sb.timers, vec![0, 5, 3]);
    assert_eq!(sb.cache[0][0].text, "Apr 7    12:30:00");
}

#[test]
fn cooldowns_count_down_without_rerendering() {
    let mut sb = StatusBar::new();
    sb.step(&good_readings()).expect("tick");
    let battery_cache: Vec<String> = texts(&sb.cache[1]);
    let memory_cache: Vec<String> = texts(&sb.cache[2]);
    // the memory widget (cooldown 4) re-renders on tick 5, the battery
    // widget (cooldown 6) on tick 7; in between the caches are kept
    for tick in 2..=6 {
        let late = Readings {
            time: fixed_time(),
            battery: Ok("Battery 0: Discharging, 10%, 00:10:00".to_string()),
            memory: Ok("Mem: 16000000 2000000 123456".to_string()),
        };
        sb.step(&late).expect("tick");
        if tick < 5 {
            assert_eq!(texts(&sb.cache[2]), memory_cache, "tick {}", tick);
        }
        if tick < 7 {
            assert_eq!(texts(&sb.cache[1]), battery_cache, "tick {}", tick);
        }
        if tick == 5 {
            assert_ne!(texts(&sb.cache[2]), memory_cache);
        }
    }
    // tick 7: the battery widget finally re-renders
    let late = Readings {
        time: fixed_time(),
        battery: Ok("Battery 0: Discharging, 10%, 00:10:00".to_string()),
        memory: Ok("Mem: 16000000 2000000 123456".to_string()),
    };
    sb.step(&late).expect("tick");
    assert_ne!(texts(&sb.cache[1]), battery_cache);
}

#[test]
fn timer_values_follow_the_documented_offsets() {
    let mut sb = StatusBar::new();
    sb.step(&good_readings()).expect("tick");
    assert_eq!(sb.timers, vec![0, 5, 3]);
    sb.step(&good_readings()).expect("tick");
    assert_eq!(sb.timers, vec![0, 4, 2]);
    sb.step(&good_readings()).expect("tick");
    assert_eq!(sb.timers, vec![0, 3, 1]);
    sb.step(&good_readings()).expect("tick");
    assert_eq!(sb.timers, vec![0, 2, 0]);
    sb.step(&good_readings()).expect("tick");
    assert_eq!(sb.timers, vec![0, 1, 3]);
}

#[test]
fn failed_tick_leaves_state_unchanged() {
    let mut sb = StatusBar::new();
    sb.step(&good_readings()).expect("tick");
    // enough ticks pass for the battery widget to be due again
    for _ in 0..5 {
        sb.step(&good_readings()).expect("tick");
    }
    let timers_due = sb.timers.clone();
    let cache_due: Vec<Vec<String>> = sb.cache.iter().map(|c| texts(c)).collect();
    assert_eq!(timers_due, vec![0, 0, 2]);
    let bad = Readings {
        time: fixed_time(),
        battery: Err(Error::CmdFailed),
        memory: good_readings().memory,
    };
    let e = sb.step(&bad).expect_err("the due battery render must fail the tick");
    assert!(matches!(e, Error::CmdFailed));
    assert_eq!(sb.timers, timers_due);
    let cache_after: Vec<Vec<String>> = sb.cache.iter().map(|c| texts(c)).collect();
    assert_eq!(cache_after, cache_due);
}

#[test]
fn tick_display_substitutes_the_error_segment() {
    let mut sb = StatusBar::new();
    let shown = sb.tick_display(&good_readings());
    assert_eq!(shown.len(), sb.cache.iter().map(|c| c.len() + 1).sum::<usize>());
    // once the battery widget is due again, a failing battery source
    // aborts the tick and the error segment replaces the display
    for _ in 0..5 {
        sb.tick_display(&good_readings());
    }
    let bad = Readings {
        time: fixed_time(),
        battery: Err(Error::Utf8Error),
        memory: good_readings().memory,
    };
    let shown_err = sb.tick_display(&bad);
    assert_eq!(shown_err.len(), 1);
    assert_eq!(shown_err[0].text, "error: encountered invalid utf8 string   ");
    assert_eq!(shown_err[0].color, "#ff0000");
}

#[test]
fn error_blit_is_one_red_segment() {
    let v = error_blit(&Error::CmdFailed);
    assert_eq!(v.len(), 1);
    assert_eq!(v[0].text, "error: command failed to execute   ");
    assert_eq!(v[0].color, "#ff0000");

    let v2 = error_blit(&Error::BadCmdFormat("acpi doesn't match regex"));
    assert_eq!(v2[0].text, "error: bad command output: acpi doesn't match regex   ");
}

#[test]
fn assembled_blit_interleaves_spacers() {
    let mut sb = StatusBar::new();
    sb.step(&good_readings()).expect("tick");
    let all = sb.blit();
    let expected_len = sb.cache.iter().map(|c| c.len() + 1).sum::<usize>();
    assert_eq!(all.len(), expected_len);
    // a spacer segment follows each widget's segments
    assert_eq!(all[sb.cache[0].len()].text, "    ");
    assert_eq!(all[sb.cache[0].len()].color, "#ffffff");
    assert_eq!(all[expected_len - 1].text, "    ");
}

#[test]
fn stream_of_two_ticks_is_framed_json() {
    let mut sb = StatusBar::new();
    let mut out = String::new();
    out.push_str(version_json_string().as_str());
    out.push_str("\n[");
    for _ in 0..2 {
        let elems = match sb.step(&good_readings()) {
            Ok(()) => sb.blit(),
            Err(e) => error_blit(&e),
        };
        out.push_str(tick_json(&elems).as_str());
        out.push(',');
    }
    assert!(out.starts_with("{\"version\":1}\n["));
    let body = &out["{\"version\":1}\n[".len()..];
    assert!(body.ends_with(','));
    // exactly two JSON arrays, each terminated by a comma
    let mut rest = body;
    for _ in 0..2 {
        let end = rest.find("],").expect("an array terminated by a comma");
        let arr: serde_json::Value =
            serde_json::from_str(&rest[..end + 1]).expect("a well-formed JSON array");
        let items = arr.as_array().expect("an array");
        assert!(!items.is_empty());
        for item in items {
            assert!(item.get("full_text").is_some());
            assert!(item.get("color").is_some());
            assert_eq!(item.get("separator"), Some(&serde_json::Value::Bool(false)));
            assert_eq!(
                item.get("separator_block_width"),
                Some(&serde_json::Value::from(0))
            );
        }
        rest = &rest[end + 2..];
    }
    assert!(rest.is_empty());
}

#[test]
fn json_escaping_round_trips_through_a_parser() {
    let tricky = "a\"b\\c\nd\te\u{1}f";
    let elems = vec![Elem::new(tricky, "#ffffff")];
    let json = tick_json(&elems);
    let parsed: serde_json::Value = serde_json::from_str(&json).expect("well-formed JSON");
    assert_eq!(parsed[0]["full_text"].as_str(), Some(tricky));
}

#[test]
fn elem_json_is_byte_exact() {
    let e = Elem::new("a\"b\\c\n", "#ff0000");
    assert_eq!(
        e.into_json(),
        "{\"full_text\":\"a\\\"b\\\\c\\n\",\"color\":\"#ff0000\",\"separator\":false,\"separator_block_width\":0}"
    );
    assert_eq!(version_json_string(), "{\"version\":1}");
}
