use statusbar::fillbar::{parse_color, FillBar, ParseRGBError, RGB};

#[test]
fn rgb_conv_test() {
    assert_eq!(parse_color("#123456"), Ok(RGB { r: 0x12, g: 0x34, b: 0x56 }));
    assert_eq!((RGB { r: 0x12, g: 0x34, b: 0x56 }).to_string(), "#123456");
}

#[test]
fn parse_color_round_trips_uppercase_too() {
    assert_eq!(parse_color("#ABCDEF"), Ok(RGB { r: 0xab, g: 0xcd, b: 0xef }));
    assert_eq!(parse_color("#abcdef"), Ok(RGB { r: 0xab, g: 0xcd, b: 0xef }));
    assert_eq!((RGB { r: 0, g: 0, b: 0 }).to_string(), "#000000");
    assert_eq!((RGB { r: 255, g: 255, b: 255 }).to_string(), "#ffffff");
    assert_eq!(parse_color("#ffffff"), Ok(RGB { r: 255, g: 255, b: 255 }));
}

#[test]
fn parse_color_rejects_bad_strings() {
    assert_eq!(parse_color(""), Err(ParseRGBError));
    assert_eq!(parse_color("#12345"), Err(ParseRGBError));
    assert_eq!(parse_color("#1234567"), Err(ParseRGBError));
    assert_eq!(parse_color("123456#"), Err(ParseRGBError));
    assert_eq!(parse_color("0123456"), Err(ParseRGBError));
    assert_eq!(parse_color("#12g456"), Err(ParseRGBError));
    assert_eq!(parse_color("#+12345"), Err(ParseRGBError));
    assert_eq!(parse_color("#12 456"), Err(ParseRGBError));
}

#[test]
fn gradient_endpoints_show_in_blit() {
    // a fully-filled two-slot gradient shows the two endpoint colors
    let fb = FillBar::gradient(2, "#a81e00", "#f42c00");
    let v = fb.blit('#', 1, 1);
    assert_eq!(v.len(), 3);
    assert_eq!(v[0].color, "#a81e00");
    assert_eq!(v[1].color, "#f42c00");
    assert_eq!(v[2].text, "");

    // a one-slot gradient takes the start color
    let fb1 = FillBar::gradient(1, "#a81e00", "#f42c00");
    let v1 = fb1.blit('#', 1, 1);
    assert_eq!(v1[0].color, "#a81e00");
}

#[test]
fn gradient_midpoint_truncates() {
    // slot 1 of 3 between 0 and 255 per channel: 0 + 255 * 1 / 2 = 127
    let fb = FillBar::gradient(3, "#000000", "#ffffff");
    let v = fb.blit('#', 1, 1);
    assert_eq!(v[0].color, "#000000");
    assert_eq!(v[1].color, "#7f7f7f");
    assert_eq!(v[2].color, "#ffffff");
}

#[test]
fn blit_counts_add_up() {
    let fb = FillBar::single(8, "#123456");
    for amt in 0..30 {
        for tot in 1..25 {
            let v = fb.blit('#', amt, tot);
            let filled = std::cmp::min((8 * amt / tot + 1) as usize, 8);
            assert_eq!(v.len(), filled + 1);
            for e in v.iter().take(filled) {
                assert_eq!(e.text, "#");
                assert_eq!(e.color, "#123456");
            }
            let blank = &v[filled];
            assert_eq!(blank.text.len(), 8 - filled);
            assert!(blank.text.chars().all(|c| c == ' '));
            assert_eq!(blank.color, "#000000");
        }
    }
}

#[test]
fn blit_zero_amount_shows_one_sliver() {
    let fb = FillBar::single(8, "#123456");
    let v = fb.blit('\\', 0, 100);
    assert_eq!(v.len(), 2);
    assert_eq!(v[0].text, "\\");
    assert_eq!(v[1].text.len(), 7);
}

#[test]
fn blit_small_negative_amount_truncates_toward_zero() {
    // -1 of 100 over 8 slots: the midpoint 8 * -1 / 100 truncates to 0,
    // so the sliver glyph still shows
    let fb = FillBar::single(8, "#123456");
    let v = fb.blit('#', -1, 100);
    assert_eq!(v.len(), 2);
    assert_eq!(v[0].text, "#");
    assert_eq!(v[1].text.len(), 7);
}

#[test]
fn blit_clamps_overfull() {
    let fb = FillBar::single(4, "#123456");
    let v = fb.blit('#', 250, 100);
    assert_eq!(v.len(), 5);
    assert_eq!(v[4].text, "");
}
