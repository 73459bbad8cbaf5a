use sommerfluss_ipc::args::{copy_from, first_delta, first_tag, parse_tag};
use sommerfluss_ipc::color::parse_color;
use sommerfluss_ipc::frame::{Dir, LayoutMode, SplitDir};
use sommerfluss_ipc::geometry::Rect;
use sommerfluss_ipc::number::{decimal, parse_i32, parse_unsigned, show_int, show_signed_int};
use sommerfluss_ipc::reply::{err, err_quote, ok, quote};
use sommerfluss_ipc::request::parse_request;
use sommerfluss_ipc::split::index_of;
use sommerfluss_ipc::text::{chars_of, same};

fn strings(words: &[&str]) -> Vec<String> {
    words.iter().map(|w| w.to_string()).collect()
}

#[test]
fn texts_are_compared_whole() {
    assert!(same("", ""));
    assert!(same("größe", "größe"));
    assert!(!same("use", "use_index"));
    assert!(!same("use", "usE"));
    assert_eq!(chars_of("aß"), vec!['a', 'ß']);
}

#[test]
fn replies() {
    assert_eq!(ok(), "ok\n");
    assert_eq!(err("empty command"), "error: empty command\n");
    assert_eq!(quote("bad tag", "x"), "bad tag 'x'");
    assert_eq!(err_quote("lock_tag: bad tag", "x"), "error: lock_tag: bad tag 'x'\n");
}

#[test]
fn numbers_are_printed() {
    assert_eq!(decimal(0), "0");
    assert_eq!(decimal(1907), "1907");
    assert_eq!(decimal(u64::MAX), "18446744073709551615");
    assert_eq!(show_int(-42), "-42");
    assert_eq!(show_int(42), "42");
    assert_eq!(show_signed_int(0), "+0");
    assert_eq!(show_signed_int(7), "+7");
    assert_eq!(show_signed_int(-7), "-7");
}

#[test]
fn numbers_are_read_like_the_standard_library_does() {
    for s in [
        "", "+", "-", "0", "-0", "+0", "007", "+5", "-5", "++5", "5 ", " 5", "5x", "2147483647",
        "2147483648", "-2147483648", "-2147483649", "99999999999999999999999", "٣",
    ] {
        assert_eq!(parse_i32(s), s.parse::<i32>().ok(), "{s}");
        assert_eq!(parse_tag(s), s.parse::<u32>().ok(), "{s}");
        assert_eq!(parse_unsigned(s, u64::MAX), s.parse::<u64>().ok(), "{s}");
    }
    assert_eq!(parse_tag("4294967295"), Some(4294967295));
    assert_eq!(parse_tag("4294967296"), None);
    assert_eq!(parse_unsigned("18446744073709551615", u64::MAX), Some(u64::MAX));
    assert_eq!(parse_unsigned("18446744073709551616", u64::MAX), None);
    assert_eq!(parse_unsigned("10", 9), None);
}

#[test]
fn printed_numbers_read_back() {
    for i in [0i32, 1, -1, 10, 99, -100, i32::MAX, i32::MIN] {
        assert_eq!(parse_i32(&show_int(i as i64)), Some(i));
        assert_eq!(parse_i32(&show_signed_int(i as i64)), Some(i));
    }
    for t in [0u32, 9, 10, u32::MAX] {
        assert_eq!(parse_tag(&decimal(t as u64)), Some(t));
    }
}

#[test]
fn arguments() {
    assert_eq!(first_tag(&strings(&["3", "x"])), Some(3));
    assert_eq!(first_tag(&strings(&["x"])), None);
    assert_eq!(first_tag(&[]), None);
    assert_eq!(first_delta(&strings(&["-2"])), -2);
    assert_eq!(first_delta(&strings(&["x"])), 1);
    assert_eq!(first_delta(&[]), 1);
    assert_eq!(copy_from(&strings(&["a", "b", "c"]), 1), strings(&["b", "c"]));
}

#[test]
fn first_of_two_characters() {
    let v = chars_of("a=b~c");
    assert_eq!(index_of(&v, 0, '~', '~'), 3);
    assert_eq!(index_of(&v, 0, '~', '='), 1);
    assert_eq!(index_of(&v, 2, '=', '='), 5);
}

#[test]
fn rectangles() {
    let r = Rect { w: 3840, h: 2160, x: 1440, y: 0 };
    assert_eq!(Rect::parse("3840x2160+1440+0"), Some(r));
    assert_eq!(r.show(), "3840x2160+1440+0");
    let left = Rect { w: 1, h: 2, x: -3, y: -4 };
    assert_eq!(Rect::parse("1x2-3-4"), Some(left));
    assert_eq!(Rect::parse(&left.show()), Some(left));
    for bad in [
        "", "x", "1x2", "1x2+3", "1x2+3+", "1x+3+4", "x2+3+4", "+1x2+3+4", "1x+2+3+4", "1x2+3+4+5",
        "1x2+3x4", "axb+c+d", "2147483648x1+0+0", "1x1+2147483648+0", " 1x2+3+4",
    ] {
        assert_eq!(Rect::parse(bad), None, "{bad}");
    }
}

#[test]
fn words_of_the_frame_tree() {
    assert_eq!(SplitDir::parse("top"), Some(SplitDir::Top));
    assert_eq!(SplitDir::parse("bottom"), Some(SplitDir::Bottom));
    assert_eq!(SplitDir::parse("left"), Some(SplitDir::Left));
    assert_eq!(SplitDir::parse("right"), Some(SplitDir::Right));
    assert_eq!(SplitDir::parse("horizontal"), Some(SplitDir::Horizontal));
    assert_eq!(SplitDir::parse("vertical"), Some(SplitDir::Vertical));
    assert_eq!(SplitDir::parse("explode"), Some(SplitDir::Explode));
    assert_eq!(SplitDir::parse("Top"), None);
    assert_eq!(Dir::parse("left"), Some(Dir::Left));
    assert_eq!(Dir::parse("down"), Some(Dir::Down));
    assert_eq!(Dir::parse("up"), Some(Dir::Up));
    assert_eq!(Dir::parse("right"), Some(Dir::Right));
    assert_eq!(Dir::parse("top"), None);
    assert_eq!(LayoutMode::parse("max"), Some(LayoutMode::Max));
    assert_eq!(LayoutMode::parse("vertical"), Some(LayoutMode::Vertical));
    assert_eq!(LayoutMode::parse("horizontal"), Some(LayoutMode::Horizontal));
    assert_eq!(LayoutMode::parse("grid"), Some(LayoutMode::Grid));
    assert_eq!(LayoutMode::parse("tabbed"), None);
}

#[test]
fn colours() {
    assert_eq!(parse_color("#ff8000"), Some((255, 128, 0, 255)));
    assert_eq!(parse_color("#FF800010"), Some((255, 128, 0, 16)));
    assert_eq!(parse_color("0a0b0c"), Some((10, 11, 12, 255)));
    assert_eq!(parse_color("##0a0b0c"), Some((10, 11, 12, 255)));
    for bad in ["", "#", "#fff", "#ff80000", "#gg0000", "#00gg00", "#0000gg", "#000000gg", "#-f-f-f",
        "#+f+f+f", "#+f+e+d", "+f+f+f+f", "#f+0000", "éöü"] {
        assert_eq!(parse_color(bad), None, "{bad}");
    }
}

#[test]
fn texts_with_other_characters_are_no_colours() {
    for bad in ["€abc", "#aéaaa", "#aéabc", "#ff€a", "#zz€a", "€€€", "#ffffff€"] {
        assert_eq!(parse_color(bad), None, "{bad}");
    }
}

#[test]
fn every_colour_reads_back() {
    for c in [(0u8, 0u8, 0u8, 0u8), (1, 22, 163, 254), (255, 255, 255, 255)] {
        let (r, g, b, a) = c;
        assert_eq!(parse_color(&format!("#{r:02x}{g:02x}{b:02x}{a:02x}")), Some(c));
        assert_eq!(parse_color(&format!("#{r:02X}{g:02x}{b:02X}{a:02X}")), Some(c));
        assert_eq!(parse_color(&format!("{r:02X}{g:02X}{b:02X}")), Some((r, g, b, 255)));
    }
}

#[test]
fn requests_are_split_at_nuls() {
    assert_eq!(parse_request(b""), Vec::<String>::new());
    assert_eq!(parse_request(b"\0\0"), Vec::<String>::new());
    assert_eq!(parse_request(b"use\x003"), strings(&["use", "3"]));
    assert_eq!(parse_request(b"\0use\0\x003\0"), strings(&["use", "3"]));
    assert_eq!(parse_request("rule\0title~größe".as_bytes()), strings(&["rule", "title~größe"]));
}

#[test]
fn requests_with_bad_utf8() {
    assert_eq!(parse_request(b"spawn\0a\xffb"), strings(&["spawn", "a\u{fffd}b"]));
}

#[test]
fn requests_carry_their_arguments() {
    let args = strings(&["keybind", "Mod4-Return", "spawn", "foot", "--title", "ß a"]);
    assert_eq!(parse_request(args.join("\0").as_bytes()), args);
}
