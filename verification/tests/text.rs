use gamescope_idle::text::{
    chars_of, contains, find_line, insert_sorted, is_whitespace, not_after, parse_hex, same_text,
    split_once, starts_with, trim, trim_end,
};

#[test]
fn whitespace_is_unicode_white_space() {
    for n in 0..=0x10ffffu32 {
        if let Some(c) = char::from_u32(n) {
            assert_eq!(is_whitespace(c), c.is_whitespace(), "{n:x}");
        }
    }
}

#[test]
fn trimming_keeps_the_inside() {
    for s in ["", " ", "a", " a b ", "\t\u{3000}x y\r\n", "\u{a0}\u{2028}", "blank\n"] {
        assert_eq!(trim(s), s.trim());
        assert_eq!(trim_end(s), s.trim_end());
    }
}

#[test]
fn characters_come_one_by_one() {
    assert_eq!(chars_of("aé黑"), vec!['a', 'é', '黑']);
    assert!(chars_of("").is_empty());
}

#[test]
fn prefixes_and_substrings() {
    for s in ["", "Video Bus", "ACPI Video Bus 0", "video bus", "Video", "cec0"] {
        for t in ["", "Video Bus", "V", "cec", "Bus 0"] {
            assert_eq!(contains(s, t), s.contains(t), "{s:?} {t:?}");
            assert_eq!(starts_with(s, t), s.starts_with(t), "{s:?} {t:?}");
            assert_eq!(same_text(s, t), s == t);
        }
    }
}

#[test]
fn a_text_is_split_at_its_first_separator() {
    assert_eq!(split_once("0003:000028DE:00001304", ':'), ("0003", Some("000028DE:00001304")));
    assert_eq!(split_once(":", ':'), ("", Some("")));
    assert_eq!(split_once("idle", ':'), ("idle", None));
    assert_eq!(split_once("", ':'), ("", None));
}

#[test]
fn lines_are_found_by_their_prefix() {
    let texts = [
        "",
        "HID_ID=1",
        "DRIVER=hid\nHID_ID=0003:28DE:1\nHID_ID=x\n",
        "A=1\r\nHID_ID=2\r\n",
        "HID_ID=3\r",
        " HID_ID=4",
        "\n\nHID_ID=\n",
        "HID_I\n",
    ];
    for text in texts {
        let expected = text.lines().find_map(|l| l.strip_prefix("HID_ID=")).map(String::from);
        assert_eq!(find_line(text, "HID_ID="), expected, "{text:?}");
    }
}

#[test]
fn hexadecimal_numbers() {
    let texts = [
        "", "+", "-", "-1", "+1", "0", "28DE", "000028de", "28dG", "ffffffff", "100000000",
        "0000000000000001", " 1", "1 ", "+-1", "++1", "0x1", "é",
    ];
    for text in texts {
        assert_eq!(parse_hex(text), u32::from_str_radix(text, 16).ok(), "{text:?}");
    }
    assert_eq!(parse_hex("28DE"), Some(0x28de));
    assert_eq!(parse_hex("ffffffff"), Some(u32::MAX));
    assert_eq!(parse_hex("100000000"), None);
}

#[test]
fn texts_have_an_order() {
    let texts = ["", "a", "ab", "b", "é", "hidraw1", "hidraw10", "hidraw2", "\u{ffff}", "\u{10000}"];
    for a in texts {
        for b in texts {
            assert_eq!(not_after(a, b), a <= b, "{a:?} {b:?}");
        }
    }
}

#[test]
fn sorted_lists_stay_sorted() {
    let mut v: Vec<String> = Vec::new();
    for s in ["b", "a", "c", "a", "", "bb"] {
        insert_sorted(&mut v, s.to_string());
    }
    assert_eq!(v, vec!["", "a", "a", "b", "bb", "c"]);
}
