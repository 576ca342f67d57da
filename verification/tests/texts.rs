use lzcr::text::{
    before_first, concat3, contains, count, ends_with, is_white_space, lines, not_after, pad_end, same_text,
    split, starts_with, to_ascii_lowercase, trim, unescape_backslashes,
};

#[test]
fn white_space_is_that_of_std() {
    for code in 0..=0x10ffffu32 {
        if let Some(c) = char::from_u32(code) {
            assert_eq!(is_white_space(c), c.is_whitespace(), "{code:x}");
        }
    }
}

#[test]
fn trimming_is_that_of_std() {
    for s in ["", " ", "\u{3000}a b\u{85}", "a", "\t x y \r\n", "\u{200b}x"] {
        assert_eq!(trim(s), s.trim());
    }
}

#[test]
fn searching_is_that_of_std() {
    let words = ["", "a", "Source", "Source.zip", "my-Source-1.zip", "é.zip", "zip", ".zip"];
    for s in words {
        for part in words {
            assert_eq!(contains(s, part), s.contains(part));
            assert_eq!(starts_with(s, part), s.starts_with(part));
            assert_eq!(ends_with(s, part), s.ends_with(part));
            assert_eq!(same_text(s, part), s == part);
        }
    }
    assert_eq!(before_first("a/b/c", '/'), Some("a".to_string()));
    assert_eq!(before_first("/b", '/'), Some(String::new()));
    assert_eq!(before_first("abc", '/'), None);
}

#[test]
fn splitting_is_that_of_std() {
    for s in ["", "\"a\"", "\"path\"\t\t\"C:\\\\Games\"", "x\"y", "\"\""] {
        let expected: Vec<String> = s.split('"').map(|p| p.to_string()).collect();
        assert_eq!(split(s, '"'), expected);
    }
    for s in ["", "a", "a\n", "a\r\nb", "a\n\nb\r", "\r\n", "a\r\r\n"] {
        let expected: Vec<String> = s.lines().map(|p| p.to_string()).collect();
        assert_eq!(lines(s), expected);
    }
}

#[test]
fn doubled_backslashes_become_single() {
    for s in ["", "\\", "\\\\", "\\\\\\", "C:\\\\Games\\\\Steam", "a\\\\\\\\b", "x\\y"] {
        assert_eq!(unescape_backslashes(s), s.replace("\\\\", "\\"));
    }
    assert_eq!(unescape_backslashes("D:\\\\SteamLibrary"), "D:\\SteamLibrary");
}

#[test]
fn counting_lowering_and_padding() {
    assert_eq!(count("{{}", '{'), 2);
    assert_eq!(count("", '{'), 0);
    assert_eq!(to_ascii_lowercase("CANCELLED É Z"), "CANCELLED É Z".to_ascii_lowercase());
    assert_eq!(pad_end("錯誤", 10), format!("{:<10}", "錯誤"));
    assert_eq!(pad_end("more than ten", 10), "more than ten");
    assert_eq!(concat3("a", "/", "b"), "a/b");
}

#[test]
fn texts_are_ordered_as_in_std() {
    let words = ["", "a", "B", "ab", "é", "語", "\u{10000}", "\u{ffff}", "a.json", "a-b.json"];
    for a in words {
        for b in words {
            assert_eq!(not_after(a, b), a <= b, "{a} {b}");
        }
    }
}
