use vid_concat_cutter::scan::{find_after, split_lines, split_text, trim_text, white};
use vid_concat_cutter::text::{decimal_text, lower_text, not_after, replace_char, same_text};

const TEXTS: [&str; 9] =
    ["", "a", "a,b", ",", ",,x,", "two\nlines\r\n", "\r\n\r\n", "tail\r", " \t mixed \u{3000}"];

#[test]
fn pieces_join_again() {
    for t in TEXTS {
        for sep in [',', '\n', 'x'] {
            let pieces = split_text(t, sep);
            let expected: Vec<&str> = t.split(sep).collect();
            assert_eq!(pieces, expected);
            assert_eq!(pieces.join(&sep.to_string()), t);
        }
    }
}

#[test]
fn lines_agree_with_std() {
    for t in TEXTS {
        let expected: Vec<&str> = t.lines().collect();
        assert_eq!(split_lines(t), expected);
    }
}

#[test]
fn trimming_agrees_with_std() {
    for t in TEXTS {
        assert_eq!(trim_text(t), t.trim());
    }
    for n in 0..0x11_0000u32 {
        if let Some(c) = char::from_u32(n) {
            assert_eq!(white(c), c.is_whitespace());
        }
    }
}

#[test]
fn markers() {
    let chars = |s: &str| s.chars().collect::<Vec<char>>();
    assert_eq!(find_after(&chars("xx ab ab"), &chars("ab")), Some(5));
    assert_eq!(find_after(&chars("xx"), &chars("ab")), None);
    assert_eq!(find_after(&chars("ab"), &chars("ab")), Some(2));
    assert_eq!(find_after(&chars("éab"), &chars("")), Some(0));
}

#[test]
fn text_primitives() {
    assert_eq!(lower_text("MiXeD ÄÖ.MP4"), "mixed ÄÖ.mp4");
    assert_eq!(replace_char("a-b-c", '-', '+'), "a+b+c");
    assert!(same_text("é", "é") && !same_text("a", "ab"));
    assert_eq!(decimal_text(1_000_000), "1000000");
    for a in TEXTS {
        for b in TEXTS {
            assert_eq!(not_after(a, b), a <= b);
        }
    }
}
