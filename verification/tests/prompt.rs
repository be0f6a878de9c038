use palmshell::prompt::{
    display_dir, paint, prompt_glyphs, prompt_marker, prompt_text, replace_all, user_at_host, Rgb,
};

fn rgb(red: u8, green: u8, blue: u8) -> Rgb {
    Rgb { red, green, blue }
}

#[test]
fn there_are_sixteen_glyphs() {
    let glyphs = prompt_glyphs();
    assert_eq!(glyphs.len(), 16);
    assert_eq!(glyphs[0], "😀");
    assert_eq!(glyphs[8], "💩");
    assert_eq!(glyphs[15], "😇");
    for glyph in &glyphs {
        assert_eq!(glyph.chars().count(), 1);
    }
}

#[test]
fn root_gets_the_rocket() {
    assert_eq!(prompt_marker("root", "😀"), "\u{1F680} #");
}

#[test]
fn others_get_their_glyph() {
    assert_eq!(prompt_marker("alice", "😀"), "😀 $");
    assert_eq!(prompt_marker("Root", "🤡"), "🤡 $");
    assert_eq!(prompt_marker("", "🤡"), "🤡 $");
}

#[test]
fn user_and_host() {
    assert_eq!(user_at_host("alice", Some("box".to_string())), "alice@box");
    assert_eq!(user_at_host("alice", None), "alice@unknown_hostname");
}

#[test]
fn replace_all_agrees_with_std() {
    let texts = ["", "a", "aaa", "abcabc", "/home/u/src/home/u", "xx~xx", "éé-é"];
    let patterns = ["", "a", "aa", "abc", "/home/u", "x", "é", "zzz", "abcabcabc"];
    let withs = ["~", "", "ab"];
    for text in texts {
        for pattern in patterns {
            for with in withs {
                assert_eq!(
                    replace_all(text, pattern, with),
                    text.replace(pattern, with),
                    "{:?} {:?} {:?}",
                    text,
                    pattern,
                    with
                );
            }
        }
    }
}

#[test]
fn home_is_shown_as_tilde() {
    assert_eq!(display_dir("/home/u/src", Some("/home/u".to_string())), "~/src");
    assert_eq!(display_dir("/home/u", Some("/home/u".to_string())), "~");
    assert_eq!(display_dir("/srv/home/u/x", Some("/home/u".to_string())), "/srv~/x");
    assert_eq!(display_dir("/tmp", Some("/home/u".to_string())), "/tmp");
    assert_eq!(display_dir("/home/u/src", None), "/home/u/src");
    assert_eq!(display_dir("ab", Some(String::new())), "~a~b~");
}

#[test]
fn prompt_has_two_lines() {
    assert_eq!(prompt_text("u@h", "~/src", "01/02/2026 10:30", "😀 $"), "u@h ~/src [01/02/2026 10:30]\n😀 $ ");
}

#[test]
fn paint_wraps_each_character() {
    let painted = paint("ab", &vec![rgb(255, 107, 7), rgb(0, 10, 100)]).unwrap();
    assert_eq!(
        painted,
        "\x01\x1b[38;2;255;107;7m\x02a\x01\x1b[38;2;0;10;100m\x02b\x01\x1b[0m\x02"
    );
}

#[test]
fn paint_leaves_empty_text_empty() {
    assert_eq!(paint("", &Vec::new()).unwrap(), "");
}

#[test]
fn paint_needs_one_colour_per_character() {
    assert_eq!(paint("ab", &vec![rgb(1, 2, 3)]), None);
    assert_eq!(paint("", &vec![rgb(1, 2, 3)]), None);
    assert!(paint("é", &vec![rgb(1, 2, 3)]).is_some());
}

#[test]
fn paint_writes_every_byte_value_in_decimal() {
    for n in 0..=255u8 {
        let painted = paint("x", &vec![rgb(n, n, n)]).unwrap();
        let expected = format!("\x01\x1b[38;2;{};{};{}m\x02x\x01\x1b[0m\x02", n, n, n);
        assert_eq!(painted, expected);
    }
}
