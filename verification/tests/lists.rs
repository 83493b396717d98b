use surge::batch::{collect_urls, output_for};

fn urls(url: Option<&str>, content: Option<&str>) -> Vec<String> {
    collect_urls(url.map(String::from), content.map(String::from))
}

#[test]
fn direct_address_comes_first() {
    assert_eq!(urls(Some("a"), Some("b\nc")), vec!["a", "b", "c"]);
    assert_eq!(urls(Some(" a "), None), vec![" a "]);
    assert!(urls(None, None).is_empty());
    assert_eq!(urls(Some(""), None), vec![""]);
}

#[test]
fn blank_lines_and_white_space_are_dropped() {
    assert_eq!(
        urls(None, Some("\n  http://a/x \r\n\t\r\n\nhttp://b/y\r\n")),
        vec!["http://a/x", "http://b/y"]
    );
    assert!(urls(None, Some("")).is_empty());
    assert!(urls(None, Some(" \n \u{3000}\n")).is_empty());
    assert_eq!(urls(None, Some("é ü\n")), vec!["é ü"]);
    assert_eq!(urls(None, Some("a\rb")), vec!["a\rb"]);
}

#[test]
fn list_is_read_as_its_lines_are() {
    let text = "one\ntwo \r\n\r\n  three\n\u{85}four\n\u{200b}five\nsix";
    let expected: Vec<String> = text
        .lines()
        .map(|l| l.trim().to_string())
        .filter(|l| !l.is_empty())
        .collect();
    assert_eq!(urls(None, Some(text)), expected);
}

#[test]
fn white_space_is_what_unicode_says() {
    for c in (0..=0x10ffffu32).filter_map(char::from_u32) {
        if c == '\n' {
            continue;
        }
        let listed = [
            0x9, 0xb, 0xc, 0xd, 0x20, 0x85, 0xa0, 0x1680, 0x2028, 0x2029, 0x202f, 0x205f, 0x3000,
        ]
        .contains(&(c as u32))
            || (0x2000..=0x200a).contains(&(c as u32));
        assert_eq!(c.is_whitespace(), listed);
    }
    assert_eq!(urls(None, Some("\u{1680}\u{2000}\u{200a}x\u{2028}\u{205f}")), vec!["x"]);
    assert_eq!(urls(None, Some("\u{200b}x\u{feff}")), vec!["\u{200b}x\u{feff}"]);
}

#[test]
fn output_is_ignored_for_several_addresses() {
    let out = Some("file".to_string());
    assert_eq!(output_for(&out, 1), out);
    assert_eq!(output_for(&out, 2), None);
    assert_eq!(output_for(&None, 1), None);
}

#[test]
fn lists_below_each_other_keep_their_order() {
    let (first, second) = ("b\n\n a ", "c\na\n");
    let mut expected = urls(None, Some(first));
    expected.extend(urls(None, Some(second)));
    assert_eq!(urls(None, Some(&format!("{}\n{}", first, second))), expected);
    assert_eq!(expected, vec!["b", "a", "c", "a"]);
}
