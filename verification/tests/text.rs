use ronda::text::{
    delimited_with_spaces, is_whitespace, normalize_line_breaks, start_with_space,
    without_trailing_nl,
};
use ronda::newlines::convention;
use ronda::Newline;

#[test]
fn space_helpers() {
    assert_eq!(without_trailing_nl("hi\n"), "hi");
    assert_eq!(without_trailing_nl("hi\n\r\n"), "hi\n");
    assert_eq!(without_trailing_nl("hi"), "hi");
    assert_eq!(start_with_space("hi"), " hi");
    assert_eq!(start_with_space("\thi"), "\thi");
    assert_eq!(start_with_space(" hi"), " hi");
    assert_eq!(delimited_with_spaces("hi"), " hi ");
    assert_eq!(delimited_with_spaces("\thi"), "\thi ");
    assert_eq!(delimited_with_spaces(" hi"), " hi ");
    assert_eq!(delimited_with_spaces(" hi\t"), " hi\t");
}

#[test]
fn whitespace_is_what_std_calls_whitespace() {
    for code in 0..=0x10FFFFu32 {
        if let Some(c) = char::from_u32(code) {
            assert_eq!(is_whitespace(c), c.is_whitespace(), "U+{:04X}", code);
        }
    }
}

#[test]
fn without_trailing_nl_strips_one_line_ending() {
    assert_eq!(without_trailing_nl(""), "");
    assert_eq!(without_trailing_nl("\n"), "");
    assert_eq!(without_trailing_nl("\r\n"), "");
    assert_eq!(without_trailing_nl("\r"), "\r");
    assert_eq!(without_trailing_nl("a\n\n"), "a\n");
    assert_eq!(without_trailing_nl("a\r\n\r\n"), "a\r\n");
    assert_eq!(without_trailing_nl("a\n\r"), "a\n\r");
    assert_eq!(without_trailing_nl(" é ü\r\n"), " é ü");
}

#[test]
fn padding_of_empty_and_blank_text() {
    assert_eq!(start_with_space(""), " ");
    assert_eq!(delimited_with_spaces(""), "  ");
    assert_eq!(delimited_with_spaces(" "), " ");
    assert_eq!(delimited_with_spaces("a"), " a ");
    assert_eq!(delimited_with_spaces("a "), " a ");
    assert_eq!(delimited_with_spaces("\u{a0}a\u{2003}"), "\u{a0}a\u{2003}");
    assert_eq!(start_with_space("\u{3000}x"), "\u{3000}x");
    assert_eq!(start_with_space("\u{200b}x"), " \u{200b}x");
}

#[test]
fn line_feed_convention_drops_carriage_returns_behind_line_feeds() {
    let cases = [
        "",
        "plain",
        "\n",
        "\r",
        "\n\r",
        "\r\n",
        "a\n\rb",
        "a\nb",
        "\n\r\r",
        "\n\n\r",
        "\n\r\n\r",
        "\n\r\r\n",
        "x\n\r\n\r\ry\n",
        "ä\n\rö",
    ];
    for case in cases {
        assert_eq!(normalize_line_breaks(case, Newline::Lf), case.replace("\n\r", "\n"), "{:?}", case);
    }
    assert_eq!(normalize_line_breaks("a\n\rb\n\r", Newline::Lf), "a\nb\n");
    assert_eq!(normalize_line_breaks("\n\r\r", Newline::Lf), "\n\r");
}

#[test]
fn line_feed_carriage_return_convention_completes_line_feeds() {
    let cases = [
        ("", ""),
        ("plain", "plain"),
        ("\n", "\n\r"),
        ("\r", "\r"),
        ("\n\r", "\n\r"),
        ("\r\n", "\r\n\r"),
        ("a\nb", "a\n\rb"),
        ("a\n\rb", "a\n\rb"),
        ("\n\n", "\n\r\n\r"),
        ("\n\n\r", "\n\r\n\r"),
        ("\n\r\n", "\n\r\n\r"),
        ("\n\r\r", "\n\r\r"),
        ("x\n\ry\n", "x\n\ry\n\r"),
        ("ä\nö", "ä\n\rö"),
    ];
    for (case, expected) in cases {
        assert_eq!(normalize_line_breaks(case, Newline::LfCr), expected, "{:?}", case);
        assert_eq!(
            normalize_line_breaks(case, Newline::LfCr),
            case.replace("\n\r", "\n").replace("\n", "\n\r"),
            "{:?}",
            case
        );
    }
}

#[test]
fn padding_again_changes_nothing() {
    for text in ["", " ", "a", " a", "a ", "\ta\u{a0}", "a b", "\n"] {
        let once = start_with_space(text);
        assert_eq!(start_with_space(&once), once, "{:?}", text);
        let once = delimited_with_spaces(text);
        assert_eq!(delimited_with_spaces(&once), once, "{:?}", text);
    }
}

#[test]
fn rewriting_line_breaks_again_changes_nothing_without_a_second_carriage_return() {
    for text in ["", "a", "a\nb", "a\n\rb", "\n\r\n\r", "\r\n", "a\r\rb\n"] {
        let once = normalize_line_breaks(text, Newline::Lf);
        assert_eq!(normalize_line_breaks(&once, Newline::Lf), once, "{:?}", text);
    }
    let once = normalize_line_breaks("\n\r\r", Newline::Lf);
    assert_eq!(once, "\n\r");
    assert_eq!(normalize_line_breaks(&once, Newline::Lf), "\n");
    for text in ["", "a", "a\nb", "a\n\rb", "\n\r\r", "\r\n", "\n\n\r", "a\n"] {
        let once = normalize_line_breaks(text, Newline::LfCr);
        assert_eq!(normalize_line_breaks(&once, Newline::LfCr), once, "{:?}", text);
    }
}

#[test]
fn the_convention_of_a_text_is_found_from_its_line_feeds() {
    for text in ["", "a", "\r", "a\nb", "\n", "a\r\nb\r\n", "\r\n\r\n", "a\n\rb\n", "\n\r\n"] {
        assert_eq!(convention(text), Newline::Lf, "{:?}", text);
    }
    for text in ["\n\r", "a\n\rb", "a\n\rb\n\r", "\n\r\n\r", "\n\r\r", "ä\n\rö"] {
        assert_eq!(convention(text), Newline::LfCr, "{:?}", text);
    }
}
