use ronda::layout::{
    entry, option, separated_min, separated_min_names, separated_split, separated_split_entries,
    value, ws_followed_min, ws_lead_min, ws_lead_nl, ws_lead_single, ws_wrapped_leading_nl,
    ws_wrapped_leading_nl_entry, ws_wrapped_leading_single, ws_wrapped_leading_single_name,
    ws_wrapped_min, ws_wrapped_min_name,
};
use ronda::{
    Attribute, Context, Entry, File, Indent, Newline, Separated, Value, Whitespace, Ws,
    WsFollowed, WsLead, WsWrapped, MAX_DEPTH,
};

fn at(indent: usize) -> Context {
    Context { indent: Indent(indent), nl: Newline::Lf }
}

fn none() -> Whitespace {
    Whitespace(vec![])
}

fn blank() -> Whitespace {
    Whitespace(vec![Ws::Space])
}

fn block(text: &str) -> Whitespace {
    Whitespace(vec![Ws::BlockComment(text.to_string())])
}

fn line(text: &str) -> Whitespace {
    Whitespace(vec![Ws::LineComment(text.to_string())])
}

fn number(text: &str) -> Value {
    Value::Int(text.to_string())
}

fn bare<T>(content: T) -> WsWrapped<T> {
    WsWrapped { leading: none(), content, following: none() }
}

fn items<T>(values: Vec<T>) -> Separated<T> {
    Separated {
        values: values.into_iter().map(bare).collect(),
        trailing_comma: false,
        trailing_ws: none(),
    }
}

fn named(key: &str, value: Value) -> Entry {
    Entry {
        key: key.to_string(),
        after_key: none(),
        value: WsLead { leading: none(), content: value },
    }
}

fn name(text: &str) -> Option<WsFollowed<String>> {
    Some(WsFollowed { content: text.to_string(), following: none() })
}

fn document(value: Value) -> File {
    File {
        extensions: vec![],
        value: WsLead { leading: none(), content: value },
        trailing_ws: none(),
    }
}

fn header(names: Vec<&str>) -> WsLead<Attribute> {
    WsLead {
        leading: none(),
        content: Attribute {
            after_pound: none(),
            after_exclamation: none(),
            after_bracket: none(),
            after_enable: none(),
            extensions: items(names.into_iter().map(String::from).collect()),
            after_paren: none(),
        },
    }
}

fn render(it: &Value, c: Context) -> String {
    let mut out = String::new();
    value(it, c, &mut out);
    out
}

fn nested(levels: usize) -> Value {
    let mut it = number("0");
    for _ in 0..levels {
        it = Value::List(items(vec![it]));
    }
    it
}

#[test]
fn scalars_are_copied() {
    assert_eq!(render(&number("0x_Ff"), at(3)), "0x_Ff");
    assert_eq!(render(&Value::Float("+1.5e-3".to_string()), at(0)), "+1.5e-3");
    assert_eq!(render(&Value::Bool("true".to_string()), at(0)), "true");
    assert_eq!(render(&Value::Unit("Nothing".to_string()), at(0)), "Nothing");
    assert_eq!(render(&Value::Char("'\\''".to_string()), at(0)), "'\\''");
    assert_eq!(render(&Value::Str("r#\"a\"#".to_string()), at(0)), "r#\"a\"#");
}

#[test]
fn a_string_takes_the_line_breaks_of_the_document() {
    let text = Value::Str("\"a\n\rb\nc\"".to_string());
    assert_eq!(render(&text, at(0)), "\"a\nb\nc\"");
    let c = Context { indent: Indent(0), nl: Newline::LfCr };
    assert_eq!(render(&text, c), "\"a\n\rb\n\rc\"");
    let already = Value::Str("\"a\n\rb\n\rc\"".to_string());
    assert_eq!(render(&already, c), "\"a\n\rb\n\rc\"");
}

#[test]
fn a_map_of_two_entries() {
    let map = Value::Mapping(items(vec![named("a", number("1")), named("b", number("2"))]));
    assert_eq!(render(&map, at(0)), "{\n    a: 1,\n    b: 2,\n}");
    assert_eq!(ronda::format(&document(map)), "{\n    a: 1,\n    b: 2,\n}\n");
}

#[test]
fn a_tuple_of_three_fields() {
    let tuple = Value::Tuple { ident: None, fields: items(vec![number("1"), number("2"), number("3")]) };
    assert_eq!(render(&tuple, at(0)), "(\n    1,\n    2,\n    3,\n)");
    assert_eq!(ronda::format(&document(tuple)), "(\n    1,\n    2,\n    3,\n)\n");
}

#[test]
fn a_tuple_of_one_field() {
    let tuple = Value::Tuple { ident: None, fields: items(vec![number("1")]) };
    assert_eq!(render(&tuple, at(0)), "(1)");
    assert_eq!(ronda::format(&document(tuple)), "(1)\n");
}

#[test]
fn a_tuple_of_two_fields_is_split_and_one_of_none_is_not() {
    let two = Value::Tuple { ident: name("P"), fields: items(vec![number("1"), number("2")]) };
    assert_eq!(render(&two, at(1)), "P(\n        1,\n        2,\n    )");
    let empty = Value::Tuple { ident: name("P"), fields: items(vec![]) };
    assert_eq!(render(&empty, at(1)), "P()");
}

#[test]
fn a_tuple_of_one_field_holds_the_line_breaks_of_its_field() {
    let inner = Value::List(items(vec![number("1")]));
    let tuple = Value::Tuple { ident: name("Some"), fields: items(vec![inner]) };
    assert_eq!(render(&tuple, at(0)), "Some([\n    1,\n])");
    let commented = Value::Tuple {
        ident: None,
        fields: Separated {
            values: vec![WsWrapped { leading: line(" c\n"), content: number("1"), following: none() }],
            trailing_comma: false,
            trailing_ws: none(),
        },
    };
    assert_eq!(render(&commented, at(0)), "( // c\n1)");
}

#[test]
fn a_struct_is_split_whatever_its_size() {
    let one = Value::Struct { ident: None, fields: items(vec![named("x", number("1"))]) };
    assert_eq!(render(&one, at(0)), "(\n    x: 1,\n)");
    let empty = Value::Struct { ident: name("Unit"), fields: items(vec![]) };
    assert_eq!(render(&empty, at(0)), "Unit(\n)");
    let two = Value::Struct {
        ident: name("P"),
        fields: items(vec![named("x", number("1")), named("y", number("2"))]),
    };
    assert_eq!(render(&two, at(2)), "P(\n            x: 1,\n            y: 2,\n        )");
}

#[test]
fn a_list_is_split_whatever_its_size() {
    assert_eq!(render(&Value::List(items(vec![])), at(0)), "[\n]");
    assert_eq!(render(&Value::List(items(vec![number("1")])), at(0)), "[\n    1,\n]");
    assert_eq!(render(&Value::Mapping(items(vec![])), at(1)), "{\n    }");
}

#[test]
fn nesting_indents_by_four_spaces_a_level() {
    assert_eq!(render(&nested(0), at(0)), "0");
    assert_eq!(render(&nested(2), at(0)), "[\n    [\n        0,\n    ],\n]");
    let map = Value::Mapping(items(vec![named("k", nested(1))]));
    assert_eq!(render(&map, at(0)), "{\n    k: [\n        0,\n    ],\n}");
}

#[test]
fn a_value_is_rendered_at_any_indent() {
    let deep = " ".repeat(4 * 200);
    assert_eq!(
        render(&nested(1), at(200)),
        format!("[\n{deep}    0,\n{deep}]")
    );
    assert_eq!(render(&nested(MAX_DEPTH), at(1000)).len() > 0, true);
}

#[test]
fn the_trailing_comma_of_the_input_is_not_read() {
    let mut with = items(vec![number("1"), number("2")]);
    with.trailing_comma = true;
    let without = items(vec![number("1"), number("2")]);
    let mut a = String::new();
    separated_split(&with, at(0), &mut a);
    let mut b = String::new();
    separated_split(&without, at(0), &mut b);
    assert_eq!(a, b);
    assert_eq!(a, "\n    1,\n    2,\n");
    let mut a = String::new();
    separated_min(&with, at(0), &mut a);
    assert_eq!(a, "1, 2");
}

#[test]
fn the_minimal_layout_joins_with_comma_and_space() {
    let mut out = String::new();
    separated_min(&items(vec![]), at(1), &mut out);
    assert_eq!(out, "");
    separated_min(&items(vec![number("1")]), at(1), &mut out);
    assert_eq!(out, "1");
    let mut out = String::new();
    separated_min(&items(vec![number("1"), number("2"), number("3")]), at(1), &mut out);
    assert_eq!(out, "1, 2, 3");
    let mut out = String::from("(");
    let names = Separated {
        values: vec![
            WsWrapped { leading: blank(), content: "a".to_string(), following: block("x") },
            WsWrapped { leading: line("y\n"), content: "b".to_string(), following: blank() },
        ],
        trailing_comma: true,
        trailing_ws: block(" z "),
    };
    separated_min_names(&names, at(1), &mut out);
    assert_eq!(out, "(a /* x */, // y\n     b /* z */");
}

#[test]
fn the_split_layout_puts_comments_on_the_line_of_their_item() {
    let list = Separated {
        values: vec![
            WsWrapped { leading: block("a"), content: number("1"), following: block("b") },
            WsWrapped { leading: line(" c\n"), content: number("2"), following: none() },
        ],
        trailing_comma: false,
        trailing_ws: line(" d\n"),
    };
    let mut out = String::from("[");
    separated_split(&list, at(0), &mut out);
    assert_eq!(out, "[ /* a */\n    1 /* b */, // c\n    2, // d\n");
    let entries = Separated {
        values: vec![WsWrapped {
            leading: blank(),
            content: Entry {
                key: "k".to_string(),
                after_key: block("a"),
                value: WsLead { leading: block("b"), content: number("1") },
            },
            following: block("c"),
        }],
        trailing_comma: false,
        trailing_ws: blank(),
    };
    let mut out = String::from("{");
    separated_split_entries(&entries, at(1), &mut out);
    assert_eq!(out, "{\n        k /* a */: /* b */ 1 /* c */,\n    ");
}

#[test]
fn an_entry_has_one_space_behind_its_colon() {
    let mut out = String::new();
    entry(&named("key", number("1")), at(0), &mut out);
    assert_eq!(out, "key: 1");
    let commented = Entry {
        key: "[1, 2]".to_string(),
        after_key: line(" a\n"),
        value: WsLead { leading: line(" b\n"), content: number("1") },
    };
    let mut out = String::new();
    entry(&commented, at(1), &mut out);
    assert_eq!(out, "[1, 2] // a\n    : // b\n     1");
}

#[test]
fn an_identifier_keeps_the_comment_behind_it() {
    let mut out = String::new();
    option(&None, at(0), &mut out);
    assert_eq!(out, "");
    let ident = WsFollowed { content: "Name".to_string(), following: block("c") };
    ws_followed_min(&ident, at(0), &mut out);
    assert_eq!(out, "Name /* c */");
    let mut out = String::new();
    option(&Some(ident), at(0), &mut out);
    assert_eq!(out, "Name /* c */");
    let tuple = Value::Tuple {
        ident: Some(WsFollowed { content: "T".to_string(), following: blank() }),
        fields: items(vec![number("1")]),
    };
    assert_eq!(render(&tuple, at(0)), "T(1)");
}

#[test]
fn leading_whitespace_by_policy() {
    let it = WsLead { leading: block("c"), content: number("1") };
    let mut out = String::new();
    ws_lead_min(&it, at(1), &mut out);
    assert_eq!(out, " /* c */1");
    let mut out = String::new();
    ws_lead_single(&it, at(1), &mut out);
    assert_eq!(out, " /* c */ 1");
    let mut out = String::new();
    ws_lead_nl(&it, at(1), &mut out);
    assert_eq!(out, " /* c */\n    1");
}

#[test]
fn wrapped_items_by_policy() {
    let it = WsWrapped { leading: blank(), content: number("1"), following: block("c") };
    let mut out = String::new();
    ws_wrapped_min(&it, at(1), &mut out);
    assert_eq!(out, "1 /* c */");
    let mut out = String::new();
    ws_wrapped_leading_single(&it, at(1), &mut out);
    assert_eq!(out, " 1 /* c */");
    let mut out = String::new();
    ws_wrapped_leading_nl(&it, at(1), &mut out);
    assert_eq!(out, "\n    1 /* c */");
    let it = WsWrapped { leading: blank(), content: named("k", number("1")), following: none() };
    let mut out = String::new();
    ws_wrapped_leading_nl_entry(&it, at(1), &mut out);
    assert_eq!(out, "\n    k: 1");
    let it = WsWrapped { leading: blank(), content: "n".to_string(), following: block("c") };
    let mut out = String::new();
    ws_wrapped_min_name(&it, at(1), &mut out);
    assert_eq!(out, "n /* c */");
    let mut out = String::new();
    ws_wrapped_leading_single_name(&it, at(1), &mut out);
    assert_eq!(out, " n /* c */");
}

#[test]
fn a_header_is_rendered_on_one_line() {
    let mut out = String::new();
    ronda::document::extension(&header(vec!["implicit_some", "unwrap_newtypes"]), at(0), &mut out);
    assert_eq!(out, "#![enable(implicit_some, unwrap_newtypes)]");
    let mut commented = header(vec!["a"]);
    commented.leading = line(" top\n");
    commented.content.after_pound = block("1");
    commented.content.after_exclamation = block("2");
    commented.content.after_bracket = block("3");
    commented.content.after_enable = block("4");
    commented.content.after_paren = block("5");
    let mut out = String::new();
    ronda::document::extension(&commented, at(0), &mut out);
    assert_eq!(out, " // top\n# /* 1 */! /* 2 */[ /* 3 */enable /* 4 */(a) /* 5 */]");
}

#[test]
fn headers_are_rendered_one_behind_the_other() {
    let mut out = String::from("x");
    ronda::document::extensions(&vec![], at(0), &mut out);
    assert_eq!(out, "x");
    let mut second = header(vec!["b", "c"]);
    second.leading = line(" next\n");
    ronda::document::extensions(&vec![header(vec!["a"]), second], at(0), &mut out);
    assert_eq!(out, "x#![enable(a)] // next\n#![enable(b, c)]");
}

#[test]
fn a_document_without_a_header_starts_with_its_value() {
    let mut file = document(number("1"));
    assert_eq!(ronda::format(&file), "1\n");
    file.value.leading = blank();
    file.trailing_ws = line(" end\n");
    assert_eq!(ronda::format(&file), "1 // end\n");
    file.value.leading = line(" top\n");
    file.trailing_ws = block("end");
    assert_eq!(ronda::format(&file), " // top\n1 /* end */\n");
}

#[test]
fn a_document_with_a_header_has_its_value_on_a_line_of_its_own() {
    let mut file = document(number("1"));
    file.extensions = vec![header(vec!["a"]), header(vec!["b"])];
    assert_eq!(ronda::format(&file), "#![enable(a)]#![enable(b)]\n1\n");
    file.trailing_ws = block("end");
    assert_eq!(ronda::format(&file), "#![enable(a)]#![enable(b)]\n1 /* end */ /* end */\n");
    file.value.leading = line("top\n");
    file.trailing_ws = none();
    assert_eq!(ronda::format(&file), "#![enable(a)]#![enable(b)] // top\n1\n");
}

#[test]
fn the_document_can_end_its_lines_with_line_feed_and_carriage_return() {
    let map = Value::Mapping(items(vec![named("a", number("1"))]));
    let mut file = document(map);
    file.trailing_ws = line(" end\n");
    assert_eq!(ronda::format_with(&file, Newline::Lf), "{\n    a: 1,\n} // end\n");
    assert_eq!(ronda::format_with(&file, Newline::LfCr), "{\n\r    a: 1,\n\r} // end\n\r");
    assert_eq!(ronda::format(&file), ronda::format_with(&file, Newline::Lf));
}

#[test]
fn nesting_is_counted_in_lists_maps_tuples_and_structs() {
    assert!(number("1").nests_within(0));
    assert!(Value::Str("\"\"".to_string()).nests_within(0));
    assert!(!nested(1).nests_within(0));
    assert!(nested(1).nests_within(1));
    assert!(nested(3).nests_within(3));
    assert!(!nested(3).nests_within(2));
    let tuple = Value::Tuple { ident: None, fields: items(vec![nested(1)]) };
    assert!(tuple.nests_within(2));
    assert!(!tuple.nests_within(1));
    let map = Value::Mapping(items(vec![named("a", number("1")), named("b", nested(2))]));
    assert!(map.nests_within(3));
    assert!(!map.nests_within(2));
    let empty = Value::Struct { ident: None, fields: items(vec![]) };
    assert!(empty.nests_within(1));
    assert!(!empty.nests_within(0));
    assert!(document(nested(2)).nests_within(2));
    assert!(!document(nested(2)).nests_within(1));
}

#[test]
fn a_document_is_rendered_up_to_the_deepest_nesting() {
    let deepest = document(nested(MAX_DEPTH));
    assert!(deepest.nests_within(MAX_DEPTH));
    let text = ronda::try_format(&deepest, Newline::Lf).unwrap();
    assert_eq!(text, ronda::format(&deepest));
    assert!(text.contains(&format!("\n{}0,\n", " ".repeat(4 * MAX_DEPTH))));
    let deeper = document(nested(MAX_DEPTH + 1));
    assert!(!deeper.nests_within(MAX_DEPTH));
    assert_eq!(ronda::try_format(&deeper, Newline::Lf), None);
    assert_eq!(MAX_DEPTH, 128);
}
