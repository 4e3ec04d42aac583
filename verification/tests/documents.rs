use ronda::{
    Attribute, Entry, File, Newline, Separated, Value, Whitespace, Ws, WsFollowed, WsLead,
    WsWrapped,
};

fn whitespace(ws: &ron_edit::Whitespace) -> Whitespace {
    Whitespace(
        ws.0.iter()
            .map(|ws| match ws {
                ron_edit::Ws::LineComment(text) => Ws::LineComment(text.to_string()),
                ron_edit::Ws::Space(_) => Ws::Space,
                ron_edit::Ws::BlockComment(text) => Ws::BlockComment(text.to_string()),
            })
            .collect(),
    )
}

fn separated<T, U>(s: &ron_edit::Separated<T>, content: impl Fn(&T) -> U) -> Separated<U> {
    Separated {
        values: s
            .values
            .iter()
            .map(|item| WsWrapped {
                leading: whitespace(&item.leading),
                content: content(&item.content),
                following: whitespace(&item.following),
            })
            .collect(),
        trailing_comma: s.trailing_comma,
        trailing_ws: whitespace(&s.trailing_ws),
    }
}

fn lead(it: &ron_edit::WsLead<ron_edit::Value>) -> WsLead<Value> {
    WsLead { leading: whitespace(&it.leading), content: value(&it.content) }
}

fn ident(it: &Option<ron_edit::WsFollowed<&str>>) -> Option<WsFollowed<String>> {
    it.as_ref().map(|it| WsFollowed {
        content: it.content.to_string(),
        following: whitespace(&it.following),
    })
}

fn value(it: &ron_edit::Value) -> Value {
    match it {
        ron_edit::Value::Int(text) => Value::Int(text.to_string()),
        ron_edit::Value::Float(text) => Value::Float(text.to_string()),
        ron_edit::Value::Str(text) => Value::Str(text.to_string()),
        ron_edit::Value::Char(text) => Value::Char(text.to_string()),
        ron_edit::Value::Bool(it) => Value::Bool(it.to_string()),
        ron_edit::Value::List(list) => Value::List(separated(&list.0, value)),
        ron_edit::Value::Map(map) => Value::Mapping(separated(&map.0, |item| Entry {
            key: item.key.to_string(),
            after_key: whitespace(&item.after_key),
            value: lead(&item.value),
        })),
        ron_edit::Value::Unit(name) => Value::Unit(name.to_string()),
        ron_edit::Value::Tuple(tuple) => Value::Tuple {
            ident: ident(&tuple.ident),
            fields: separated(&tuple.fields, value),
        },
        ron_edit::Value::Struct(it) => Value::Struct {
            ident: ident(&it.ident),
            fields: separated(&it.fields, |field| Entry {
                key: field.key.to_string(),
                after_key: whitespace(&field.after_key),
                value: lead(&field.value),
            }),
        },
    }
}

fn file(it: &ron_edit::File) -> File {
    File {
        extensions: it
            .extentions
            .iter()
            .map(|e| WsLead {
                leading: whitespace(&e.leading),
                content: Attribute {
                    after_pound: whitespace(&e.content.after_pound),
                    after_exclamation: whitespace(&e.content.after_exclamation),
                    after_bracket: whitespace(&e.content.after_bracket),
                    after_enable: whitespace(&e.content.after_enable),
                    extensions: separated(&e.content.extentions, |name| name.to_string()),
                    after_paren: whitespace(&e.content.after_paren),
                },
            })
            .collect(),
        value: lead(&it.value),
        trailing_ws: whitespace(&it.trailing_ws),
    }
}

fn parse(text: &str) -> File {
    let parsed = ron_edit::File::try_from(text).unwrap();
    file(&parsed)
}

fn reformat(text: &str) -> String {
    ronda::format(&parse(text))
}

const INPUTS: [&str; 8] = [
    "{a:1,b:2}",
    "(1,2,3)",
    "(1)",
    "(\r\n    // a comment \r\n    something: 10\r\n)\r\n",
    "(\n    value: \"string\",\n    value: inf,\n    value: +NaN,\n    map: {\n        A: \"hello\",\n        [1, 2]: Something\n    },\n    r#12+10.3-x: \"five\"\n)\n",
    "# // pound\n    ! [  enable\n( unwrap_newtypes\n , implicit_some)\n]\n// Line\n/* block */\n/* Outer /* Inner */ */\n(\n    value \n\n    : \"hello\" // why\n    ,\n    other /* */: \"hi\"\n)\n",
    "Point ( x : 1 , y : [ ] , z : Some ( 'c' ) , w : () , v : Pair ( -inf , true ) )",
    "[ /* first */ 1 , // one\n 2 /* two */ , [ 3 ] , ]  // end\n",
];

const OUTPUTS: [&str; 8] = [
    "{\n    a: 1,\n    b: 2,\n}\n",
    "(\n    1,\n    2,\n    3,\n)\n",
    "(1)\n",
    "( // a comment \n    something: 10,\n)\n",
    "(\n    value: \"string\",\n    value: inf,\n    value: +NaN,\n    map: {\n        A: \"hello\",\n        [1, 2]: Something,\n    },\n    r#12+10.3-x: \"five\",\n)\n",
    "# // pound\n![enable(unwrap_newtypes, implicit_some)] // Line\n/* block */ /* Outer /* Inner */ */\n(\n    value: \"hello\" // why\n    ,\n    other /* */: \"hi\",\n)\n",
    "Point(\n    x: 1,\n    y: [\n    ],\n    z: Some('c'),\n    w: (),\n    v: Pair(\n        -inf,\n        true,\n    ),\n)\n",
    "[ /* first */\n    1, // one\n    2 /* two */,\n    [\n        3,\n    ],\n] // end\n",
];

#[test]
fn ensure_valid_ron() {
    for input in INPUTS {
        let _: ron::Value = ron::de::from_bytes(input.as_bytes()).unwrap();
    }
}

#[test]
fn format() {
    for (input, output) in INPUTS.iter().zip(OUTPUTS) {
        let before: ron::Value = ron::de::from_str(input).unwrap();
        let ron = reformat(input);
        println!("{ron}");
        let after: ron::Value = ron::de::from_str(&ron).unwrap();
        assert_eq!(before, after);
        assert_eq!(ron, output);
    }
}

#[test]
fn a_map_is_split_with_a_comma_behind_each_entry() {
    assert_eq!(reformat("{a:1,b:2}"), "{\n    a: 1,\n    b: 2,\n}\n");
}

#[test]
fn a_tuple_of_three_is_split() {
    assert_eq!(reformat("(1,2,3)"), "(\n    1,\n    2,\n    3,\n)\n");
}

#[test]
fn a_tuple_of_one_stays_on_its_line() {
    assert_eq!(reformat("(1)"), "(1)\n");
    assert_eq!(reformat("Some(1)"), "Some(1)\n");
    assert_eq!(reformat("Some ( ( 1 ) )"), "Some((1))\n");
}

#[test]
fn a_tuple_of_none_stays_on_its_line() {
    assert_eq!(reformat("( )"), "()\n");
    assert_eq!(reformat("T( /* none */ )"), "T( /* none */)\n");
}

#[test]
fn a_struct_of_one_field_is_split() {
    assert_eq!(reformat("(x:1)"), "(\n    x: 1,\n)\n");
    assert_eq!(reformat("P()"), "P()\n");
}

#[test]
fn formatting_decodes_to_the_same_value() {
    for input in INPUTS {
        let before: ron::Value = ron::de::from_str(input).unwrap();
        let after: ron::Value = ron::de::from_str(&reformat(input)).unwrap();
        assert_eq!(before, after, "{:?}", input);
    }
}

#[test]
fn formatting_twice_changes_nothing() {
    let more = [
        "/* top */ # ! [ enable ( a /* x */ , // y\n b ) ] 1",
        "{a: // c\n 1, b /* d */ : /* e */ 2}",
        "(//a\n1)",
        "T ( /* none */ )",
        "[\"a\n\rb\"]",
    ];
    for input in INPUTS.iter().chain(more.iter()) {
        let once = reformat(input);
        assert_eq!(reformat(&once), once, "{:?}", input);
    }
}

#[test]
fn formatting_twice_repeats_trailing_comments_behind_a_header() {
    let once = reformat("#![enable(a)] 1 /* c */");
    assert_eq!(once, "#![enable(a)]\n1 /* c */ /* c */\n");
    assert_eq!(reformat(&once), "#![enable(a)]\n1 /* c */ /* c */ /* c */ /* c */\n");
}

#[test]
fn every_comment_is_in_the_output() {
    let comments: [&[&str]; 8] = [
        &[],
        &[],
        &[],
        &["// a comment \n"],
        &[],
        &["// pound\n", "// Line\n", "/* block */", "/* Outer /* Inner */ */", "// why\n", "/* */"],
        &[],
        &["/* first */", "// one\n", "/* two */", "// end\n"],
    ];
    for (input, comments) in INPUTS.iter().zip(comments) {
        let output = reformat(input);
        for comment in comments {
            assert!(output.contains(comment), "{:?} in {:?}", comment, output);
        }
    }
}

#[test]
fn every_line_break_is_in_the_convention_of_the_document() {
    let inputs = [
        "{a:1,b:2}",
        "(1,2,[3,(x:\"a\nb\n\rc\")])",
        "#![enable(a)] // c\n[/* d */ 1, 2] // e\n",
        "P ( x : \"\n\n\r\" ) ",
    ];
    for input in inputs {
        let document = parse(input);
        let lf: Vec<char> = ronda::format_with(&document, Newline::Lf).chars().collect();
        let lf_cr: Vec<char> = ronda::format_with(&document, Newline::LfCr).chars().collect();
        assert!(lf.contains(&'\n') && lf_cr.contains(&'\n'));
        for i in 0..lf.len() {
            if lf[i] == '\n' {
                assert_ne!(lf.get(i + 1), Some(&'\r'), "{:?}", input);
            }
        }
        for i in 0..lf_cr.len() {
            if lf_cr[i] == '\n' {
                assert_eq!(lf_cr.get(i + 1), Some(&'\r'), "{:?}", input);
            }
        }
    }
}

#[test]
fn a_comment_may_start_with_a_carriage_return() {
    let output = reformat("[1] /*\r\n note */");
    assert_eq!(output, "[\n    1,\n] /*\r\n note */\n");
    assert!(!output.contains("\n\r"));
    let output = reformat("[ //\r\r\n 1 ]");
    assert_eq!(output, "[ //\r\n    1,\n]\n");
    assert!(!output.contains("\n\r"));
}

#[test]
fn the_comments_keep_their_order() {
    let input = "/* a */ # /* b */ ! [ enable ( x /* c */ , // d\n y ) /* e */ ] // f\n\
                 P /* g */ ( k /* h */ : // i\n [ /* j */ 1 /* k */ , ( /* l */ 2 ) ] /* m */ ) // n\n";
    let comments = [
        "/* a */", "/* b */", "/* c */", "// d\n", "/* e */", "// f\n", "/* g */", "/* h */",
        "// i\n", "/* j */", "/* k */", "/* l */", "/* m */", "// n\n",
    ];
    let output = reformat(input);
    let mut from = 0;
    for comment in comments {
        let at = output[from..].find(comment);
        assert!(at.is_some(), "{:?} behind {} in {:?}", comment, from, output);
        from += at.unwrap() + comment.len();
    }
}

#[test]
fn formatting_keeps_the_convention_of_the_document() {
    for input in INPUTS {
        let output = reformat(input);
        assert_eq!(ronda::newlines::convention(&output), Newline::Lf);
        let output = ronda::format_with(&parse(input), Newline::LfCr);
        assert_eq!(ronda::newlines::convention(&output), Newline::LfCr);
        let again = ronda::format_with(&parse(&output), ronda::newlines::convention(&output));
        assert_eq!(again, output, "{:?}", input);
    }
}

#[test]
fn a_comment_without_blanks_is_padded() {
    assert_eq!(reformat("1//x\n"), "1 // x\n");
    assert_eq!(reformat("/*x*/1"), " /* x */1\n");
    assert_eq!(reformat("1/*x*//*y*/"), "1 /* x */ /* y */\n");
}

#[test]
fn trailing_whitespace_of_a_document_with_a_header_is_rendered_twice() {
    assert_eq!(
        reformat("#![enable(implicit_some)] 1 /* end */"),
        "#![enable(implicit_some)]\n1 /* end */ /* end */\n"
    );
    assert_eq!(reformat("#![enable(implicit_some)]1"), "#![enable(implicit_some)]\n1\n");
}

#[test]
fn headers_follow_each_other() {
    assert_eq!(
        reformat("#![enable(a)]#![enable(b ,c, )]\n()"),
        "#![enable(a)]#![enable(b, c)]\n()\n"
    );
    assert_eq!(
        reformat("/* top */ # ! [ enable ( a /* x */ , // y\n b ) ] 1"),
        " /* top */#![enable(a /* x */, // y\n b)]\n1\n"
    );
}

#[test]
fn line_breaks_in_a_string_follow_the_document() {
    let document = parse("[\"a\n\rb\nc\"]");
    assert_eq!(ronda::format(&document), "[\n    \"a\nb\nc\",\n]\n");
    assert_eq!(
        ronda::format_with(&document, Newline::LfCr),
        "[\n\r    \"a\n\rb\n\rc\",\n\r]\n\r"
    );
    let again = parse("[\n\r    \"a\n\rb\n\rc\",\n\r]\n\r");
    assert_eq!(
        ronda::format_with(&again, Newline::LfCr),
        "[\n\r    \"a\n\rb\n\rc\",\n\r]\n\r"
    );
    assert_eq!(ronda::try_format(&document, Newline::Lf), Some(ronda::format(&document)));
}
