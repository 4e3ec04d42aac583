use ronda::whitespace::{ws_inner, ws_min, ws_nl, ws_single};
use ronda::{Context, Indent, Newline, Whitespace, Ws};

fn at(indent: usize) -> Context {
    Context { indent: Indent(indent), nl: Newline::Lf }
}

fn line(text: &str) -> Ws {
    Ws::LineComment(text.to_string())
}

fn block(text: &str) -> Ws {
    Ws::BlockComment(text.to_string())
}

fn min(ws: Vec<Ws>, c: Context) -> String {
    let mut out = String::new();
    ws_min(&Whitespace(ws), c, &mut out);
    out
}

fn single(ws: Vec<Ws>, c: Context) -> String {
    let mut out = String::new();
    ws_single(&Whitespace(ws), c, &mut out);
    out
}

fn nl(ws: Vec<Ws>, c: Context) -> String {
    let mut out = String::new();
    ws_nl(&Whitespace(ws), c, &mut out);
    out
}

#[test]
fn indent_is_four_spaces_a_level() {
    let mut out = String::from("x");
    Indent(0).fmt(&mut out);
    assert_eq!(out, "x");
    Indent(1).fmt(&mut out);
    assert_eq!(out, "x    ");
    Indent(3).fmt(&mut out);
    assert_eq!(out, "x                ");
}

#[test]
fn increase_goes_one_level_deeper() {
    let c = Context { indent: Indent(2), nl: Newline::LfCr };
    assert_eq!(c.increase(), Context { indent: Indent(3), nl: Newline::LfCr });
}

#[test]
fn line_start_is_line_ending_then_indent() {
    let mut out = String::new();
    at(2).line_start(&mut out);
    assert_eq!(out, "\n        ");
    let mut out = String::new();
    Context { indent: Indent(1), nl: Newline::LfCr }.line_start(&mut out);
    assert_eq!(out, "\n\r    ");
    assert_eq!(Newline::Lf.as_str(), "\n");
    assert_eq!(Newline::LfCr.as_str(), "\n\r");
}

#[test]
fn one_piece_of_whitespace() {
    let mut out = String::from("a");
    let mut space = true;
    ws_inner(&Ws::Space, at(1), &mut space, &mut out);
    assert_eq!((out.as_str(), space), ("a", true));
    ws_inner(&block("b"), at(1), &mut space, &mut out);
    assert_eq!((out.as_str(), space), ("a /* b */", true));
    ws_inner(&line(" c\n"), at(1), &mut space, &mut out);
    assert_eq!((out.as_str(), space), ("a /* b */ // c\n    ", false));
    ws_inner(&Ws::Space, at(1), &mut space, &mut out);
    assert_eq!((out.as_str(), space), ("a /* b */ // c\n    ", false));
    ws_inner(&line("d\r\n"), at(0), &mut space, &mut out);
    assert_eq!((out.as_str(), space), ("a /* b */ // c\n    // d\n", false));
    ws_inner(&block(" e "), at(0), &mut space, &mut out);
    assert_eq!((out.as_str(), space), ("a /* b */ // c\n    // d\n/* e */", true));
}

#[test]
fn blanks_alone_render_by_policy() {
    assert_eq!(min(vec![], at(1)), "");
    assert_eq!(min(vec![Ws::Space, Ws::Space], at(1)), "");
    assert_eq!(single(vec![], at(1)), " ");
    assert_eq!(single(vec![Ws::Space], at(1)), " ");
    assert_eq!(nl(vec![], at(0)), "\n");
    assert_eq!(nl(vec![Ws::Space], at(2)), "\n        ");
}

#[test]
fn a_block_comment_renders_by_policy() {
    let ws = || vec![Ws::Space, block("note"), Ws::Space];
    assert_eq!(min(ws(), at(1)), " /* note */");
    assert_eq!(single(ws(), at(1)), " /* note */ ");
    assert_eq!(nl(ws(), at(1)), " /* note */\n    ");
}

#[test]
fn a_line_comment_renders_by_policy() {
    let ws = || vec![Ws::Space, line(" note\n"), Ws::Space];
    assert_eq!(min(ws(), at(1)), " // note\n    ");
    assert_eq!(single(ws(), at(1)), " // note\n     ");
    assert_eq!(nl(ws(), at(1)), " // note\n    ");
}

#[test]
fn comments_in_a_row_keep_their_order() {
    let ws = || vec![block(" a "), block("b"), line("c\n"), line(" d\n"), block("e")];
    assert_eq!(min(ws(), at(1)), " /* a */ /* b */ // c\n    // d\n    /* e */");
    assert_eq!(nl(ws(), at(0)), " /* a */ /* b */ // c\n// d\n/* e */\n");
}

#[test]
fn the_line_ending_of_the_document_ends_a_line_comment() {
    let c = Context { indent: Indent(1), nl: Newline::LfCr };
    assert_eq!(min(vec![line(" a\n")], c), " // a\n\r    ");
    assert_eq!(nl(vec![block("a")], c), " /* a */\n\r    ");
    assert_eq!(nl(vec![line(" a\r\n")], c), " // a\n\r    ");
}

#[test]
fn a_nested_block_comment_is_copied() {
    assert_eq!(
        min(vec![block(" Block /* Nested */ ")], at(0)),
        " /* Block /* Nested */ */"
    );
    assert_eq!(min(vec![block("")], at(0)), " /*  */");
    assert_eq!(min(vec![block(" ")], at(0)), " /* */");
}
