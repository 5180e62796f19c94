use math_markup::ast::{describe_undefined, diagnostic, Node};
use math_markup::attribute::{Accent, Variant};

fn number(digits: &str) -> Node {
    Node::Number(digits.to_owned())
}

fn boxed(node: Node) -> Box<Node> {
    Box::new(node)
}

fn letter(glyph: char) -> Node {
    Node::Letter(glyph, Variant::Italic)
}

fn occurrences(text: &str, part: &str) -> usize {
    text.matches(part).count()
}

#[test]
fn node_display() {
    let problems = vec![
        (Node::Number("3.14".to_owned()), "<mn>3.14</mn>"),
        (Node::Letter('x', Variant::Italic), "<mi>x</mi>"),
        (Node::Letter('α', Variant::Italic), "<mi>α</mi>"),
        (Node::Letter('あ', Variant::Normal), r#"<mi mathvariant="normal">あ</mi>"#),
        (
            Node::Row(vec![Node::Operator('+'), Node::Operator('-')]),
            r"<mrow><mo>+</mo><mo>-</mo></mrow>",
        ),
    ];
    for (problem, answer) in problems.iter() {
        assert_eq!(&problem.render(), answer);
    }
}

#[test]
fn number_is_wrapped_verbatim() {
    assert_eq!(number("").render(), "<mn></mn>");
    assert_eq!(number("1<2").render(), "<mn>1<2</mn>");
}

#[test]
fn letter_in_each_style() {
    let styles = vec![
        (Variant::Normal, "normal"),
        (Variant::Bold, "bold"),
        (Variant::BoldItalic, "bold-italic"),
        (Variant::DoubleStruck, "double-struck"),
        (Variant::BoldFraktur, "bold-fraktur"),
        (Variant::Script, "script"),
        (Variant::BoldScript, "bold-script"),
        (Variant::Fraktur, "fraktur"),
        (Variant::SansSerif, "sans-serif"),
        (Variant::BoldSansSerif, "bold-sans-serif"),
        (Variant::SansSerifItalic, "sans-serif-italic"),
        (Variant::SansSerifBoldItalic, "sans-serif-bold-italic"),
        (Variant::Monospace, "monospace"),
    ];
    for (style, name) in styles.iter() {
        assert_eq!(style.name(), *name);
        assert!(!style.is_default());
        assert_eq!(
            Node::Letter('R', *style).render(),
            format!("<mi mathvariant=\"{}\">R</mi>", name)
        );
    }
    assert_eq!(Variant::Italic.name(), "italic");
    assert!(Variant::Italic.is_default());
    assert_eq!(Node::Letter('R', Variant::Italic).render(), "<mi>R</mi>");
}

#[test]
fn accent_names() {
    assert_eq!(Accent::True.name(), "true");
    assert_eq!(Accent::False.name(), "false");
}

#[test]
fn operator_elements() {
    assert_eq!(Node::Operator('=').render(), "<mo>=</mo>");
    assert_eq!(Node::OtherOperator("&lt;").render(), "<mo>&lt;</mo>");
}

#[test]
fn function_with_and_without_argument() {
    assert_eq!(Node::Function("sin", None).render(), "<mi>sin</mi>");
    assert_eq!(
        Node::Function("sin", Some(boxed(letter('x')))).render(),
        "<mi>sin</mi><mo>&#x2061;</mo><mi>x</mi>"
    );
}

#[test]
fn space_holds_its_width() {
    assert_eq!(Node::Space("1".to_owned()).render(), r#"<mspace width="1em"/>"#);
    assert_eq!(
        Node::Space("-0.1667".to_owned()).render(),
        r#"<mspace width="-0.1667em"/>"#
    );
}

#[test]
fn scripts_follow_the_base() {
    assert_eq!(
        Node::Subscript(boxed(letter('x')), boxed(number("1"))).render(),
        "<msub><mi>x</mi><mn>1</mn></msub>"
    );
    assert_eq!(
        Node::Superscript(boxed(letter('x')), boxed(number("2"))).render(),
        "<msup><mi>x</mi><mn>2</mn></msup>"
    );
    assert_eq!(
        Node::SubSup {
            target: boxed(letter('x')),
            sub: boxed(number("1")),
            sup: boxed(number("2")),
        }
        .render(),
        "<msubsup><mi>x</mi><mn>1</mn><mn>2</mn></msubsup>"
    );
}

#[test]
fn accents_over_and_under() {
    assert_eq!(
        Node::OverOp('^', Accent::True, boxed(letter('a'))).render(),
        r#"<mover><mi>a</mi><mo accent="true">^</mo></mover>"#
    );
    assert_eq!(
        Node::OverOp('→', Accent::False, boxed(letter('a'))).render(),
        r#"<mover><mi>a</mi><mo accent="false">→</mo></mover>"#
    );
    assert_eq!(
        Node::UnderOp('_', Accent::True, boxed(letter('a'))).render(),
        r#"<munder><mi>a</mi><mo accent="true">_</mo></munder>"#
    );
}

#[test]
fn placed_over_and_under() {
    assert_eq!(
        Node::Overset { over: boxed(number("1")), target: boxed(letter('a')) }.render(),
        "<mover><mi>a</mi><mn>1</mn></mover>"
    );
    assert_eq!(
        Node::Underset { under: boxed(number("1")), target: boxed(letter('a')) }.render(),
        "<munder><mi>a</mi><mn>1</mn></munder>"
    );
    assert_eq!(
        Node::Under(boxed(letter('a')), boxed(number("1"))).render(),
        "<munder><mi>a</mi><mn>1</mn></munder>"
    );
    assert_eq!(
        Node::UnderOver {
            target: boxed(letter('a')),
            under: boxed(number("1")),
            over: boxed(number("2")),
        }
        .render(),
        "<munderover><mi>a</mi><mn>1</mn><mn>2</mn></munderover>"
    );
}

#[test]
fn square_root_and_root_with_degree() {
    assert_eq!(Node::Sqrt(None, boxed(letter('x'))).render(), "<msqrt><mi>x</mi></msqrt>");
    assert_eq!(
        Node::Sqrt(Some(boxed(number("3"))), boxed(letter('x'))).render(),
        "<mroot><mi>x</mi><mn>3</mn></mroot>"
    );
}

#[test]
fn fraction() {
    assert_eq!(
        Node::Frac(boxed(number("1")), boxed(number("2"))).render(),
        "<mfrac><mn>1</mn><mn>2</mn></mfrac>"
    );
}

#[test]
fn row_concatenates_without_separator() {
    assert_eq!(Node::Row(vec![]).render(), "<mrow></mrow>");
    assert_eq!(Node::Row(vec![letter('a')]).render(), "<mrow><mi>a</mi></mrow>");
    assert_eq!(
        Node::Row(vec![letter('a'), Node::Operator('+'), number("1")]).render(),
        "<mrow><mi>a</mi><mo>+</mo><mn>1</mn></mrow>"
    );
    assert_eq!(
        Node::Row(vec![Node::Row(vec![letter('a')]), letter('b')]).render(),
        "<mrow><mrow><mi>a</mi></mrow><mi>b</mi></mrow>"
    );
}

#[test]
fn fenced_group() {
    assert_eq!(
        Node::Fenced { open: "(", close: ")", content: boxed(letter('x')) }.render(),
        concat_all(&[
            r#"<mrow><mo stretchy="true" form="prefix">(</mo>"#,
            "<mi>x</mi>",
            r#"<mo stretchy="true" form="postfix">)</mo></mrow>"#,
        ])
    );
}

fn concat_all(parts: &[&str]) -> String {
    let mut all = String::new();
    for part in parts {
        all.push_str(part);
    }
    all
}

#[test]
fn text_element() {
    assert_eq!(Node::Text("if ".to_owned()).render(), "<mtext>if </mtext>");
}

#[test]
fn slashed_operator() {
    assert_eq!(Node::Slashed(boxed(Node::Operator('='))).render(), "<mo>=&#x0338;</mo>");
}

#[test]
fn slashed_letter_keeps_the_shape_of_the_letter() {
    assert_eq!(
        Node::Slashed(boxed(Node::Letter('x', Variant::Italic))).render(),
        "<mi>x&#x0338;</mi>"
    );
    assert_eq!(
        Node::Slashed(boxed(Node::Letter('x', Variant::Bold))).render(),
        r#"<mi mathvariant="bold">x&#x0338;</mi>"#
    );
}

#[test]
fn slashed_other_node_is_the_node() {
    let inner = Node::Frac(boxed(number("1")), boxed(number("2")));
    assert_eq!(Node::Slashed(boxed(inner.clone())).render(), inner.render());
    assert_eq!(Node::Slashed(boxed(number("7"))).render(), "<mn>7</mn>");
    assert_eq!(
        Node::Slashed(boxed(Node::Slashed(boxed(Node::Operator('<'))))).render(),
        "<mo><&#x0338;</mo>"
    );
}

#[test]
fn undefined_is_a_diagnostic() {
    assert_eq!(
        Node::Undefined("x".to_owned()).render(),
        r#"<mtext>[PARSE ERROR: Undefined("x")]</mtext>"#
    );
}

#[test]
fn undefined_message_is_escaped_as_debug_does() {
    assert_eq!(
        Node::Undefined("a\"b\n".to_owned()).render(),
        r#"<mtext>[PARSE ERROR: Undefined("a\"b\n")]</mtext>"#
    );
    assert_eq!(
        Node::Undefined(String::new()).render(),
        r#"<mtext>[PARSE ERROR: Undefined("")]</mtext>"#
    );
}

#[test]
fn undefined_among_siblings() {
    let row = Node::Row(vec![letter('a'), Node::Undefined("x".to_owned()), letter('b')]);
    assert_eq!(
        row.render(),
        r#"<mrow><mi>a</mi><mtext>[PARSE ERROR: Undefined("x")]</mtext><mi>b</mi></mrow>"#
    );
}

#[test]
fn markers_outside_a_table_are_diagnostics() {
    assert_eq!(Node::Ampersand.render(), "<mtext>[PARSE ERROR: Ampersand]</mtext>");
    assert_eq!(Node::NewLine.render(), "<mtext>[PARSE ERROR: NewLine]</mtext>");
    assert_eq!(
        Node::Row(vec![Node::NewLine]).render(),
        "<mrow><mtext>[PARSE ERROR: NewLine]</mtext></mrow>"
    );
}

#[test]
fn diagnostic_element() {
    assert_eq!(diagnostic("what"), "<mtext>[PARSE ERROR: what]</mtext>");
    assert_eq!(diagnostic(""), "<mtext>[PARSE ERROR: ]</mtext>");
    assert_eq!(describe_undefined("\"x\""), "Undefined(\"x\")");
}

#[test]
fn table_without_markers_is_one_cell() {
    assert_eq!(Node::Matrix(vec![]).render(), "<mtable><mtr><mtd></mtd></mtr></mtable>");
    assert_eq!(
        Node::Matrix(vec![letter('a'), letter('b')]).render(),
        "<mtable><mtr><mtd><mi>a</mi><mi>b</mi></mtd></mtr></mtable>"
    );
}

#[test]
fn table_two_by_two() {
    let table = Node::Matrix(vec![
        letter('a'),
        Node::Ampersand,
        letter('b'),
        Node::NewLine,
        letter('c'),
        Node::Ampersand,
        letter('d'),
    ]);
    assert_eq!(
        table.render(),
        concat_all(&[
            "<mtable>",
            "<mtr><mtd><mi>a</mi></mtd><mtd><mi>b</mi></mtd></mtr>",
            "<mtr><mtd><mi>c</mi></mtd><mtd><mi>d</mi></mtd></mtr>",
            "</mtable>",
        ])
    );
}

#[test]
fn table_consecutive_markers_give_empty_cells_and_rows() {
    assert_eq!(
        Node::Matrix(vec![Node::Ampersand, Node::Ampersand, letter('a')]).render(),
        "<mtable><mtr><mtd></mtd><mtd></mtd><mtd><mi>a</mi></mtd></mtr></mtable>"
    );
    assert_eq!(
        Node::Matrix(vec![letter('a'), Node::NewLine, Node::NewLine, letter('b')]).render(),
        concat_all(&[
            "<mtable>",
            "<mtr><mtd><mi>a</mi></mtd></mtr>",
            "<mtr><mtd></mtd></mtr>",
            "<mtr><mtd><mi>b</mi></mtd></mtr>",
            "</mtable>",
        ])
    );
}

#[test]
fn table_trailing_marker_opens_nothing() {
    let ended_row = Node::Matrix(vec![letter('a'), Node::NewLine]).render();
    assert_eq!(ended_row, "<mtable><mtr><mtd><mi>a</mi></mtd></mtr></mtd></mtr></mtable>");
    assert_eq!(occurrences(&ended_row, "<mtr>"), 1);
    assert_eq!(occurrences(&ended_row, "<mtd>"), 1);
    let ended_cell = Node::Matrix(vec![letter('a'), Node::Ampersand]).render();
    assert_eq!(ended_cell, "<mtable><mtr><mtd><mi>a</mi></mtd></mtd></mtr></mtable>");
    assert_eq!(occurrences(&ended_cell, "<mtr>"), 1);
    assert_eq!(occurrences(&ended_cell, "<mtd>"), 1);
}

#[test]
fn table_counts_rows_and_cells() {
    let table = Node::Matrix(vec![
        number("1"),
        Node::Ampersand,
        number("2"),
        Node::Ampersand,
        number("3"),
        Node::NewLine,
        number("4"),
        Node::NewLine,
        Node::Ampersand,
        number("5"),
    ]);
    let text = table.render();
    assert_eq!(occurrences(&text, "<mtr>"), 3);
    assert_eq!(occurrences(&text, "</mtr>"), 3);
    let rows: Vec<&str> = text.split("<mtr>").skip(1).collect();
    assert_eq!(occurrences(rows[0], "<mtd>"), 3);
    assert_eq!(occurrences(rows[1], "<mtd>"), 1);
    assert_eq!(occurrences(rows[2], "<mtd>"), 2);
}

#[test]
fn table_inside_a_table_cell() {
    let inner = Node::Matrix(vec![number("1"), Node::NewLine, number("2")]);
    let outer = Node::Matrix(vec![inner.clone(), Node::Ampersand, letter('x')]);
    assert_eq!(
        outer.render(),
        format!("<mtable><mtr><mtd>{}</mtd><mtd><mi>x</mi></mtd></mtr></mtable>", inner.render())
    );
}

#[test]
fn render_into_appends() {
    let mut out = String::from("<math>");
    number("1").render_into(&mut out);
    Node::Operator('+').render_into(&mut out);
    assert_eq!(out, "<math><mn>1</mn><mo>+</mo>");
}

#[test]
fn leaf_markup_does_not_depend_on_position() {
    let alone = number("42").render();
    let first = Node::Row(vec![number("42"), letter('x')]).render();
    let last = Node::Frac(boxed(letter('x')), boxed(number("42"))).render();
    assert_eq!(first, format!("<mrow>{}<mi>x</mi></mrow>", alone));
    assert_eq!(last, format!("<mfrac><mi>x</mi>{}</mfrac>", alone));
}

#[test]
fn rendering_twice_gives_the_same() {
    let tree = Node::Row(vec![
        Node::Sqrt(Some(boxed(number("3"))), boxed(letter('x'))),
        Node::Matrix(vec![letter('a'), Node::Ampersand, letter('b')]),
        Node::Undefined("x".to_owned()),
    ]);
    assert_eq!(tree.render(), tree.render());
}

#[test]
fn clone_is_equal_and_renders_the_same() {
    let tree = Node::Row(vec![
        Node::Function("cos", Some(boxed(letter('t')))),
        Node::Fenced { open: "[", close: "]", content: boxed(Node::Text("a".to_owned())) },
        Node::Matrix(vec![letter('a'), Node::NewLine, Node::Space("2".to_owned())]),
        Node::Slashed(boxed(Node::Letter('x', Variant::Fraktur))),
        Node::OverOp('~', Accent::True, boxed(Node::OtherOperator("lim"))),
    ]);
    let copy = tree.clone();
    assert_eq!(copy, tree);
    assert_eq!(copy.render(), tree.render());
}
