//! The expression tree and its rendering.

use vstd::prelude::*;
use vstd::string::StringExecFns;
use crate::attribute::{Accent, Variant};
use crate::text::{debug_format, debug_quoted};

verus! {

/// A node of a mathematical expression tree.
#[derive(Debug, PartialEq)]
pub enum Node {
    /// A numeric literal, as its digits.
    Number(String),
    /// One identifier glyph and the style it is drawn in.
    Letter(char, Variant),
    /// One operator glyph.
    Operator(char),
    /// A named function, applied to an argument where there is one.
    Function(&'static str, Option<Box<Node>>),
    /// A horizontal gap. The payload is its width in em, as decimal text.
    Space(String),
    Subscript(Box<Node>, Box<Node>),
    Superscript(Box<Node>, Box<Node>),
    SubSup { target: Box<Node>, sub: Box<Node>, sup: Box<Node> },
    /// An operator glyph placed over a base.
    OverOp(char, Accent, Box<Node>),
    /// An operator glyph placed under a base.
    UnderOp(char, Accent, Box<Node>),
    Overset { over: Box<Node>, target: Box<Node> },
    Underset { under: Box<Node>, target: Box<Node> },
    Under(Box<Node>, Box<Node>),
    UnderOver { target: Box<Node>, under: Box<Node>, over: Box<Node> },
    /// A root: the degree, where it is not a square root, and the radicand.
    Sqrt(Option<Box<Node>>, Box<Node>),
    Frac(Box<Node>, Box<Node>),
    /// A horizontal group.
    Row(Vec<Node>),
    Fenced { open: &'static str, close: &'static str, content: Box<Node> },
    /// An operator of several characters, written as it stands.
    OtherOperator(&'static str),
    /// Text that is not mathematical notation.
    Text(String),
    /// A table as a flat sequence: cells' contents, with `Ampersand` between
    /// the cells of a row and `NewLine` between rows.
    Matrix(Vec<Node>),
    /// Ends a cell. Has a meaning only directly inside a `Matrix`.
    Ampersand,
    /// Ends a row. Has a meaning only directly inside a `Matrix`.
    NewLine,
    /// A negation stroke laid over the glyph of the wrapped node.
    Slashed(Box<Node>),
    /// A node that could not be built, with a message that says why.
    Undefined(String),
}

/// The combining stroke that negates the glyph it follows.
pub open spec fn stroke() -> Seq<char> {
    "&#x0338;"@
}

/// The opening tag of an identifier drawn in `style`.
pub open spec fn identifier_open(style: Variant) -> Seq<char> {
    if style.is_default_spec() {
        "<mi>"@
    } else {
        "<mi mathvariant=\""@ + style.name_spec() + "\">"@
    }
}

/// An identifier element: the glyph, and after it whatever is laid over it.
pub open spec fn identifier(glyph: char, style: Variant, overlay: Seq<char>) -> Seq<char> {
    identifier_open(style).push(glyph) + overlay + "</mi>"@
}

/// An operator element: the glyph, and after it whatever is laid over it.
pub open spec fn operator(glyph: char, overlay: Seq<char>) -> Seq<char> {
    "<mo>"@.push(glyph) + overlay + "</mo>"@
}

/// An operator element that says whether it is an accent.
pub open spec fn accent_operator(glyph: char, accent: Accent) -> Seq<char> {
    ("<mo accent=\""@ + accent.name_spec() + "\">"@).push(glyph) + "</mo>"@
}

/// The element shown in place of a node that has no rendering.
pub open spec fn diagnostic_spec(description: Seq<char>) -> Seq<char> {
    "<mtext>[PARSE ERROR: "@ + description + "]</mtext>"@
}

/// How an `Undefined` node with the given message describes itself.
pub open spec fn undefined_description(quoted: Seq<char>) -> Seq<char> {
    "Undefined("@ + quoted + ")"@
}

/// Whether `node` is one of the two markers that divide a table.
pub open spec fn is_break(node: Node) -> bool {
    node is Ampersand || node is NewLine
}

/// The markup of `node`.
pub open spec fn markup(node: Node) -> Seq<char>
    decreases node, 0nat,
{
    match node {
        Node::Number(digits) => "<mn>"@ + digits@ + "</mn>"@,
        Node::Letter(glyph, style) => identifier(glyph, style, Seq::empty()),
        Node::Operator(glyph) => operator(glyph, Seq::empty()),
        Node::Function(name, argument) => match argument {
            Some(arg) => "<mi>"@ + name@ + "</mi><mo>&#x2061;</mo>"@ + markup(*arg),
            None => "<mi>"@ + name@ + "</mi>"@,
        },
        Node::Space(width) => "<mspace width=\""@ + width@ + "em\"/>"@,
        Node::Subscript(base, sub) => "<msub>"@ + markup(*base) + markup(*sub) + "</msub>"@,
        Node::Superscript(base, sup) => "<msup>"@ + markup(*base) + markup(*sup) + "</msup>"@,
        Node::SubSup { target, sub, sup } => "<msubsup>"@ + markup(*target) + markup(*sub)
            + markup(*sup) + "</msubsup>"@,
        Node::OverOp(glyph, accent, target) => "<mover>"@ + markup(*target) + accent_operator(
            glyph,
            accent,
        ) + "</mover>"@,
        Node::UnderOp(glyph, accent, target) => "<munder>"@ + markup(*target) + accent_operator(
            glyph,
            accent,
        ) + "</munder>"@,
        Node::Overset { over, target } => "<mover>"@ + markup(*target) + markup(*over)
            + "</mover>"@,
        Node::Underset { under, target } => "<munder>"@ + markup(*target) + markup(*under)
            + "</munder>"@,
        Node::Under(target, under) => "<munder>"@ + markup(*target) + markup(*under)
            + "</munder>"@,
        Node::UnderOver { target, under, over } => "<munderover>"@ + markup(*target) + markup(
            *under,
        ) + markup(*over) + "</munderover>"@,
        Node::Sqrt(degree, content) => match degree {
            Some(deg) => "<mroot>"@ + markup(*content) + markup(*deg) + "</mroot>"@,
            None => "<msqrt>"@ + markup(*content) + "</msqrt>"@,
        },
        Node::Frac(numerator, denominator) => "<mfrac>"@ + markup(*numerator) + markup(
            *denominator,
        ) + "</mfrac>"@,
        Node::Row(nodes) => "<mrow>"@ + markup_concat(nodes@) + "</mrow>"@,
        Node::Fenced { open, close, content } => "<mrow><mo stretchy=\"true\" form=\"prefix\">"@
            + open@ + "</mo>"@ + markup(*content) + "<mo stretchy=\"true\" form=\"postfix\">"@
            + close@ + "</mo></mrow>"@,
        Node::OtherOperator(text) => "<mo>"@ + text@ + "</mo>"@,
        Node::Text(text) => "<mtext>"@ + text@ + "</mtext>"@,
        Node::Matrix(nodes) => table_fold(nodes@, nodes@.len()) + "</mtd>"@ + "</mtr>"@
            + "</mtable>"@,
        Node::Ampersand => diagnostic_spec("Ampersand"@),
        Node::NewLine => diagnostic_spec("NewLine"@),
        Node::Slashed(inner) => match *inner {
            Node::Letter(glyph, style) => identifier(glyph, style, stroke()),
            Node::Operator(glyph) => operator(glyph, stroke()),
            other => markup(other),
        },
        Node::Undefined(message) => diagnostic_spec(undefined_description(debug_quoted(message@))),
    }
}

/// The markup of each node of `nodes` in turn, with nothing between them.
pub open spec fn markup_concat(nodes: Seq<Node>) -> Seq<char>
    decreases nodes, nodes.len(),
{
    if nodes.len() == 0 {
        Seq::empty()
    } else {
        markup_concat(nodes.drop_last()) + markup(nodes.last())
    }
}

/// What the element at `at` adds to a table: a cell's content, or the tags
/// that end a cell or a row and, unless it is the last element, begin the
/// next one.
pub open spec fn table_step(nodes: Seq<Node>, at: int) -> Seq<char>
    recommends
        0 <= at < nodes.len(),
    decreases nodes, 0nat,
    when 0 <= at < nodes.len()
{
    match nodes[at] {
        Node::NewLine => if at + 1 < nodes.len() {
            "</mtd>"@ + "</mtr>"@ + "<mtr>"@ + "<mtd>"@
        } else {
            "</mtd>"@ + "</mtr>"@
        },
        Node::Ampersand => if at + 1 < nodes.len() {
            "</mtd>"@ + "<mtd>"@
        } else {
            "</mtd>"@
        },
        other => markup(other),
    }
}

/// The table's markup once the first `done` elements of `nodes` are written:
/// the table, its first row and that row's first cell are opened, then each
/// element adds its step.
pub open spec fn table_fold(nodes: Seq<Node>, done: nat) -> Seq<char>
    recommends
        done <= nodes.len(),
    decreases nodes, 1nat, done,
{
    if done == 0 || done > nodes.len() {
        "<mtable>"@ + "<mtr>"@ + "<mtd>"@
    } else {
        table_fold(nodes, (done - 1) as nat) + table_step(nodes, done - 1)
    }
}

/// The element shown in place of a node that has no rendering, around the
/// given description of the node.
pub fn diagnostic(description: &str) -> (element: String)
    ensures
        element@ == diagnostic_spec(description@),
{
    let mut element = String::new();
    element.append("<mtext>[PARSE ERROR: ");
    element.append(description);
    element.append("]</mtext>");
    proof {
        assert(element@ =~= diagnostic_spec(description@));
    }
    element
}

/// How an `Undefined` node describes itself, given its message as the
/// standard library's `Debug` formatting writes it.
pub fn describe_undefined(quoted: &str) -> (description: String)
    ensures
        description@ == undefined_description(quoted@),
{
    let mut description = String::new();
    description.append("Undefined(");
    description.append(quoted);
    description.append(")");
    proof {
        assert(description@ =~= undefined_description(quoted@));
    }
    description
}

/// Appends an identifier element to `out`.
fn push_identifier(out: &mut String, glyph: char, style: Variant, slashed: bool)
    ensures
        final(out)@ == old(out)@ + identifier(
            glyph,
            style,
            if slashed {
                stroke()
            } else {
                Seq::empty()
            },
        ),
{
    if style.is_default() {
        out.append("<mi>");
    } else {
        out.append("<mi mathvariant=\"");
        out.append(style.name());
        out.append("\">");
    }
    out.push(glyph);
    if slashed {
        out.append("&#x0338;");
    }
    out.append("</mi>");
    proof {
        let overlay = if slashed {
            stroke()
        } else {
            Seq::empty()
        };
        assert(out@ =~= old(out)@ + identifier(glyph, style, overlay));
    }
}

/// Appends an operator element to `out`.
fn push_operator(out: &mut String, glyph: char, slashed: bool)
    ensures
        final(out)@ == old(out)@ + operator(
            glyph,
            if slashed {
                stroke()
            } else {
                Seq::empty()
            },
        ),
{
    out.append("<mo>");
    out.push(glyph);
    if slashed {
        out.append("&#x0338;");
    }
    out.append("</mo>");
    proof {
        let overlay = if slashed {
            stroke()
        } else {
            Seq::empty()
        };
        assert(out@ =~= old(out)@ + operator(glyph, overlay));
    }
}

/// Appends an operator element that says whether it is an accent.
fn push_accent_operator(out: &mut String, glyph: char, accent: Accent)
    ensures
        final(out)@ == old(out)@ + accent_operator(glyph, accent),
{
    out.append("<mo accent=\"");
    out.append(accent.name());
    out.append("\">");
    out.push(glyph);
    out.append("</mo>");
    proof {
        assert(out@ =~= old(out)@ + accent_operator(glyph, accent));
    }
}

/// Appends the markup of each node of `nodes` in turn.
fn push_concat(nodes: &Vec<Node>, out: &mut String)
    ensures
        final(out)@ == old(out)@ + markup_concat(nodes@),
    decreases *nodes, 1nat,
{
    let mut i: usize = 0;
    while i < nodes.len()
        invariant
            i <= nodes.len(),
            out@ == old(out)@ + markup_concat(nodes@.take(i as int)),
        decreases nodes.len() - i,
    {
        proof {
            assert(nodes@.take(i + 1).drop_last() =~= nodes@.take(i as int));
        }
        nodes[i].render_into(out);
        proof {
            assert(out@ =~= old(out)@ + markup_concat(nodes@.take(i + 1)));
        }
        i = i + 1;
    }
    proof {
        assert(nodes@.take(nodes.len() as int) =~= nodes@);
    }
}

/// Appends a table, but for the tags that close its last cell, its last row
/// and the table itself.
fn push_table(nodes: &Vec<Node>, out: &mut String)
    ensures
        final(out)@ == old(out)@ + table_fold(nodes@, nodes@.len()),
    decreases *nodes, 1nat,
{
    out.append("<mtable>");
    out.append("<mtr>");
    out.append("<mtd>");
    let mut i: usize = 0;
    while i < nodes.len()
        invariant
            i <= nodes.len(),
            out@ == old(out)@ + table_fold(nodes@, i as nat),
        decreases nodes.len() - i,
    {
        let more = i + 1 < nodes.len();
        match &nodes[i] {
            Node::NewLine => {
                out.append("</mtd>");
                out.append("</mtr>");
                if more {
                    out.append("<mtr>");
                    out.append("<mtd>");
                }
            },
            Node::Ampersand => {
                out.append("</mtd>");
                if more {
                    out.append("<mtd>");
                }
            },
            cell => {
                cell.render_into(out);
            },
        }
        proof {
            assert(out@ =~= old(out)@ + (table_fold(nodes@, i as nat) + table_step(
                nodes@,
                i as int,
            )));
        }
        i = i + 1;
    }
}

impl Node {
    /// Appends the markup of this node to `out`.
    pub fn render_into(&self, out: &mut String)
        ensures
            final(out)@ == old(out)@ + markup(*self),
        decreases *self, 0nat,
    {
        match self {
            Node::Number(digits) => {
                out.append("<mn>");
                out.append(digits.as_str());
                out.append("</mn>");
                proof {
                    assert(out@ =~= old(out)@ + markup(*self));
                }
            },
            Node::Letter(glyph, style) => {
                push_identifier(out, *glyph, *style, false);
                proof {
                    assert(out@ =~= old(out)@ + markup(*self));
                }
            },
            Node::Operator(glyph) => {
                push_operator(out, *glyph, false);
                proof {
                    assert(out@ =~= old(out)@ + markup(*self));
                }
            },
            Node::Function(name, argument) => {
                out.append("<mi>");
                out.append(name);
                match argument {
                    Some(arg) => {
                        out.append("</mi><mo>&#x2061;</mo>");
                        arg.render_into(out);
                    },
                    None => {
                        out.append("</mi>");
                    },
                }
                proof {
                    assert(out@ =~= old(out)@ + markup(*self));
                }
            },
            Node::Space(width) => {
                out.append("<mspace width=\"");
                out.append(width.as_str());
                out.append("em\"/>");
                proof {
                    assert(out@ =~= old(out)@ + markup(*self));
                }
            },
            Node::Subscript(base, sub) => {
                out.append("<msub>");
                base.render_into(out);
                sub.render_into(out);
                out.append("</msub>");
                proof {
                    assert(out@ =~= old(out)@ + markup(*self));
                }
            },
            Node::Superscript(base, sup) => {
                out.append("<msup>");
                base.render_into(out);
                sup.render_into(out);
                out.append("</msup>");
                proof {
                    assert(out@ =~= old(out)@ + markup(*self));
                }
            },
            Node::SubSup { target, sub, sup } => {
                out.append("<msubsup>");
                target.render_into(out);
                sub.render_into(out);
                sup.render_into(out);
                out.append("</msubsup>");
                proof {
                    assert(out@ =~= old(out)@ + markup(*self));
                }
            },
            Node::OverOp(glyph, accent, target) => {
                out.append("<mover>");
                target.render_into(out);
                push_accent_operator(out, *glyph, *accent);
                out.append("</mover>");
                proof {
                    assert(out@ =~= old(out)@ + markup(*self));
                }
            },
            Node::UnderOp(glyph, accent, target) => {
                out.append("<munder>");
                target.render_into(out);
                push_accent_operator(out, *glyph, *accent);
                out.append("</munder>");
                proof {
                    assert(out@ =~= old(out)@ + markup(*self));
                }
            },
            Node::Overset { over, target } => {
                out.append("<mover>");
                target.render_into(out);
                over.render_into(out);
                out.append("</mover>");
                proof {
                    assert(out@ =~= old(out)@ + markup(*self));
                }
            },
            Node::Underset { under, target } => {
                out.append("<munder>");
                target.render_into(out);
                under.render_into(out);
                out.append("</munder>");
                proof {
                    assert(out@ =~= old(out)@ + markup(*self));
                }
            },
            Node::Under(target, under) => {
                out.append("<munder>");
                target.render_into(out);
                under.render_into(out);
                out.append("</munder>");
                proof {
                    assert(out@ =~= old(out)@ + markup(*self));
                }
            },
            Node::UnderOver { target, under, over } => {
                out.append("<munderover>");
                target.render_into(out);
                under.render_into(out);
                over.render_into(out);
                out.append("</munderover>");
                proof {
                    assert(out@ =~= old(out)@ + markup(*self));
                }
            },
            Node::Sqrt(degree, content) => {
                match degree {
                    Some(deg) => {
                        out.append("<mroot>");
                        content.render_into(out);
                        deg.render_into(out);
                        out.append("</mroot>");
                    },
                    None => {
                        out.append("<msqrt>");
                        content.render_into(out);
                        out.append("</msqrt>");
                    },
                }
                proof {
                    assert(out@ =~= old(out)@ + markup(*self));
                }
            },
            Node::Frac(numerator, denominator) => {
                out.append("<mfrac>");
                numerator.render_into(out);
                denominator.render_into(out);
                out.append("</mfrac>");
                proof {
                    assert(out@ =~= old(out)@ + markup(*self));
                }
            },
            Node::Row(nodes) => {
                out.append("<mrow>");
                push_concat(nodes, out);
                out.append("</mrow>");
                proof {
                    assert(out@ =~= old(out)@ + markup(*self));
                }
            },
            Node::Fenced { open, close, content } => {
                out.append("<mrow><mo stretchy=\"true\" form=\"prefix\">");
                out.append(open);
                out.append("</mo>");
                content.render_into(out);
                out.append("<mo stretchy=\"true\" form=\"postfix\">");
                out.append(close);
                out.append("</mo></mrow>");
                proof {
                    assert(out@ =~= old(out)@ + markup(*self));
                }
            },
            Node::OtherOperator(text) => {
                out.append("<mo>");
                out.append(text);
                out.append("</mo>");
                proof {
                    assert(out@ =~= old(out)@ + markup(*self));
                }
            },
            Node::Text(text) => {
                out.append("<mtext>");
                out.append(text.as_str());
                out.append("</mtext>");
                proof {
                    assert(out@ =~= old(out)@ + markup(*self));
                }
            },
            Node::Matrix(nodes) => {
                push_table(nodes, out);
                out.append("</mtd>");
                out.append("</mtr>");
                out.append("</mtable>");
                proof {
                    assert(out@ =~= old(out)@ + markup(*self));
                }
            },
            Node::Ampersand => {
                let element = diagnostic("Ampersand");
                out.append(element.as_str());
                proof {
                    assert(out@ =~= old(out)@ + markup(*self));
                }
            },
            Node::NewLine => {
                let element = diagnostic("NewLine");
                out.append(element.as_str());
                proof {
                    assert(out@ =~= old(out)@ + markup(*self));
                }
            },
            Node::Slashed(inner) => {
                match &**inner {
                    Node::Letter(glyph, style) => {
                        push_identifier(out, *glyph, *style, true);
                    },
                    Node::Operator(glyph) => {
                        push_operator(out, *glyph, true);
                    },
                    other => {
                        other.render_into(out);
                    },
                }
                proof {
                    assert(out@ =~= old(out)@ + markup(*self));
                }
            },
            Node::Undefined(message) => {
                let quoted = debug_format(message.as_str());
                let description = describe_undefined(quoted.as_str());
                let element = diagnostic(description.as_str());
                out.append(element.as_str());
                proof {
                    assert(out@ =~= old(out)@ + markup(*self));
                }
            },
        }
    }

    /// The markup of this node.
    pub fn render(&self) -> (text: String)
        ensures
            text@ == markup(*self),
    {
        let mut text = String::new();
        self.render_into(&mut text);
        proof {
            assert(text@ =~= markup(*self));
        }
        text
    }
}

} // verus!
