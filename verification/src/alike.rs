//! Trees that hold the same, and copies of trees.
//!
//! Two strings, or two vectors, can hold the same characters or nodes without
//! being one value. `alike` says of two trees that they differ in nothing
//! else: it is what a copy has in common with the tree it was made from.

use vstd::prelude::*;
use crate::ast::{markup, markup_concat, table_fold, table_step, Node};

verus! {

/// Whether `a` and `b` have the same shape and hold the same characters.
pub open spec fn alike(a: Node, b: Node) -> bool
    decreases a, 0nat,
{
    match (a, b) {
        (Node::Number(x), Node::Number(y)) => x@ == y@,
        (Node::Letter(x, s), Node::Letter(y, t)) => x == y && s == t,
        (Node::Operator(x), Node::Operator(y)) => x == y,
        (Node::Function(f, x), Node::Function(g, y)) => f@ == g@ && match (x, y) {
            (Some(p), Some(q)) => alike(*p, *q),
            (None, None) => true,
            _ => false,
        },
        (Node::Space(x), Node::Space(y)) => x@ == y@,
        (Node::Subscript(x, p), Node::Subscript(y, q)) => alike(*x, *y) && alike(*p, *q),
        (Node::Superscript(x, p), Node::Superscript(y, q)) => alike(*x, *y) && alike(*p, *q),
        (
            Node::SubSup { target: x, sub: p, sup: u },
            Node::SubSup { target: y, sub: q, sup: v },
        ) => alike(*x, *y) && alike(*p, *q) && alike(*u, *v),
        (Node::OverOp(c, s, x), Node::OverOp(d, t, y)) => c == d && s == t && alike(*x, *y),
        (Node::UnderOp(c, s, x), Node::UnderOp(d, t, y)) => c == d && s == t && alike(*x, *y),
        (Node::Overset { over: p, target: x }, Node::Overset { over: q, target: y }) => alike(
            *p,
            *q,
        ) && alike(*x, *y),
        (Node::Underset { under: p, target: x }, Node::Underset { under: q, target: y }) => alike(
            *p,
            *q,
        ) && alike(*x, *y),
        (Node::Under(x, p), Node::Under(y, q)) => alike(*x, *y) && alike(*p, *q),
        (
            Node::UnderOver { target: x, under: p, over: u },
            Node::UnderOver { target: y, under: q, over: v },
        ) => alike(*x, *y) && alike(*p, *q) && alike(*u, *v),
        (Node::Sqrt(p, x), Node::Sqrt(q, y)) => alike(*x, *y) && match (p, q) {
            (Some(d), Some(e)) => alike(*d, *e),
            (None, None) => true,
            _ => false,
        },
        (Node::Frac(x, p), Node::Frac(y, q)) => alike(*x, *y) && alike(*p, *q),
        (Node::Row(x), Node::Row(y)) => all_alike(x@, y@),
        (
            Node::Fenced { open: o, close: c, content: x },
            Node::Fenced { open: p, close: d, content: y },
        ) => o@ == p@ && c@ == d@ && alike(*x, *y),
        (Node::OtherOperator(x), Node::OtherOperator(y)) => x@ == y@,
        (Node::Text(x), Node::Text(y)) => x@ == y@,
        (Node::Matrix(x), Node::Matrix(y)) => all_alike(x@, y@),
        (Node::Ampersand, Node::Ampersand) => true,
        (Node::NewLine, Node::NewLine) => true,
        (Node::Slashed(x), Node::Slashed(y)) => alike(*x, *y),
        (Node::Undefined(x), Node::Undefined(y)) => x@ == y@,
        _ => false,
    }
}

/// Whether `a` and `b` are as long as each other and alike place by place.
pub open spec fn all_alike(a: Seq<Node>, b: Seq<Node>) -> bool
    decreases a, a.len(),
{
    if a.len() == 0 {
        b.len() == 0
    } else {
        b.len() == a.len() && all_alike(a.drop_last(), b.drop_last()) && alike(a.last(), b.last())
    }
}

/// Sequences that are alike are alike at each place.
pub proof fn all_alike_at(a: Seq<Node>, b: Seq<Node>, at: int)
    requires
        all_alike(a, b),
        0 <= at < a.len(),
    ensures
        a.len() == b.len(),
        alike(a[at], b[at]),
    decreases a.len(),
{
    if at < a.len() - 1 {
        all_alike_at(a.drop_last(), b.drop_last(), at);
    }
}

/// Sequences that are alike place by place are alike.
pub proof fn all_alike_from_places(a: Seq<Node>, b: Seq<Node>)
    requires
        a.len() == b.len(),
        forall|i: int| 0 <= i < a.len() ==> alike(#[trigger] a[i], b[i]),
    ensures
        all_alike(a, b),
    decreases a.len(),
{
    if a.len() > 0 {
        all_alike_from_places(a.drop_last(), b.drop_last());
    }
}

/// Every tree is like itself.
pub proof fn alike_is_reflexive(a: Node)
    ensures
        alike(a, a),
    decreases a, 0nat,
{
    match a {
        Node::Function(_, Some(p)) => {
            alike_is_reflexive(*p);
        },
        Node::Subscript(x, p) | Node::Superscript(x, p) | Node::Under(x, p) | Node::Frac(x, p) => {
            alike_is_reflexive(*x);
            alike_is_reflexive(*p);
        },
        Node::SubSup { target, sub, sup } => {
            alike_is_reflexive(*target);
            alike_is_reflexive(*sub);
            alike_is_reflexive(*sup);
        },
        Node::OverOp(_, _, x) | Node::UnderOp(_, _, x) | Node::Slashed(x) => {
            alike_is_reflexive(*x);
        },
        Node::Overset { over, target } => {
            alike_is_reflexive(*over);
            alike_is_reflexive(*target);
        },
        Node::Underset { under, target } => {
            alike_is_reflexive(*under);
            alike_is_reflexive(*target);
        },
        Node::UnderOver { target, under, over } => {
            alike_is_reflexive(*target);
            alike_is_reflexive(*under);
            alike_is_reflexive(*over);
        },
        Node::Sqrt(degree, content) => {
            alike_is_reflexive(*content);
            if let Some(deg) = degree {
                alike_is_reflexive(*deg);
            }
        },
        Node::Row(nodes) | Node::Matrix(nodes) => {
            all_alike_is_reflexive(nodes@);
        },
        Node::Fenced { content, .. } => {
            alike_is_reflexive(*content);
        },
        _ => {},
    }
}

/// Every sequence is like itself.
pub proof fn all_alike_is_reflexive(a: Seq<Node>)
    ensures
        all_alike(a, a),
    decreases a, a.len(),
{
    if a.len() > 0 {
        all_alike_is_reflexive(a.drop_last());
        alike_is_reflexive(a.last());
    }
}

/// Trees that are alike are of one kind, and an identifier or an operator is
/// alike only to itself.
pub proof fn same_kind(a: Node, b: Node)
    requires
        alike(a, b),
    ensures
        a is Letter <==> b is Letter,
        a is Operator <==> b is Operator,
        a is Ampersand <==> b is Ampersand,
        a is NewLine <==> b is NewLine,
        a is Letter || a is Operator ==> a == b,
{
}

/// Trees that are alike have the same markup.
pub proof fn alike_markup(a: Node, b: Node)
    requires
        alike(a, b),
    ensures
        markup(a) == markup(b),
    decreases a, 0nat,
{
    match (a, b) {
        (Node::Function(_, Some(p)), Node::Function(_, Some(q))) => {
            alike_markup(*p, *q);
            assert(markup(a) == markup(b));
        },
        (Node::Subscript(x, p), Node::Subscript(y, q)) => {
            alike_markup(*x, *y);
            alike_markup(*p, *q);
            assert(markup(a) == markup(b));
        },
        (Node::Superscript(x, p), Node::Superscript(y, q)) => {
            alike_markup(*x, *y);
            alike_markup(*p, *q);
            assert(markup(a) == markup(b));
        },
        (
            Node::SubSup { target: x, sub: p, sup: u },
            Node::SubSup { target: y, sub: q, sup: v },
        ) => {
            alike_markup(*x, *y);
            alike_markup(*p, *q);
            alike_markup(*u, *v);
            assert(markup(a) == markup(b));
        },
        (Node::OverOp(_, _, x), Node::OverOp(_, _, y)) => {
            alike_markup(*x, *y);
            assert(markup(a) == markup(b));
        },
        (Node::UnderOp(_, _, x), Node::UnderOp(_, _, y)) => {
            alike_markup(*x, *y);
            assert(markup(a) == markup(b));
        },
        (Node::Overset { over: p, target: x }, Node::Overset { over: q, target: y }) => {
            alike_markup(*x, *y);
            alike_markup(*p, *q);
            assert(markup(a) == markup(b));
        },
        (Node::Underset { under: p, target: x }, Node::Underset { under: q, target: y }) => {
            alike_markup(*x, *y);
            alike_markup(*p, *q);
            assert(markup(a) == markup(b));
        },
        (Node::Under(x, p), Node::Under(y, q)) => {
            alike_markup(*x, *y);
            alike_markup(*p, *q);
            assert(markup(a) == markup(b));
        },
        (
            Node::UnderOver { target: x, under: p, over: u },
            Node::UnderOver { target: y, under: q, over: v },
        ) => {
            alike_markup(*x, *y);
            alike_markup(*p, *q);
            alike_markup(*u, *v);
            assert(markup(a) == markup(b));
        },
        (Node::Sqrt(p, x), Node::Sqrt(q, y)) => {
            alike_markup(*x, *y);
            match (p, q) {
                (Some(d), Some(e)) => {
                    alike_markup(*d, *e);
                },
                _ => {},
            }
            assert(markup(a) == markup(b));
        },
        (Node::Frac(x, p), Node::Frac(y, q)) => {
            alike_markup(*x, *y);
            alike_markup(*p, *q);
            assert(markup(a) == markup(b));
        },
        (Node::Row(x), Node::Row(y)) => {
            all_alike_markup(x@, y@);
            assert(markup(a) == markup(b));
        },
        (Node::Fenced { content: x, .. }, Node::Fenced { content: y, .. }) => {
            alike_markup(*x, *y);
            assert(markup(a) == markup(b));
        },
        (Node::Matrix(x), Node::Matrix(y)) => {
            if x@.len() > 0 {
                all_alike_at(x@, y@, 0);
            }
            all_alike_table(x@, y@, x@.len());
            assert(markup(a) == markup(b));
        },
        (Node::Slashed(x), Node::Slashed(y)) => {
            alike_markup(*x, *y);
            same_kind(*x, *y);
            assert(markup(a) == markup(b));
        },
        _ => {},
    }
}

/// Sequences that are alike have the same markup.
pub proof fn all_alike_markup(a: Seq<Node>, b: Seq<Node>)
    requires
        all_alike(a, b),
    ensures
        markup_concat(a) == markup_concat(b),
    decreases a, a.len(),
{
    if a.len() > 0 {
        all_alike_markup(a.drop_last(), b.drop_last());
        alike_markup(a.last(), b.last());
    }
}

/// Sequences that are alike give, one pass over each, the same table at each
/// step.
pub proof fn all_alike_table(a: Seq<Node>, b: Seq<Node>, done: nat)
    requires
        all_alike(a, b),
        done <= a.len(),
    ensures
        table_fold(a, done) == table_fold(b, done),
    decreases a, done,
{
    if done > 0 {
        all_alike_at(a, b, done - 1);
        all_alike_table(a, b, (done - 1) as nat);
        alike_markup(a[done - 1], b[done - 1]);
        assert(table_step(a, done - 1) == table_step(b, done - 1));
    }
}

/// A copy of each node of `nodes`.
fn clone_all(nodes: &Vec<Node>) -> (copy: Vec<Node>)
    ensures
        all_alike(nodes@, copy@),
    decreases *nodes, 1nat,
{
    let mut copy: Vec<Node> = Vec::new();
    let mut i: usize = 0;
    while i < nodes.len()
        invariant
            i <= nodes.len(),
            copy@.len() == i,
            forall|k: int| 0 <= k < i ==> alike(#[trigger] nodes@[k], copy@[k]),
        decreases nodes.len() - i,
    {
        let node = nodes[i].clone();
        copy.push(node);
        i = i + 1;
    }
    proof {
        all_alike_from_places(nodes@, copy@);
    }
    copy
}

/// A copy of the node in the box, in a box of its own.
fn clone_boxed(node: &Box<Node>) -> (copy: Box<Node>)
    ensures
        alike(**node, *copy),
    decreases *node, 1nat,
{
    Box::new((**node).clone())
}

impl Clone for Node {
    /// A tree of its own that is like this one.
    fn clone(&self) -> (copy: Self)
        ensures
            alike(*self, copy),
        decreases *self, 0nat,
    {
        match self {
            Node::Number(digits) => Node::Number(digits.clone()),
            Node::Letter(glyph, style) => Node::Letter(*glyph, *style),
            Node::Operator(glyph) => Node::Operator(*glyph),
            Node::Function(name, argument) => match argument {
                Some(arg) => Node::Function(name, Some(clone_boxed(arg))),
                None => Node::Function(name, None),
            },
            Node::Space(width) => Node::Space(width.clone()),
            Node::Subscript(base, sub) => Node::Subscript(clone_boxed(base), clone_boxed(sub)),
            Node::Superscript(base, sup) => Node::Superscript(clone_boxed(base), clone_boxed(sup)),
            Node::SubSup { target, sub, sup } => Node::SubSup {
                target: clone_boxed(target),
                sub: clone_boxed(sub),
                sup: clone_boxed(sup),
            },
            Node::OverOp(glyph, accent, target) => Node::OverOp(
                *glyph,
                *accent,
                clone_boxed(target),
            ),
            Node::UnderOp(glyph, accent, target) => Node::UnderOp(
                *glyph,
                *accent,
                clone_boxed(target),
            ),
            Node::Overset { over, target } => Node::Overset {
                over: clone_boxed(over),
                target: clone_boxed(target),
            },
            Node::Underset { under, target } => Node::Underset {
                under: clone_boxed(under),
                target: clone_boxed(target),
            },
            Node::Under(target, under) => Node::Under(clone_boxed(target), clone_boxed(under)),
            Node::UnderOver { target, under, over } => Node::UnderOver {
                target: clone_boxed(target),
                under: clone_boxed(under),
                over: clone_boxed(over),
            },
            Node::Sqrt(degree, content) => match degree {
                Some(deg) => Node::Sqrt(Some(clone_boxed(deg)), clone_boxed(content)),
                None => Node::Sqrt(None, clone_boxed(content)),
            },
            Node::Frac(numerator, denominator) => Node::Frac(
                clone_boxed(numerator),
                clone_boxed(denominator),
            ),
            Node::Row(nodes) => Node::Row(clone_all(nodes)),
            Node::Fenced { open, close, content } => Node::Fenced {
                open,
                close,
                content: clone_boxed(content),
            },
            Node::OtherOperator(text) => Node::OtherOperator(text),
            Node::Text(text) => Node::Text(text.clone()),
            Node::Matrix(nodes) => Node::Matrix(clone_all(nodes)),
            Node::Ampersand => Node::Ampersand,
            Node::NewLine => Node::NewLine,
            Node::Slashed(inner) => Node::Slashed(clone_boxed(inner)),
            Node::Undefined(message) => Node::Undefined(message.clone()),
        }
    }
}

} // verus!
