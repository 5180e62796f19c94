//! What holds of the markup of every tree.

use vstd::prelude::*;
use crate::alike::alike;
use crate::ast::{identifier, identifier_open, markup, markup_concat, stroke, Node};
use crate::attribute::Variant;

verus! {

/// Whether `node` has no node below it.
pub open spec fn is_leaf(node: Node) -> bool {
    match node {
        Node::Number(_) => true,
        Node::Letter(_, _) => true,
        Node::Operator(_) => true,
        Node::Function(_, argument) => argument is None,
        Node::Space(_) => true,
        Node::OtherOperator(_) => true,
        Node::Text(_) => true,
        _ => false,
    }
}

/// The markup of a leaf depends on its payload alone: two leaves of one kind
/// that hold the same characters have the same markup.
pub proof fn leaf_markup_by_payload(a: Node, b: Node)
    requires
        is_leaf(a),
        alike(a, b),
    ensures
        is_leaf(b),
        markup(a) == markup(b),
{
}

/// The markup of a tree is a function of the tree: any two strings that hold
/// it are equal, character by character.
pub proof fn markup_is_deterministic(node: Node, first: String, second: String)
    requires
        first@ == markup(node),
        second@ == markup(node),
    ensures
        first@ == second@,
{
}

/// An identifier in the default style has no style attribute. In any other
/// style it has the attribute, with the name of the style as its value.
pub proof fn letter_markup(glyph: char, style: Variant)
    ensures
        style is Italic ==> markup(Node::Letter(glyph, style)) == "<mi>"@.push(glyph) + "</mi>"@,
        !(style is Italic) ==> markup(Node::Letter(glyph, style)) == ("<mi mathvariant=\""@
            + style.name_spec() + "\">"@).push(glyph) + "</mi>"@,
{
    assert(identifier(glyph, style, Seq::empty()) =~= identifier_open(style).push(
        glyph,
    ) + "</mi>"@);
}

/// A stroke over an identifier or an operator stands directly behind the
/// glyph, inside the element that the glyph has without the stroke. A stroke
/// over any other node changes nothing.
pub proof fn slashed_markup(inner: Box<Node>)
    ensures
        match *inner {
            Node::Letter(glyph, style) => markup(Node::Slashed(inner)) == identifier(
                glyph,
                style,
                stroke(),
            ),
            Node::Operator(glyph) => markup(Node::Slashed(inner)) == "<mo>"@.push(glyph)
                + "&#x0338;"@ + "</mo>"@,
            other => markup(Node::Slashed(inner)) == markup(other),
        },
{
}

/// A square root is an `msqrt` element around the radicand. A root with a
/// degree is an `mroot` element that holds the radicand first and the degree
/// after it.
pub proof fn root_markup(degree: Option<Box<Node>>, radicand: Box<Node>)
    ensures
        degree is None ==> markup(Node::Sqrt(degree, radicand)) == "<msqrt>"@ + markup(*radicand)
            + "</msqrt>"@,
        degree matches Some(deg) ==> markup(Node::Sqrt(degree, radicand)) == "<mroot>"@ + markup(
            *radicand,
        ) + markup(*deg) + "</mroot>"@,
{
}

/// The markup of a sequence with one more node.
pub proof fn markup_concat_push(nodes: Seq<Node>, node: Node)
    ensures
        markup_concat(nodes.push(node)) == markup_concat(nodes) + markup(node),
{
    assert(nodes.push(node).drop_last() =~= nodes);
}

/// The markup of two sequences, one after the other, is the markup of the
/// first followed by that of the second.
pub proof fn markup_concat_append(front: Seq<Node>, back: Seq<Node>)
    ensures
        markup_concat(front + back) == markup_concat(front) + markup_concat(back),
    decreases back.len(),
{
    if back.len() == 0 {
        assert(front + back =~= front);
        assert(markup_concat(front) + markup_concat(back) =~= markup_concat(front));
    } else {
        markup_concat_append(front, back.drop_last());
        assert((front + back).drop_last() =~= front + back.drop_last());
        assert(markup_concat(front + back) =~= markup_concat(front) + markup_concat(back));
    }
}

/// A row is one `mrow` element around the markup of its nodes, which follow
/// each other with nothing between them: no node gives none, one node gives
/// its own markup, and more nodes give theirs in order.
pub proof fn row_markup(nodes: Vec<Node>, at: int)
    requires
        0 <= at <= nodes@.len(),
    ensures
        markup(Node::Row(nodes)) == "<mrow>"@ + markup_concat(nodes@) + "</mrow>"@,
        markup_concat(Seq::empty()) == Seq::<char>::empty(),
        nodes@.len() == 1 ==> markup_concat(nodes@) == markup(nodes@[0]),
        markup_concat(nodes@) == markup_concat(nodes@.take(at)) + markup_concat(nodes@.skip(at)),
{
    if nodes@.len() == 1 {
        markup_concat_push(Seq::empty(), nodes@[0]);
        assert(Seq::<Node>::empty().push(nodes@[0]) =~= nodes@);
        assert(Seq::<char>::empty() + markup(nodes@[0]) =~= markup(nodes@[0]));
    }
    markup_concat_append(nodes@.take(at), nodes@.skip(at));
    assert(nodes@.take(at) + nodes@.skip(at) =~= nodes@);
}

/// The markup of a node stands unchanged in the markup of a sequence that
/// holds it, wherever it stands there and whatever stands around it: before
/// it comes the markup of the nodes before it, after it that of the nodes
/// after it.
pub proof fn markup_in_place(nodes: Seq<Node>, at: int)
    requires
        0 <= at < nodes.len(),
    ensures
        markup_concat(nodes) == markup_concat(nodes.take(at)) + markup(nodes[at]) + markup_concat(
            nodes.skip(at + 1),
        ),
{
    let front = nodes.take(at);
    let back = nodes.skip(at + 1);
    markup_concat_push(front, nodes[at]);
    markup_concat_append(front.push(nodes[at]), back);
    assert(front.push(nodes[at]) + back =~= nodes);
}

/// Putting another node in the place of one changes the markup of that one
/// alone: what its neighbours give stays as it was.
pub proof fn markup_of_neighbours_kept(nodes: Seq<Node>, at: int, other: Node)
    requires
        0 <= at < nodes.len(),
    ensures
        markup_concat(nodes.update(at, other)) == markup_concat(nodes.take(at)) + markup(other)
            + markup_concat(nodes.skip(at + 1)),
{
    let changed = nodes.update(at, other);
    markup_in_place(changed, at);
    assert(changed.take(at) =~= nodes.take(at));
    assert(changed.skip(at + 1) =~= nodes.skip(at + 1));
}

} // verus!
