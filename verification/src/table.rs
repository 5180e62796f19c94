//! What the markup of a `Matrix` is in terms of rows and cells.
//!
//! The renderer writes a table in one pass over a flat sequence. This module
//! cuts that sequence into rows and cells, says what the markup of such a
//! table is, and proves that the one pass writes exactly that.

use vstd::prelude::*;
use crate::ast::{is_break, markup, markup_concat, table_fold, table_step, Node};
use crate::laws::markup_concat_push;

verus! {

/// The two markers that divide a table.
#[derive(Debug, Clone, Copy, PartialEq, Eq)]
pub enum Break {
    /// `Node::NewLine`, which ends a row.
    Row,
    /// `Node::Ampersand`, which ends a cell.
    Cell,
}

/// Whether `node` is the marker `mark`.
pub open spec fn is_mark(node: Node, mark: Break) -> bool {
    match mark {
        Break::Row => node is NewLine,
        Break::Cell => node is Ampersand,
    }
}

/// How many of `nodes` are the marker `mark`.
pub open spec fn count(nodes: Seq<Node>, mark: Break) -> nat
    decreases nodes.len(),
{
    if nodes.len() == 0 {
        0
    } else if is_mark(nodes.last(), mark) {
        count(nodes.drop_last(), mark) + 1
    } else {
        count(nodes.drop_last(), mark)
    }
}

/// The pieces into which the markers `mark` cut `nodes`: what stands before
/// the first marker, between each two, and after the last. The markers
/// themselves are in no piece.
pub open spec fn split(nodes: Seq<Node>, mark: Break) -> Seq<Seq<Node>>
    decreases nodes.len(),
{
    if nodes.len() == 0 {
        seq![Seq::empty()]
    } else {
        let before = split(nodes.drop_last(), mark);
        if is_mark(nodes.last(), mark) {
            before.push(Seq::empty())
        } else {
            before.drop_last().push(before.last().push(nodes.last()))
        }
    }
}

/// The rows of a table: the pieces between `NewLine` markers.
pub open spec fn rows_of(nodes: Seq<Node>) -> Seq<Seq<Node>> {
    split(nodes, Break::Row)
}

/// The cells of a row: the pieces between `Ampersand` markers.
pub open spec fn cells_of(row: Seq<Node>) -> Seq<Seq<Node>> {
    split(row, Break::Cell)
}

/// One `mtd` element for each cell, around the markup of its nodes.
pub open spec fn cells_markup(cells: Seq<Seq<Node>>) -> Seq<char>
    decreases cells.len(),
{
    if cells.len() == 0 {
        Seq::empty()
    } else {
        cells_markup(cells.drop_last()) + "<mtd>"@ + markup_concat(cells.last()) + "</mtd>"@
    }
}

/// One `mtr` element for each row, around the elements of its cells.
pub open spec fn rows_markup(rows: Seq<Seq<Node>>) -> Seq<char>
    decreases rows.len(),
{
    if rows.len() == 0 {
        Seq::empty()
    } else {
        rows_markup(rows.drop_last()) + "<mtr>"@ + cells_markup(cells_of(rows.last())) + "</mtr>"@
    }
}

/// The table element for the flat sequence `nodes`.
pub open spec fn table_markup(nodes: Seq<Node>) -> Seq<char> {
    "<mtable>"@ + rows_markup(rows_of(nodes)) + "</mtable>"@
}

/// The table for `nodes` with its last cell, its last row and the table
/// itself still open.
pub open spec fn open_table(nodes: Seq<Node>) -> Seq<char> {
    let rows = rows_of(nodes);
    let cells = cells_of(rows.last());
    "<mtable>"@ + rows_markup(rows.drop_last()) + "<mtr>"@ + cells_markup(cells.drop_last())
        + "<mtd>"@ + markup_concat(cells.last())
}

/// The markers cut a sequence into one piece more than there are markers.
pub proof fn split_len(nodes: Seq<Node>, mark: Break)
    ensures
        split(nodes, mark).len() == count(nodes, mark) + 1,
    decreases nodes.len(),
{
    if nodes.len() > 0 {
        split_len(nodes.drop_last(), mark);
    }
}

/// No piece holds a marker of the kind that cut it.
pub proof fn split_pieces_hold_no_mark(nodes: Seq<Node>, mark: Break)
    ensures
        forall|p: int, i: int|
            0 <= p < split(nodes, mark).len() && 0 <= i < split(nodes, mark)[p].len() ==> !is_mark(
                #[trigger] split(nodes, mark)[p][i],
                mark,
            ),
    decreases nodes.len(),
{
    if nodes.len() > 0 {
        split_len(nodes.drop_last(), mark);
        split_pieces_hold_no_mark(nodes.drop_last(), mark);
    }
}

/// What one more node does to the pieces.
pub proof fn split_push(nodes: Seq<Node>, node: Node, mark: Break)
    ensures
        split(nodes, mark).len() > 0,
        is_mark(node, mark) ==> split(nodes.push(node), mark) == split(nodes, mark).push(
            Seq::empty(),
        ),
        !is_mark(node, mark) ==> split(nodes.push(node), mark) == split(
            nodes,
            mark,
        ).drop_last().push(split(nodes, mark).last().push(node)),
{
    split_len(nodes, mark);
    assert(nodes.push(node).drop_last() =~= nodes);
}

/// The parts of an open table, named: what the closed rows give, what the
/// closed cells of the open row give, and what the open cell holds.
proof fn open_table_parts(nodes: Seq<Node>) -> (parts: (Seq<char>, Seq<char>, Seq<char>))
    ensures
        rows_of(nodes).len() > 0,
        cells_of(rows_of(nodes).last()).len() > 0,
        parts.0 == rows_markup(rows_of(nodes).drop_last()),
        parts.1 == cells_markup(cells_of(rows_of(nodes).last()).drop_last()),
        parts.2 == markup_concat(cells_of(rows_of(nodes).last()).last()),
        open_table(nodes) == "<mtable>"@ + parts.0 + "<mtr>"@ + parts.1 + "<mtd>"@ + parts.2,
        cells_markup(cells_of(rows_of(nodes).last())) == parts.1 + "<mtd>"@ + parts.2 + "</mtd>"@,
        rows_markup(rows_of(nodes)) == parts.0 + "<mtr>"@ + cells_markup(
            cells_of(rows_of(nodes).last()),
        ) + "</mtr>"@,
{
    let rows = rows_of(nodes);
    split_len(nodes, Break::Row);
    let cells = cells_of(rows.last());
    split_len(rows.last(), Break::Cell);
    (
        rows_markup(rows.drop_last()),
        cells_markup(cells.drop_last()),
        markup_concat(cells.last()),
    )
}

/// The one piece of an empty sequence.
proof fn split_empty(mark: Break)
    ensures
        split(Seq::empty(), mark).len() == 1,
        split(Seq::empty(), mark).last() == Seq::<Node>::empty(),
        split(Seq::empty(), mark).drop_last() == Seq::<Seq<Node>>::empty(),
        cells_markup(Seq::empty()) == Seq::<char>::empty(),
        rows_markup(Seq::empty()) == Seq::<char>::empty(),
        markup_concat(Seq::empty()) == Seq::<char>::empty(),
{
    let none = Seq::<Node>::empty();
    assert(split(none, mark) =~= seq![none]);
    assert(split(none, mark).drop_last() =~= Seq::<Seq<Node>>::empty());
}

/// Brackets moved in the markup of a table that is closed.
proof fn regroup_closed(
    t: Seq<char>,
    r: Seq<char>,
    tr: Seq<char>,
    c: Seq<char>,
    td: Seq<char>,
    m: Seq<char>,
    ctd: Seq<char>,
    ctr: Seq<char>,
    ct: Seq<char>,
)
    ensures
        t + (r + tr + (c + td + m + ctd) + ctr) + ct == (t + r + tr + c + td + m) + ctd + ctr + ct,
{
    assert(t + (r + tr + (c + td + m + ctd) + ctr) + ct =~= (t + r + tr + c + td + m) + ctd + ctr
        + ct);
}

/// Brackets moved in the markup of an open table whose open cell grows.
proof fn regroup_cell(
    t: Seq<char>,
    r: Seq<char>,
    tr: Seq<char>,
    c: Seq<char>,
    td: Seq<char>,
    m: Seq<char>,
    x: Seq<char>,
)
    ensures
        t + r + tr + c + td + (m + x) == (t + r + tr + c + td + m) + x,
{
    assert(t + r + tr + c + td + (m + x) =~= (t + r + tr + c + td + m) + x);
}

/// Brackets moved in the markup of an open table that begins a cell.
proof fn regroup_ampersand(
    t: Seq<char>,
    r: Seq<char>,
    tr: Seq<char>,
    c: Seq<char>,
    td: Seq<char>,
    m: Seq<char>,
    ctd: Seq<char>,
)
    ensures
        t + r + tr + (c + td + m + ctd) + td + Seq::<char>::empty() == (t + r + tr + c + td + m) + (
        ctd + td),
{
    assert(t + r + tr + (c + td + m + ctd) + td + Seq::<char>::empty() =~= (t + r + tr + c + td
        + m) + (ctd + td));
}

/// Brackets moved in the markup of an open table that begins a row.
proof fn regroup_newline(
    t: Seq<char>,
    r: Seq<char>,
    tr: Seq<char>,
    c: Seq<char>,
    td: Seq<char>,
    m: Seq<char>,
    ctd: Seq<char>,
    ctr: Seq<char>,
)
    ensures
        t + (r + tr + (c + td + m + ctd) + ctr) + tr + Seq::<char>::empty() + td + Seq::<
            char,
        >::empty() == (t + r + tr + c + td + m) + (ctd + ctr + tr + td),
{
    assert(t + (r + tr + (c + td + m + ctd) + ctr) + tr + Seq::<char>::empty() + td + Seq::<
        char,
    >::empty() =~= (t + r + tr + c + td + m) + (ctd + ctr + tr + td));
}

/// Closing the last cell and the last row of an open table, and the table,
/// gives the table.
pub proof fn open_table_closed(nodes: Seq<Node>)
    ensures
        table_markup(nodes) == open_table(nodes) + "</mtd>"@ + "</mtr>"@ + "</mtable>"@,
{
    let parts = open_table_parts(nodes);
    regroup_closed(
        "<mtable>"@,
        parts.0,
        "<mtr>"@,
        parts.1,
        "<mtd>"@,
        parts.2,
        "</mtd>"@,
        "</mtr>"@,
        "</mtable>"@,
    );
}

/// An open table of no nodes is three opening tags.
proof fn open_table_empty()
    ensures
        open_table(Seq::empty()) == "<mtable>"@ + "<mtr>"@ + "<mtd>"@,
{
    split_empty(Break::Row);
    split_empty(Break::Cell);
    let none = Seq::<char>::empty();
    assert("<mtable>"@ + none + "<mtr>"@ + none + "<mtd>"@ + none =~= "<mtable>"@ + "<mtr>"@
        + "<mtd>"@);
}

/// A node that is no marker goes into the open cell.
proof fn open_table_push_cell(nodes: Seq<Node>, node: Node)
    requires
        !is_break(node),
    ensures
        open_table(nodes.push(node)) == open_table(nodes) + markup(node),
{
    let parts = open_table_parts(nodes);
    let longer = open_table_parts(nodes.push(node));
    let rows = rows_of(nodes);
    let row = rows.last();
    let cells = cells_of(row);
    let cell = cells.last();
    split_push(nodes, node, Break::Row);
    split_push(row, node, Break::Cell);
    assert(rows_of(nodes.push(node)).drop_last() =~= rows.drop_last());
    assert(rows_of(nodes.push(node)).last() == row.push(node));
    assert(cells_of(row.push(node)).drop_last() =~= cells.drop_last());
    assert(cells_of(row.push(node)).last() == cell.push(node));
    markup_concat_push(cell, node);
    assert(longer.0 == parts.0);
    assert(longer.1 == parts.1);
    assert(longer.2 == parts.2 + markup(node));
    regroup_cell("<mtable>"@, parts.0, "<mtr>"@, parts.1, "<mtd>"@, parts.2, markup(node));
}

/// An `Ampersand` closes the open cell and opens the next.
proof fn open_table_push_ampersand(nodes: Seq<Node>, node: Node)
    requires
        node is Ampersand,
    ensures
        open_table(nodes.push(node)) == open_table(nodes) + ("</mtd>"@ + "<mtd>"@),
{
    let parts = open_table_parts(nodes);
    let longer = open_table_parts(nodes.push(node));
    let rows = rows_of(nodes);
    let row = rows.last();
    let cells = cells_of(row);
    split_push(nodes, node, Break::Row);
    split_push(row, node, Break::Cell);
    split_empty(Break::Cell);
    assert(rows_of(nodes.push(node)).drop_last() =~= rows.drop_last());
    assert(rows_of(nodes.push(node)).last() == row.push(node));
    assert(cells_of(row.push(node)).drop_last() =~= cells);
    assert(cells_of(row.push(node)).last() == Seq::<Node>::empty());
    assert(longer.0 == parts.0);
    assert(longer.1 == parts.1 + "<mtd>"@ + parts.2 + "</mtd>"@);
    assert(longer.2 == Seq::<char>::empty());
    regroup_ampersand("<mtable>"@, parts.0, "<mtr>"@, parts.1, "<mtd>"@, parts.2, "</mtd>"@);
}

/// A `NewLine` closes the open cell and row and opens the next of each.
proof fn open_table_push_newline(nodes: Seq<Node>, node: Node)
    requires
        node is NewLine,
    ensures
        open_table(nodes.push(node)) == open_table(nodes) + ("</mtd>"@ + "</mtr>"@ + "<mtr>"@
            + "<mtd>"@),
{
    let parts = open_table_parts(nodes);
    let longer = open_table_parts(nodes.push(node));
    let rows = rows_of(nodes);
    split_push(nodes, node, Break::Row);
    split_empty(Break::Cell);
    assert(rows_of(nodes.push(node)).drop_last() =~= rows);
    assert(rows_of(nodes.push(node)).last() == Seq::<Node>::empty());
    assert(longer.0 == parts.0 + "<mtr>"@ + (parts.1 + "<mtd>"@ + parts.2 + "</mtd>"@) + "</mtr>"@);
    assert(longer.1 == Seq::<char>::empty());
    assert(longer.2 == Seq::<char>::empty());
    regroup_newline(
        "<mtable>"@,
        parts.0,
        "<mtr>"@,
        parts.1,
        "<mtd>"@,
        parts.2,
        "</mtd>"@,
        "</mtr>"@,
    );
}

/// After any number of elements short of a marker in the last place, the one
/// pass has written the open table of the elements it has seen.
pub proof fn fold_writes_open_table(nodes: Seq<Node>, done: nat)
    requires
        done <= nodes.len(),
        done == nodes.len() && done > 0 ==> !is_break(nodes.last()),
    ensures
        table_fold(nodes, done) == open_table(nodes.take(done as int)),
    decreases done,
{
    if done == 0 {
        open_table_empty();
        assert(nodes.take(0) =~= Seq::<Node>::empty());
    } else {
        let earlier = nodes.take(done - 1);
        let node = nodes[done - 1];
        fold_writes_open_table(nodes, (done - 1) as nat);
        assert(nodes.take(done as int) =~= earlier.push(node));
        if node is NewLine {
            open_table_push_newline(earlier, node);
            assert(table_step(nodes, done - 1) == "</mtd>"@ + "</mtr>"@ + "<mtr>"@ + "<mtd>"@);
        } else if node is Ampersand {
            open_table_push_ampersand(earlier, node);
            assert(table_step(nodes, done - 1) == "</mtd>"@ + "<mtd>"@);
        } else {
            open_table_push_cell(earlier, node);
            assert(table_step(nodes, done - 1) == markup(node));
        }
        assert(table_fold(nodes, done) == table_fold(nodes, (done - 1) as nat) + table_step(
            nodes,
            done - 1,
        ));
    }
}

/// The pieces of `pieces` in turn, with `mark` between each two.
pub open spec fn join(pieces: Seq<Seq<Node>>, mark: Node) -> Seq<Node>
    decreases pieces.len(),
{
    if pieces.len() == 0 {
        Seq::empty()
    } else if pieces.len() == 1 {
        pieces[0]
    } else {
        join(pieces.drop_last(), mark).push(mark) + pieces.last()
    }
}

/// The node that stands for the marker `mark`.
pub open spec fn mark_node(mark: Break) -> Node {
    match mark {
        Break::Row => Node::NewLine,
        Break::Cell => Node::Ampersand,
    }
}

/// Cutting loses nothing: the pieces, with the marker put back between each
/// two, are the sequence that was cut.
pub proof fn join_of_split(nodes: Seq<Node>, mark: Break)
    ensures
        join(split(nodes, mark), mark_node(mark)) == nodes,
    decreases nodes.len(),
{
    let pieces = split(nodes, mark);
    if nodes.len() == 0 {
        assert(pieces[0] =~= nodes);
    } else {
        let earlier = nodes.drop_last();
        let node = nodes.last();
        let before = split(earlier, mark);
        join_of_split(earlier, mark);
        split_len(earlier, mark);
        assert(earlier.push(node) =~= nodes);
        if is_mark(node, mark) {
            assert(node == mark_node(mark));
            assert(pieces.drop_last() =~= before);
            assert(join(pieces, mark_node(mark)) =~= nodes);
        } else {
            let last = before.last().push(node);
            assert(pieces == before.drop_last().push(last));
            if before.len() == 1 {
                assert(pieces[0] == last);
                assert(before[0] == earlier);
            } else {
                assert(pieces.drop_last() =~= before.drop_last());
                assert(join(before, mark_node(mark)) == join(before.drop_last(), mark_node(mark)).push(
                    mark_node(mark),
                ) + before.last());
                assert(join(pieces, mark_node(mark)) =~= nodes);
            }
        }
    }
}

/// A table whose sequence does not end in a marker is rendered as its rows
/// and cells: one `mtr` element for each piece between `NewLine` markers, one
/// more than there are such markers, and in each of them one `mtd` element for
/// each piece between `Ampersand` markers, one more than the row has of them.
pub proof fn matrix_is_table(nodes: Vec<Node>)
    requires
        nodes@.len() == 0 || !is_break(nodes@.last()),
    ensures
        markup(Node::Matrix(nodes)) == table_markup(nodes@),
        rows_of(nodes@).len() == count(nodes@, Break::Row) + 1,
        forall|r: int|
            0 <= r < rows_of(nodes@).len() ==> (#[trigger] cells_of(rows_of(nodes@)[r])).len()
                == count(rows_of(nodes@)[r], Break::Cell) + 1,
        join(rows_of(nodes@), Node::NewLine) == nodes@,
        forall|r: int|
            0 <= r < rows_of(nodes@).len() ==> join(
                #[trigger] cells_of(rows_of(nodes@)[r]),
                Node::Ampersand,
            ) == rows_of(nodes@)[r],
{
    let all = nodes@;
    fold_writes_open_table(all, all.len());
    assert(all.take(all.len() as int) =~= all);
    open_table_closed(all);
    split_len(all, Break::Row);
    join_of_split(all, Break::Row);
    assert forall|r: int| 0 <= r < rows_of(all).len() implies (#[trigger] cells_of(
        rows_of(all)[r],
    )).len() == count(rows_of(all)[r], Break::Cell) + 1 && join(
        cells_of(rows_of(all)[r]),
        Node::Ampersand,
    ) == rows_of(all)[r] by {
        split_len(rows_of(all)[r], Break::Cell);
        join_of_split(rows_of(all)[r], Break::Cell);
    }
}

/// A marker in the last place opens nothing: the table is the open table of
/// what stands before the marker, then the tags with which the marker closes
/// the cell, or the cell and the row, then the tags that close the last cell,
/// the last row and the table.
pub proof fn matrix_trailing_break(nodes: Vec<Node>)
    requires
        nodes@.len() > 0,
        is_break(nodes@.last()),
    ensures
        markup(Node::Matrix(nodes)) == open_table(nodes@.drop_last()) + (if nodes@.last()
            is NewLine {
            "</mtd>"@ + "</mtr>"@
        } else {
            "</mtd>"@
        }) + "</mtd>"@ + "</mtr>"@ + "</mtable>"@,
{
    let all = nodes@;
    let done = (all.len() - 1) as nat;
    fold_writes_open_table(all, done);
    assert(all.take(done as int) =~= all.drop_last());
    assert(table_fold(all, all.len()) == table_fold(all, done) + table_step(all, done as int));
}

} // verus!
