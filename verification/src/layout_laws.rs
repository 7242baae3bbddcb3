//! What holds of the arrangement of machines: where a layout puts them, how they are
//! told of, and what dragging and moving does.

use crate::arrange::{
    dropped, liftable, lifted, next_cell, present, swapped, DragOrigin, DropTarget, LayoutModel,
    MoveDirection,
};
use crate::layout::{
    apply_check, arrangement, centered, first_row, local_at, local_token, longest_row, named_place,
    peer_ids, place_of_id, shown_connected, shown_name, shown_side, summary_at, token_id,
    token_names, LayoutApplyError, Placement,
};
use crate::text;
use crate::ui::{UiPairedPeer, UiSnapshot};
use vstd::prelude::*;

verus! {

/// The machine `id` stands at `(x, y)`.
pub open spec fn stands_at(
    grid: Map<(i32, i32), Seq<char>>,
    x: int,
    y: int,
    id: Seq<char>,
) -> bool {
    grid.contains_key((x as i32, y as i32)) && grid[(x as i32, y as i32)] == id
}

proof fn lemma_first_row(local_id: Seq<char>, ids: Seq<Seq<char>>)
    ensures
        ({
            let row = first_row(local_id, ids);
            let n: int = if ids.len() < 6 {
                ids.len() as int
            } else {
                6
            };
            &&& row.left == 2 - (n + 1) / 2
            &&& row.right == 4 + n / 2
            &&& row.grid.contains_key((3i32, 3i32)) && row.grid[(3i32, 3i32)] == local_id
            &&& forall|i: int|
                #![trigger ids[i]]
                0 <= i < n && i % 2 == 0 ==> stands_at(row.grid, 2 - i / 2, 3, ids[i])
            &&& forall|i: int|
                #![trigger ids[i]]
                0 <= i < n && i % 2 == 1 ==> stands_at(row.grid, 4 + i / 2, 3, ids[i])
            &&& forall|p: (i32, i32)| #[trigger]
                row.grid.contains_key(p) ==> p.1 == 3 && row.left < p.0 < row.right
        }),
    decreases ids.len(),
{
    if ids.len() > 0 {
        let shorter = ids.drop_last();
        lemma_first_row(local_id, shorter);
        let row = first_row(local_id, ids);
        let n: int = if ids.len() < 6 {
            ids.len() as int
        } else {
            6
        };
        let last = ids.len() - 1;
        assert forall|i: int| #![trigger ids[i]] 0 <= i < n && i % 2 == 0 implies
            stands_at(row.grid, 2 - i / 2, 3, ids[i]) by {
            if i < last {
                assert(shorter[i] == ids[i]);
            }
        }
        assert forall|i: int| #![trigger ids[i]] 0 <= i < n && i % 2 == 1 implies
            stands_at(row.grid, 4 + i / 2, 3, ids[i]) by {
            if i < last {
                assert(shorter[i] == ids[i]);
            }
        }
    }
}

proof fn lemma_nothing_missing(p: Placement, ids: Seq<Seq<char>>)
    requires
        forall|i: int| 0 <= i < ids.len() ==> p.grid.contains_value(#[trigger] ids[i]),
    ensures
        p.with_all_missing(ids) == p,
    decreases ids.len(),
{
    if ids.len() > 0 {
        assert(p.grid.contains_value(ids[ids.len() - 1]));
        assert forall|i: int| 0 <= i < ids.drop_last().len() implies p.grid.contains_value(
            #[trigger] ids.drop_last()[i],
        ) by {
            assert(p.grid.contains_value(ids[i]));
        }
        lemma_nothing_missing(p, ids.drop_last());
    }
}

/// Where no layout is known, this machine stands in the middle and the paired ones to
/// its left and right in turn: those at the even places of the list on the left, from
/// the middle outward, those at the odd places on the right. Up to six machines all
/// stand on the grid, and nothing stands beside it.
pub proof fn law_machines_without_layout_stand_side_by_side(
    matrix: Seq<char>,
    local_id: Seq<char>,
    peers: Seq<UiPairedPeer>,
)
    requires
        text::trimmed(matrix).len() == 0,
    ensures
        ({
            let first = arrangement(matrix, local_id, peers);
            &&& first.grid.contains_key((3i32, 3i32)) && first.grid[(3i32, 3i32)] == local_id
            &&& forall|i: int|
                #![trigger peers[i]]
                0 <= i < peers.len() && i < 6 && i % 2 == 0 ==> stands_at(first.grid, 2 - i / 2, 3, peers[i].peer_id@)
            &&& forall|i: int|
                #![trigger peers[i]]
                0 <= i < peers.len() && i < 6 && i % 2 == 1 ==> stands_at(first.grid, 4 + i / 2, 3, peers[i].peer_id@)
            &&& forall|p: (i32, i32)| #[trigger]
                first.grid.contains_key(p) ==> p.1 == 3 && 2 - (peers.len() + 1) / 2 < p.0 < 4
                    + peers.len() / 2
            &&& peers.len() <= 6 ==> first.unassigned.len() == 0
        }),
{
    let ids = peer_ids(peers);
    let row = first_row(local_id, ids);
    lemma_first_row(local_id, ids);
    let described = Placement { grid: row.grid, unassigned: Seq::empty() };
    crate::arrange::lemma_missing_keeps_grid(described, ids);
    let first = arrangement(matrix, local_id, peers);
    assert(first.grid == row.grid);
    assert forall|i: int|
        #![trigger peers[i]]
        0 <= i < peers.len() && i < 6 && i % 2 == 0 implies stands_at(first.grid, 2 - i / 2, 3, peers[i].peer_id@) by {
        assert(ids[i] == peers[i].peer_id@);
    }
    assert forall|i: int|
        #![trigger peers[i]]
        0 <= i < peers.len() && i < 6 && i % 2 == 1 implies stands_at(first.grid, 4 + i / 2, 3, peers[i].peer_id@) by {
        assert(ids[i] == peers[i].peer_id@);
    }
    if peers.len() <= 6 {
        assert forall|i: int| 0 <= i < ids.len() implies row.grid.contains_value(
            #[trigger] ids[i],
        ) by {
            if i % 2 == 0 {
                assert(stands_at(row.grid, 2 - i / 2, 3, ids[i]));
            } else {
                assert(stands_at(row.grid, 4 + i / 2, 3, ids[i]));
            }
        }
        lemma_nothing_missing(described, ids);
        assert(row.grid.contains_value(local_id));
    }
}

/// `q` is the cell of a token that is not blank, in the row that begins at `(x, y)`.
spec fn in_row(tokens: Seq<Seq<char>>, x: int, y: int, q: (i32, i32)) -> bool {
    &&& q.1 == y && 0 <= q.0 - x < tokens.len()
    &&& text::trimmed(tokens[q.0 - x]).len() > 0
    &&& 0 <= q.0 < 7 && 0 <= q.1 < 7
}

#[verifier::spinoff_prover]
#[verifier::rlimit(40)]
proof fn lemma_row_read(
    p: Placement,
    tokens: Seq<Seq<char>>,
    x: int,
    y: int,
    local_id: Seq<char>,
    peers: Seq<UiPairedPeer>,
)
    ensures
        forall|q: (i32, i32)| #[trigger]
            p.with_row(tokens, x, y, local_id, peers).grid.contains_key(q) <==> in_row(
                tokens,
                x,
                y,
                q,
            ) || p.grid.contains_key(q),
        forall|q: (i32, i32)|
            #![trigger p.with_row(tokens, x, y, local_id, peers).grid[q]]
            in_row(tokens, x, y, q) ==> p.with_row(tokens, x, y, local_id, peers).grid[q] == token_id(
                text::trimmed(tokens[q.0 - x]),
                local_id,
                peers,
            ),
        forall|q: (i32, i32)|
            #![trigger p.with_row(tokens, x, y, local_id, peers).grid[q]]
            !in_row(tokens, x, y, q) && p.grid.contains_key(q) ==> p.with_row(tokens, x, y, local_id, peers).grid[q] == p.grid[q],
        p.unassigned.is_prefix_of(p.with_row(tokens, x, y, local_id, peers).unassigned),
        forall|i: int|
            0 <= i < tokens.len() && text::trimmed(#[trigger] tokens[i]).len() > 0 && !(0 <= x + i
                < 7 && 0 <= y < 7) ==> p.with_row(tokens, x, y, local_id, peers).unassigned.contains(
                token_id(text::trimmed(tokens[i]), local_id, peers),
            ),
        0 <= x && x + tokens.len() <= 7 && 0 <= y < 7 ==> p.with_row(tokens, x, y, local_id, peers).unassigned == p.unassigned,
    decreases tokens.len(),
{
    let read = p.with_row(tokens, x, y, local_id, peers);
    if tokens.len() > 0 {
        let front = tokens.drop_last();
        lemma_row_read(p, front, x, y, local_id, peers);
        let before = p.with_row(front, x, y, local_id, peers);
        let token = text::trimmed(tokens.last());
        let last = tokens.len() - 1;
        let at = ((x + last) as i32, y as i32);
        let id = token_id(token, local_id, peers);
        if token.len() == 0 {
            assert(read == before);
        } else if 0 <= x + last < 7 && 0 <= y < 7 {
            assert(read.grid == before.grid.insert(at, id));
            assert(read.unassigned == before.unassigned);
        } else {
            assert(read.grid == before.grid);
            assert(read.unassigned == before.unassigned.push(id));
        }
        assert(p.unassigned.is_prefix_of(read.unassigned)) by {
            assert(p.unassigned =~= read.unassigned.subrange(0, p.unassigned.len() as int));
        }
        assert forall|q: (i32, i32)|
            {
                &&& #[trigger] in_row(tokens, x, y, q) || p.grid.contains_key(q)
                    <==> read.grid.contains_key(q)
                &&& in_row(tokens, x, y, q) ==> read.grid[q] == token_id(
                    text::trimmed(tokens[q.0 - x]),
                    local_id,
                    peers,
                )
                &&& !in_row(tokens, x, y, q) && p.grid.contains_key(q) ==> read.grid[q] == p.grid[q]
            } by {
            assert(before.grid.contains_key(q) <==> in_row(front, x, y, q)
                || p.grid.contains_key(q));
            if q.1 == y && q.0 == x + last {
                assert(tokens[q.0 - x] == tokens.last());
                assert(!in_row(front, x, y, q));
            } else {
                if 0 <= q.0 - x < front.len() {
                    assert(front[q.0 - x] == tokens[q.0 - x]);
                }
                assert(in_row(front, x, y, q) <==> in_row(tokens, x, y, q));
            }
        }
        assert forall|i: int|
            0 <= i < tokens.len() && text::trimmed(#[trigger] tokens[i]).len() > 0 && !(0 <= x + i
                < 7 && 0 <= y < 7) implies read.unassigned.contains(
            token_id(text::trimmed(tokens[i]), local_id, peers),
        ) by {
            let id = token_id(text::trimmed(tokens[i]), local_id, peers);
            if i < last {
                assert(front[i] == tokens[i]);
                let k = choose|k: int| 0 <= k < before.unassigned.len() && before.unassigned[k]
                    == id;
                assert(read.unassigned[k] == id);
            } else {
                assert(read.unassigned[before.unassigned.len() as int] == id);
            }
        }
    } else {
        assert(p.unassigned =~= p.unassigned.subrange(0, p.unassigned.len() as int));
    }
}

/// `q` is the cell of a token that is not blank, in the rows that begin at `(x, y)`.
spec fn in_rows(rows: Seq<Seq<char>>, x: int, y: int, q: (i32, i32)) -> bool {
    0 <= q.1 - y < rows.len() && in_row(text::pieces(rows[q.1 - y], ','), x, q.1 as int, q)
}

#[verifier::spinoff_prover]
#[verifier::rlimit(40)]
proof fn lemma_rows_read(
    rows: Seq<Seq<char>>,
    x: int,
    y: int,
    width: int,
    local_id: Seq<char>,
    peers: Seq<UiPairedPeer>,
)
    requires
        forall|j: int|
            0 <= j < rows.len() ==> text::pieces(#[trigger] rows[j], ',').len() <= width,
    ensures
        ({
            let read = Placement::empty().with_rows(rows, x, y, local_id, peers);
            &&& forall|q: (i32, i32)|
                {
                    &&& #[trigger] read.grid.contains_key(q) <==> in_rows(rows, x, y, q)
                    &&& in_rows(rows, x, y, q) ==> read.grid[q] == token_id(
                        text::trimmed(text::pieces(rows[q.1 - y], ',')[q.0 - x]),
                        local_id,
                        peers,
                    )
                }
            &&& 0 <= x && x + width <= 7 && 0 <= y && y + rows.len() <= 7 ==> read.unassigned.len()
                == 0
            &&& forall|j: int, i: int|
                #![trigger text::pieces(rows[j], ',')[i]]
                0 <= j < rows.len() && 0 <= i < text::pieces(rows[j], ',').len() && text::trimmed(
                    text::pieces(rows[j], ',')[i],
                ).len() > 0 && !(0 <= x + i < 7 && 0 <= y + j < 7) ==> read.unassigned.contains(
                    token_id(text::trimmed(text::pieces(rows[j], ',')[i]), local_id, peers),
                )
        }),
    decreases rows.len(),
{
    let read = Placement::empty().with_rows(rows, x, y, local_id, peers);
    if rows.len() > 0 {
        let front = rows.drop_last();
        let last = rows.len() - 1;
        assert forall|j: int| 0 <= j < front.len() implies text::pieces(
            #[trigger] front[j],
            ',',
        ).len() <= width by {
            assert(front[j] == rows[j]);
        }
        lemma_rows_read(front, x, y, width, local_id, peers);
        let before = Placement::empty().with_rows(front, x, y, local_id, peers);
        let tokens = text::pieces(rows.last(), ',');
        assert(text::pieces(rows[last], ',').len() <= width);
        lemma_row_read(before, tokens, x, y + last, local_id, peers);
        assert forall|q: (i32, i32)|
            {
                &&& #[trigger] read.grid.contains_key(q) <==> in_rows(rows, x, y, q)
                &&& in_rows(rows, x, y, q) ==> read.grid[q] == token_id(
                    text::trimmed(text::pieces(rows[q.1 - y], ',')[q.0 - x]),
                    local_id,
                    peers,
                )
            } by {
            assert(before.grid.contains_key(q) <==> in_rows(front, x, y, q));
            assert(read.grid.contains_key(q) <==> in_row(tokens, x, y + last, q)
                || before.grid.contains_key(q));
            if q.1 - y == last {
                assert(rows[q.1 - y] == rows.last());
                assert(!in_rows(front, x, y, q));
                assert(in_rows(rows, x, y, q) <==> in_row(tokens, x, y + last, q));
            } else {
                assert(!in_row(tokens, x, y + last, q));
                if 0 <= q.1 - y < front.len() {
                    assert(front[q.1 - y] == rows[q.1 - y]);
                }
                assert(in_rows(rows, x, y, q) <==> in_rows(front, x, y, q));
            }
        }
        assert forall|j: int, i: int|
            #![trigger text::pieces(rows[j], ',')[i]]
            0 <= j < rows.len() && 0 <= i < text::pieces(rows[j], ',').len() && text::trimmed(
                text::pieces(rows[j], ',')[i],
            ).len() > 0 && !(0 <= x + i < 7 && 0 <= y + j < 7) implies read.unassigned.contains(
            token_id(text::trimmed(text::pieces(rows[j], ',')[i]), local_id, peers),
        ) by {
            let id = token_id(text::trimmed(text::pieces(rows[j], ',')[i]), local_id, peers);
            if j < last {
                assert(front[j] == rows[j]);
                assert(text::pieces(front[j], ',')[i] == text::pieces(rows[j], ',')[i]);
                assert(before.unassigned.contains(id));
                let k = choose|k: int| 0 <= k < before.unassigned.len() && before.unassigned[k]
                    == id;
                assert(read.unassigned[k] == id);
            } else {
                assert(tokens[i] == text::pieces(rows[j], ',')[i]);
            }
        }
    }
}

proof fn lemma_longest_row(rows: Seq<Seq<char>>)
    ensures
        forall|j: int|
            0 <= j < rows.len() ==> text::pieces(#[trigger] rows[j], ',').len() <= longest_row(
                rows,
            ),
        rows.len() > 0 ==> exists|j: int|
            0 <= j < rows.len() && text::pieces(#[trigger] rows[j], ',').len() == longest_row(rows),
    decreases rows.len(),
{
    if rows.len() > 0 {
        let front = rows.drop_last();
        lemma_longest_row(front);
        let last = rows.len() - 1;
        text::lemma_pieces_nonempty(rows[last], ',');
        assert forall|j: int| 0 <= j < rows.len() implies text::pieces(
            #[trigger] rows[j],
            ',',
        ).len() <= longest_row(rows) by {
            if j < last {
                assert(front[j] == rows[j]);
            }
        }
        if text::pieces(rows[last], ',').len() != longest_row(rows) {
            assert(front.len() > 0) by {
                if front.len() == 0 {
                    assert(longest_row(front) == 0);
                }
            }
            let j = choose|j: int|
                0 <= j < front.len() && text::pieces(#[trigger] front[j], ',').len()
                    == longest_row(front);
            assert(rows[j] == front[j]);
        }
    }
}

proof fn lemma_missing_are_off_the_grid(p: Placement, ids: Seq<Seq<char>>, id: Seq<char>)
    requires
        p.with_all_missing(ids).unassigned.contains(id),
    ensures
        p.unassigned.contains(id) || (ids.contains(id) && !p.grid.contains_value(id)),
    decreases ids.len(),
{
    if ids.len() > 0 {
        let before = p.with_all_missing(ids.drop_last());
        crate::arrange::lemma_missing_keeps_grid(p, ids.drop_last());
        if before.unassigned.contains(id) {
            lemma_missing_are_off_the_grid(p, ids.drop_last(), id);
            if ids.drop_last().contains(id) {
                let i = choose|i: int| 0 <= i < ids.drop_last().len() && ids.drop_last()[i] == id;
                assert(ids[i] == id);
            }
        } else {
            let all = p.with_all_missing(ids).unassigned;
            let i = choose|i: int| 0 <= i < all.len() && all[i] == id;
            if i < before.unassigned.len() {
                assert(before.unassigned[i] == id);
            }
            assert(ids[ids.len() - 1] == id);
        }
    }
}

/// A layout is read cell by cell: the token in the row `j` and at the place `i` of it
/// means a machine that stands `i` cells right of and `j` cells below the corner at
/// which a layout of that width and height is centered. Nothing else stands on the
/// grid. A cell beyond the grid puts its machine beside it; where none is, exactly the
/// known machines that the layout leaves out stand beside the grid.
pub proof fn law_layout_is_read_cell_by_cell(
    matrix: Seq<char>,
    local_id: Seq<char>,
    peers: Seq<UiPairedPeer>,
    width: nat,
)
    requires
        text::trimmed(matrix).len() > 0,
        forall|j: int|
            0 <= j < text::pieces(matrix, ';').len() ==> text::pieces(
                #[trigger] text::pieces(matrix, ';')[j],
                ',',
            ).len() <= width,
        exists|j: int|
            0 <= j < text::pieces(matrix, ';').len() && text::pieces(
                #[trigger] text::pieces(matrix, ';')[j],
                ',',
            ).len() == width,
    ensures
        ({
            let rows = text::pieces(matrix, ';');
            let x = if width <= 7 {
                (7 - width) / 2
            } else {
                -((width - 7) / 2)
            };
            let y = if rows.len() <= 7 {
                (7 - rows.len()) / 2
            } else {
                -((rows.len() - 7) / 2)
            };
            let read = arrangement(matrix, local_id, peers);
            &&& forall|j: int, i: int|
                #![trigger text::pieces(rows[j], ',')[i]]
                0 <= j < rows.len() && 0 <= i < text::pieces(rows[j], ',').len() && text::trimmed(
                    text::pieces(rows[j], ',')[i],
                ).len() > 0 ==> {
                    let id = token_id(
                        text::trimmed(text::pieces(rows[j], ',')[i]),
                        local_id,
                        peers,
                    );
                    if 0 <= x + i < 7 && 0 <= y + j < 7 {
                        read.grid.contains_key(((x + i) as i32, (y + j) as i32)) && read.grid[(
                            (x + i) as i32,
                            (y + j) as i32,
                        )] == id
                    } else {
                        read.unassigned.contains(id)
                    }
                }
            &&& forall|q: (i32, i32)| #[trigger]
                read.grid.contains_key(q) ==> 0 <= q.1 - y < rows.len() && 0 <= q.0 - x
                    < text::pieces(rows[q.1 - y], ',').len() && text::trimmed(
                    text::pieces(rows[q.1 - y], ',')[q.0 - x],
                ).len() > 0
            &&& width <= 7 && rows.len() <= 7 ==> forall|id: Seq<char>| #[trigger]
                read.unassigned.contains(id) <==> !read.grid.contains_value(id) && (id == local_id
                    || peer_ids(peers).contains(id))
        }),
{
    let rows = text::pieces(matrix, ';');
    lemma_longest_row(rows);
    assert(longest_row(rows) == width) by {
        let j = choose|j: int|
            0 <= j < rows.len() && text::pieces(#[trigger] rows[j], ',').len() == width;
        let k = choose|k: int|
            0 <= k < rows.len() && text::pieces(#[trigger] rows[k], ',').len() == longest_row(rows);
    }
    let x = centered(width);
    let y = centered(rows.len());
    lemma_rows_read(rows, x, y, width as int, local_id, peers);
    let described = Placement::empty().with_rows(rows, x, y, local_id, peers);
    let ids = peer_ids(peers);
    let with_peers = described.with_all_missing(ids);
    let read = arrangement(matrix, local_id, peers);
    crate::arrange::lemma_missing_keeps_grid(described, ids);
    assert(read.grid == described.grid);
    assert forall|j: int, i: int|
        #![trigger text::pieces(rows[j], ',')[i]]
        0 <= j < rows.len() && 0 <= i < text::pieces(rows[j], ',').len() && text::trimmed(
            text::pieces(rows[j], ',')[i],
        ).len() > 0 implies {
        let id = token_id(text::trimmed(text::pieces(rows[j], ',')[i]), local_id, peers);
        if 0 <= x + i < 7 && 0 <= y + j < 7 {
            read.grid.contains_key(((x + i) as i32, (y + j) as i32)) && read.grid[(
                (x + i) as i32,
                (y + j) as i32,
            )] == id
        } else {
            read.unassigned.contains(id)
        }
    } by {
        let id = token_id(text::trimmed(text::pieces(rows[j], ',')[i]), local_id, peers);
        if 0 <= x + i < 7 && 0 <= y + j < 7 {
            let q = ((x + i) as i32, (y + j) as i32);
            assert(in_rows(rows, x, y, q));
            assert(described.grid.contains_key(q));
        } else {
            assert(described.unassigned.contains(id));
            assert(present(described, id));
            crate::arrange::lemma_unassigned_stay(described, ids, id);
            crate::arrange::lemma_unassigned_stay(with_peers, seq![local_id], id);
            assert(with_peers.with_all_missing(seq![local_id]) == with_peers.with_missing(
                local_id,
            )) by {
                reveal_with_fuel(Placement::with_all_missing, 2);
                assert(seq![local_id].drop_last() =~= Seq::empty());
            }
        }
    }
    assert forall|q: (i32, i32)| #[trigger] read.grid.contains_key(q) implies 0 <= q.1 - y
        < rows.len() && 0 <= q.0 - x < text::pieces(rows[q.1 - y], ',').len() && text::trimmed(
        text::pieces(rows[q.1 - y], ',')[q.0 - x],
    ).len() > 0 by {
        assert(in_rows(rows, x, y, q));
    }
    if width <= 7 && rows.len() <= 7 {
        assert(described.unassigned.len() == 0);
        assert forall|id: Seq<char>| #[trigger] read.unassigned.contains(id) <==> (
        !read.grid.contains_value(id) && (id == local_id || ids.contains(id))) by {
            if read.unassigned.contains(id) {
                if with_peers.unassigned.contains(id) {
                    lemma_missing_are_off_the_grid(described, ids, id);
                } else {
                    let i = choose|i: int| 0 <= i < read.unassigned.len() && read.unassigned[i]
                        == id;
                    if i < with_peers.unassigned.len() {
                        assert(with_peers.unassigned[i] == id);
                    }
                }
            }
            if !read.grid.contains_value(id) && (id == local_id || ids.contains(id)) {
                crate::arrange::law_every_machine_is_arranged(matrix, local_id, peers, id);
            }
        }
    }
}

/// The words for this machine are `self`, `local`, `this` and `me` and its own id, in
/// any case. Any other token means the paired machine that it names, or else itself.
pub proof fn law_tokens_mean_machines(
    token: Seq<char>,
    local_id: Seq<char>,
    peers: Seq<UiPairedPeer>,
)
    ensures
        local_token(token, local_id) <==> text::lowered(token) == "self"@ || text::lowered(token)
            == "local"@ || text::lowered(token) == "this"@ || text::lowered(token) == "me"@
            || text::lowered(token) == text::lowered(local_id),
        local_token(token, local_id) ==> token_id(token, local_id, peers) == local_id,
        !local_token(token, local_id) && named_place(peers, token) is None ==> token_id(
            token,
            local_id,
            peers,
        ) == token,
        !local_token(token, local_id) && named_place(peers, token) is Some ==> token_id(
            token,
            local_id,
            peers,
        ) == peers[named_place(peers, token)->0].peer_id@,
        forall|p: UiPairedPeer| #[trigger]
            token_names(p, token) <==> {
                let wanted = text::lowered(text::trimmed(token));
                ||| text::lowered(p.display_name@) == wanted
                ||| wanted.len() <= p.peer_id@.len() && text::lowered(p.peer_id@).take(
                    wanted.len() as int,
                ) == wanted
            },
{
    assert forall|p: UiPairedPeer| #[trigger] token_names(p, token) <==> {
        let wanted = text::lowered(text::trimmed(token));
        ||| text::lowered(p.display_name@) == wanted
        ||| wanted.len() <= p.peer_id@.len() && text::lowered(p.peer_id@).take(wanted.len() as int)
            == wanted
    } by {
        let wanted = text::lowered(text::trimmed(token));
        let id = text::lowered(p.peer_id@);
        assert(id.len() == p.peer_id@.len());
        if wanted.len() <= id.len() {
            assert(id.take(wanted.len() as int) =~= id.subrange(0, wanted.len() as int));
        }
    }
}

/// The part of a side that is shown is what is taken with one cell around it, as far as
/// the grid goes; only at an edge a single cell is shown with two beside it.
pub proof fn law_shown_side_has_a_cell_around(from: int, to: int)
    requires
        0 <= from <= to <= 6,
    ensures
        to == 0 ==> shown_side(from, to) == (0int, 2int),
        from == 6 ==> shown_side(from, to) == (4int, 6int),
        0 < to && from < 6 ==> shown_side(from, to) == (
            if from == 0 {
                0int
            } else {
                from - 1
            },
            if to == 6 {
                6int
            } else {
                to + 1
            },
        ),
{
    reveal_with_fuel(crate::layout::widened, 3);
}

/// A machine is found by its whole id, the first of several; this machine is called
/// "This PC" and always connected, a paired one by its name and as it is.
pub proof fn law_machines_are_shown_by_name(
    id: Seq<char>,
    local_id: Seq<char>,
    peers: Seq<UiPairedPeer>,
)
    ensures
        place_of_id(peers, id) matches Some(at) ==> {
            &&& 0 <= at < peers.len() && peers[at].peer_id@ == id
            &&& forall|j: int| 0 <= j < at ==> (#[trigger] peers[j]).peer_id@ != id
        },
        place_of_id(peers, id) is None <==> forall|j: int|
            0 <= j < peers.len() ==> (#[trigger] peers[j]).peer_id@ != id,
        shown_name(local_id, local_id, peers) == "This PC"@,
        id != local_id && place_of_id(peers, id) is Some ==> shown_name(id, local_id, peers)
            == peers[place_of_id(peers, id)->0].display_name@,
        id != local_id && place_of_id(peers, id) is None && id.len() <= 8 && text::offset(
            id,
            id.len() as int,
        ) <= 8 ==> shown_name(id, local_id, peers) == id,
        shown_connected(local_id, local_id, peers),
        id != local_id && place_of_id(peers, id) is Some ==> shown_connected(id, local_id, peers)
            == peers[place_of_id(peers, id)->0].connected,
        id != local_id && place_of_id(peers, id) is None ==> !shown_connected(id, local_id, peers),
    decreases peers.len(),
{
    lemma_place_of_id(peers, id);
    if text::offset(id, id.len() as int) <= 8 {
        if text::prefix_at(id, 8) is Some {
            let n = text::prefix_at(id, 8)->0;
            if n < id.len() {
                text::lemma_offset_grows(id, n, id.len() as int);
            }
            assert(id.take(n) =~= id);
        }
    }
}

pub proof fn lemma_place_of_id(peers: Seq<UiPairedPeer>, id: Seq<char>)
    ensures
        place_of_id(peers, id) matches Some(at) ==> {
            &&& 0 <= at < peers.len() && peers[at].peer_id@ == id
            &&& forall|j: int| 0 <= j < at ==> (#[trigger] peers[j]).peer_id@ != id
        },
        place_of_id(peers, id) is None <==> forall|j: int|
            0 <= j < peers.len() ==> (#[trigger] peers[j]).peer_id@ != id,
    decreases peers.len(),
{
    if peers.len() > 0 {
        let front = peers.drop_last();
        lemma_place_of_id(front, id);
        if place_of_id(front, id) is Some {
            let at = place_of_id(front, id)->0;
            assert(front[at] == peers[at]);
            assert forall|j: int| 0 <= j < at implies (#[trigger] peers[j]).peer_id@ != id by {
                assert(front[j] == peers[j]);
            }
        } else {
            assert forall|j: int| 0 <= j < peers.len() - 1 implies (#[trigger] peers[j]).peer_id@
                != id by {
                assert(front[j] == peers[j]);
            }
            assert(peers[peers.len() - 1] == peers.last());
        }
    }
}

/// The layout in words names the machines left and right of this one in a line with it,
/// and those above and below behind a bar.
pub proof fn law_summary_names_the_neighbours(
    grid: Map<(i32, i32), Seq<char>>,
    x: i32,
    y: i32,
    local_id: Seq<char>,
    peers: Seq<UiPairedPeer>,
)
    requires
        i32::MIN < x < i32::MAX,
        i32::MIN < y < i32::MAX,
    ensures
        ({
            let (l, r) = (((x - 1) as i32, y), ((x + 1) as i32, y));
            let (a, b) = ((x, (y - 1) as i32), (x, (y + 1) as i32));
            let name = |p: (i32, i32)| shown_name(grid[p], local_id, peers);
            let line = (if grid.contains_key(l) {
                name(l) + " (left)"@ + " -- "@
            } else {
                Seq::empty()
            }) + "This PC"@ + (if grid.contains_key(r) {
                " -- "@ + (name(r) + " (right)"@)
            } else {
                Seq::empty()
            });
            let summary = summary_at(grid, (x, y), local_id, peers);
            &&& !grid.contains_key(a) && !grid.contains_key(b) ==> summary == "Layout: "@ + line
            &&& grid.contains_key(a) && !grid.contains_key(b) ==> summary == "Layout: "@ + line
                + "  |  "@ + (name(a) + " (above)"@)
            &&& !grid.contains_key(a) && grid.contains_key(b) ==> summary == "Layout: "@ + line
                + "  |  "@ + (name(b) + " (below)"@)
            &&& grid.contains_key(a) && grid.contains_key(b) ==> summary == "Layout: "@ + line
                + "  |  "@ + (name(a) + " (above)"@ + ", "@ + (name(b) + " (below)"@))
        }),
{
    reveal_with_fuel(text::joined, 4);
    let (l, r) = (((x - 1) as i32, y), ((x + 1) as i32, y));
    let (a, b) = ((x, (y - 1) as i32), (x, (y + 1) as i32));
    let name = |p: (i32, i32)| shown_name(grid[p], local_id, peers);
    let parts = crate::layout::neighbour(
        grid,
        (x - 1, y as int),
        " (left)"@,
        local_id,
        peers,
    ) + seq!["This PC"@] + crate::layout::neighbour(
        grid,
        (x + 1, y as int),
        " (right)"@,
        local_id,
        peers,
    );
    let line = (if grid.contains_key(l) {
        name(l) + " (left)"@ + " -- "@
    } else {
        Seq::empty()
    }) + "This PC"@ + (if grid.contains_key(r) {
        " -- "@ + (name(r) + " (right)"@)
    } else {
        Seq::empty()
    });
    let left = name(l) + " (left)"@;
    let right = name(r) + " (right)"@;
    if grid.contains_key(l) && grid.contains_key(r) {
        assert(parts =~= seq![left, "This PC"@, right]);
        assert(parts.drop_last() =~= seq![left, "This PC"@]);
        assert(parts.drop_last().drop_last() =~= seq![left]);
    } else if grid.contains_key(l) {
        assert(parts =~= seq![left, "This PC"@]);
        assert(parts.drop_last() =~= seq![left]);
    } else if grid.contains_key(r) {
        assert(parts =~= seq!["This PC"@, right]);
        assert(parts.drop_last() =~= seq!["This PC"@]);
    } else {
        assert(parts =~= seq!["This PC"@]);
    }
    assert(text::joined(parts, " -- "@) =~= line);
    let extras = crate::layout::neighbour(
        grid,
        (x as int, y - 1),
        " (above)"@,
        local_id,
        peers,
    ) + crate::layout::neighbour(grid, (x as int, y + 1), " (below)"@, local_id, peers);
    let above = name(a) + " (above)"@;
    let below = name(b) + " (below)"@;
    if grid.contains_key(a) && grid.contains_key(b) {
        assert(extras =~= seq![above, below]);
        assert(extras.drop_last() =~= seq![above]);
    } else if grid.contains_key(a) {
        assert(extras =~= seq![above]);
    } else if grid.contains_key(b) {
        assert(extras =~= seq![below]);
    } else {
        assert(extras.len() == 0);
    }
}

/// A layout can be applied exactly where this machine stands on one cell of it.
pub proof fn law_layout_needs_this_machine_once(
    grid: Map<(i32, i32), Seq<char>>,
    machine_id: Seq<char>,
    p: (i32, i32),
    q: (i32, i32),
)
    ensures
        local_at(grid, machine_id, p) <==> grid.contains_key(p) && local_token(
            grid[p],
            machine_id,
        ),
        p != q && local_at(grid, machine_id, p) && local_at(grid, machine_id, q) ==> apply_check(
            grid,
            machine_id,
        ) == Err::<(), LayoutApplyError>(LayoutApplyError::SeveralLocalMachines),
        local_at(grid, machine_id, p) && (forall|r: (i32, i32)| #[trigger]
            local_at(grid, machine_id, r) ==> r == p) ==> apply_check(grid, machine_id) is Ok,
        (forall|r: (i32, i32)| !#[trigger] local_at(grid, machine_id, r)) ==> apply_check(
            grid,
            machine_id,
        ) == Err::<(), LayoutApplyError>(LayoutApplyError::NoLocalMachine),
{
    if p != q && local_at(grid, machine_id, p) && local_at(grid, machine_id, q) {
        assert forall|r: (i32, i32)| !crate::layout::local_once(grid, machine_id, r) by {}
    }
    if local_at(grid, machine_id, p) && (forall|r: (i32, i32)| #[trigger]
        local_at(grid, machine_id, r) ==> r == p) {
        assert(crate::layout::local_once(grid, machine_id, p));
    }
    if forall|r: (i32, i32)| !#[trigger] local_at(grid, machine_id, r) {
        assert forall|r: (i32, i32)| !crate::layout::local_once(grid, machine_id, r) by {
            assert(!local_at(grid, machine_id, r));
        }
    }
}

/// What dragging a machine does: let go on a free cell it stands there, on a taken one
/// the two change places; off the cells it leaves the grid, and where it came from
/// beside the grid, or the pointer was lost, all is as before.
pub proof fn law_dragging_moves_one_machine(p: Placement, origin: DragOrigin, x: i32, y: i32)
    requires
        liftable(p, origin) is Some,
    ensures
        ({
            let id = liftable(p, origin)->0;
            let up = lifted(p, origin);
            let down = dropped(up, id, origin, DropTarget::Cell { x, y });
            let outside = dropped(up, id, origin, DropTarget::Outside);
            &&& down.grid.contains_key((x, y)) && down.grid[(x, y)] == id
            &&& forall|q: (i32, i32)|
                q != (x, y) && !(origin matches DragOrigin::Cell { x: ox, y: oy } && q == (ox, oy))
                    ==> #[trigger] down.grid.contains_key(q) == p.grid.contains_key(q)
                    && down.grid[q] == p.grid[q]
            &&& origin matches DragOrigin::Cell { x: ox, y: oy } ==> {
                &&& p.grid.contains_key((ox, oy)) && id == p.grid[(ox, oy)]
                &&& down.unassigned == p.unassigned
                &&& (ox, oy) == (x, y) ==> down.grid == p.grid
                &&& (ox, oy) != (x, y) && p.grid.contains_key((x, y)) ==> down.grid.contains_key(
                    (ox, oy),
                ) && down.grid[(ox, oy)] == p.grid[(x, y)]
                &&& (ox, oy) != (x, y) && !p.grid.contains_key((x, y)) ==> !down.grid.contains_key(
                    (ox, oy),
                )
                &&& outside.grid == p.grid.remove((ox, oy)) && outside.unassigned
                    == p.unassigned.push(id)
            }
            &&& origin matches DragOrigin::Unassigned { index } ==> {
                &&& index < p.unassigned.len() && id == p.unassigned[index as int]
                &&& p.grid.contains_key((x, y)) ==> down.unassigned == p.unassigned.update(
                    index as int,
                    p.grid[(x, y)],
                )
                &&& !p.grid.contains_key((x, y)) ==> down.unassigned == p.unassigned.remove(
                    index as int,
                )
                &&& outside == p
            }
            &&& dropped(up, id, origin, DropTarget::Unknown) == p
        }),
{
    let id = liftable(p, origin)->0;
    let up = lifted(p, origin);
    let down = dropped(up, id, origin, DropTarget::Cell { x, y });
    let outside = dropped(up, id, origin, DropTarget::Outside);
    let unknown = dropped(up, id, origin, DropTarget::Unknown);
    match origin {
        DragOrigin::Cell { x: ox, y: oy } => {
            assert(unknown.grid =~= p.grid);
            if (ox, oy) == (x, y) {
                assert(down.grid =~= p.grid);
            }
        },
        DragOrigin::Unassigned { index } => {
            assert(unknown.unassigned =~= p.unassigned);
            assert(outside.unassigned =~= p.unassigned);
            if p.grid.contains_key((x, y)) {
                assert(down.unassigned =~= p.unassigned.update(index as int, p.grid[(x, y)]));
            }
        },
    }
    assert(unknown =~= p);
    if origin is Unassigned {
        assert(outside =~= p);
    }
}

/// What moving a machine by a cell does: it stands one cell further in that direction,
/// and a machine that was there stands where it was; nothing else moves.
pub proof fn law_moving_goes_one_cell(
    model: LayoutModel,
    x: i32,
    y: i32,
    grid: Map<(i32, i32), Seq<char>>,
    to: (i32, i32),
)
    requires
        to != (x, y),
        grid.contains_key((x, y)),
    ensures
        next_cell(x, y, MoveDirection::Up) == (x as int, y - 1),
        next_cell(x, y, MoveDirection::Down) == (x as int, y + 1),
        next_cell(x, y, MoveDirection::Left) == (x - 1, y as int),
        next_cell(x, y, MoveDirection::Right) == (x + 1, y as int),
        model.movable(x, y, MoveDirection::Up) <==> model.dragging_peer is None
            && model.grid@.contains_key((x, y)) && 0 <= x < 7 && 0 < y <= 7,
        model.movable(x, y, MoveDirection::Down) <==> model.dragging_peer is None
            && model.grid@.contains_key((x, y)) && 0 <= x < 7 && -1 <= y < 6,
        model.movable(x, y, MoveDirection::Left) <==> model.dragging_peer is None
            && model.grid@.contains_key((x, y)) && 0 < x <= 7 && 0 <= y < 7,
        model.movable(x, y, MoveDirection::Right) <==> model.dragging_peer is None
            && model.grid@.contains_key((x, y)) && -1 <= x < 6 && 0 <= y < 7,
        ({
            let next = swapped(grid, (x, y), to);
            &&& next.contains_key(to) && next[to] == grid[(x, y)]
            &&& grid.contains_key(to) ==> next.contains_key((x, y)) && next[(x, y)] == grid[to]
            &&& !grid.contains_key(to) ==> !next.contains_key((x, y))
            &&& forall|q: (i32, i32)|
                q != to && q != (x, y) ==> #[trigger] next.contains_key(q) == grid.contains_key(q)
                    && next[q] == grid[q]
        }),
{
}

/// The arrangement is read anew where it never was, once this machine is known; later
/// where the layout or the paired machines have changed, unless a machine is being
/// dragged. Otherwise it stays.
pub proof fn law_arrangement_is_read_when_due(
    model: LayoutModel,
    snapshot: UiSnapshot,
    next: LayoutModel,
)
    requires
        model.synced(snapshot, next),
    ensures
        !model.initialized ==> (model.outdated(snapshot) <==> snapshot.machine_id@.len() > 0),
        model.initialized && model.dragging_peer is Some ==> !model.outdated(snapshot),
        model.initialized && model.dragging_peer is None ==> (model.outdated(snapshot)
            <==> snapshot.layout_matrix@ != model.last_matrix@ || text::texts_sorted(
            peer_ids(snapshot.paired_peers@),
        ) != text::views(model.last_peer_ids@)),
        !model.outdated(snapshot) ==> next == model,
        model.outdated(snapshot) ==> next.placement() == arrangement(
            snapshot.layout_matrix@,
            snapshot.machine_id@,
            snapshot.paired_peers@,
        ) && next.selected_peer == model.selected_peer && next.previous == model.previous,
{
}

/// Any machine but this one can be taken off the grid; it then stands beside it, last,
/// and the arrangement before can be returned to.
pub proof fn law_machine_is_taken_off_the_grid(
    model: LayoutModel,
    x: i32,
    y: i32,
    machine_id: Seq<char>,
    next: LayoutModel,
)
    requires
        model.removable(x, y, machine_id),
        model.removed(x, y, next),
    ensures
        model.grid@[(x, y)] != machine_id,
        !next.grid@.contains_key((x, y)),
        next.placement().unassigned == model.placement().unassigned.push(model.grid@[(x, y)]),
        forall|q: (i32, i32)|
            q != (x, y) ==> #[trigger] next.grid@.contains_key(q) == model.grid@.contains_key(q)
                && next.grid@[q] == model.grid@[q],
        next.undone().placement() == model.placement(),
        next.initialized == model.initialized && next.dragging_peer == model.dragging_peer,
{
    assert(next.placement().grid == model.grid@.remove((x, y)));
}

/// The place of a machine that a token names lies among the machines.
pub proof fn lemma_named_place_in_range(peers: Seq<UiPairedPeer>, token: Seq<char>)
    ensures
        named_place(peers, token) matches Some(at) ==> 0 <= at < peers.len(),
{
}

/// A layout in writing is the smallest box around its machines, row by row; without a
/// machine it is empty.
pub proof fn law_written_layout_is_the_box(
    grid: Map<(i32, i32), Seq<char>>,
    machine_id: Seq<char>,
    matrix: Seq<char>,
)
    requires
        crate::layout::written_as(grid, machine_id, matrix),
    ensures
        grid == Map::<(i32, i32), Seq<char>>::empty() ==> matrix.len() == 0,
        grid != Map::<(i32, i32), Seq<char>>::empty() ==> exists|b: (i32, i32, i32, i32)|
            {
                &&& #[trigger] crate::layout::is_box(grid.dom(), b)
                &&& matrix == crate::layout::matrix_text(grid, b, machine_id)
            },
{
}

/// The box around some machines holds them all, and there is only one.
pub proof fn law_one_box_lies_around_the_machines(
    points: Set<(i32, i32)>,
    b: (i32, i32, i32, i32),
    c: (i32, i32, i32, i32),
    p: (i32, i32),
)
    requires
        crate::layout::is_box(points, b),
        points.contains(p),
    ensures
        b.0 <= p.0 <= b.2,
        b.1 <= p.1 <= b.3,
        crate::layout::is_box(points, c) ==> c == b,
{
    if crate::layout::is_box(points, c) {
        let left = choose|p: (i32, i32)| #[trigger] points.contains(p) && p.0 == b.0;
        let top = choose|p: (i32, i32)| #[trigger] points.contains(p) && p.1 == b.1;
        let right = choose|p: (i32, i32)| #[trigger] points.contains(p) && p.0 == b.2;
        let bottom = choose|p: (i32, i32)| #[trigger] points.contains(p) && p.1 == b.3;
        let left2 = choose|p: (i32, i32)| #[trigger] points.contains(p) && p.0 == c.0;
        let top2 = choose|p: (i32, i32)| #[trigger] points.contains(p) && p.1 == c.1;
        let right2 = choose|p: (i32, i32)| #[trigger] points.contains(p) && p.0 == c.2;
        let bottom2 = choose|p: (i32, i32)| #[trigger] points.contains(p) && p.1 == c.3;
        assert(points.contains(left) && points.contains(left2));
        assert(points.contains(top) && points.contains(top2));
        assert(points.contains(right) && points.contains(right2));
        assert(points.contains(bottom) && points.contains(bottom2));
    }
}

} // verus!
