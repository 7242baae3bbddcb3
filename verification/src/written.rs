//! A layout that is written and read again.

use crate::arrange::on_grid;
use crate::layout::{
    arrangement, cell_text, centered, is_box, local_token, longest_row, matrix_text, peer_ids,
    row_text, token_id, Placement, GRID_SIDE,
};
use crate::text;
use crate::ui::UiPairedPeer;
use vstd::prelude::*;

verus! {

/// An id that can stand as a token in a written layout.
pub open spec fn plain(id: Seq<char>) -> bool {
    &&& id.len() > 0
    &&& text::trimmed(id) == id
    &&& !id.contains(',')
    &&& !id.contains(';')
}

/// An id that is read as it was written: this machine's, or a plain one that
/// names no machine but its own.
pub open spec fn readable(id: Seq<char>, local_id: Seq<char>, peers: Seq<UiPairedPeer>) -> bool {
    ||| local_token(id, local_id)
    ||| plain(id) && token_id(id, local_id, peers) == id
}

/// What an id is read as: every token for this machine as its id.
pub open spec fn read_id(id: Seq<char>, local_id: Seq<char>) -> Seq<char> {
    if local_token(id, local_id) {
        local_id
    } else {
        id
    }
}

proof fn lemma_piece_char(s: Seq<char>, sep: char, k: int, c: char)
    requires
        0 <= k < text::pieces(s, sep).len(),
        text::pieces(s, sep)[k].contains(c),
    ensures
        s.contains(c),
    decreases s.len(),
{
    if s.len() > 0 {
        let before = text::pieces(s.drop_last(), sep);
        text::lemma_pieces_nonempty(s.drop_last(), sep);
        if s.last() == sep {
            assert(k < before.len());
            lemma_piece_char(s.drop_last(), sep, k, c);
        } else if k < before.len() - 1 {
            lemma_piece_char(s.drop_last(), sep, k, c);
        } else {
            let piece = before.last().push(s.last());
            let i = choose|i: int| 0 <= i < piece.len() && piece[i] == c;
            if i < before.last().len() {
                assert(before.last()[i] == c);
                assert(before[k].contains(c));
                lemma_piece_char(s.drop_last(), sep, k, c);
            } else {
                assert(s[s.len() - 1] == c);
            }
        }
        if s.drop_last().contains(c) {
            let i = choose|i: int| 0 <= i < s.drop_last().len() && s.drop_last()[i] == c;
            assert(s[i] == c);
        }
    }
}

proof fn lemma_trim_start_shrinks(s: Seq<char>)
    ensures
        text::trim_start(s).len() <= s.len(),
        s.len() > 0 && text::is_white(s[0]) ==> text::trim_start(s).len() < s.len(),
    decreases s.len(),
{
    if s.len() > 0 && text::is_white(s[0]) {
        lemma_trim_start_shrinks(s.subrange(1, s.len() as int));
    }
}

proof fn lemma_trim_end_shrinks(s: Seq<char>)
    ensures
        text::trim_end(s).len() <= s.len(),
        s.len() > 0 && !text::is_white(s[0]) ==> text::trim_end(s).len() > 0,
    decreases s.len(),
{
    if s.len() > 0 && text::is_white(s.last()) {
        lemma_trim_end_shrinks(s.drop_last());
    }
}

/// A text with a character that is not white space is not blank.
proof fn lemma_not_blank(s: Seq<char>, i: int)
    requires
        0 <= i < s.len(),
        !text::is_white(s[i]),
    ensures
        text::trimmed(s).len() > 0,
    decreases s.len(),
{
    if text::is_white(s[0]) {
        let rest = s.subrange(1, s.len() as int);
        assert(rest[i - 1] == s[i]);
        lemma_not_blank(rest, i - 1);
    } else {
        lemma_trim_end_shrinks(s);
    }
}

proof fn lemma_plain_begins(id: Seq<char>)
    requires
        id.len() > 0,
        text::trimmed(id) == id,
    ensures
        !text::is_white(id[0]),
{
    lemma_trim_start_shrinks(id);
    lemma_trim_end_shrinks(text::trim_start(id));
}

proof fn lemma_pieces_append(a: Seq<char>, p: Seq<char>, sep: char)
    requires
        !p.contains(sep),
    ensures
        text::pieces(a + seq![sep] + p, sep) == text::pieces(a, sep).push(p),
    decreases p.len(),
{
    let whole = a + seq![sep] + p;
    if p.len() == 0 {
        assert(whole.drop_last() =~= a);
        assert(p =~= Seq::empty());
    } else {
        let q = p.drop_last();
        assert forall|i: int| 0 <= i < q.len() implies q[i] != sep by {
            assert(p.contains(p[i]));
        }
        lemma_pieces_append(a, q, sep);
        assert(whole.drop_last() =~= a + seq![sep] + q);
        assert(p.contains(p.last()));
        assert(q.push(p.last()) =~= p);
        assert(text::pieces(whole, sep) =~= text::pieces(a, sep).push(p));
    }
}

proof fn lemma_pieces_single(p: Seq<char>, sep: char)
    requires
        !p.contains(sep),
    ensures
        text::pieces(p, sep) == seq![p],
    decreases p.len(),
{
    if p.len() == 0 {
        assert(p =~= Seq::empty());
    } else {
        let q = p.drop_last();
        assert forall|i: int| 0 <= i < q.len() implies q[i] != sep by {
            assert(p.contains(p[i]));
        }
        lemma_pieces_single(q, sep);
        assert(p.contains(p.last()));
        assert(q.push(p.last()) =~= p);
        assert(text::pieces(p, sep) =~= seq![p]);
    }
}

/// Texts that were joined are found again as the pieces.
proof fn lemma_pieces_joined(parts: Seq<Seq<char>>, sep: char)
    requires
        parts.len() >= 1,
        forall|i: int| 0 <= i < parts.len() ==> !(#[trigger] parts[i]).contains(sep),
    ensures
        text::pieces(text::joined(parts, seq![sep]), sep) == parts,
    decreases parts.len(),
{
    if parts.len() == 1 {
        lemma_pieces_single(parts[0], sep);
        assert(seq![parts[0]] =~= parts);
    } else {
        let front = parts.drop_last();
        assert forall|i: int| 0 <= i < front.len() implies !(#[trigger] front[i]).contains(sep) by {
            assert(front[i] == parts[i]);
        }
        lemma_pieces_joined(front, sep);
        lemma_pieces_append(text::joined(front, seq![sep]), parts.last(), sep);
        assert(front.push(parts.last()) =~= parts);
    }
}

proof fn lemma_joined_lacks(parts: Seq<Seq<char>>, sep: Seq<char>, c: char)
    requires
        forall|i: int| 0 <= i < parts.len() ==> !(#[trigger] parts[i]).contains(c),
        !sep.contains(c),
    ensures
        !text::joined(parts, sep).contains(c),
    decreases parts.len(),
{
    if parts.len() > 1 {
        let front = parts.drop_last();
        assert forall|i: int| 0 <= i < front.len() implies !(#[trigger] front[i]).contains(c) by {
            assert(front[i] == parts[i]);
        }
        lemma_joined_lacks(front, sep, c);
        let a = text::joined(front, sep);
        let whole = a + sep + parts.last();
        assert forall|i: int| 0 <= i < whole.len() implies whole[i] != c by {
            if i < a.len() {
                assert(a.contains(a[i]));
            } else if i < a.len() + sep.len() {
                assert(sep.contains(sep[i - a.len()]));
            } else {
                assert(parts[parts.len() - 1].contains(parts.last()[i - a.len() - sep.len()]));
            }
        }
    }
}

/// `q` is a cell of the row that begins at `(x, y)`, and its token is not empty.
spec fn in_row(tokens: Seq<Seq<char>>, x: int, y: int, q: (i32, i32)) -> bool {
    q.1 == y && 0 <= q.0 - x < tokens.len() && tokens[q.0 - x].len() > 0
}

proof fn lemma_row_read(
    p: Placement,
    tokens: Seq<Seq<char>>,
    x: int,
    y: int,
    local_id: Seq<char>,
    peers: Seq<UiPairedPeer>,
)
    requires
        0 <= x,
        x + tokens.len() <= GRID_SIDE,
        0 <= y < GRID_SIDE,
        forall|i: int| 0 <= i < tokens.len() ==> text::trimmed(#[trigger] tokens[i]) == tokens[i],
    ensures
        ({
            let read = p.with_row(tokens, x, y, local_id, peers).grid;
            forall|q: (i32, i32)|
                {
                    &&& #[trigger] read.contains_key(q) <==> in_row(tokens, x, y, q)
                        || p.grid.contains_key(q)
                    &&& in_row(tokens, x, y, q) ==> read[q] == token_id(
                        tokens[q.0 - x],
                        local_id,
                        peers,
                    )
                    &&& !in_row(tokens, x, y, q) && p.grid.contains_key(q) ==> read[q] == p.grid[q]
                }
        }),
    decreases tokens.len(),
{
    if tokens.len() > 0 {
        let front = tokens.drop_last();
        assert forall|i: int| 0 <= i < front.len() implies text::trimmed(#[trigger] front[i])
            == front[i] by {
            assert(front[i] == tokens[i]);
        }
        lemma_row_read(p, front, x, y, local_id, peers);
        let before = p.with_row(front, x, y, local_id, peers).grid;
        let read = p.with_row(tokens, x, y, local_id, peers).grid;
        let token = tokens.last();
        assert(text::trimmed(token) == token);
        let at = ((x + tokens.len() - 1) as i32, y as i32);
        assert forall|q: (i32, i32)|
            {
                &&& #[trigger] read.contains_key(q) <==> in_row(tokens, x, y, q)
                    || p.grid.contains_key(q)
                &&& in_row(tokens, x, y, q) ==> read[q] == token_id(
                    tokens[q.0 - x],
                    local_id,
                    peers,
                )
                &&& !in_row(tokens, x, y, q) && p.grid.contains_key(q) ==> read[q] == p.grid[q]
            } by {
            assert(before.contains_key(q) <==> in_row(front, x, y, q) || p.grid.contains_key(q));
            if q == at {
            } else {
                assert(in_row(front, x, y, q) <==> in_row(tokens, x, y, q));
            }
        }
    }
}

/// `q` is a cell of the rows that begin at `(x, y)`, and its token is not empty.
spec fn in_rows(rows: Seq<Seq<char>>, x: int, y: int, q: (i32, i32)) -> bool {
    0 <= q.1 - y < rows.len() && in_row(text::pieces(rows[q.1 - y], ','), x, q.1 as int, q)
}

proof fn lemma_rows_read(
    rows: Seq<Seq<char>>,
    x: int,
    y: int,
    width: int,
    local_id: Seq<char>,
    peers: Seq<UiPairedPeer>,
)
    requires
        0 <= x,
        x + width <= GRID_SIDE,
        0 <= y,
        y + rows.len() <= GRID_SIDE,
        forall|j: int|
            0 <= j < rows.len() ==> {
                let tokens = text::pieces(#[trigger] rows[j], ',');
                &&& tokens.len() == width
                &&& forall|i: int| 0 <= i < width ==> text::trimmed(#[trigger] tokens[i])
                    == tokens[i]
            },
    ensures
        ({
            let read = Placement::empty().with_rows(rows, x, y, local_id, peers).grid;
            forall|q: (i32, i32)|
                {
                    &&& #[trigger] read.contains_key(q) <==> in_rows(rows, x, y, q)
                    &&& in_rows(rows, x, y, q) ==> read[q] == token_id(
                        text::pieces(rows[q.1 - y], ',')[q.0 - x],
                        local_id,
                        peers,
                    )
                }
        }),
    decreases rows.len(),
{
    let read = Placement::empty().with_rows(rows, x, y, local_id, peers).grid;
    if rows.len() > 0 {
        let front = rows.drop_last();
        assert forall|j: int| 0 <= j < front.len() implies {
            let tokens = text::pieces(#[trigger] front[j], ',');
            &&& tokens.len() == width
            &&& forall|i: int| 0 <= i < width ==> text::trimmed(#[trigger] tokens[i]) == tokens[i]
        } by {
            assert(front[j] == rows[j]);
        }
        lemma_rows_read(front, x, y, width, local_id, peers);
        let before = Placement::empty().with_rows(front, x, y, local_id, peers);
        let tokens = text::pieces(rows[rows.len() - 1], ',');
        let row_y = y + rows.len() - 1;
        lemma_row_read(before, tokens, x, row_y, local_id, peers);
        assert forall|q: (i32, i32)|
            {
                &&& #[trigger] read.contains_key(q) <==> in_rows(rows, x, y, q)
                &&& in_rows(rows, x, y, q) ==> read[q] == token_id(
                    text::pieces(rows[q.1 - y], ',')[q.0 - x],
                    local_id,
                    peers,
                )
            } by {
            assert(before.grid.contains_key(q) <==> in_rows(front, x, y, q));
            if q.1 != row_y {
                assert(in_rows(front, x, y, q) <==> in_rows(rows, x, y, q));
                assert(!in_row(tokens, x, row_y, q));
            } else {
                assert(!in_rows(front, x, y, q));
                assert(in_row(tokens, x, row_y, q) <==> in_rows(rows, x, y, q));
            }
        }
    }
}

proof fn lemma_longest_row(rows: Seq<Seq<char>>, width: nat)
    requires
        rows.len() >= 1,
        forall|j: int| 0 <= j < rows.len() ==> text::pieces(#[trigger] rows[j], ',').len() == width,
    ensures
        longest_row(rows) == width,
    decreases rows.len(),
{
    let front = rows.drop_last();
    assert(text::pieces(rows[rows.len() - 1], ',').len() == width);
    if rows.len() > 1 {
        assert forall|j: int| 0 <= j < front.len() implies text::pieces(
            #[trigger] front[j],
            ',',
        ).len() == width by {
            assert(front[j] == rows[j]);
        }
        lemma_longest_row(front, width);
    } else {
        assert(longest_row(front) == 0);
    }
}

/// The token of a cell is free of separators and of white space around it, and is
/// read as the machine in the cell.
proof fn lemma_cell_read(
    grid: Map<(i32, i32), Seq<char>>,
    p: (i32, i32),
    local_id: Seq<char>,
    peers: Seq<UiPairedPeer>,
)
    requires
        grid.contains_key(p) ==> readable(grid[p], local_id, peers),
    ensures
        ({
            let token = cell_text(grid, (p.0 as int, p.1 as int), local_id);
            &&& text::trimmed(token) == token
            &&& !token.contains(',')
            &&& !token.contains(';')
            &&& token.len() > 0 <==> grid.contains_key(p)
            &&& grid.contains_key(p) ==> token_id(token, local_id, peers) == read_id(
                grid[p],
                local_id,
            )
        }),
{
    reveal_strlit("self");
    let own = "self"@;
    assert(text::lowered(own) =~= own);
    assert(text::trim_start(own) == own);
    assert(text::trimmed(own) == own);
    assert(!own.contains(',') && !own.contains(';'));
}

/// The tokens of the row `j` of the box.
spec fn cells(
    grid: Map<(i32, i32), Seq<char>>,
    b: (i32, i32, i32, i32),
    j: int,
    local_id: Seq<char>,
) -> Seq<Seq<char>> {
    Seq::new(
        (b.2 - b.0 + 1) as nat,
        |i: int| cell_text(grid, (b.0 + i, b.1 + j), local_id),
    )
}

/// The written rows of the box.
spec fn written_rows(
    grid: Map<(i32, i32), Seq<char>>,
    b: (i32, i32, i32, i32),
    local_id: Seq<char>,
) -> Seq<Seq<char>> {
    Seq::new(
        (b.3 - b.1 + 1) as nat,
        |j: int| row_text(grid, b.0 as int, b.2 as int, b.1 + j, local_id),
    )
}

/// The machines of a layout can all be read again.
pub open spec fn all_readable(
    grid: Map<(i32, i32), Seq<char>>,
    local_id: Seq<char>,
    peers: Seq<UiPairedPeer>,
) -> bool {
    forall|p: (i32, i32)| #[trigger]
        grid.contains_key(p) ==> readable(grid[p], local_id, peers)
}

proof fn lemma_box_fits(grid: Map<(i32, i32), Seq<char>>, b: (i32, i32, i32, i32))
    requires
        on_grid(grid),
        is_box(grid.dom(), b),
    ensures
        0 <= b.0 <= b.2 < GRID_SIDE,
        0 <= b.1 <= b.3 < GRID_SIDE,
{
    let left = choose|p: (i32, i32)| #[trigger] grid.dom().contains(p) && p.0 == b.0;
    assert(grid.contains_key(left));
    let top = choose|p: (i32, i32)| #[trigger] grid.dom().contains(p) && p.1 == b.1;
    assert(grid.contains_key(top));
    let right = choose|p: (i32, i32)| #[trigger] grid.dom().contains(p) && p.0 == b.2;
    assert(grid.contains_key(right));
    let bottom = choose|p: (i32, i32)| #[trigger] grid.dom().contains(p) && p.1 == b.3;
    assert(grid.contains_key(bottom));
}

/// A written row is read as its tokens.
proof fn lemma_written_row(
    grid: Map<(i32, i32), Seq<char>>,
    b: (i32, i32, i32, i32),
    j: int,
    local_id: Seq<char>,
    peers: Seq<UiPairedPeer>,
)
    requires
        0 <= b.0 <= b.2 < GRID_SIDE,
        0 <= b.1 <= b.3 < GRID_SIDE,
        0 <= j <= b.3 - b.1,
        all_readable(grid, local_id, peers),
    ensures
        ({
            let row = written_rows(grid, b, local_id)[j];
            &&& text::pieces(row, ',') == cells(grid, b, j, local_id)
            &&& !row.contains(';')
            &&& forall|i: int|
                0 <= i < b.2 - b.0 + 1 ==> text::trimmed(
                    #[trigger] cells(grid, b, j, local_id)[i],
                ) == cells(grid, b, j, local_id)[i]
        }),
{
    let row = cells(grid, b, j, local_id);
    reveal_strlit(",");
    assert(","@ =~= seq![',']);
    assert forall|i: int| 0 <= i < row.len() implies !(#[trigger] row[i]).contains(',')
        && !row[i].contains(';') && text::trimmed(row[i]) == row[i] by {
        lemma_cell_read(grid, ((b.0 + i) as i32, (b.1 + j) as i32), local_id, peers);
    }
    assert(row_text(grid, b.0 as int, b.2 as int, b.1 + j, local_id) == text::joined(row, ","@));
    lemma_pieces_joined(row, ',');
    lemma_joined_lacks(row, ","@, ';');
}

/// A written layout is read as its rows, and is not blank.
proof fn lemma_written_matrix(
    grid: Map<(i32, i32), Seq<char>>,
    b: (i32, i32, i32, i32),
    local_id: Seq<char>,
    peers: Seq<UiPairedPeer>,
)
    requires
        on_grid(grid),
        is_box(grid.dom(), b),
        all_readable(grid, local_id, peers),
    ensures
        text::pieces(matrix_text(grid, b, local_id), ';') == written_rows(grid, b, local_id),
        text::trimmed(matrix_text(grid, b, local_id)).len() > 0,
{
    lemma_box_fits(grid, b);
    let matrix = matrix_text(grid, b, local_id);
    let rows = written_rows(grid, b, local_id);
    assert(text::pieces(matrix, ';') == rows) by {
        reveal_strlit(";");
        assert(";"@ =~= seq![';']);
        assert forall|j: int| 0 <= j < rows.len() implies !(#[trigger] rows[j]).contains(';') by {
            lemma_written_row(grid, b, j, local_id, peers);
        }
        assert(matrix == text::joined(rows, ";"@));
        lemma_pieces_joined(rows, ';');
    }
    let first = choose|p: (i32, i32)| #[trigger] grid.dom().contains(p) && p.0 == b.0;
    assert(grid.contains_key(first));
    let j = first.1 - b.1;
    lemma_cell_read(grid, first, local_id, peers);
    lemma_written_row(grid, b, j, local_id, peers);
    let token = cell_text(grid, (first.0 as int, first.1 as int), local_id);
    assert(cells(grid, b, j, local_id)[0] == token);
    lemma_plain_begins(token);
    assert(token.contains(token[0]));
    lemma_piece_char(rows[j], ',', 0, token[0]);
    lemma_piece_char(matrix, ';', j, token[0]);
    let k = choose|k: int| 0 <= k < matrix.len() && matrix[k] == token[0];
    lemma_not_blank(matrix, k);
}

/// Reading a written layout gives its rows in the middle of the grid.
proof fn lemma_written_read(
    grid: Map<(i32, i32), Seq<char>>,
    b: (i32, i32, i32, i32),
    local_id: Seq<char>,
    peers: Seq<UiPairedPeer>,
)
    requires
        on_grid(grid),
        is_box(grid.dom(), b),
        all_readable(grid, local_id, peers),
    ensures
        ({
            let read = arrangement(matrix_text(grid, b, local_id), local_id, peers).grid;
            let rows = written_rows(grid, b, local_id);
            let x = centered((b.2 - b.0 + 1) as nat);
            let y = centered((b.3 - b.1 + 1) as nat);
            forall|q: (i32, i32)|
                {
                    &&& #[trigger] read.contains_key(q) <==> in_rows(rows, x, y, q)
                    &&& in_rows(rows, x, y, q) ==> read[q] == token_id(
                        text::pieces(rows[q.1 - y], ',')[q.0 - x],
                        local_id,
                        peers,
                    )
                }
        }),
{
    lemma_box_fits(grid, b);
    lemma_written_matrix(grid, b, local_id, peers);
    let width = (b.2 - b.0 + 1) as nat;
    let rows = written_rows(grid, b, local_id);
    assert forall|j: int| 0 <= j < rows.len() implies {
        let tokens = text::pieces(#[trigger] rows[j], ',');
        &&& tokens.len() == width
        &&& forall|i: int| 0 <= i < width ==> text::trimmed(#[trigger] tokens[i]) == tokens[i]
    } by {
        lemma_written_row(grid, b, j, local_id, peers);
    }
    lemma_longest_row(rows, width);
    let x = centered(width);
    let y = centered(rows.len());
    lemma_rows_read(rows, x, y, width as int, local_id, peers);
    let described = Placement::empty().with_rows(rows, x, y, local_id, peers);
    crate::arrange::lemma_missing_keeps_grid(described, peer_ids(peers));
}

/// The cell of the grid to which `p` is moved when the box `b` is read again.
pub open spec fn moved(b: (i32, i32, i32, i32), p: (i32, i32)) -> (i32, i32) {
    (
        (p.0 + (centered((b.2 - b.0 + 1) as nat) - b.0)) as i32,
        (p.1 + (centered((b.3 - b.1 + 1) as nat) - b.1)) as i32,
    )
}

proof fn lemma_machine_read(
    grid: Map<(i32, i32), Seq<char>>,
    p: (i32, i32),
    b: (i32, i32, i32, i32),
    local_id: Seq<char>,
    peers: Seq<UiPairedPeer>,
)
    requires
        on_grid(grid),
        is_box(grid.dom(), b),
        all_readable(grid, local_id, peers),
        grid.contains_key(p),
    ensures
        ({
            let read = arrangement(matrix_text(grid, b, local_id), local_id, peers).grid;
            &&& read.contains_key(moved(b, p))
            &&& read[moved(b, p)] == read_id(grid[p], local_id)
        }),
{
    lemma_box_fits(grid, b);
    let rows = written_rows(grid, b, local_id);
    let x = centered((b.2 - b.0 + 1) as nat);
    let y = centered((b.3 - b.1 + 1) as nat);
    let q = moved(b, p);
    let j = p.1 - b.1;
    assert(grid.dom().contains(p));
    assert(q.1 - y == j && q.0 - x == p.0 - b.0);
    let token = cell_text(grid, (p.0 as int, p.1 as int), local_id);
    assert(in_rows(rows, x, y, q) && text::pieces(rows[q.1 - y], ',')[q.0 - x] == token) by {
        lemma_cell_read(grid, p, local_id, peers);
        lemma_written_row(grid, b, j, local_id, peers);
        assert(cells(grid, b, j, local_id)[p.0 - b.0] == token);
    }
    assert(token_id(token, local_id, peers) == read_id(grid[p], local_id)) by {
        lemma_cell_read(grid, p, local_id, peers);
    }
    lemma_written_read(grid, b, local_id, peers);
    let read = arrangement(matrix_text(grid, b, local_id), local_id, peers).grid;
    assert(read.contains_key(q) <==> in_rows(rows, x, y, q));
}

proof fn lemma_read_machine(
    grid: Map<(i32, i32), Seq<char>>,
    q: (i32, i32),
    b: (i32, i32, i32, i32),
    local_id: Seq<char>,
    peers: Seq<UiPairedPeer>,
)
    requires
        on_grid(grid),
        is_box(grid.dom(), b),
        all_readable(grid, local_id, peers),
        arrangement(matrix_text(grid, b, local_id), local_id, peers).grid.contains_key(q),
    ensures
        exists|p: (i32, i32)| #[trigger] grid.contains_key(p) && q == moved(b, p),
{
    lemma_box_fits(grid, b);
    let rows = written_rows(grid, b, local_id);
    let x = centered((b.2 - b.0 + 1) as nat);
    let y = centered((b.3 - b.1 + 1) as nat);
    assert(in_rows(rows, x, y, q)) by {
        lemma_written_read(grid, b, local_id, peers);
    }
    let j = q.1 - y;
    let p = ((q.0 - x + b.0) as i32, (j + b.1) as i32);
    lemma_written_row(grid, b, j, local_id, peers);
    let token = cells(grid, b, j, local_id)[q.0 - x];
    assert(0 <= q.0 - x <= b.2 - b.0 && token.len() > 0);
    assert(q == moved(b, p));
    lemma_cell_read(grid, p, local_id, peers);
    assert(token == cell_text(
        grid,
        (p.0 as int, p.1 as int),
        local_id,
    ));
    assert(grid.contains_key(p));
}

/// A layout that was written is read as it was: every machine stands where it
/// stood, moved with all the others to the middle of the grid; no machine is added
/// and none is lost.
pub proof fn law_written_layout_reads_back(
    grid: Map<(i32, i32), Seq<char>>,
    b: (i32, i32, i32, i32),
    local_id: Seq<char>,
    peers: Seq<UiPairedPeer>,
)
    requires
        on_grid(grid),
        is_box(grid.dom(), b),
        all_readable(grid, local_id, peers),
    ensures
        ({
            let read = arrangement(matrix_text(grid, b, local_id), local_id, peers).grid;
            &&& forall|p: (i32, i32)| #[trigger]
                grid.contains_key(p) ==> {
                    &&& read.contains_key(moved(b, p))
                    &&& read[moved(b, p)] == read_id(grid[p], local_id)
                }
            &&& forall|q: (i32, i32)| #[trigger]
                read.contains_key(q) ==> exists|p: (i32, i32)| #[trigger]
                    grid.contains_key(p) && q == moved(b, p)
        }),
{
    let read = arrangement(matrix_text(grid, b, local_id), local_id, peers).grid;
    assert forall|p: (i32, i32)| #[trigger] grid.contains_key(p) implies {
        &&& read.contains_key(moved(b, p))
        &&& read[moved(b, p)] == read_id(grid[p], local_id)
    } by {
        lemma_machine_read(grid, p, b, local_id, peers);
    }
    assert forall|q: (i32, i32)| #[trigger] read.contains_key(q) implies exists|p: (i32, i32)|
        #[trigger] grid.contains_key(p) && q == moved(b, p) by {
        lemma_read_machine(grid, q, b, local_id, peers);
    }
}

/// A written layout has a row for each row of the smallest box around the machines and
/// a cell in it for each column. A cell holds the id of the machine that stands there,
/// `self` for this machine, and nothing where none stands.
pub proof fn law_layout_is_written_cell_by_cell(
    grid: Map<(i32, i32), Seq<char>>,
    b: (i32, i32, i32, i32),
    local_id: Seq<char>,
    peers: Seq<UiPairedPeer>,
)
    requires
        on_grid(grid),
        is_box(grid.dom(), b),
        all_readable(grid, local_id, peers),
    ensures
        ({
            let rows = text::pieces(matrix_text(grid, b, local_id), ';');
            &&& rows.len() == b.3 - b.1 + 1
            &&& forall|j: int|
                0 <= j < rows.len() ==> text::pieces(#[trigger] rows[j], ',').len() == b.2 - b.0
                    + 1
            &&& forall|j: int, i: int|
                #![trigger text::pieces(rows[j], ',')[i]]
                0 <= j < rows.len() && 0 <= i <= b.2 - b.0 ==> {
                    let p = ((b.0 + i) as i32, (b.1 + j) as i32);
                    let cell = text::pieces(rows[j], ',')[i];
                    &&& !grid.contains_key(p) ==> cell.len() == 0
                    &&& grid.contains_key(p) && local_token(grid[p], local_id) ==> cell == "self"@
                    &&& grid.contains_key(p) && !local_token(grid[p], local_id) ==> cell == grid[p]
                }
        }),
{
    lemma_box_fits(grid, b);
    lemma_written_matrix(grid, b, local_id, peers);
    let rows = text::pieces(matrix_text(grid, b, local_id), ';');
    assert forall|j: int| 0 <= j < rows.len() implies text::pieces(#[trigger] rows[j], ',').len()
        == b.2 - b.0 + 1 by {
        lemma_written_row(grid, b, j, local_id, peers);
    }
    assert forall|j: int, i: int|
        #![trigger text::pieces(rows[j], ',')[i]]
        0 <= j < rows.len() && 0 <= i <= b.2 - b.0 implies {
        let p = ((b.0 + i) as i32, (b.1 + j) as i32);
        let cell = text::pieces(rows[j], ',')[i];
        &&& !grid.contains_key(p) ==> cell.len() == 0
        &&& grid.contains_key(p) && local_token(grid[p], local_id) ==> cell == "self"@
        &&& grid.contains_key(p) && !local_token(grid[p], local_id) ==> cell == grid[p]
    } by {
        lemma_written_row(grid, b, j, local_id, peers);
        assert(text::pieces(rows[j], ',')[i] == cells(grid, b, j, local_id)[i]);
    }
}

} // verus!
