//! Arranging machines: reading a layout, showing it, and writing it back.

use crate::grid::{lemma_grid_cells, LayoutGrid};
use crate::order::{
    lemma_filter_multiset, lemma_filter_only, lemma_map_rearranged, lemma_only_filtered,
    only_passes, rearranged,
};
use crate::text;
use crate::ui::{short_text, short_token, UiPairedPeer};
use vstd::prelude::*;

verus! {

/// The number of cells along each side of the grid.
pub const GRID_SIDE: i32 = 7;

/// The ids of `peers`.
pub open spec fn peer_ids(peers: Seq<UiPairedPeer>) -> Seq<Seq<char>> {
    peers.map_values(|p: UiPairedPeer| p.peer_id@)
}

/// The ids of the paired machines, in order.
pub fn layout_peer_ids(peers: &Vec<UiPairedPeer>) -> (r: Vec<String>)
    ensures
        text::views(r@) == text::texts_sorted(peer_ids(peers@)),
{
    let mut ids: Vec<String> = Vec::new();
    let mut i: usize = 0;
    while i < peers.len()
        invariant
            i <= peers.len(),
            text::views(ids@) == peer_ids(peers@).take(i as int),
        decreases peers.len() - i,
    {
        let ghost before = text::views(ids@);
        ids.push(peers[i].peer_id.clone());
        i = i + 1;
        assert(text::views(ids@) =~= before.push(peers@[i - 1].peer_id@));
        assert(peer_ids(peers@).take(i as int) =~= peer_ids(peers@).take(i - 1).push(
            peer_ids(peers@)[i - 1],
        ));
    }
    assert(peer_ids(peers@).take(i as int) =~= peer_ids(peers@));
    text::sort_texts(ids)
}

/// Whether the arrangement on the screen has to be read anew: at first, as soon
/// as this machine is known; later when the layout or the paired machines have
/// changed, unless a machine is being dragged.
pub fn should_rebuild_layout_model(
    layout_initialized: bool,
    machine_id: &str,
    layout_matrix: &str,
    last_layout_matrix: &str,
    current_peer_ids: &Vec<String>,
    last_layout_peer_ids: &Vec<String>,
    dragging_peer: bool,
) -> (r: bool)
    ensures
        r == (if layout_initialized {
            !dragging_peer && (layout_matrix@ != last_layout_matrix@ || text::views(
                current_peer_ids@,
            ) != text::views(last_layout_peer_ids@))
        } else {
            machine_id@.len() > 0
        }),
{
    if layout_initialized {
        !dragging_peer && (!text::same(layout_matrix, last_layout_matrix) || !text::same_texts(
            current_peer_ids,
            last_layout_peer_ids,
        ))
    } else {
        !machine_id.is_empty()
    }
}

/// A token that stands for this machine.
pub open spec fn local_token(token: Seq<char>, machine_id: Seq<char>) -> bool {
    let t = text::lowered(token);
    ||| t == "self"@
    ||| t == "local"@
    ||| t == "this"@
    ||| t == "me"@
    ||| t == text::lowered(machine_id)
}

pub fn is_local_layout_token(token: &str, machine_id: &str) -> (r: bool)
    ensures
        r == local_token(token@, machine_id@),
{
    let lower = text::to_lower(token);
    text::same(lower.as_str(), "self") || text::same(lower.as_str(), "local") || text::same(
        lower.as_str(),
        "this",
    ) || text::same(lower.as_str(), "me") || text::same(
        lower.as_str(),
        text::to_lower(machine_id).as_str(),
    )
}

/// `token` names `peer`: by the beginning of its id or by its whole name, case
/// aside.
pub open spec fn token_names(peer: UiPairedPeer, token: Seq<char>) -> bool {
    let wanted = text::lowered(text::trimmed(token));
    ||| text::starts(text::lowered(peer.peer_id@), wanted)
    ||| text::lowered(peer.display_name@) == wanted
}

/// `at` is the only place at which `token` names a machine.
pub open spec fn only_named(peers: Seq<UiPairedPeer>, token: Seq<char>, at: int) -> bool {
    &&& text::trimmed(token).len() > 0
    &&& 0 <= at < peers.len()
    &&& token_names(peers[at], token)
    &&& forall|j: int| 0 <= j < peers.len() && j != at ==> !token_names(#[trigger] peers[j], token)
}

/// The place of the machine that `token` names, where it names exactly one.
pub open spec fn named_place(peers: Seq<UiPairedPeer>, token: Seq<char>) -> Option<int> {
    if exists|at: int| #[trigger] only_named(peers, token, at) {
        Some(choose|at: int| #[trigger] only_named(peers, token, at))
    } else {
        None
    }
}

fn layout_token_place(token: &str, peers: &Vec<UiPairedPeer>) -> (r: Option<usize>)
    ensures
        match r {
            Some(at) => only_named(peers@, token@, at as int) && named_place(peers@, token@)
                == Some(at as int),
            None => named_place(peers@, token@) is None,
        },
{
    let trimmed = text::trim(token);
    if trimmed.as_str().is_empty() {
        return None;
    }
    let wanted = text::to_lower(trimmed.as_str());
    let mut found: Option<usize> = None;
    let mut i: usize = 0;
    while i < peers.len()
        invariant
            i <= peers.len(),
            wanted@ == text::lowered(text::trimmed(token@)),
            text::trimmed(token@).len() > 0,
            match found {
                Some(at) => at < i && token_names(peers@[at as int], token@) && forall|j: int|
                    0 <= j < i && j != at ==> !token_names(#[trigger] peers@[j], token@),
                None => forall|j: int| 0 <= j < i ==> !token_names(#[trigger] peers@[j], token@),
            },
        decreases peers.len() - i,
    {
        let id = text::to_lower(peers[i].peer_id.as_str());
        let name = text::to_lower(peers[i].display_name.as_str());
        let names = text::starts_with(id.as_str(), wanted.as_str()) || text::same(
            name.as_str(),
            wanted.as_str(),
        );
        assert(names == token_names(peers@[i as int], token@));
        if names {
            match found {
                Some(at) => {
                    proof {
                        assert forall|n: int| !#[trigger] only_named(peers@, token@, n) by {
                            if only_named(peers@, token@, n) {
                                if n != at {
                                    assert(!token_names(peers@[at as int], token@));
                                } else {
                                    assert(!token_names(peers@[i as int], token@));
                                }
                            }
                        }
                    }
                    return None;
                },
                None => {
                    found = Some(i);
                },
            }
        }
        i = i + 1;
    }
    match found {
        Some(at) => {
            proof {
                assert(only_named(peers@, token@, at as int));
                let chosen = choose|n: int| #[trigger] only_named(peers@, token@, n);
                if chosen != at {
                    assert(!token_names(peers@[at as int], token@));
                }
            }
            Some(at)
        },
        None => None,
    }
}

/// The machine that a token names, where it names exactly one.
pub fn resolve_layout_token_peer<'a>(token: &str, peers: &'a Vec<UiPairedPeer>) -> (r: Option<
    &'a UiPairedPeer,
>)
    ensures
        match r {
            Some(peer) => named_place(peers@, token@) is Some && *peer == peers@[named_place(
                peers@,
                token@,
            )->0],
            None => named_place(peers@, token@) is None,
        },
{
    match layout_token_place(token, peers) {
        Some(at) => Some(&peers[at]),
        None => None,
    }
}

/// The ids of the paired machines are in order, each as often as it is paired, and
/// the same for every order of the machines: machines that come in another order
/// never look like a change.
pub proof fn law_peer_ids_are_in_order(peers: Seq<UiPairedPeer>, others: Seq<UiPairedPeer>)
    requires
        rearranged(peers, others),
    ensures
        text::in_order(text::texts_sorted(peer_ids(peers))),
        rearranged(text::texts_sorted(peer_ids(peers)), peer_ids(peers)),
        text::texts_sorted(peer_ids(others)) == text::texts_sorted(peer_ids(peers)),
{
    lemma_map_rearranged(peers, others, |p: UiPairedPeer| p.peer_id@);
    text::lemma_texts_sorted(peer_ids(peers));
    text::lemma_one_order(peer_ids(others), peer_ids(peers));
}

proof fn lemma_named_place(peers: Seq<UiPairedPeer>, token: Seq<char>)
    ensures
        ({
            let named = peers.filter(|p: UiPairedPeer| token_names(p, token));
            &&& named_place(peers, token) is Some <==> text::trimmed(token).len() > 0
                && named.len() == 1
            &&& named_place(peers, token) matches Some(at) ==> 0 <= at < peers.len() && peers[at]
                == named[0]
        }),
{
    let names = |p: UiPairedPeer| token_names(p, token);
    if let Some(at) = named_place(peers, token) {
        assert(only_named(peers, token, at));
        assert(only_passes(peers, names, at));
        lemma_filter_only(peers, names, at);
    } else if text::trimmed(token).len() > 0 && peers.filter(names).len() == 1 {
        let at = lemma_only_filtered(peers, names);
        assert forall|j: int| 0 <= j < peers.len() && j != at implies !token_names(
            #[trigger] peers[j],
            token,
        ) by {
            assert(!names(peers[j]));
        }
        assert(only_named(peers, token, at));
    }
}

/// A token means the machine that it names, where it is not blank and names exactly
/// one, and none otherwise. It means the same machine for every order of the
/// machines.
pub proof fn law_token_means_one_machine_in_any_order(
    peers: Seq<UiPairedPeer>,
    others: Seq<UiPairedPeer>,
    token: Seq<char>,
)
    requires
        rearranged(peers, others),
    ensures
        ({
            let named = peers.filter(|p: UiPairedPeer| token_names(p, token));
            &&& named_place(peers, token) is Some <==> text::trimmed(token).len() > 0
                && named.len() == 1
            &&& named_place(peers, token) matches Some(at) ==> 0 <= at < peers.len() && peers[at]
                == named[0]
        }),
        named_place(others, token) is Some <==> named_place(peers, token) is Some,
        named_place(peers, token) is Some ==> others[named_place(others, token)->0]
            == peers[named_place(peers, token)->0],
{
    broadcast use vstd::seq_lib::group_to_multiset_ensures;

    let names = |p: UiPairedPeer| token_names(p, token);
    let (named, other) = (peers.filter(names), others.filter(names));
    lemma_named_place(peers, token);
    lemma_named_place(others, token);
    lemma_filter_multiset(peers, names);
    lemma_filter_multiset(others, names);
    assert(named.to_multiset().len() == named.len() && other.to_multiset().len() == other.len());
    if named.len() == 1 {
        assert(named.contains(named[0]));
        assert(other.to_multiset().count(named[0]) > 0);
        assert(other.contains(named[0]));
    }
}

/// Where the machines are: on the grid, or beside it.
#[verifier::ext_equal]
pub struct Placement {
    pub grid: Map<(i32, i32), Seq<char>>,
    pub unassigned: Seq<Seq<char>>,
}

/// The machine that a token of a layout stands for.
pub open spec fn token_id(
    token: Seq<char>,
    local_id: Seq<char>,
    peers: Seq<UiPairedPeer>,
) -> Seq<char> {
    if local_token(token, local_id) {
        local_id
    } else {
        match named_place(peers, token) {
            Some(at) => peers[at].peer_id@,
            None => token,
        }
    }
}

/// Where a row or a column of `n` cells begins so that it is centered.
pub open spec fn centered(n: nat) -> int {
    if n <= GRID_SIDE {
        (GRID_SIDE - n) / 2
    } else {
        -((n - GRID_SIDE) / 2)
    }
}

impl Placement {
    pub open spec fn empty() -> Placement {
        Placement { grid: Map::empty(), unassigned: Seq::empty() }
    }

    /// A machine at a position: on the grid, where the position is on it.
    pub open spec fn placed(self, id: Seq<char>, x: int, y: int) -> Placement {
        if 0 <= x < GRID_SIDE && 0 <= y < GRID_SIDE {
            Placement { grid: self.grid.insert((x as i32, y as i32), id), ..self }
        } else {
            Placement { unassigned: self.unassigned.push(id), ..self }
        }
    }

    /// The machines of a row, from position `(x, y)` on; empty tokens leave
    /// their cells free.
    pub open spec fn with_row(
        self,
        tokens: Seq<Seq<char>>,
        x: int,
        y: int,
        local_id: Seq<char>,
        peers: Seq<UiPairedPeer>,
    ) -> Placement
        decreases tokens.len(),
    {
        if tokens.len() == 0 {
            self
        } else {
            let before = self.with_row(tokens.drop_last(), x, y, local_id, peers);
            let token = text::trimmed(tokens.last());
            if token.len() == 0 {
                before
            } else {
                before.placed(token_id(token, local_id, peers), x + tokens.len() - 1, y)
            }
        }
    }

    /// The machines of all rows, from position `(x, y)` on.
    pub open spec fn with_rows(
        self,
        rows: Seq<Seq<char>>,
        x: int,
        y: int,
        local_id: Seq<char>,
        peers: Seq<UiPairedPeer>,
    ) -> Placement
        decreases rows.len(),
    {
        if rows.len() == 0 {
            self
        } else {
            self.with_rows(rows.drop_last(), x, y, local_id, peers).with_row(
                text::pieces(rows.last(), ','),
                x,
                y + rows.len() - 1,
                local_id,
                peers,
            )
        }
    }

    /// A machine that is neither on the grid nor beside it is put beside it.
    pub open spec fn with_missing(self, id: Seq<char>) -> Placement {
        if self.grid.contains_value(id) || self.unassigned.contains(id) {
            self
        } else {
            Placement { unassigned: self.unassigned.push(id), ..self }
        }
    }

    pub open spec fn with_all_missing(self, ids: Seq<Seq<char>>) -> Placement
        decreases ids.len(),
    {
        if ids.len() == 0 {
            self
        } else {
            self.with_all_missing(ids.drop_last()).with_missing(ids.last())
        }
    }
}

/// The length of the longest row.
pub open spec fn longest_row(rows: Seq<Seq<char>>) -> nat
    decreases rows.len(),
{
    if rows.len() == 0 {
        0
    } else {
        let n = text::pieces(rows.last(), ',').len();
        let before = longest_row(rows.drop_last());
        if n > before {
            n
        } else {
            before
        }
    }
}

/// The first arrangement: this machine in the middle, the others to its left and
/// right in turn, as far as there is room.
pub struct FirstRow {
    pub grid: Map<(i32, i32), Seq<char>>,
    pub left: int,
    pub right: int,
}

pub open spec fn first_row(local_id: Seq<char>, ids: Seq<Seq<char>>) -> FirstRow
    decreases ids.len(),
{
    if ids.len() == 0 {
        FirstRow { grid: Map::empty().insert((3i32, 3i32), local_id), left: 2, right: 4 }
    } else {
        let before = first_row(local_id, ids.drop_last());
        let to_left = (ids.len() - 1) % 2 == 0;
        if before.left >= 0 && (to_left || before.right >= GRID_SIDE) {
            FirstRow {
                grid: before.grid.insert((before.left as i32, 3i32), ids.last()),
                left: before.left - 1,
                ..before
            }
        } else if before.right < GRID_SIDE {
            FirstRow {
                grid: before.grid.insert((before.right as i32, 3i32), ids.last()),
                right: before.right + 1,
                ..before
            }
        } else {
            before
        }
    }
}

/// The arrangement that a layout describes: its rows centered on the grid, or the
/// first arrangement where it is blank; every machine that it leaves out stands
/// beside the grid.
pub open spec fn arrangement(
    matrix: Seq<char>,
    local_id: Seq<char>,
    peers: Seq<UiPairedPeer>,
) -> Placement {
    let described = if text::trimmed(matrix).len() == 0 {
        Placement { grid: first_row(local_id, peer_ids(peers)).grid, unassigned: Seq::empty() }
    } else {
        let rows = text::pieces(matrix, ';');
        Placement::empty().with_rows(
            rows,
            centered(longest_row(rows)),
            centered(rows.len()),
            local_id,
            peers,
        )
    };
    described.with_all_missing(peer_ids(peers)).with_missing(local_id)
}

pub open spec fn placement_of(grid: LayoutGrid, unassigned: Vec<String>) -> Placement {
    Placement { grid: grid@, unassigned: text::views(unassigned@) }
}

fn resolve_token(token: &String, local_id: &String, peers: &Vec<UiPairedPeer>) -> (r: String)
    ensures
        r@ == token_id(token@, local_id@, peers@),
{
    if is_local_layout_token(token.as_str(), local_id.as_str()) {
        local_id.clone()
    } else {
        match layout_token_place(token.as_str(), peers) {
            Some(at) => peers[at].peer_id.clone(),
            None => token.clone(),
        }
    }
}

fn center(n: usize) -> (r: i128)
    ensures
        r == centered(n as nat),
        -(n as int) <= r <= 3,
{
    if n <= 7 {
        (7 - n as i128) / 2
    } else {
        -(((n as i128) - 7) / 2)
    }
}

fn place(grid: &mut LayoutGrid, unassigned: &mut Vec<String>, id: String, x: i128, y: i128)
    requires
        old(grid).wf(),
    ensures
        placement_of(*final(grid), *final(unassigned)) == placement_of(
            *old(grid),
            *old(unassigned),
        ).placed(id@, x as int, y as int),
        final(grid).wf(),
{
    let ghost before = placement_of(*grid, *unassigned);
    let ghost text = id@;
    if 0 <= x && x < 7 && 0 <= y && y < 7 {
        grid.insert(x as i32, y as i32, id);
        assert(placement_of(*grid, *unassigned) =~= before.placed(text, x as int, y as int));
    } else {
        unassigned.push(id);
        assert(text::views(unassigned@) =~= before.unassigned.push(text));
        assert(placement_of(*grid, *unassigned) =~= before.placed(text, x as int, y as int));
    }
}

fn place_row(
    grid: &mut LayoutGrid,
    unassigned: &mut Vec<String>,
    row: &String,
    x: i128,
    y: i128,
    local_id: &String,
    peers: &Vec<UiPairedPeer>,
)
    requires
        old(grid).wf(),
        -(usize::MAX as int) <= x <= 3,
    ensures
        placement_of(*final(grid), *final(unassigned)) == placement_of(
            *old(grid),
            *old(unassigned),
        ).with_row(text::pieces(row@, ','), x as int, y as int, local_id@, peers@),
        final(grid).wf(),
{
    let ghost before = placement_of(*grid, *unassigned);
    let tokens = text::split(row.as_str(), ',');
    let ghost all = text::views(tokens@);
    let mut i: usize = 0;
    while i < tokens.len()
        invariant
            i <= tokens.len(),
            all == text::views(tokens@),
            grid.wf(),
            -(usize::MAX as int) <= x <= 3,
            placement_of(*grid, *unassigned) == before.with_row(
                all.take(i as int),
                x as int,
                y as int,
                local_id@,
                peers@,
            ),
        decreases tokens.len() - i,
    {
        proof {
            let longer = all.take(i + 1);
            assert(longer.drop_last() =~= all.take(i as int));
            assert(longer.last() == tokens@[i as int]@);
        }
        let token = text::trim(tokens[i].as_str());
        if !token.as_str().is_empty() {
            let id = resolve_token(&token, local_id, peers);
            place(grid, unassigned, id, x + i as i128, y);
        }
        i = i + 1;
    }
    assert(all.take(i as int) =~= all);
}

fn place_rows(
    matrix: &String,
    local_id: &String,
    peers: &Vec<UiPairedPeer>,
) -> (r: (LayoutGrid, Vec<String>))
    ensures
        ({
            let rows = text::pieces(matrix@, ';');
            placement_of(r.0, r.1) == Placement::empty().with_rows(
                rows,
                centered(longest_row(rows)),
                centered(rows.len()),
                local_id@,
                peers@,
            )
        }),
        r.0.wf(),
{
    let rows = text::split(matrix.as_str(), ';');
    let ghost all = text::views(rows@);
    let mut longest: usize = 0;
    let mut i: usize = 0;
    while i < rows.len()
        invariant
            i <= rows.len(),
            all == text::views(rows@),
            longest == longest_row(all.take(i as int)),
        decreases rows.len() - i,
    {
        proof {
            let longer = all.take(i + 1);
            assert(longer.drop_last() =~= all.take(i as int));
            assert(longer.last() == rows@[i as int]@);
        }
        let tokens = text::split(rows[i].as_str(), ',');
        assert(text::views(tokens@).len() == tokens.len());
        if tokens.len() > longest {
            longest = tokens.len();
        }
        i = i + 1;
    }
    assert(all.take(i as int) =~= all);
    assert(all.len() == rows.len());
    let x = center(longest);
    let y = center(rows.len());
    let mut grid = LayoutGrid::new();
    let mut unassigned: Vec<String> = Vec::new();
    let mut k: usize = 0;
    assert(placement_of(grid, unassigned) =~= Placement::empty());
    while k < rows.len()
        invariant
            k <= rows.len(),
            all == text::views(rows@),
            grid.wf(),
            -(usize::MAX as int) <= x <= 3,
            -(usize::MAX as int) <= y <= 3,
            placement_of(grid, unassigned) == Placement::empty().with_rows(
                all.take(k as int),
                x as int,
                y as int,
                local_id@,
                peers@,
            ),
        decreases rows.len() - k,
    {
        proof {
            let longer = all.take(k + 1);
            assert(longer.drop_last() =~= all.take(k as int));
            assert(longer.last() == rows@[k as int]@);
        }
        place_row(&mut grid, &mut unassigned, &rows[k], x, y + k as i128, local_id, peers);
        k = k + 1;
    }
    assert(all.take(k as int) =~= all);
    (grid, unassigned)
}

fn place_first_row(local_id: &String, peers: &Vec<UiPairedPeer>) -> (r: LayoutGrid)
    ensures
        r@ == first_row(local_id@, peer_ids(peers@)).grid,
        r.wf(),
{
    let mut grid = LayoutGrid::new();
    grid.insert(3, 3, local_id.clone());
    let mut left: i32 = 2;
    let mut right: i32 = 4;
    let mut i: usize = 0;
    let ghost ids = peer_ids(peers@);
    let mut to_left = true;
    while i < peers.len()
        invariant
            i <= peers.len(),
            ids == peer_ids(peers@),
            grid.wf(),
            -1 <= left <= 2,
            4 <= right <= 7,
            to_left == (i % 2 == 0),
            ({
                let row = first_row(local_id@, ids.take(i as int));
                grid@ == row.grid && left == row.left && right == row.right
            }),
        decreases peers.len() - i,
    {
        proof {
            let longer = ids.take(i + 1);
            assert(longer.drop_last() =~= ids.take(i as int));
            assert(longer.last() == peers@[i as int].peer_id@);
        }
        if to_left && left >= 0 {
            grid.insert(left, 3, peers[i].peer_id.clone());
            left = left - 1;
        } else if right < 7 {
            grid.insert(right, 3, peers[i].peer_id.clone());
            right = right + 1;
        } else if left >= 0 {
            grid.insert(left, 3, peers[i].peer_id.clone());
            left = left - 1;
        }
        to_left = !to_left;
        i = i + 1;
    }
    assert(ids.take(i as int) =~= ids);
    grid
}

fn add_missing(grid: &LayoutGrid, unassigned: &mut Vec<String>, id: &String)
    requires
        grid.wf(),
    ensures
        placement_of(*grid, *final(unassigned)) == placement_of(
            *grid,
            *old(unassigned),
        ).with_missing(id@),
{
    let ghost before = placement_of(*grid, *unassigned);
    if !grid.holds(id.as_str()) && !text::holds_text(unassigned, id.as_str()) {
        unassigned.push(id.clone());
        assert(text::views(unassigned@) =~= before.unassigned.push(id@));
    }
    assert(placement_of(*grid, *unassigned) =~= before.with_missing(id@));
}

/// Reads a layout: the machines on the grid, and those beside it.
pub fn rebuild_layout(
    matrix: &String,
    local_id: &String,
    peers: &Vec<UiPairedPeer>,
) -> (r: (LayoutGrid, Vec<String>))
    ensures
        placement_of(r.0, r.1) == arrangement(matrix@, local_id@, peers@),
        r.0.wf(),
{
    let blank = text::trim(matrix.as_str()).as_str().is_empty();
    let (grid, unassigned) = if blank {
        let grid = place_first_row(local_id, peers);
        let unassigned: Vec<String> = Vec::new();
        (grid, unassigned)
    } else {
        place_rows(matrix, local_id, peers)
    };
    let mut unassigned = unassigned;
    let ghost described = placement_of(grid, unassigned);
    proof {
        if blank {
            assert(described =~= (Placement {
                grid: first_row(local_id@, peer_ids(peers@)).grid,
                unassigned: Seq::empty(),
            }));
        }
    }
    let ghost ids = peer_ids(peers@);
    let mut i: usize = 0;
    while i < peers.len()
        invariant
            i <= peers.len(),
            ids == peer_ids(peers@),
            grid.wf(),
            placement_of(grid, unassigned) == described.with_all_missing(ids.take(i as int)),
        decreases peers.len() - i,
    {
        proof {
            let longer = ids.take(i + 1);
            assert(longer.drop_last() =~= ids.take(i as int));
            assert(longer.last() == peers@[i as int].peer_id@);
        }
        add_missing(&grid, &mut unassigned, &peers[i].peer_id);
        i = i + 1;
    }
    assert(ids.take(i as int) =~= ids);
    add_missing(&grid, &mut unassigned, local_id);
    (grid, unassigned)
}

/// `b` is the smallest box around `points`: left, top, right, bottom.
pub open spec fn is_box(points: Set<(i32, i32)>, b: (i32, i32, i32, i32)) -> bool {
    &&& forall|p: (i32, i32)| #[trigger]
        points.contains(p) ==> b.0 <= p.0 <= b.2 && b.1 <= p.1 <= b.3
    &&& exists|p: (i32, i32)| #[trigger] points.contains(p) && p.0 == b.0
    &&& exists|p: (i32, i32)| #[trigger] points.contains(p) && p.1 == b.1
    &&& exists|p: (i32, i32)| #[trigger] points.contains(p) && p.0 == b.2
    &&& exists|p: (i32, i32)| #[trigger] points.contains(p) && p.1 == b.3
}

/// The positions on a grid, with the one from which a machine was dragged away.
pub open spec fn taken_positions(
    grid: Map<(i32, i32), Seq<char>>,
    drag_origin: Option<(i32, i32)>,
) -> Set<(i32, i32)> {
    match drag_origin {
        Some(p) => grid.dom().insert(p),
        None => grid.dom(),
    }
}

/// There is a neighbour on every side of every position.
pub open spec fn has_neighbours(points: Set<(i32, i32)>) -> bool {
    forall|p: (i32, i32)| #[trigger]
        points.contains(p) ==> i32::MIN < p.0 < i32::MAX && i32::MIN < p.1 < i32::MAX
}

fn bounding_box(grid: &LayoutGrid, drag_origin: Option<(i32, i32)>) -> (r: Option<
    (i32, i32, i32, i32),
>)
    requires
        grid.wf(),
    ensures
        match r {
            Some(b) => is_box(taken_positions(grid@, drag_origin), b),
            None => taken_positions(grid@, drag_origin) == Set::<(i32, i32)>::empty(),
        },
{
    let ghost points = taken_positions(grid@, drag_origin);
    proof {
        lemma_grid_cells(*grid);
    }
    let mut found = drag_origin.is_some();
    let (mut x0, mut y0, mut x1, mut y1): (i32, i32, i32, i32) = match drag_origin {
        Some((x, y)) => (x, y, x, y),
        None => (0, 0, 0, 0),
    };
    assert(drag_origin matches Some(p) ==> points.contains(p));
    let mut i: usize = 0;
    while i < grid.cells.len()
        invariant
            grid.wf(),
            i <= grid.cells.len(),
            points == taken_positions(grid@, drag_origin),
            forall|k: int|
                #![trigger grid.cells@[k]]
                0 <= k < grid.cells@.len() ==> points.contains(
                    (grid.cells@[k].x, grid.cells@[k].y),
                ),
            !found ==> i == 0 && drag_origin is None,
            drag_origin is Some ==> found,
            found ==> {
                &&& drag_origin matches Some(p) ==> x0 <= p.0 <= x1 && y0 <= p.1 <= y1
                &&& forall|k: int|
                    #![trigger grid.cells@[k]]
                    0 <= k < i ==> x0 <= grid.cells@[k].x <= x1 && y0 <= grid.cells@[k].y <= y1
                &&& exists|p: (i32, i32)| #[trigger] points.contains(p) && p.0 == x0
                &&& exists|p: (i32, i32)| #[trigger] points.contains(p) && p.1 == y0
                &&& exists|p: (i32, i32)| #[trigger] points.contains(p) && p.0 == x1
                &&& exists|p: (i32, i32)| #[trigger] points.contains(p) && p.1 == y1
            },
        decreases grid.cells.len() - i,
    {
        let x = grid.cells[i].x;
        let y = grid.cells[i].y;
        assert(points.contains((grid.cells@[i as int].x, grid.cells@[i as int].y)));
        assert(points.contains((x, y)));
        if !found {
            x0 = x;
            y0 = y;
            x1 = x;
            y1 = y;
            found = true;
        } else {
            if x < x0 {
                x0 = x;
            }
            if y < y0 {
                y0 = y;
            }
            if x > x1 {
                x1 = x;
            }
            if y > y1 {
                y1 = y;
            }
        }
        i = i + 1;
    }
    if found {
        proof {
            assert forall|p: (i32, i32)| #[trigger] points.contains(p) implies x0 <= p.0 <= x1
                && y0 <= p.1 <= y1 by {
                if grid@.contains_key(p) {
                    let k = choose|k: int|
                        0 <= k < grid.cells@.len() && (
                        (#[trigger] grid.cells@[k]).x,
                        grid.cells@[k].y,
                        ) == p && grid.cells@[k].id@ == grid@[p];
                    assert(x0 <= grid.cells@[k].x <= x1);
                }
            }
        }
        Some((x0, y0, x1, y1))
    } else {
        assert(points =~= Set::empty());
        None
    }
}

/// A side of the view, made at least three cells long within `0..=6`.
pub open spec fn widened(low: int, high: int) -> (int, int)
    decreases 2 - (high - low),
    when 0 <= low && high <= 6
{
    if high - low >= 2 {
        (low, high)
    } else {
        let l = if low > 0 {
            low - 1
        } else {
            low
        };
        let h = if high - l < 2 && high < 6 {
            high + 1
        } else {
            high
        };
        widened(l, h)
    }
}

/// The side of the view that shows `from..=to` with a cell of room around it.
pub open spec fn shown_side(from: int, to: int) -> (int, int) {
    widened(
        if from - 1 > 0 {
            from - 1
        } else {
            0
        },
        if to + 1 < 6 {
            to + 1
        } else {
            6
        },
    )
}

/// The part of the grid that is shown for a box of positions.
pub open spec fn shown_part(b: (i32, i32, i32, i32)) -> (int, int, int, int) {
    let x = shown_side(b.0 as int, b.2 as int);
    let y = shown_side(b.1 as int, b.3 as int);
    (x.0, y.0, x.1, y.1)
}

proof fn lemma_widened(low: int, high: int)
    requires
        0 <= low,
        high <= 6,
    ensures
        ({
            let (l, h) = widened(low, high);
            &&& 0 <= l <= low
            &&& high <= h <= 6
            &&& h - l >= 2
        }),
    decreases 2 - (high - low),
{
    if high - low < 2 {
        let l = if low > 0 {
            low - 1
        } else {
            low
        };
        let h = if high - l < 2 && high < 6 {
            high + 1
        } else {
            high
        };
        lemma_widened(l, h);
    }
}

fn widen(from: i32, to: i32) -> (r: (i32, i32))
    requires
        i32::MIN < from,
        to < i32::MAX,
    ensures
        (r.0 as int, r.1 as int) == shown_side(from as int, to as int),
{
    let mut low: i32 = if from - 1 > 0 {
        from - 1
    } else {
        0
    };
    let mut high: i32 = if to + 1 < 6 {
        to + 1
    } else {
        6
    };
    let ghost goal = widened(low as int, high as int);
    while (high as i64) - (low as i64) < 2
        invariant
            0 <= low,
            high <= 6,
            widened(low as int, high as int) == goal,
        decreases 2 - (high - low),
    {
        if low > 0 {
            low = low - 1;
        }
        if (high as i64) - (low as i64) < 2 && high < 6 {
            high = high + 1;
        }
    }
    (low, high)
}

/// The part of the grid to show: the machines with one cell of room around them,
/// within the grid, and at least three cells each way.
pub fn compute_visible_bounds(grid: &LayoutGrid, drag_origin: Option<(i32, i32)>) -> (r: (
    i32,
    i32,
    i32,
    i32,
))
    requires
        grid.wf(),
        has_neighbours(taken_positions(grid@, drag_origin)),
    ensures
        taken_positions(grid@, drag_origin) == Set::<(i32, i32)>::empty() ==> r == (
            2i32,
            2i32,
            4i32,
            4i32,
        ),
        taken_positions(grid@, drag_origin) != Set::<(i32, i32)>::empty() ==> exists|
            b: (i32, i32, i32, i32),
        |
            #[trigger] is_box(taken_positions(grid@, drag_origin), b) && shown_part(b) == (
                r.0 as int,
                r.1 as int,
                r.2 as int,
                r.3 as int,
            ),
{
    match bounding_box(grid, drag_origin) {
        None => (2, 2, 4, 4),
        Some((x0, y0, x1, y1)) => {
            let ghost points = taken_positions(grid@, drag_origin);
            proof {
                let p = choose|p: (i32, i32)| #[trigger] points.contains(p) && p.0 == x0;
                let q = choose|p: (i32, i32)| #[trigger] points.contains(p) && p.1 == y0;
                let s = choose|p: (i32, i32)| #[trigger] points.contains(p) && p.0 == x1;
                let t = choose|p: (i32, i32)| #[trigger] points.contains(p) && p.1 == y1;
                assert(points.contains(p) && points.contains(q) && points.contains(s)
                    && points.contains(t));
                assert(points != Set::<(i32, i32)>::empty());
            }
            let (left, right) = widen(x0, x1);
            let (top, bottom) = widen(y0, y1);
            assert(is_box(points, (x0, y0, x1, y1)));
            (left, top, right, bottom)
        },
    }
}

/// The part that is shown lies within the grid, is at least three cells wide and
/// high, and shows every machine on the grid.
pub proof fn law_shown_part_holds_every_machine(
    points: Set<(i32, i32)>,
    b: (i32, i32, i32, i32),
)
    requires
        is_box(points, b),
    ensures
        ({
            let (left, top, right, bottom) = shown_part(b);
            &&& 0 <= left && left + 2 <= right <= 6
            &&& 0 <= top && top + 2 <= bottom <= 6
            &&& forall|p: (i32, i32)| #[trigger]
                points.contains(p) && 0 <= p.0 <= 6 && 0 <= p.1 <= 6 ==> left <= p.0 <= right && top
                    <= p.1 <= bottom
        }),
{
    let low_x = if b.0 - 1 > 0 { b.0 - 1 } else { 0 };
    let high_x = if b.2 + 1 < 6 { b.2 + 1 } else { 6 };
    let low_y = if b.1 - 1 > 0 { b.1 - 1 } else { 0 };
    let high_y = if b.3 + 1 < 6 { b.3 + 1 } else { 6 };
    lemma_widened(low_x, high_x);
    lemma_widened(low_y, high_y);
}

/// The first machine with an id, if there is one.
pub open spec fn place_of_id(peers: Seq<UiPairedPeer>, id: Seq<char>) -> Option<int>
    decreases peers.len(),
{
    if peers.len() == 0 {
        None
    } else {
        match place_of_id(peers.drop_last(), id) {
            Some(at) => Some(at),
            None => if peers.last().peer_id@ == id {
                Some(peers.len() - 1)
            } else {
                None
            },
        }
    }
}

/// The place of the first machine with an id, if there is one.
pub fn find_peer(peers: &Vec<UiPairedPeer>, id: &str) -> (r: Option<usize>)
    ensures
        match r {
            Some(at) => at < peers@.len() && place_of_id(peers@, id@) == Some(at as int)
                && peers@[at as int].peer_id@ == id@,
            None => place_of_id(peers@, id@) is None,
        },
{
    let mut found: Option<usize> = None;
    let mut i: usize = 0;
    while i < peers.len()
        invariant
            i <= peers.len(),
            match found {
                Some(at) => at < i && place_of_id(peers@.take(i as int), id@) == Some(at as int)
                    && peers@[at as int].peer_id@ == id@,
                None => place_of_id(peers@.take(i as int), id@) is None,
            },
        decreases peers.len() - i,
    {
        assert(peers@.take(i + 1).drop_last() =~= peers@.take(i as int));
        if found.is_none() && text::same(peers[i].peer_id.as_str(), id) {
            found = Some(i);
        }
        i = i + 1;
    }
    assert(peers@.take(i as int) =~= peers@);
    found
}

/// What a machine is called on the screen.
pub open spec fn shown_name(id: Seq<char>, local_id: Seq<char>, peers: Seq<UiPairedPeer>) -> Seq<
    char,
> {
    if id == local_id {
        "This PC"@
    } else {
        match place_of_id(peers, id) {
            Some(at) => peers[at].display_name@,
            None => short_text(id),
        }
    }
}

pub fn layout_display_name(id: &str, local_id: &str, peers: &Vec<UiPairedPeer>) -> (r: String)
    ensures
        r@ == shown_name(id@, local_id@, peers@),
{
    if text::same(id, local_id) {
        return text::owned("This PC");
    }
    match find_peer(peers, id) {
        Some(at) => peers[at].display_name.clone(),
        None => text::owned(short_token(id)),
    }
}

/// Whether a machine is connected; this one always is.
pub open spec fn shown_connected(id: Seq<char>, local_id: Seq<char>, peers: Seq<UiPairedPeer>) -> bool {
    id == local_id || (place_of_id(peers, id) is Some && peers[place_of_id(
        peers,
        id,
    )->0].connected)
}

pub fn is_peer_connected(id: &str, local_id: &str, peers: &Vec<UiPairedPeer>) -> (r: bool)
    ensures
        r == shown_connected(id@, local_id@, peers@),
{
    if text::same(id, local_id) {
        return true;
    }
    match find_peer(peers, id) {
        Some(at) => peers[at].connected,
        None => false,
    }
}

/// The name of the neighbour at `pos` with its side, if there is one.
pub open spec fn neighbour(
    grid: Map<(i32, i32), Seq<char>>,
    pos: (int, int),
    side: Seq<char>,
    local_id: Seq<char>,
    peers: Seq<UiPairedPeer>,
) -> Seq<Seq<char>> {
    let p = (pos.0 as i32, pos.1 as i32);
    if grid.contains_key(p) {
        seq![shown_name(grid[p], local_id, peers) + side]
    } else {
        Seq::empty()
    }
}

/// A layout in words, seen from this machine at `pos`.
pub open spec fn summary_at(
    grid: Map<(i32, i32), Seq<char>>,
    pos: (i32, i32),
    local_id: Seq<char>,
    peers: Seq<UiPairedPeer>,
) -> Seq<char> {
    let (x, y) = (pos.0 as int, pos.1 as int);
    let line = neighbour(grid, (x - 1, y), " (left)"@, local_id, peers) + seq!["This PC"@]
        + neighbour(grid, (x + 1, y), " (right)"@, local_id, peers);
    let extras = neighbour(grid, (x, y - 1), " (above)"@, local_id, peers) + neighbour(
        grid,
        (x, y + 1),
        " (below)"@,
        local_id,
        peers,
    );
    if extras.len() == 0 {
        "Layout: "@ + text::joined(line, " -- "@)
    } else {
        "Layout: "@ + text::joined(line, " -- "@) + "  |  "@ + text::joined(extras, ", "@)
    }
}

fn push_neighbour(
    out: &mut Vec<String>,
    grid: &LayoutGrid,
    x: i32,
    y: i32,
    side: &str,
    local_id: &str,
    peers: &Vec<UiPairedPeer>,
)
    requires
        grid.wf(),
    ensures
        text::views(final(out)@) == text::views(old(out)@) + neighbour(
            grid@,
            (x as int, y as int),
            side@,
            local_id@,
            peers@,
        ),
{
    let ghost before = text::views(out@);
    match grid.get(x, y) {
        Some(id) => {
            let name = layout_display_name(id.as_str(), local_id, peers);
            out.push(text::cat2(name.as_str(), side));
            assert(text::views(out@) =~= before + neighbour(
                grid@,
                (x as int, y as int),
                side@,
                local_id@,
                peers@,
            ));
        },
        None => {
            assert(text::views(out@) =~= before + neighbour(
                grid@,
                (x as int, y as int),
                side@,
                local_id@,
                peers@,
            ));
        },
    }
}

/// A layout in words: what stands next to this machine. Where this machine is
/// not on the grid, only the number of machines is told.
pub fn build_layout_summary(grid: &LayoutGrid, local_id: &str, peers: &Vec<UiPairedPeer>) -> (r:
    String)
    requires
        grid.wf(),
        has_neighbours(grid@.dom()),
    ensures
        grid@ == Map::<(i32, i32), Seq<char>>::empty() ==> r@ == "No devices placed."@,
        grid@ != Map::<(i32, i32), Seq<char>>::empty() && !grid@.contains_value(local_id@) ==> r@
            == text::decimal(grid.cells@.len()) + " device(s) placed"@,
        grid@.contains_value(local_id@) ==> exists|pos: (i32, i32)|
            #[trigger] grid@.contains_key(pos) && grid@[pos] == local_id@ && r@ == summary_at(
                grid@,
                pos,
                local_id@,
                peers@,
            ),
{
    proof {
        lemma_grid_cells(*grid);
    }
    if grid.cells.len() == 0 {
        assert(grid@ =~= Map::empty());
        return text::owned("No devices placed.");
    }
    proof {
        let first = (grid.cells@[0].x, grid.cells@[0].y);
        assert(grid@.contains_key(first));
    }
    let mut i: usize = 0;
    while i < grid.cells.len()
        invariant
            grid.wf(),
            has_neighbours(grid@.dom()),
            i <= grid.cells.len(),
            forall|k: int|
                #![trigger grid.cells@[k]]
                0 <= k < grid.cells@.len() ==> grid@.contains_key(
                    (grid.cells@[k].x, grid.cells@[k].y),
                ) && grid@[(grid.cells@[k].x, grid.cells@[k].y)] == grid.cells@[k].id@,
            grid.cells@.len() > 0,
            grid@ != Map::<(i32, i32), Seq<char>>::empty(),
            forall|k: int| 0 <= k < i ==> (#[trigger] grid.cells@[k]).id@ != local_id@,
        decreases grid.cells.len() - i,
    {
        if text::same(grid.cells[i].id.as_str(), local_id) {
            let x = grid.cells[i].x;
            let y = grid.cells[i].y;
            assert(grid@.contains_key((grid.cells@[i as int].x, grid.cells@[i as int].y)));
            assert(grid@.dom().contains((x, y)));
            let mut line: Vec<String> = Vec::new();
            let ghost l = neighbour(grid@, (x - 1, y as int), " (left)"@, local_id@, peers@);
            let ghost r = neighbour(grid@, (x + 1, y as int), " (right)"@, local_id@, peers@);
            let ghost a = neighbour(grid@, (x as int, y - 1), " (above)"@, local_id@, peers@);
            let ghost b = neighbour(grid@, (x as int, y + 1), " (below)"@, local_id@, peers@);
            push_neighbour(&mut line, grid, x - 1, y, " (left)", local_id, peers);
            assert(text::views(line@) =~= l);
            line.push(text::owned("This PC"));
            assert(text::views(line@) =~= l + seq!["This PC"@]);
            push_neighbour(&mut line, grid, x + 1, y, " (right)", local_id, peers);
            assert(text::views(line@) =~= l + seq!["This PC"@] + r);
            let mut extras: Vec<String> = Vec::new();
            push_neighbour(&mut extras, grid, x, y - 1, " (above)", local_id, peers);
            assert(text::views(extras@) =~= a);
            push_neighbour(&mut extras, grid, x, y + 1, " (below)", local_id, peers);
            assert(text::views(extras@) =~= a + b);
            let joined = text::join(&line, " -- ");
            assert(text::views(extras@).len() == extras@.len());
            if extras.len() == 0 {
                return text::cat2("Layout: ", joined.as_str());
            }
            let more = text::join(&extras, ", ");
            let mut out = text::cat3("Layout: ", joined.as_str(), "  |  ");
            out.append(more.as_str());
            return out;
        }
        i = i + 1;
    }
    proof {
        if grid@.contains_value(local_id@) {
            let pos = choose|pos: (i32, i32)| #[trigger]
                grid@.contains_key(pos) && grid@[pos] == local_id@;
            lemma_grid_cells(*grid);
            let k = choose|k: int|
                0 <= k < grid.cells@.len() && ((#[trigger] grid.cells@[k]).x, grid.cells@[k].y)
                    == pos && grid.cells@[k].id@ == grid@[pos];
            assert(grid.cells@[k].id@ == local_id@);
        }
    }
    let count = text::decimal_string(grid.cells.len() as u64);
    text::cat2(count.as_str(), " device(s) placed")
}

/// What stands for a cell in a written layout.
pub open spec fn cell_text(
    grid: Map<(i32, i32), Seq<char>>,
    pos: (int, int),
    machine_id: Seq<char>,
) -> Seq<char> {
    let p = (pos.0 as i32, pos.1 as i32);
    if !grid.contains_key(p) {
        Seq::empty()
    } else if local_token(grid[p], machine_id) {
        "self"@
    } else {
        grid[p]
    }
}

pub open spec fn row_text(
    grid: Map<(i32, i32), Seq<char>>,
    x0: int,
    x1: int,
    y: int,
    machine_id: Seq<char>,
) -> Seq<char> {
    text::joined(
        Seq::new((x1 - x0 + 1) as nat, |i: int| cell_text(grid, (x0 + i, y), machine_id)),
        ","@,
    )
}

/// The machines within a box in writing: rows between semicolons, cells between
/// commas.
pub open spec fn matrix_text(
    grid: Map<(i32, i32), Seq<char>>,
    b: (i32, i32, i32, i32),
    machine_id: Seq<char>,
) -> Seq<char> {
    text::joined(
        Seq::new(
            (b.3 - b.1 + 1) as nat,
            |i: int| row_text(grid, b.0 as int, b.2 as int, b.1 + i, machine_id),
        ),
        ";"@,
    )
}

fn write_row(grid: &LayoutGrid, x0: i32, x1: i32, y: i32, machine_id: &str) -> (r: String)
    requires
        grid.wf(),
        x0 <= x1 < i32::MAX,
    ensures
        r@ == row_text(grid@, x0 as int, x1 as int, y as int, machine_id@),
{
    let mut cells: Vec<String> = Vec::new();
    let ghost all = Seq::new(
        (x1 - x0 + 1) as nat,
        |i: int| cell_text(grid@, (x0 + i, y as int), machine_id@),
    );
    let mut x: i32 = x0;
    assert(text::views(cells@) =~= all.take(0));
    while x <= x1
        invariant
            grid.wf(),
            x0 <= x <= x1 + 1,
            x1 < i32::MAX,
            all == Seq::new(
                (x1 - x0 + 1) as nat,
                |i: int| cell_text(grid@, (x0 + i, y as int), machine_id@),
            ),
            text::views(cells@) == all.take(x - x0),
        decreases x1 + 1 - x,
    {
        let cell = match grid.get(x, y) {
            None => String::new(),
            Some(id) => {
                if is_local_layout_token(id.as_str(), machine_id) {
                    text::owned("self")
                } else {
                    id.clone()
                }
            },
        };
        let ghost before = text::views(cells@);
        let ghost text = cell@;
        cells.push(cell);
        proof {
            assert(text =~= all[x - x0]);
            assert(text::views(cells@) =~= before.push(text));
            assert(all.take(x - x0 + 1) =~= all.take(x - x0).push(all[x - x0]));
        }
        x = x + 1;
    }
    assert(all.take(x - x0) =~= all);
    text::join(&cells, ",")
}

/// `matrix` is `grid` in writing: the smallest box around the machines, with this
/// machine as `self`.
pub open spec fn written_as(
    grid: Map<(i32, i32), Seq<char>>,
    machine_id: Seq<char>,
    matrix: Seq<char>,
) -> bool {
    if grid == Map::<(i32, i32), Seq<char>>::empty() {
        matrix.len() == 0
    } else {
        exists|b: (i32, i32, i32, i32)| #[trigger]
            is_box(grid.dom(), b) && matrix == matrix_text(grid, b, machine_id)
    }
}

/// The layout in writing.
pub fn serialize_layout_matrix(grid: &LayoutGrid, machine_id: &str) -> (r: String)
    requires
        grid.wf(),
        has_neighbours(grid@.dom()),
    ensures
        written_as(grid@, machine_id@, r@),
{
    match bounding_box(grid, None) {
        None => {
            assert(grid@.dom() =~= Set::empty());
            assert(grid@ =~= Map::empty());
            String::new()
        },
        Some((x0, y0, x1, y1)) => {
            let ghost points = grid@.dom();
            proof {
                let p = choose|p: (i32, i32)| #[trigger] points.contains(p) && p.0 == x1;
                let q = choose|p: (i32, i32)| #[trigger] points.contains(p) && p.1 == y1;
                assert(points.contains(p) && points.contains(q));
            }
            let mut rows: Vec<String> = Vec::new();
            let ghost all = Seq::new(
                (y1 - y0 + 1) as nat,
                |i: int| row_text(grid@, x0 as int, x1 as int, y0 + i, machine_id@),
            );
            let mut y: i32 = y0;
            assert(text::views(rows@) =~= all.take(0));
            while y <= y1
                invariant
                    grid.wf(),
                    x0 <= x1 < i32::MAX,
                    y0 <= y <= y1 + 1,
                    y1 < i32::MAX,
                    all == Seq::new(
                        (y1 - y0 + 1) as nat,
                        |i: int| row_text(grid@, x0 as int, x1 as int, y0 + i, machine_id@),
                    ),
                    text::views(rows@) == all.take(y - y0),
                decreases y1 + 1 - y,
            {
                let ghost before = text::views(rows@);
                let row = write_row(grid, x0, x1, y, machine_id);
                let ghost text = row@;
                rows.push(row);
                proof {
                    assert(text =~= all[y - y0]);
                    assert(text::views(rows@) =~= before.push(text));
                    assert(all.take(y - y0 + 1) =~= all.take(y - y0).push(all[y - y0]));
                }
                y = y + 1;
            }
            assert(all.take(y - y0) =~= all);
            assert(is_box(points, (x0, y0, x1, y1)));
            text::join(&rows, ";")
        },
    }
}

/// Why a layout cannot be applied.
#[derive(Debug, Clone, Copy, PartialEq, Eq, Structural)]
pub enum LayoutApplyError {
    NoLocalMachine,
    SeveralLocalMachines,
}

impl LayoutApplyError {
    pub open spec fn text(self) -> Seq<char> {
        match self {
            LayoutApplyError::NoLocalMachine => "layout must contain exactly one local machine; found none"@,
            LayoutApplyError::SeveralLocalMachines =>
                "layout must contain exactly one local machine; found several"@,
        }
    }

    /// The error in words.
    pub fn message(&self) -> (r: String)
        ensures
            r@ == self.text(),
    {
        match *self {
            LayoutApplyError::NoLocalMachine => text::owned(
                "layout must contain exactly one local machine; found none",
            ),
            LayoutApplyError::SeveralLocalMachines => text::owned(
                "layout must contain exactly one local machine; found several",
            ),
        }
    }
}

/// This machine stands at `pos`.
pub open spec fn local_at(
    grid: Map<(i32, i32), Seq<char>>,
    machine_id: Seq<char>,
    pos: (i32, i32),
) -> bool {
    grid.contains_key(pos) && local_token(grid[pos], machine_id)
}

/// This machine stands at `pos` and nowhere else.
pub open spec fn local_once(
    grid: Map<(i32, i32), Seq<char>>,
    machine_id: Seq<char>,
    pos: (i32, i32),
) -> bool {
    &&& local_at(grid, machine_id, pos)
    &&& forall|other: (i32, i32)| #[trigger] local_at(grid, machine_id, other) ==> other == pos
}

/// A layout can be applied only with this machine on the grid, once.
pub open spec fn apply_check(grid: Map<(i32, i32), Seq<char>>, machine_id: Seq<char>) -> Result<
    (),
    LayoutApplyError,
> {
    if exists|pos: (i32, i32)| local_once(grid, machine_id, pos) {
        Ok(())
    } else if exists|pos: (i32, i32)| local_at(grid, machine_id, pos) {
        Err(LayoutApplyError::SeveralLocalMachines)
    } else {
        Err(LayoutApplyError::NoLocalMachine)
    }
}

pub fn validate_layout_before_apply(grid: &LayoutGrid, machine_id: &str) -> (r: Result<
    (),
    LayoutApplyError,
>)
    requires
        grid.wf(),
    ensures
        r == apply_check(grid@, machine_id@),
{
    proof {
        lemma_grid_cells(*grid);
    }
    let mut found: Option<usize> = None;
    let mut i: usize = 0;
    while i < grid.cells.len()
        invariant
            grid.wf(),
            i <= grid.cells.len(),
            forall|k: int|
                #![trigger grid.cells@[k]]
                0 <= k < grid.cells@.len() ==> grid@.contains_key(
                    (grid.cells@[k].x, grid.cells@[k].y),
                ) && grid@[(grid.cells@[k].x, grid.cells@[k].y)] == grid.cells@[k].id@,
            match found {
                Some(at) => at < i && local_token(grid.cells@[at as int].id@, machine_id@)
                    && forall|k: int|
                    0 <= k < i && k != at ==> !local_token(
                        (#[trigger] grid.cells@[k]).id@,
                        machine_id@,
                    ),
                None => forall|k: int|
                    0 <= k < i ==> !local_token((#[trigger] grid.cells@[k]).id@, machine_id@),
            },
        decreases grid.cells.len() - i,
    {
        if is_local_layout_token(grid.cells[i].id.as_str(), machine_id) {
            match found {
                Some(at) => {
                    proof {
                        let a = (grid.cells@[at as int].x, grid.cells@[at as int].y);
                        let b = (grid.cells@[i as int].x, grid.cells@[i as int].y);
                        assert(a != b);
                        assert(local_at(grid@, machine_id@, a));
                        assert(local_at(grid@, machine_id@, b));
                        assert forall|pos: (i32, i32)| !local_once(grid@, machine_id@, pos) by {
                            if local_once(grid@, machine_id@, pos) {
                                assert(a == pos && b == pos);
                            }
                        }
                    }
                    return Err(LayoutApplyError::SeveralLocalMachines);
                },
                None => {
                    found = Some(i);
                },
            }
        }
        i = i + 1;
    }
    match found {
        Some(at) => {
            proof {
                let pos = (grid.cells@[at as int].x, grid.cells@[at as int].y);
                assert(local_at(grid@, machine_id@, pos));
                assert forall|other: (i32, i32)| #[trigger]
                    local_at(grid@, machine_id@, other) implies other == pos by {
                    lemma_grid_cells(*grid);
                    let k = choose|k: int|
                        0 <= k < grid.cells@.len() && (
                        (#[trigger] grid.cells@[k]).x,
                        grid.cells@[k].y,
                        ) == other && grid.cells@[k].id@ == grid@[other];
                    assert(k == at);
                }
                assert(local_once(grid@, machine_id@, pos));
            }
            Ok(())
        },
        None => {
            proof {
                assert forall|pos: (i32, i32)| !#[trigger] local_at(grid@, machine_id@, pos) by {
                    if local_at(grid@, machine_id@, pos) {
                        lemma_grid_cells(*grid);
                        let k = choose|k: int|
                            0 <= k < grid.cells@.len() && (
                            (#[trigger] grid.cells@[k]).x,
                            grid.cells@[k].y,
                            ) == pos && grid.cells@[k].id@ == grid@[pos];
                        assert(local_token(grid.cells@[k].id@, machine_id@));
                    }
                }
                assert forall|pos: (i32, i32)| !local_once(grid@, machine_id@, pos) by {
                    assert(!local_at(grid@, machine_id@, pos));
                }
            }
            Err(LayoutApplyError::NoLocalMachine)
        },
    }
}

} // verus!
