//! The arrangement as it is being edited: dragging, undoing, applying.

use crate::grid::LayoutGrid;
use crate::layout::{
    arrangement, centered, has_neighbours, layout_peer_ids, longest_row, peer_ids, placement_of,
    rebuild_layout, serialize_layout_matrix, should_rebuild_layout_model, written_as, Placement,
    GRID_SIDE,
};
use crate::text;
use crate::ui::{UiPairedPeer, UiSnapshot};
use vstd::prelude::*;

verus! {

/// Where a machine was before it was dragged away.
#[derive(Debug, Clone, Copy, PartialEq, Eq, Structural)]
pub enum DragOrigin {
    Cell { x: i32, y: i32 },
    /// Beside the grid, at a place of the list.
    Unassigned { index: usize },
}

#[derive(Debug)]
pub struct DraggedPeer {
    pub peer_id: String,
    pub origin: DragOrigin,
}

/// Where a dragged machine was let go.
#[derive(Debug, Clone, Copy, PartialEq, Eq, Structural)]
pub enum DropTarget {
    Cell { x: i32, y: i32 },
    /// Beside the cells that are shown.
    Outside,
    /// The pointer was lost.
    Unknown,
}

/// Where a machine is moved without being dragged.
#[derive(Debug, Clone, Copy, PartialEq, Eq, Structural)]
pub enum MoveDirection {
    Up,
    Down,
    Left,
    Right,
}

/// An arrangement that can be returned to.
#[derive(Debug)]
pub struct StashedLayout {
    pub grid: LayoutGrid,
    pub unassigned: Vec<String>,
}

/// The arrangement as it is being edited.
#[derive(Debug)]
pub struct LayoutModel {
    pub grid: LayoutGrid,
    pub unassigned: Vec<String>,
    pub initialized: bool,
    pub selected_peer: String,
    pub dragging_peer: Option<DraggedPeer>,
    pub last_matrix: String,
    pub last_peer_ids: Vec<String>,
    pub previous: Option<StashedLayout>,
    pub confirm_apply_pending: bool,
}

/// Every position lies on the grid.
pub open spec fn on_grid(grid: Map<(i32, i32), Seq<char>>) -> bool {
    forall|p: (i32, i32)| #[trigger]
        grid.contains_key(p) ==> 0 <= p.0 < GRID_SIDE && 0 <= p.1 < GRID_SIDE
}

/// A machine is taken up: it is gone from where it was.
pub open spec fn lifted(p: Placement, origin: DragOrigin) -> Placement {
    match origin {
        DragOrigin::Cell { x, y } => Placement { grid: p.grid.remove((x, y)), ..p },
        DragOrigin::Unassigned { index } => Placement {
            unassigned: p.unassigned.remove(index as int),
            ..p
        },
    }
}

/// The machine that can be taken up at a place.
pub open spec fn liftable(p: Placement, origin: DragOrigin) -> Option<Seq<char>> {
    match origin {
        DragOrigin::Cell { x, y } => if p.grid.contains_key((x, y)) {
            Some(p.grid[(x, y)])
        } else {
            None
        },
        DragOrigin::Unassigned { index } => if index < p.unassigned.len() {
            Some(p.unassigned[index as int])
        } else {
            None
        },
    }
}

/// A machine goes back to where it was: to its cell, whatever stands there by now,
/// or to its place in the list, at the end of one that has become too short.
pub open spec fn put_back(p: Placement, id: Seq<char>, origin: DragOrigin) -> Placement {
    match origin {
        DragOrigin::Cell { x, y } => Placement { grid: p.grid.insert((x, y), id), ..p },
        DragOrigin::Unassigned { index } => Placement {
            unassigned: if index <= p.unassigned.len() {
                p.unassigned.insert(index as int, id)
            } else {
                p.unassigned.push(id)
            },
            ..p
        },
    }
}

/// A machine is let go: on a cell, where it changes places with the machine that
/// is there; beside the grid; or back where it was.
pub open spec fn dropped(
    p: Placement,
    id: Seq<char>,
    origin: DragOrigin,
    target: DropTarget,
) -> Placement {
    match target {
        DropTarget::Cell { x, y } => {
            let moved = if p.grid.contains_key((x, y)) {
                put_back(p, p.grid[(x, y)], origin)
            } else {
                p
            };
            Placement { grid: moved.grid.insert((x, y), id), ..moved }
        },
        DropTarget::Outside => match origin {
            DragOrigin::Cell { .. } => Placement { unassigned: p.unassigned.push(id), ..p },
            DragOrigin::Unassigned { .. } => put_back(p, id, origin),
        },
        DropTarget::Unknown => put_back(p, id, origin),
    }
}

/// The cell next to a cell.
pub open spec fn next_cell(x: i32, y: i32, direction: MoveDirection) -> (int, int) {
    match direction {
        MoveDirection::Up => (x as int, y - 1),
        MoveDirection::Down => (x as int, y + 1),
        MoveDirection::Left => (x - 1, y as int),
        MoveDirection::Right => (x + 1, y as int),
    }
}

/// The machine at `from` goes to `to` and changes places with the one there.
pub open spec fn swapped(
    grid: Map<(i32, i32), Seq<char>>,
    from: (i32, i32),
    to: (i32, i32),
) -> Map<(i32, i32), Seq<char>> {
    let left = if grid.contains_key(to) {
        grid.insert(from, grid[to])
    } else {
        grid.remove(from)
    };
    left.insert(to, grid[from])
}

impl LayoutModel {
    pub open spec fn placement(&self) -> Placement {
        placement_of(self.grid, self.unassigned)
    }

    pub open spec fn wf(&self) -> bool {
        &&& self.grid.wf()
        &&& on_grid(self.grid@)
        &&& self.previous matches Some(stash) ==> stash.grid.wf() && on_grid(stash.grid@)
        &&& self.dragging_peer matches Some(dragged) ==> (dragged.origin matches DragOrigin::Cell {
            x,
            y,
        } ==> 0 <= x < GRID_SIDE && 0 <= y < GRID_SIDE)
    }

    /// No machine was placed, selected or read from a snapshot yet.
    pub open spec fn fresh(&self) -> bool {
        &&& self.placement() == Placement::empty()
        &&& !self.initialized && !self.confirm_apply_pending
        &&& self.dragging_peer is None && self.previous is None
        &&& self.selected_peer@.len() == 0
        &&& self.last_matrix@.len() == 0 && self.last_peer_ids@.len() == 0
    }

    pub fn new() -> (r: LayoutModel)
        ensures
            r.wf(),
            r.fresh(),
    {
        let r = LayoutModel {
            grid: LayoutGrid::new(),
            unassigned: Vec::new(),
            initialized: false,
            selected_peer: String::new(),
            dragging_peer: None,
            last_matrix: String::new(),
            last_peer_ids: Vec::new(),
            previous: None,
            confirm_apply_pending: false,
        };
        assert(r.placement() =~= Placement::empty());
        r
    }

    /// The arrangement has to be read anew from `snapshot`.
    pub open spec fn outdated(&self, snapshot: UiSnapshot) -> bool {
        if self.initialized {
            self.dragging_peer is None && (snapshot.layout_matrix@ != self.last_matrix@
                || text::texts_sorted(peer_ids(snapshot.paired_peers@)) != text::views(
                self.last_peer_ids@,
            ))
        } else {
            snapshot.machine_id@.len() > 0
        }
    }

    /// `next` is read anew from `snapshot`, where that is due.
    pub open spec fn synced(&self, snapshot: UiSnapshot, next: LayoutModel) -> bool {
        if self.outdated(snapshot) {
            &&& next == (LayoutModel {
                grid: next.grid,
                unassigned: next.unassigned,
                initialized: true,
                last_matrix: next.last_matrix,
                last_peer_ids: next.last_peer_ids,
                ..*self
            })
            &&& next.placement() == arrangement(
                snapshot.layout_matrix@,
                snapshot.machine_id@,
                snapshot.paired_peers@,
            )
            &&& next.last_matrix@ == snapshot.layout_matrix@
            &&& text::views(next.last_peer_ids@) == text::texts_sorted(
                peer_ids(snapshot.paired_peers@),
            )
        } else {
            next == *self
        }
    }

    /// Reads the arrangement anew where that is due.
    pub fn sync(&mut self, snapshot: &UiSnapshot)
        requires
            old(self).wf(),
        ensures
            final(self).wf(),
            old(self).synced(*snapshot, *final(self)),
    {
        let current_peer_ids = layout_peer_ids(&snapshot.paired_peers);
        if should_rebuild_layout_model(
            self.initialized,
            snapshot.machine_id.as_str(),
            snapshot.layout_matrix.as_str(),
            self.last_matrix.as_str(),
            &current_peer_ids,
            &self.last_peer_ids,
            self.dragging_peer.is_some(),
        ) {
            self.initialized = true;
            self.last_matrix = snapshot.layout_matrix.clone();
            self.last_peer_ids = current_peer_ids;
            let (grid, unassigned) = rebuild_layout(
                &snapshot.layout_matrix,
                &snapshot.machine_id,
                &snapshot.paired_peers,
            );
            proof {
                law_arrangement_lies_on_grid(
                    snapshot.layout_matrix@,
                    snapshot.machine_id@,
                    snapshot.paired_peers@,
                );
            }
            self.grid = grid;
            self.unassigned = unassigned;
        }
    }

    /// Remembers the arrangement, to be able to return to it.
    pub fn stash_layout_for_undo(&mut self)
        requires
            old(self).wf(),
        ensures
            final(self).wf(),
            *final(self) == (LayoutModel { previous: final(self).previous, ..*old(self) }),
            final(self).previous matches Some(stash) && placement_of(stash.grid, stash.unassigned)
                == old(self).placement(),
    {
        let stash = StashedLayout {
            grid: self.grid.copy(),
            unassigned: text::copy_texts(&self.unassigned),
        };
        assert(placement_of(stash.grid, stash.unassigned) =~= self.placement());
        self.previous = Some(stash);
    }

    /// The remembered arrangement and the current one have changed places.
    pub open spec fn undone(self) -> LayoutModel {
        match self.previous {
            Some(stash) => LayoutModel {
                grid: stash.grid,
                unassigned: stash.unassigned,
                previous: Some(
                    StashedLayout { grid: self.grid, unassigned: self.unassigned },
                ),
                ..self
            },
            None => self,
        }
    }

    /// Returns to the remembered arrangement, if there is one, and remembers the
    /// current one.
    pub fn undo_layout(&mut self)
        requires
            old(self).wf(),
        ensures
            final(self).wf(),
            *final(self) == old(self).undone(),
    {
        if let Some(stash) = self.previous.take() {
            let mut stash = stash;
            std::mem::swap(&mut self.grid, &mut stash.grid);
            std::mem::swap(&mut self.unassigned, &mut stash.unassigned);
            self.previous = Some(stash);
        }
    }

    /// Takes up the machine at a place, if there is one: whether there is.
    pub fn start_drag(&mut self, origin: DragOrigin) -> (r: bool)
        requires
            old(self).wf(),
        ensures
            final(self).wf(),
            r == (liftable(old(self).placement(), origin) is Some),
            !r ==> *final(self) == *old(self),
            r ==> {
                &&& final(self).placement() == lifted(old(self).placement(), origin)
                &&& final(self).dragging_peer matches Some(dragged) && dragged.origin == origin
                    && Some(dragged.peer_id@) == liftable(old(self).placement(), origin)
                &&& final(self).previous matches Some(stash) && placement_of(
                    stash.grid,
                    stash.unassigned,
                ) == old(self).placement()
                &&& *final(self) == (LayoutModel {
                    grid: final(self).grid,
                    unassigned: final(self).unassigned,
                    dragging_peer: final(self).dragging_peer,
                    previous: final(self).previous,
                    ..*old(self)
                })
            },
    {
        let ghost before = self.placement();
        match origin {
            DragOrigin::Cell { x, y } => {
                let present = self.grid.get(x, y).is_some();
                if !present {
                    return false;
                }
                assert(0 <= x < GRID_SIDE && 0 <= y < GRID_SIDE);
                self.stash_layout_for_undo();
                match self.grid.remove(x, y) {
                    Some(peer_id) => {
                        self.dragging_peer = Some(DraggedPeer { peer_id, origin });
                        assert(self.placement() =~= lifted(before, origin));
                        true
                    },
                    None => false,
                }
            },
            DragOrigin::Unassigned { index } => {
                if index >= self.unassigned.len() {
                    return false;
                }
                self.stash_layout_for_undo();
                let ghost list = self.unassigned@;
                let peer_id = self.unassigned.remove(index);
                self.dragging_peer = Some(DraggedPeer { peer_id, origin });
                assert(text::views(self.unassigned@) =~= before.unassigned.remove(index as int));
                assert(self.placement() =~= lifted(before, origin));
                true
            },
        }
    }

    fn put_back(&mut self, peer_id: String, origin: DragOrigin)
        requires
            old(self).wf(),
            origin matches DragOrigin::Cell { x, y } ==> 0 <= x < GRID_SIDE && 0 <= y < GRID_SIDE,
        ensures
            final(self).wf(),
            final(self).placement() == put_back(old(self).placement(), peer_id@, origin),
            *final(self) == (LayoutModel {
                grid: final(self).grid,
                unassigned: final(self).unassigned,
                ..*old(self)
            }),
    {
        let ghost before = self.placement();
        let ghost id = peer_id@;
        match origin {
            DragOrigin::Cell { x, y } => {
                self.grid.insert(x, y, peer_id);
            },
            DragOrigin::Unassigned { index } => {
                assert(before.unassigned.len() == self.unassigned@.len());
                if index <= self.unassigned.len() {
                    self.unassigned.insert(index, peer_id);
                    assert(text::views(self.unassigned@) =~= before.unassigned.insert(
                        index as int,
                        id,
                    ));
                } else {
                    self.unassigned.push(peer_id);
                    assert(text::views(self.unassigned@) =~= before.unassigned.push(id));
                }
            },
        }
        assert(self.placement() =~= put_back(before, id, origin));
    }

    /// Lets the dragged machine go.
    pub fn finish_drag(&mut self, target: DropTarget)
        requires
            old(self).wf(),
            target matches DropTarget::Cell { x, y } ==> 0 <= x < GRID_SIDE && 0 <= y < GRID_SIDE,
        ensures
            final(self).wf(),
            final(self).dragging_peer is None,
            match old(self).dragging_peer {
                Some(dragged) => final(self).placement() == dropped(
                    old(self).placement(),
                    dragged.peer_id@,
                    dragged.origin,
                    target,
                ),
                None => final(self).placement() == old(self).placement(),
            },
            *final(self) == (LayoutModel {
                grid: final(self).grid,
                unassigned: final(self).unassigned,
                dragging_peer: None,
                ..*old(self)
            }),
    {
        let ghost before = self.placement();
        if let Some(dragged) = self.dragging_peer.take() {
            let origin = dragged.origin;
            let peer_id = dragged.peer_id;
            let ghost id = peer_id@;
            match target {
                DropTarget::Cell { x, y } => {
                    let occupant: Option<String> = match self.grid.get(x, y) {
                        Some(id) => Some(id.clone()),
                        None => None,
                    };
                    if let Some(occupant) = occupant {
                        self.put_back(occupant, origin);
                    }
                    self.grid.insert(x, y, peer_id);
                    assert(self.placement() =~= dropped(before, id, origin, target));
                },
                DropTarget::Outside => {
                    match origin {
                        DragOrigin::Cell { .. } => {
                            self.unassigned.push(peer_id);
                            assert(text::views(self.unassigned@) =~= before.unassigned.push(id));
                            assert(self.placement() =~= dropped(before, id, origin, target));
                        },
                        DragOrigin::Unassigned { .. } => {
                            self.put_back(peer_id, origin);
                        },
                    }
                },
                DropTarget::Unknown => {
                    self.put_back(peer_id, origin);
                },
            }
        }
    }

    /// A machine stands at a cell that can be taken off the grid: any but this one.
    pub open spec fn removable(&self, x: i32, y: i32, machine_id: Seq<char>) -> bool {
        self.grid@.contains_key((x, y)) && self.grid@[(x, y)] != machine_id
    }

    /// Whether the machine at a cell can be taken off the grid. This machine has to
    /// stay on it.
    pub fn can_remove(&self, x: i32, y: i32, machine_id: &str) -> (r: bool)
        requires
            self.wf(),
        ensures
            r == self.removable(x, y, machine_id@),
    {
        match self.grid.get(x, y) {
            Some(id) => !text::same(id.as_str(), machine_id),
            None => false,
        }
    }

    /// `next` has the machine of a cell beside the grid, and can be undone.
    pub open spec fn removed(&self, x: i32, y: i32, next: LayoutModel) -> bool {
        &&& next.placement() == (if self.grid@.contains_key((x, y)) {
            Placement {
                grid: self.grid@.remove((x, y)),
                unassigned: text::views(self.unassigned@).push(self.grid@[(x, y)]),
            }
        } else {
            self.placement()
        })
        &&& next.previous matches Some(stash) && placement_of(stash.grid, stash.unassigned)
            == self.placement()
        &&& next == (LayoutModel {
            grid: next.grid,
            unassigned: next.unassigned,
            previous: next.previous,
            ..*self
        })
    }

    /// Takes a machine off the grid and puts it beside it.
    pub fn remove_from_grid(&mut self, x: i32, y: i32)
        requires
            old(self).wf(),
        ensures
            final(self).wf(),
            old(self).removed(x, y, *final(self)),
    {
        let ghost before = self.placement();
        self.stash_layout_for_undo();
        match self.grid.remove(x, y) {
            Some(peer_id) => {
                let ghost id = peer_id@;
                self.unassigned.push(peer_id);
                assert(text::views(self.unassigned@) =~= before.unassigned.push(id));
            },
            None => {
                assert(self.grid@ =~= before.grid);
            },
        }
    }

    /// A machine at a cell can be moved: it is there, the cell next to it lies on
    /// the grid, and nothing is being dragged.
    pub open spec fn movable(&self, x: i32, y: i32, direction: MoveDirection) -> bool {
        let to = next_cell(x, y, direction);
        &&& self.dragging_peer is None
        &&& self.grid@.contains_key((x, y))
        &&& 0 <= to.0 < GRID_SIDE
        &&& 0 <= to.1 < GRID_SIDE
    }

    /// Moves a machine by a cell, without dragging it: whether it could be.
    pub fn move_peer(&mut self, x: i32, y: i32, direction: MoveDirection) -> (r: bool)
        requires
            old(self).wf(),
        ensures
            final(self).wf(),
            r == old(self).movable(x, y, direction),
            !r ==> *final(self) == *old(self),
            r ==> {
                let to = next_cell(x, y, direction);
                &&& final(self).grid@ == swapped(
                    old(self).grid@,
                    (x, y),
                    (to.0 as i32, to.1 as i32),
                )
                &&& final(self).previous matches Some(stash) && placement_of(
                    stash.grid,
                    stash.unassigned,
                ) == old(self).placement()
                &&& *final(self) == (LayoutModel {
                    grid: final(self).grid,
                    previous: final(self).previous,
                    ..*old(self)
                })
            },
    {
        if self.dragging_peer.is_some() || self.grid.get(x, y).is_none() {
            return false;
        }
        assert(self.grid@.contains_key((x, y)));
        let (to_x, to_y): (i32, i32) = match direction {
            MoveDirection::Up => (x, y - 1),
            MoveDirection::Down => (x, y + 1),
            MoveDirection::Left => (x - 1, y),
            MoveDirection::Right => (x + 1, y),
        };
        if to_x < 0 || to_x >= GRID_SIDE || to_y < 0 || to_y >= GRID_SIDE {
            return false;
        }
        let ghost before = self.grid@;
        self.stash_layout_for_undo();
        if let Some(id) = self.grid.remove(x, y) {
            if let Some(occupant) = self.grid.remove(to_x, to_y) {
                self.grid.insert(x, y, occupant);
            }
            self.grid.insert(to_x, to_y, id);
        }
        assert(self.grid@ =~= swapped(before, (x, y), (to_x, to_y)));
        assert(on_grid(self.grid@));
        true
    }

    /// Asks for the arrangement to be read anew, whatever it is.
    pub fn reset_layout(&mut self)
        requires
            old(self).wf(),
        ensures
            final(self).wf(),
            *final(self) == (LayoutModel {
                initialized: false,
                previous: final(self).previous,
                ..*old(self)
            }),
            final(self).previous matches Some(stash) && placement_of(stash.grid, stash.unassigned)
                == old(self).placement(),
    {
        self.stash_layout_for_undo();
        self.initialized = false;
    }

    /// The user confirmed: the layout to send to the daemon.
    pub fn confirm_apply(&mut self, machine_id: &str) -> (r: String)
        requires
            old(self).wf(),
        ensures
            final(self).wf(),
            *final(self) == (LayoutModel { confirm_apply_pending: false, ..*old(self) }),
            written_as(old(self).grid@, machine_id@, r@),
    {
        self.confirm_apply_pending = false;
        self.written(machine_id)
    }

    /// The arrangement in writing.
    pub fn written(&self, machine_id: &str) -> (r: String)
        requires
            self.wf(),
        ensures
            written_as(self.grid@, machine_id@, r@),
    {
        assert(has_neighbours(self.grid@.dom())) by {
            assert forall|p: (i32, i32)| #[trigger] self.grid@.dom().contains(p) implies i32::MIN
                < p.0 < i32::MAX && i32::MIN < p.1 < i32::MAX by {
                assert(self.grid@.contains_key(p));
            }
        }
        serialize_layout_matrix(&self.grid, machine_id)
    }

    /// The user declined.
    pub fn cancel_apply(&mut self)
        ensures
            *final(self) == (LayoutModel { confirm_apply_pending: false, ..*old(self) }),
            old(self).wf() ==> final(self).wf(),
    {
        self.confirm_apply_pending = false;
    }

    /// The cell from which a machine is being dragged, if it is one.
    pub fn drag_origin_cell(&self) -> (r: Option<(i32, i32)>)
        ensures
            r == (match self.dragging_peer {
                Some(dragged) => match dragged.origin {
                    DragOrigin::Cell { x, y } => Some((x, y)),
                    DragOrigin::Unassigned { .. } => None,
                },
                None => None,
            }),
    {
        match &self.dragging_peer {
            Some(dragged) => match dragged.origin {
                DragOrigin::Cell { x, y } => Some((x, y)),
                DragOrigin::Unassigned { .. } => None,
            },
            None => None,
        }
    }
}

proof fn lemma_row_on_grid(
    p: Placement,
    tokens: Seq<Seq<char>>,
    x: int,
    y: int,
    local_id: Seq<char>,
    peers: Seq<UiPairedPeer>,
)
    requires
        on_grid(p.grid),
    ensures
        on_grid(p.with_row(tokens, x, y, local_id, peers).grid),
    decreases tokens.len(),
{
    if tokens.len() > 0 {
        lemma_row_on_grid(p, tokens.drop_last(), x, y, local_id, peers);
    }
}

proof fn lemma_rows_on_grid(
    p: Placement,
    rows: Seq<Seq<char>>,
    x: int,
    y: int,
    local_id: Seq<char>,
    peers: Seq<UiPairedPeer>,
)
    requires
        on_grid(p.grid),
    ensures
        on_grid(p.with_rows(rows, x, y, local_id, peers).grid),
    decreases rows.len(),
{
    if rows.len() > 0 {
        lemma_rows_on_grid(p, rows.drop_last(), x, y, local_id, peers);
        lemma_row_on_grid(
            p.with_rows(rows.drop_last(), x, y, local_id, peers),
            text::pieces(rows.last(), ','),
            x,
            y + rows.len() - 1,
            local_id,
            peers,
        );
    }
}

proof fn lemma_first_row_on_grid(local_id: Seq<char>, ids: Seq<Seq<char>>)
    ensures
        ({
            let row = crate::layout::first_row(local_id, ids);
            on_grid(row.grid) && -1 <= row.left <= 2 && 4 <= row.right <= 7
        }),
    decreases ids.len(),
{
    if ids.len() > 0 {
        lemma_first_row_on_grid(local_id, ids.drop_last());
    }
}

pub proof fn lemma_missing_keeps_grid(p: Placement, ids: Seq<Seq<char>>)
    ensures
        p.with_all_missing(ids).grid == p.grid,
    decreases ids.len(),
{
    if ids.len() > 0 {
        lemma_missing_keeps_grid(p, ids.drop_last());
    }
}

/// What stands beside the grid stays there while missing machines are added.
pub proof fn lemma_unassigned_stay(p: Placement, ids: Seq<Seq<char>>, id: Seq<char>)
    requires
        p.unassigned.contains(id),
    ensures
        p.with_all_missing(ids).unassigned.contains(id),
    decreases ids.len(),
{
    if ids.len() > 0 {
        let before = p.with_all_missing(ids.drop_last());
        lemma_unassigned_stay(p, ids.drop_last(), id);
        let i = choose|i: int| 0 <= i < before.unassigned.len() && before.unassigned[i] == id;
        assert(p.with_all_missing(ids).unassigned[i] == id);
    }
}

/// However large a layout is, every machine that it puts on the grid stands
/// within the grid.
pub proof fn law_arrangement_lies_on_grid(
    matrix: Seq<char>,
    local_id: Seq<char>,
    peers: Seq<UiPairedPeer>,
)
    ensures
        on_grid(arrangement(matrix, local_id, peers).grid),
{
    let rows = text::pieces(matrix, ';');
    lemma_first_row_on_grid(local_id, peer_ids(peers));
    lemma_rows_on_grid(
        Placement::empty(),
        rows,
        centered(longest_row(rows)),
        centered(rows.len()),
        local_id,
        peers,
    );
    let described = if text::trimmed(matrix).len() == 0 {
        Placement {
            grid: crate::layout::first_row(local_id, peer_ids(peers)).grid,
            unassigned: Seq::empty(),
        }
    } else {
        Placement::empty().with_rows(
            rows,
            centered(longest_row(rows)),
            centered(rows.len()),
            local_id,
            peers,
        )
    };
    lemma_missing_keeps_grid(described, peer_ids(peers));
}

/// A machine is somewhere: on the grid or beside it.
pub open spec fn present(p: Placement, id: Seq<char>) -> bool {
    p.grid.contains_value(id) || p.unassigned.contains(id)
}

proof fn lemma_missing_present(p: Placement, id: Seq<char>, other: Seq<char>)
    ensures
        present(p.with_missing(id), id),
        present(p, other) ==> present(p.with_missing(id), other),
{
    let next = p.with_missing(id);
    if !(p.grid.contains_value(id) || p.unassigned.contains(id)) {
        assert(next.unassigned[p.unassigned.len() as int] == id);
    }
    if p.unassigned.contains(other) {
        let i = choose|i: int| 0 <= i < p.unassigned.len() && p.unassigned[i] == other;
        assert(next.unassigned[i] == other);
    }
}

proof fn lemma_all_missing_present(p: Placement, ids: Seq<Seq<char>>, id: Seq<char>)
    requires
        ids.contains(id) || present(p, id),
    ensures
        present(p.with_all_missing(ids), id),
    decreases ids.len(),
{
    if ids.len() > 0 {
        let shorter = ids.drop_last();
        let before = p.with_all_missing(shorter);
        if ids.last() == id {
            lemma_missing_present(before, id, id);
        } else {
            if ids.contains(id) {
                let i = choose|i: int| 0 <= i < ids.len() && ids[i] == id;
                assert(shorter[i] == id);
            }
            lemma_all_missing_present(p, shorter, id);
            lemma_missing_present(before, ids.last(), id);
        }
    }
}

/// Reading a layout loses no machine: every paired machine and this one stand on
/// the grid or beside it.
pub proof fn law_every_machine_is_arranged(
    matrix: Seq<char>,
    local_id: Seq<char>,
    peers: Seq<UiPairedPeer>,
    id: Seq<char>,
)
    requires
        id == local_id || peer_ids(peers).contains(id),
    ensures
        present(arrangement(matrix, local_id, peers), id),
{
    let rows = text::pieces(matrix, ';');
    let described = if text::trimmed(matrix).len() == 0 {
        Placement {
            grid: crate::layout::first_row(local_id, peer_ids(peers)).grid,
            unassigned: Seq::empty(),
        }
    } else {
        Placement::empty().with_rows(
            rows,
            centered(longest_row(rows)),
            centered(rows.len()),
            local_id,
            peers,
        )
    };
    let peers_in = described.with_all_missing(peer_ids(peers));
    if id != local_id {
        lemma_all_missing_present(described, peer_ids(peers), id);
    }
    lemma_missing_present(peers_in, local_id, id);
}

/// Whenever the arrangement is due to be read anew, dragged machine or not, every
/// paired machine and this one stand on the grid or beside it afterwards, every
/// position lies on the grid, and what is remembered of the snapshot is what it
/// says; nothing more is due then.
pub proof fn law_outdated_arrangement_is_read_anew(
    model: LayoutModel,
    snapshot: UiSnapshot,
    next: LayoutModel,
)
    requires
        model.outdated(snapshot),
        model.synced(snapshot, next),
    ensures
        forall|id: Seq<char>|
            id == snapshot.machine_id@ || peer_ids(snapshot.paired_peers@).contains(id)
                ==> #[trigger] present(next.placement(), id),
        on_grid(next.grid@),
        next.initialized,
        next.last_matrix@ == snapshot.layout_matrix@,
        text::views(next.last_peer_ids@) == text::texts_sorted(peer_ids(snapshot.paired_peers@)),
        next.dragging_peer == model.dragging_peer,
        next.confirm_apply_pending == model.confirm_apply_pending,
        !next.outdated(snapshot),
{
    let matrix = snapshot.layout_matrix@;
    let local_id = snapshot.machine_id@;
    let peers = snapshot.paired_peers@;
    law_arrangement_lies_on_grid(matrix, local_id, peers);
    assert forall|id: Seq<char>|
        id == local_id || peer_ids(peers).contains(id) implies #[trigger] present(
        next.placement(),
        id,
    ) by {
        law_every_machine_is_arranged(matrix, local_id, peers, id);
    }
}

/// Undoing twice leaves everything as it was, and undoing once exchanges the two
/// arrangements; without a remembered arrangement nothing changes.
pub proof fn law_undo_twice_is_no_change(model: LayoutModel)
    ensures
        model.undone().undone() == model,
        model.previous is None ==> model.undone() == model,
        model.previous matches Some(stash) ==> {
            &&& model.undone().placement() == placement_of(stash.grid, stash.unassigned)
            &&& model.undone().previous matches Some(next) && placement_of(
                next.grid,
                next.unassigned,
            ) == model.placement()
        },
{
}

/// Wherever a dragged machine is let go, no machine is lost: what was on the grid
/// or beside it before is so afterwards.
pub proof fn law_dragging_loses_no_machine(
    p: Placement,
    origin: DragOrigin,
    target: DropTarget,
    id: Seq<char>,
)
    requires
        liftable(p, origin) is Some,
        present(p, id),
    ensures
        present(dropped(lifted(p, origin), liftable(p, origin)->0, origin, target), id),
{
    let held = liftable(p, origin)->0;
    let up = lifted(p, origin);
    let down = dropped(up, held, origin, target);
    // Every machine but the one in hand keeps its place, unless another one takes
    // that place.
    if id == held {
        match target {
            DropTarget::Cell { x, y } => {
                assert(down.grid.contains_key((x, y)) && down.grid[(x, y)] == held);
            },
            DropTarget::Outside => {
                match origin {
                    DragOrigin::Cell { .. } => {
                        assert(down.unassigned[up.unassigned.len() as int] == held);
                    },
                    DragOrigin::Unassigned { index } => {
                        assert(down.unassigned[index as int] == held);
                    },
                }
            },
            DropTarget::Unknown => {
                match origin {
                    DragOrigin::Cell { x, y } => {
                        assert(down.grid.contains_key((x, y)) && down.grid[(x, y)] == held);
                    },
                    DragOrigin::Unassigned { index } => {
                        assert(down.unassigned[index as int] == held);
                    },
                }
            },
        }
    } else {
        if p.grid.contains_value(id) {
            let q = choose|q: (i32, i32)| #[trigger] p.grid.contains_key(q) && p.grid[q] == id;
            assert(up.grid.contains_key(q) && up.grid[q] == id);
            match target {
                DropTarget::Cell { x, y } => {
                    if q == (x, y) {
                        match origin {
                            DragOrigin::Cell { x: ox, y: oy } => {
                                if (ox, oy) != (x, y) {
                                    assert(down.grid.contains_key((ox, oy)) && down.grid[(ox, oy)]
                                        == id);
                                }
                            },
                            DragOrigin::Unassigned { index } => {
                                assert(down.unassigned[index as int] == id);
                            },
                        }
                    } else {
                        match origin {
                            DragOrigin::Cell { x: ox, y: oy } => {
                                assert(q != (ox, oy));
                            },
                            DragOrigin::Unassigned { .. } => {},
                        }
                        assert(down.grid.contains_key(q) && down.grid[q] == id);
                    }
                },
                _ => {
                    match origin {
                        DragOrigin::Cell { x: ox, y: oy } => {
                            assert(q != (ox, oy));
                        },
                        DragOrigin::Unassigned { .. } => {},
                    }
                    assert(down.grid.contains_key(q) && down.grid[q] == id);
                },
            }
        } else {
            let i = choose|i: int| 0 <= i < p.unassigned.len() && p.unassigned[i] == id;
            let at = match origin {
                DragOrigin::Cell { .. } => i,
                DragOrigin::Unassigned { index } => if i < index {
                    i
                } else {
                    i - 1
                },
            };
            assert(up.unassigned[at] == id);
            let now = match origin {
                DragOrigin::Cell { .. } => at,
                DragOrigin::Unassigned { index } => if at < index {
                    at
                } else {
                    at + 1
                },
            };
            assert(down.unassigned == up.unassigned ==> down.unassigned[at] == id);
            if down.unassigned != up.unassigned {
                match origin {
                    DragOrigin::Cell { .. } => {
                        assert(down.unassigned[at] == id);
                    },
                    DragOrigin::Unassigned { .. } => {
                        assert(down.unassigned[now] == id);
                    },
                }
            }
        }
    }
}

/// Moving a machine by a cell takes none away and adds none.
pub proof fn law_moving_loses_no_machine(
    grid: Map<(i32, i32), Seq<char>>,
    from: (i32, i32),
    to: (i32, i32),
    id: Seq<char>,
)
    requires
        grid.contains_key(from),
        from != to,
    ensures
        grid.contains_value(id) <==> swapped(grid, from, to).contains_value(id),
{
    let moved = swapped(grid, from, to);
    if grid.contains_value(id) {
        let at = choose|at: (i32, i32)| grid.contains_key(at) && grid[at] == id;
        if at == from {
            assert(moved.contains_key(to) && moved[to] == id);
        } else if at == to {
            assert(moved.contains_key(from) && moved[from] == id);
        } else {
            assert(moved.contains_key(at) && moved[at] == id);
        }
    }
    if moved.contains_value(id) {
        let at = choose|at: (i32, i32)| moved.contains_key(at) && moved[at] == id;
        if at == to {
            assert(grid[from] == id);
        } else if at == from {
            assert(grid.contains_key(to) && grid[to] == id);
        } else {
            assert(grid.contains_key(at) && grid[at] == id);
        }
    }
}

/// A machine that is put back stands in its cell again, or in its place in the list, or
/// at the end of a list that has become too short; nothing else moves.
pub proof fn law_machine_goes_back_to_its_place(
    p: Placement,
    id: Seq<char>,
    x: i32,
    y: i32,
    index: usize,
)
    ensures
        ({
            let back = put_back(p, id, DragOrigin::Cell { x, y });
            &&& back.grid.contains_key((x, y)) && back.grid[(x, y)] == id
            &&& forall|q: (i32, i32)|
                q != (x, y) ==> (#[trigger] back.grid.contains_key(q) <==> p.grid.contains_key(q))
            &&& forall|q: (i32, i32)|
                #![trigger back.grid[q]]
                q != (x, y) && p.grid.contains_key(q) ==> back.grid[q] == p.grid[q]
            &&& back.unassigned == p.unassigned
        }),
        ({
            let back = put_back(p, id, DragOrigin::Unassigned { index });
            let at = if index <= p.unassigned.len() {
                index as int
            } else {
                p.unassigned.len() as int
            };
            &&& back.grid == p.grid
            &&& back.unassigned.len() == p.unassigned.len() + 1
            &&& back.unassigned[at] == id
            &&& back.unassigned.remove(at) == p.unassigned
        }),
{
    let back = put_back(p, id, DragOrigin::Unassigned { index });
    let at = if index <= p.unassigned.len() {
        index as int
    } else {
        p.unassigned.len() as int
    };
    assert(back.unassigned.remove(at) =~= p.unassigned);
}

} // verus!
