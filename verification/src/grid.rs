//! The grid on which machines are arranged.

use crate::text;
use vstd::prelude::*;

verus! {

#[derive(Debug)]
pub struct LayoutCell {
    pub x: i32,
    pub y: i32,
    pub id: String,
}

/// Machines by position; no position is taken twice.
#[derive(Debug)]
pub struct LayoutGrid {
    pub cells: Vec<LayoutCell>,
}

/// The machine that `cells` hold at a position, if any.
pub open spec fn id_at(cells: Seq<LayoutCell>, pos: (i32, i32)) -> Option<Seq<char>>
    decreases cells.len(),
{
    if cells.len() == 0 {
        None
    } else if (cells.last().x, cells.last().y) == pos {
        Some(cells.last().id@)
    } else {
        id_at(cells.drop_last(), pos)
    }
}

impl View for LayoutGrid {
    type V = Map<(i32, i32), Seq<char>>;

    open spec fn view(&self) -> Map<(i32, i32), Seq<char>> {
        Map::new(
            |pos: (i32, i32)| id_at(self.cells@, pos) is Some,
            |pos: (i32, i32)| id_at(self.cells@, pos)->0,
        )
    }
}

pub open spec fn positions_differ(cells: Seq<LayoutCell>) -> bool {
    forall|i: int, j: int|
        #![trigger cells[i], cells[j]]
        0 <= i < j < cells.len() ==> (cells[i].x, cells[i].y) != (cells[j].x, cells[j].y)
}

proof fn lemma_id_at(cells: Seq<LayoutCell>, at: int)
    requires
        0 <= at < cells.len(),
        positions_differ(cells),
    ensures
        id_at(cells, (cells[at].x, cells[at].y)) == Some(cells[at].id@),
    decreases cells.len(),
{
    if at < cells.len() - 1 {
        assert((cells[at].x, cells[at].y) != (
            cells[cells.len() - 1].x,
            cells[cells.len() - 1].y,
        ));
        assert(positions_differ(cells.drop_last())) by {
            assert forall|i: int, j: int|
                #![trigger cells.drop_last()[i], cells.drop_last()[j]]
                0 <= i < j < cells.drop_last().len() implies (
                cells.drop_last()[i].x,
                cells.drop_last()[i].y,
            ) != (cells.drop_last()[j].x, cells.drop_last()[j].y) by {
                assert((cells[i].x, cells[i].y) != (cells[j].x, cells[j].y));
            }
        }
        lemma_id_at(cells.drop_last(), at);
    }
}

proof fn lemma_id_absent(cells: Seq<LayoutCell>, pos: (i32, i32))
    requires
        forall|j: int|
            0 <= j < cells.len() ==> ((#[trigger] cells[j]).x, cells[j].y) != pos,
    ensures
        id_at(cells, pos) is None,
    decreases cells.len(),
{
    if cells.len() > 0 {
        lemma_id_absent(cells.drop_last(), pos);
    }
}

proof fn lemma_id_present(cells: Seq<LayoutCell>, pos: (i32, i32))
    requires
        id_at(cells, pos) is Some,
    ensures
        exists|j: int|
            0 <= j < cells.len() && ((#[trigger] cells[j]).x, cells[j].y) == pos && Some(
                cells[j].id@,
            ) == id_at(cells, pos),
    decreases cells.len(),
{
    if (cells.last().x, cells.last().y) == pos {
        assert((cells[cells.len() - 1].x, cells[cells.len() - 1].y) == pos);
    } else {
        lemma_id_present(cells.drop_last(), pos);
        let j = choose|j: int|
            0 <= j < cells.drop_last().len() && (
            (#[trigger] cells.drop_last()[j]).x,
            cells.drop_last()[j].y,
            ) == pos && Some(cells.drop_last()[j].id@) == id_at(cells.drop_last(), pos);
        assert((cells[j].x, cells[j].y) == pos);
    }
}

proof fn lemma_id_updated(cells: Seq<LayoutCell>, at: int, cell: LayoutCell, pos: (i32, i32))
    requires
        0 <= at < cells.len(),
        (cell.x, cell.y) == (cells[at].x, cells[at].y),
        pos != (cell.x, cell.y),
    ensures
        id_at(cells.update(at, cell), pos) == id_at(cells, pos),
    decreases cells.len(),
{
    if at < cells.len() - 1 {
        lemma_id_updated(cells.drop_last(), at, cell, pos);
        assert(cells.update(at, cell).drop_last() =~= cells.drop_last().update(at, cell));
    } else {
        assert(cells.update(at, cell).drop_last() =~= cells.drop_last());
    }
}

proof fn lemma_id_removed(cells: Seq<LayoutCell>, at: int, pos: (i32, i32))
    requires
        0 <= at < cells.len(),
        pos != (cells[at].x, cells[at].y),
    ensures
        id_at(cells.remove(at), pos) == id_at(cells, pos),
    decreases cells.len(),
{
    if at < cells.len() - 1 {
        lemma_id_removed(cells.drop_last(), at, pos);
        assert(cells.remove(at).drop_last() =~= cells.drop_last().remove(at));
        assert(cells.remove(at).last() == cells.last());
    } else {
        assert(cells.remove(at) =~= cells.drop_last());
    }
}

impl LayoutGrid {
    pub open spec fn wf(&self) -> bool {
        positions_differ(self.cells@)
    }

    /// A grid without machines.
    pub fn new() -> (r: LayoutGrid)
        ensures
            r@ == Map::<(i32, i32), Seq<char>>::empty(),
            r.cells@.len() == 0,
            r.wf(),
    {
        let r = LayoutGrid { cells: Vec::new() };
        assert(r@ =~= Map::empty());
        r
    }

    fn position(&self, x: i32, y: i32) -> (r: Option<usize>)
        requires
            self.wf(),
        ensures
            match r {
                Some(at) => {
                    &&& at < self.cells.len()
                    &&& (self.cells@[at as int].x, self.cells@[at as int].y) == (x, y)
                    &&& self@.contains_key((x, y))
                    &&& self@[(x, y)] == self.cells@[at as int].id@
                },
                None => {
                    &&& !self@.contains_key((x, y))
                    &&& forall|j: int|
                        0 <= j < self.cells.len() ==> (
                        (#[trigger] self.cells@[j]).x,
                        self.cells@[j].y,
                        ) != (x, y)
                },
            },
    {
        let mut i: usize = 0;
        while i < self.cells.len()
            invariant
                self.wf(),
                i <= self.cells.len(),
                forall|j: int|
                    0 <= j < i ==> ((#[trigger] self.cells@[j]).x, self.cells@[j].y) != (x, y),
            decreases self.cells.len() - i,
        {
            if self.cells[i].x == x && self.cells[i].y == y {
                proof {
                    lemma_id_at(self.cells@, i as int);
                }
                return Some(i);
            }
            i = i + 1;
        }
        proof {
            lemma_id_absent(self.cells@, (x, y));
        }
        None
    }

    /// The machine at a position, if there is one.
    pub fn get(&self, x: i32, y: i32) -> (r: Option<&String>)
        requires
            self.wf(),
        ensures
            match r {
                Some(id) => self@.contains_key((x, y)) && self@[(x, y)] == id@,
                None => !self@.contains_key((x, y)),
            },
    {
        match self.position(x, y) {
            Some(at) => Some(&self.cells[at].id),
            None => None,
        }
    }

    /// Puts a machine at a position, in place of one that is there.
    pub fn insert(&mut self, x: i32, y: i32, id: String)
        requires
            old(self).wf(),
        ensures
            final(self)@ == old(self)@.insert((x, y), id@),
            final(self).wf(),
    {
        let ghost before = self.cells@;
        let ghost text = id@;
        match self.position(x, y) {
            Some(at) => {
                let cell = LayoutCell { x, y, id };
                let ghost cell_view = cell;
                self.cells[at] = cell;
                proof {
                    assert(self.cells@ =~= before.update(at as int, cell_view));
                    assert(self.wf()) by {
                        assert forall|i: int, j: int|
                            #![trigger self.cells@[i], self.cells@[j]]
                            0 <= i < j < self.cells@.len() implies (
                            self.cells@[i].x,
                            self.cells@[i].y,
                        ) != (self.cells@[j].x, self.cells@[j].y) by {
                            assert((before[i].x, before[i].y) != (before[j].x, before[j].y));
                        }
                    }
                    lemma_id_at(self.cells@, at as int);
                    assert forall|pos: (i32, i32)| pos != (x, y) implies id_at(self.cells@, pos)
                        == id_at(before, pos) by {
                        lemma_id_updated(before, at as int, cell_view, pos);
                    }
                }
            },
            None => {
                self.cells.push(LayoutCell { x, y, id });
                proof {
                    assert(self.cells@.drop_last() =~= before);
                    assert(self.wf()) by {
                        assert forall|i: int, j: int|
                            #![trigger self.cells@[i], self.cells@[j]]
                            0 <= i < j < self.cells@.len() implies (
                            self.cells@[i].x,
                            self.cells@[i].y,
                        ) != (self.cells@[j].x, self.cells@[j].y) by {
                            if j < before.len() {
                                assert((before[i].x, before[i].y) != (before[j].x, before[j].y));
                            } else {
                                assert((before[i].x, before[i].y) != (x, y));
                            }
                        }
                    }
                }
            },
        }
        assert(self@ =~= old(self)@.insert((x, y), text));
    }

    /// Takes the machine away from a position.
    pub fn remove(&mut self, x: i32, y: i32) -> (r: Option<String>)
        requires
            old(self).wf(),
        ensures
            match r {
                Some(id) => old(self)@.contains_key((x, y)) && old(self)@[(x, y)] == id@,
                None => !old(self)@.contains_key((x, y)),
            },
            final(self)@ == old(self)@.remove((x, y)),
            final(self).wf(),
    {
        let ghost before = self.cells@;
        match self.position(x, y) {
            Some(at) => {
                let cell = self.cells.remove(at);
                proof {
                    assert(self.cells@ =~= before.remove(at as int));
                    assert forall|j: int| 0 <= j < self.cells@.len() implies (
                    (#[trigger] self.cells@[j]).x,
                    self.cells@[j].y,
                    ) != (x, y) by {
                        if j < at {
                            assert((before[j].x, before[j].y) != (
                                before[at as int].x,
                                before[at as int].y,
                            ));
                        } else {
                            assert((before[at as int].x, before[at as int].y) != (
                                before[j + 1].x,
                                before[j + 1].y,
                            ));
                        }
                    }
                    assert(self.wf()) by {
                        assert forall|i: int, j: int|
                            #![trigger self.cells@[i], self.cells@[j]]
                            0 <= i < j < self.cells@.len() implies (
                            self.cells@[i].x,
                            self.cells@[i].y,
                        ) != (self.cells@[j].x, self.cells@[j].y) by {
                            let a = if i < at {
                                i
                            } else {
                                i + 1
                            };
                            let b = if j < at {
                                j
                            } else {
                                j + 1
                            };
                            assert((before[a].x, before[a].y) != (before[b].x, before[b].y));
                        }
                    }
                    lemma_id_absent(self.cells@, (x, y));
                    assert forall|pos: (i32, i32)| pos != (x, y) implies id_at(self.cells@, pos)
                        == id_at(before, pos) by {
                        lemma_id_removed(before, at as int, pos);
                    }
                    assert(self@ =~= old(self)@.remove((x, y)));
                }
                Some(cell.id)
            },
            None => {
                assert(self@ =~= old(self)@.remove((x, y)));
                None
            },
        }
    }

    /// A copy of the grid.
    pub fn copy(&self) -> (r: LayoutGrid)
        ensures
            r@ == self@,
            r.cells@ == self.cells@,
            self.wf() ==> r.wf(),
    {
        let mut cells: Vec<LayoutCell> = Vec::new();
        let mut i: usize = 0;
        while i < self.cells.len()
            invariant
                i <= self.cells.len(),
                cells@ == self.cells@.take(i as int),
            decreases self.cells.len() - i,
        {
            let cell = LayoutCell {
                x: self.cells[i].x,
                y: self.cells[i].y,
                id: self.cells[i].id.clone(),
            };
            assert(cell == self.cells@[i as int]);
            cells.push(cell);
            i = i + 1;
            assert(self.cells@.take(i as int) =~= self.cells@.take(i - 1).push(
                self.cells@[i - 1],
            ));
        }
        assert(self.cells@.take(i as int) =~= self.cells@);
        LayoutGrid { cells }
    }

    /// Whether a machine is somewhere on the grid.
    pub fn holds(&self, id: &str) -> (r: bool)
        requires
            self.wf(),
        ensures
            r == self@.contains_value(id@),
    {
        let mut i: usize = 0;
        while i < self.cells.len()
            invariant
                self.wf(),
                i <= self.cells.len(),
                forall|j: int| 0 <= j < i ==> (#[trigger] self.cells@[j]).id@ != id@,
            decreases self.cells.len() - i,
        {
            if text::same(self.cells[i].id.as_str(), id) {
                proof {
                    lemma_id_at(self.cells@, i as int);
                    let pos = (self.cells@[i as int].x, self.cells@[i as int].y);
                    assert(self@.contains_key(pos) && self@[pos] == id@);
                }
                return true;
            }
            i = i + 1;
        }
        proof {
            if self@.contains_value(id@) {
                let pos = choose|pos: (i32, i32)|
                    #[trigger] self@.contains_key(pos) && self@[pos] == id@;
                lemma_id_present(self.cells@, pos);
            }
        }
        false
    }
}

/// Every cell of a grid stands in its view, and nothing else does.
pub proof fn lemma_grid_cells(grid: LayoutGrid)
    requires
        grid.wf(),
    ensures
        forall|i: int|
            #![trigger grid.cells@[i]]
            0 <= i < grid.cells@.len() ==> grid@.contains_key(
                (grid.cells@[i].x, grid.cells@[i].y),
            ) && grid@[(grid.cells@[i].x, grid.cells@[i].y)] == grid.cells@[i].id@,
        forall|pos: (i32, i32)| #[trigger]
            grid@.contains_key(pos) ==> exists|i: int|
                0 <= i < grid.cells@.len() && ((#[trigger] grid.cells@[i]).x, grid.cells@[i].y)
                    == pos && grid.cells@[i].id@ == grid@[pos],
{
    assert forall|i: int|
        #![trigger grid.cells@[i]]
        0 <= i < grid.cells@.len() implies grid@.contains_key(
        (grid.cells@[i].x, grid.cells@[i].y),
    ) && grid@[(grid.cells@[i].x, grid.cells@[i].y)] == grid.cells@[i].id@ by {
        lemma_id_at(grid.cells@, i);
    }
    assert forall|pos: (i32, i32)| #[trigger] grid@.contains_key(pos) implies exists|i: int|
        0 <= i < grid.cells@.len() && ((#[trigger] grid.cells@[i]).x, grid.cells@[i].y) == pos
            && grid.cells@[i].id@ == grid@[pos] by {
        lemma_id_present(grid.cells@, pos);
    }
}

/// A cell of a grid holds its machine, and what lies nowhere among the cells is empty.
pub proof fn law_cells_hold_their_machines(cells: Seq<LayoutCell>, at: int, pos: (i32, i32))
    requires
        positions_differ(cells),
        0 <= at < cells.len(),
    ensures
        id_at(cells, (cells[at].x, cells[at].y)) == Some(cells[at].id@),
        (forall|i: int| 0 <= i < cells.len() ==> ((#[trigger] cells[i]).x, cells[i].y) != pos)
            ==> id_at(cells, pos) is None,
    decreases cells.len(),
{
    let front = cells.drop_last();
    assert forall|i: int, j: int|
        #![trigger front[i], front[j]]
        0 <= i < j < front.len() implies (front[i].x, front[i].y) != (front[j].x, front[j].y) by {
        assert(front[i] == cells[i] && front[j] == cells[j]);
    }
    if at < front.len() {
        assert(front[at] == cells[at]);
        law_cells_hold_their_machines(front, at, pos);
        assert(cells[cells.len() - 1] == cells.last());
    } else {
        assert(cells[at] == cells.last());
    }
    if forall|i: int| 0 <= i < cells.len() ==> ((#[trigger] cells[i]).x, cells[i].y) != pos {
        assert((cells[cells.len() - 1].x, cells[cells.len() - 1].y) != pos);
        if front.len() > 0 {
            assert forall|i: int| 0 <= i < front.len() implies ((#[trigger] front[i]).x, front[i].y)
                != pos by {
                assert(front[i] == cells[i]);
            }
            law_cells_hold_their_machines(front, 0, pos);
        }
    }
}

} // verus!
