//! The grid selection state machine: rows of tiles, a selected row with a
//! vertical scroll animator, a selected tile per row with a horizontal
//! scroll animator, and a lift animator on each tile.
//!
//! Row and grid moves are gated: while their own transition runs they are
//! ignored. Tile lift and drop always re-arm.
use crate::data::{Item, CatalogSet};
use crate::lerp::{Lerper, Transform, UNIT, ANIMATION_MS};
use vstd::prelude::*;

verus! {

/// Largest number of rows in a grid, and of tiles in a row: a position of
/// that many units still fits a fixed-point component.
pub const MAX_CELLS: usize = 0xffff_ffff;

/// Extra scale of a selected tile, in fixed-point steps (0.15).
pub const MARGIN: i64 = 1_500;

/// Depth a selected tile is lifted by, in fixed-point steps (5.0).
pub const LIFT: i64 = 50_000;

/// Scale of a selected tile: one unit and a margin.
pub const SELECTED_SCALE: i64 = UNIT + MARGIN;

/// Shift that keeps a grown tile centred: a quarter margin back (-0.0375).
pub const SELECTED_SHIFT: i64 = -375;

/// Where a selected tile sits: grown by the margin and lifted towards the
/// viewer, shifted back by a quarter margin to stay centred.
pub open spec fn selected_spec() -> Transform {
    Transform {
        scale_x: SELECTED_SCALE,
        scale_y: SELECTED_SCALE,
        shift_x: SELECTED_SHIFT,
        shift_y: SELECTED_SHIFT,
        shift_z: LIFT,
    }
}

/// The animator every new tile, row and grid starts with.
pub open spec fn resting_spec() -> Lerper {
    Lerper {
        begin: Transform::identity_spec(),
        end: Transform::identity_spec(),
        start_time: 0,
        duration: ANIMATION_MS,
    }
}

/// The transform of a selected tile.
pub fn selected_transform() -> (r: Transform)
    ensures
        r == selected_spec(),
{
    Transform {
        scale_x: SELECTED_SCALE,
        scale_y: SELECTED_SCALE,
        shift_x: SELECTED_SHIFT,
        shift_y: SELECTED_SHIFT,
        shift_z: LIFT,
    }
}

/// The shift that brings position `index` of an axis to the origin.
pub open spec fn axis_offset(index: int) -> int {
    -(index * UNIT)
}

/// One item on screen, with its lift animator.
pub struct Tile {
    pub item: Item,
    pub selected: Lerper,
}

impl Tile {
    pub open spec fn wf(self) -> bool {
        self.selected.wf()
    }

    /// A fresh tile showing `item`.
    pub open spec fn fresh(item: Item) -> Tile {
        Tile { item, selected: resting_spec() }
    }

    /// This tile with its lift animator re-armed towards `target` at `now`.
    pub open spec fn retargeted(self, target: Transform, now: u64) -> Tile {
        Tile { item: self.item, selected: self.selected.armed(target, now) }
    }

    /// A tile showing `item`, at rest.
    pub fn new(item: Item) -> (r: Tile)
        ensures
            r == Tile::fresh(item),
            r.wf(),
    {
        Tile { item, selected: Lerper::new() }
    }

    /// Lifts the tile, from wherever it shows at `now`.
    pub fn select(&mut self, now: u64)
        requires
            old(self).wf(),
        ensures
            *final(self) == old(self).retargeted(selected_spec(), now),
            final(self).wf(),
    {
        self.selected.next(selected_transform(), now);
    }

    /// Drops the tile back to rest, from wherever it shows at `now`.
    pub fn unselect(&mut self, now: u64)
        requires
            old(self).wf(),
        ensures
            *final(self) == old(self).retargeted(Transform::identity_spec(), now),
            final(self).wf(),
    {
        self.selected.next(Transform::identity(), now);
    }
}

/// `tiles` with the lift animator of tile `index` re-armed towards `target`;
/// unchanged where there is no such tile.
pub open spec fn retarget(tiles: Seq<Tile>, index: int, target: Transform, now: u64) -> Seq<Tile> {
    if 0 <= index < tiles.len() {
        tiles.update(index, tiles[index].retargeted(target, now))
    } else {
        tiles
    }
}

/// A fresh tile for each item, in order.
pub open spec fn fresh_tiles(items: Seq<Item>) -> Seq<Tile> {
    items.map_values(|item: Item| Tile::fresh(item))
}

/// One set on screen: its tiles, the selected column and the horizontal
/// scroll animator.
pub struct Row {
    pub set: CatalogSet,
    pub tiles: Vec<Tile>,
    pub selection: usize,
    pub offset: Lerper,
}

impl Row {
    pub open spec fn wf(self) -> bool {
        &&& self.offset.wf()
        &&& self.tiles@.len() <= MAX_CELLS
        &&& (self.tiles@.len() == 0 ==> self.selection == 0)
        &&& (self.tiles@.len() > 0 ==> self.selection < self.tiles@.len())
        &&& forall|i: int| 0 <= i < self.tiles@.len() ==> (#[trigger] self.tiles@[i]).wf()
    }

    /// The horizontal shift that brings column `column` to the origin.
    pub open spec fn offset_for(column: int) -> Transform {
        Transform::shift_spec(axis_offset(column), 0, 0)
    }

    /// `next` is this row with the lift of its selected tile re-armed towards
    /// `target` at `now`, and nothing else changed.
    pub open spec fn retargeted_to(self, next: Row, target: Transform, now: u64) -> bool {
        &&& next.set == self.set
        &&& next.selection == self.selection
        &&& next.offset == self.offset
        &&& next.tiles@ == retarget(self.tiles@, self.selection as int, target, now)
    }

    /// `next` is this row after the selection moved to column `to` at `now`:
    /// the old tile drops, the new one lifts, the row scrolls to it.
    pub open spec fn moved_to(self, next: Row, to: int, now: u64) -> bool {
        &&& next.set == self.set
        &&& next.selection == to
        &&& next.offset == self.offset.armed(Row::offset_for(to), now)
        &&& next.tiles@ == retarget(
            retarget(self.tiles@, self.selection as int, Transform::identity_spec(), now),
            to,
            selected_spec(),
            now,
        )
    }

    /// What `left` at `now` turns this row into.
    pub open spec fn left_step(self, next: Row, now: u64) -> bool {
        if self.offset.active(now) || self.selection == 0 {
            next == self
        } else {
            self.moved_to(next, self.selection - 1, now)
        }
    }

    /// What `right` at `now` turns this row into.
    pub open spec fn right_step(self, next: Row, now: u64) -> bool {
        if self.offset.active(now) || self.selection + 1 >= self.tiles@.len() {
            next == self
        } else {
            self.moved_to(next, self.selection + 1, now)
        }
    }

    /// A row for `set` showing `tiles`, with the first column selected.
    pub fn new(set: CatalogSet, tiles: Vec<Tile>) -> (r: Row)
        requires
            tiles@.len() <= MAX_CELLS,
            forall|i: int| 0 <= i < tiles@.len() ==> (#[trigger] tiles@[i]).wf(),
        ensures
            r.wf(),
            r.set == set,
            r.tiles == tiles,
            r.selection == 0,
            r.offset == resting_spec(),
    {
        Row { set, tiles, selection: 0, offset: Lerper::new() }
    }

    /// Moves the selection one column left, unless this row's scroll is still
    /// running or the first column is selected.
    pub fn left(&mut self, now: u64)
        requires
            old(self).wf(),
        ensures
            old(self).left_step(*final(self), now),
            final(self).wf(),
    {
        if self.offset.is_active(now) {
            return;
        }
        if self.selection == 0 {
            return;
        }
        self.unselect(now);
        self.selection = self.selection - 1;
        let target = self.calc_offset();
        self.offset.next(target, now);
        self.select(now);
    }

    /// Moves the selection one column right, unless this row's scroll is still
    /// running or the last column is selected.
    pub fn right(&mut self, now: u64)
        requires
            old(self).wf(),
        ensures
            old(self).right_step(*final(self), now),
            final(self).wf(),
    {
        if self.offset.is_active(now) {
            return;
        }
        if self.tiles.len() == 0 || self.selection == self.tiles.len() - 1 {
            return;
        }
        self.unselect(now);
        self.selection = self.selection + 1;
        let target = self.calc_offset();
        self.offset.next(target, now);
        self.select(now);
    }

    fn unselect(&mut self, now: u64)
        requires
            old(self).wf(),
        ensures
            old(self).retargeted_to(*final(self), Transform::identity_spec(), now),
            final(self).wf(),
    {
        let sel = self.selection;
        if sel < self.tiles.len() {
            self.tiles[sel].unselect(now);
        }
        proof {
            assert forall|i: int| 0 <= i < self.tiles@.len() implies (
            #[trigger] self.tiles@[i]).wf() by {
                if i != sel as int {
                    assert(self.tiles@[i] == old(self).tiles@[i]);
                }
            }
        }
    }

    fn select(&mut self, now: u64)
        requires
            old(self).wf(),
        ensures
            old(self).retargeted_to(*final(self), selected_spec(), now),
            final(self).wf(),
    {
        let sel = self.selection;
        if sel < self.tiles.len() {
            self.tiles[sel].select(now);
        }
        proof {
            assert forall|i: int| 0 <= i < self.tiles@.len() implies (
            #[trigger] self.tiles@[i]).wf() by {
                if i != sel as int {
                    assert(self.tiles@[i] == old(self).tiles@[i]);
                }
            }
        }
    }

    /// The horizontal shift that brings the selected column to the origin.
    pub fn calc_offset(&self) -> (r: Transform)
        requires
            self.selection <= MAX_CELLS,
        ensures
            r == Row::offset_for(self.selection as int),
    {
        Transform::shift(-((self.selection as i64) * UNIT), 0, 0)
    }
}

/// Every row on screen, the selected row and the vertical scroll animator.
pub struct Grid {
    pub vert_offset: Lerper,
    pub rows: Vec<Row>,
    pub selection: usize,
}

impl Grid {
    pub open spec fn wf(self) -> bool {
        &&& self.vert_offset.wf()
        &&& self.rows@.len() <= MAX_CELLS
        &&& (self.rows@.len() == 0 ==> self.selection == 0)
        &&& (self.rows@.len() > 0 ==> self.selection < self.rows@.len())
        &&& forall|i: int| 0 <= i < self.rows@.len() ==> (#[trigger] self.rows@[i]).wf()
    }

    /// The vertical shift that brings row `row` to the origin.
    pub open spec fn offset_for(row: int) -> Transform {
        Transform::shift_spec(0, axis_offset(row), 0)
    }

    /// `next` is this grid after the selection moved to row `to` at `now`:
    /// the selected tile of the old row drops, that of the new row lifts, the
    /// grid scrolls to the new row.
    pub open spec fn moved_to(self, next: Grid, to: int, now: u64) -> bool {
        let from = self.selection as int;
        &&& next.selection == to
        &&& next.vert_offset == self.vert_offset.armed(Grid::offset_for(to), now)
        &&& next.rows@.len() == self.rows@.len()
        &&& forall|i: int|
            0 <= i < self.rows@.len() && i != from && i != to ==> #[trigger] next.rows@[i]
                == self.rows@[i]
        &&& self.rows@[from].retargeted_to(next.rows@[from], Transform::identity_spec(), now)
        &&& self.rows@[to].retargeted_to(next.rows@[to], selected_spec(), now)
    }

    /// What `up` at `now` turns this grid into.
    pub open spec fn up_step(self, next: Grid, now: u64) -> bool {
        if self.vert_offset.active(now) || self.selection == 0 {
            next == self
        } else {
            self.moved_to(next, self.selection - 1, now)
        }
    }

    /// What `down` at `now` turns this grid into.
    pub open spec fn down_step(self, next: Grid, now: u64) -> bool {
        if self.vert_offset.active(now) || self.selection + 1 >= self.rows@.len() {
            next == self
        } else {
            self.moved_to(next, self.selection + 1, now)
        }
    }

    /// `next` is this grid with the selected row replaced by one that
    /// `row_step` allows.
    pub open spec fn row_moved(
        self,
        next: Grid,
        row_step: spec_fn(Row, Row) -> bool,
    ) -> bool {
        if self.rows@.len() == 0 {
            next == self
        } else {
            &&& next.selection == self.selection
            &&& next.vert_offset == self.vert_offset
            &&& next.rows@.len() == self.rows@.len()
            &&& forall|i: int|
                0 <= i < self.rows@.len() && i != self.selection ==> #[trigger] next.rows@[i]
                    == self.rows@[i]
            &&& row_step(self.rows@[self.selection as int], next.rows@[self.selection as int])
        }
    }

    /// An empty grid.
    pub fn new() -> (r: Grid)
        ensures
            r.wf(),
            r.rows@.len() == 0,
            r.selection == 0,
            r.vert_offset == resting_spec(),
    {
        Grid { vert_offset: Lerper::new(), rows: Vec::new(), selection: 0 }
    }

    /// Appends a row for `set`, one fresh tile per item, then lifts the
    /// selected tile of the selected row.
    pub fn add(&mut self, set: CatalogSet, now: u64)
        requires
            old(self).wf(),
            old(self).rows@.len() < MAX_CELLS,
            set.items@.len() <= MAX_CELLS,
        ensures
            final(self).wf(),
            final(self).selection == old(self).selection,
            final(self).vert_offset == old(self).vert_offset,
            final(self).rows@.len() == old(self).rows@.len() + 1,
            forall|i: int|
                0 <= i < old(self).rows@.len() && i != old(self).selection ==> #[trigger] final(self).rows@[i] == old(self).rows@[i],
            old(self).rows@.len() > 0 ==> old(self).rows@[old(self).selection as int].retargeted_to(
                final(self).rows@[old(self).selection as int],
                selected_spec(),
                now,
            ),
            ({
                let last = final(self).rows@[old(self).rows@.len() as int];
                &&& last.set == set
                &&& last.selection == 0
                &&& last.offset == resting_spec()
                &&& old(self).rows@.len() > 0 ==> last.tiles@ == fresh_tiles(set.items@)
                &&& old(self).rows@.len() == 0 ==> last.tiles@ == retarget(
                    fresh_tiles(set.items@),
                    0,
                    selected_spec(),
                    now,
                )
            }),
    {
        let mut tiles: Vec<Tile> = Vec::new();
        let mut j: usize = 0;
        while j < set.items.len()
            invariant
                j <= set.items@.len(),
                tiles@ == fresh_tiles(set.items@.subrange(0, j as int)),
            decreases set.items@.len() - j,
        {
            let item = Item { image_url: set.items[j].image_url.clone() };
            tiles.push(Tile::new(item));
            proof {
                assert(set.items@.subrange(0, j + 1) == set.items@.subrange(0, j as int).push(
                    set.items@[j as int],
                ));
            }
            j = j + 1;
        }
        proof {
            assert(set.items@.subrange(0, j as int) == set.items@);
        }
        let row = Row::new(set, tiles);
        self.rows.push(row);
        self.select(now);
    }

    /// Moves the selection one row up, unless the vertical scroll is still
    /// running or the first row is selected.
    pub fn up(&mut self, now: u64)
        requires
            old(self).wf(),
        ensures
            old(self).up_step(*final(self), now),
            final(self).wf(),
    {
        if self.vert_offset.is_active(now) {
            return;
        }
        if self.selection > 0 {
            self.unselect(now);
            self.selection = self.selection - 1;
            let target = self.offset();
            self.vert_offset.next(target, now);
            self.select(now);
        }
    }

    /// Moves the selection one row down, unless the vertical scroll is still
    /// running or the last row is selected.
    pub fn down(&mut self, now: u64)
        requires
            old(self).wf(),
        ensures
            old(self).down_step(*final(self), now),
            final(self).wf(),
    {
        if self.vert_offset.is_active(now) {
            return;
        }
        if self.rows.len() > 0 && self.selection < self.rows.len() - 1 {
            self.unselect(now);
            self.selection = self.selection + 1;
            let target = self.offset();
            self.vert_offset.next(target, now);
            self.select(now);
        }
    }

    /// Moves the selection of the selected row one column left.
    pub fn left(&mut self, now: u64)
        requires
            old(self).wf(),
        ensures
            old(self).row_moved(*final(self), |r: Row, n: Row| r.left_step(n, now)),
            final(self).wf(),
    {
        let sel = self.selection;
        if sel < self.rows.len() {
            self.rows[sel].left(now);
        }
        proof {
            assert forall|i: int| 0 <= i < self.rows@.len() implies (
            #[trigger] self.rows@[i]).wf() by {
                if i != sel as int {
                    assert(self.rows@[i] == old(self).rows@[i]);
                }
            }
        }
    }

    /// Moves the selection of the selected row one column right.
    pub fn right(&mut self, now: u64)
        requires
            old(self).wf(),
        ensures
            old(self).row_moved(*final(self), |r: Row, n: Row| r.right_step(n, now)),
            final(self).wf(),
    {
        let sel = self.selection;
        if sel < self.rows.len() {
            self.rows[sel].right(now);
        }
        proof {
            assert forall|i: int| 0 <= i < self.rows@.len() implies (
            #[trigger] self.rows@[i]).wf() by {
                if i != sel as int {
                    assert(self.rows@[i] == old(self).rows@[i]);
                }
            }
        }
    }

    /// The vertical shift that brings the selected row to the origin.
    pub fn offset(&self) -> (r: Transform)
        requires
            self.selection <= MAX_CELLS,
        ensures
            r == Grid::offset_for(self.selection as int),
    {
        Transform::shift(0, -((self.selection as i64) * UNIT), 0)
    }

    fn unselect(&mut self, now: u64)
        requires
            old(self).wf(),
        ensures
            final(self).wf(),
            final(self).selection == old(self).selection,
            final(self).vert_offset == old(self).vert_offset,
            final(self).rows@.len() == old(self).rows@.len(),
            forall|i: int|
                0 <= i < old(self).rows@.len() && i != old(self).selection ==> #[trigger] final(self).rows@[i] == old(self).rows@[i],
            old(self).rows@.len() > 0 ==> old(self).rows@[old(self).selection as int].retargeted_to(
                final(self).rows@[old(self).selection as int],
                Transform::identity_spec(),
                now,
            ),
    {
        let sel = self.selection;
        if sel < self.rows.len() {
            self.rows[sel].unselect(now);
        }
        proof {
            assert forall|i: int| 0 <= i < self.rows@.len() implies (
            #[trigger] self.rows@[i]).wf() by {
                if i != sel as int {
                    assert(self.rows@[i] == old(self).rows@[i]);
                }
            }
        }
    }

    fn select(&mut self, now: u64)
        requires
            old(self).vert_offset.wf(),
            old(self).rows@.len() <= MAX_CELLS,
            old(self).rows@.len() > 0 ==> old(self).selection < old(self).rows@.len(),
            old(self).rows@.len() == 0 ==> old(self).selection == 0,
            forall|i: int| 0 <= i < old(self).rows@.len() ==> (#[trigger] old(self).rows@[i]).wf(),
        ensures
            final(self).wf(),
            final(self).selection == old(self).selection,
            final(self).vert_offset == old(self).vert_offset,
            final(self).rows@.len() == old(self).rows@.len(),
            forall|i: int|
                0 <= i < old(self).rows@.len() && i != old(self).selection ==> #[trigger] final(self).rows@[i] == old(self).rows@[i],
            old(self).rows@.len() > 0 ==> old(self).rows@[old(self).selection as int].retargeted_to(
                final(self).rows@[old(self).selection as int],
                selected_spec(),
                now,
            ),
    {
        let sel = self.selection;
        if sel < self.rows.len() {
            self.rows[sel].select(now);
        }
        proof {
            assert forall|i: int| 0 <= i < self.rows@.len() implies (
            #[trigger] self.rows@[i]).wf() by {
                if i != sel as int {
                    assert(self.rows@[i] == old(self).rows@[i]);
                }
            }
        }
    }
}

/// Moves at the edges change nothing: `up` on the first row and `down` on
/// the last leave the grid, its selection and its vertical target as they
/// were.
pub proof fn lemma_grid_edges_are_still(g: Grid, next: Grid, now: u64)
    requires
        g.wf(),
    ensures
        g.selection == 0 && g.up_step(next, now) ==> next == g,
        g.selection + 1 == g.rows@.len() && g.down_step(next, now) ==> next == g,
        g.rows@.len() == 0 && g.down_step(next, now) ==> next == g,
{
}

/// Moves at the edges change nothing: `left` on the first column and
/// `right` on the last leave the row, its selection and its horizontal
/// target as they were.
pub proof fn lemma_row_edges_are_still(r: Row, next: Row, now: u64)
    requires
        r.wf(),
    ensures
        r.selection == 0 && r.left_step(next, now) ==> next == r,
        r.selection + 1 >= r.tiles@.len() && r.right_step(next, now) ==> next == r,
{
}

/// Grid moves are gated: of two `down` calls, the second made before the
/// first one's transition has run its course, at most one takes effect.
/// When the first one moves the selection, the second changes nothing.
pub proof fn lemma_down_is_gated(g0: Grid, g1: Grid, g2: Grid, t1: u64, t2: u64)
    requires
        g0.wf(),
        g0.down_step(g1, t1),
        g1.down_step(g2, t2),
        t1 <= t2 < t1 + g0.vert_offset.duration,
    ensures
        g1 == g0 || g2 == g1,
        g1.selection != g0.selection ==> g2 == g1,
{
    if g1 != g0 {
        assert(g1.vert_offset.start_time == t1);
        assert(g1.vert_offset.active(t2));
    }
}

/// Where `k` upward moves from row `sel` end.
pub open spec fn after_ups(sel: int, k: int) -> int {
    if sel - k >= 0 {
        sel - k
    } else {
        0
    }
}

/// Where `k` downward moves from row `sel` end, in a grid of `n` rows.
pub open spec fn after_downs(sel: int, k: int, n: int) -> int {
    if sel + k <= n - 1 {
        sel + k
    } else {
        n - 1
    }
}

/// Grid `gs[i + 1]` is what `up` at time `ts[i]` made of grid `gs[i]`,
/// called once the vertical transition had run its course.
pub open spec fn idle_up(gs: Seq<Grid>, ts: Seq<u64>, i: int) -> bool {
    gs[i].up_step(gs[i + 1], ts[i]) && !gs[i].vert_offset.active(ts[i])
}

/// Grid `gs[i + 1]` is what `down` at time `ts[i]` made of grid `gs[i]`,
/// called once the vertical transition had run its course.
pub open spec fn idle_down(gs: Seq<Grid>, ts: Seq<u64>, i: int) -> bool {
    gs[i].down_step(gs[i + 1], ts[i]) && !gs[i].vert_offset.active(ts[i])
}

proof fn lemma_ups(gs: Seq<Grid>, ts: Seq<u64>, n: int, k: int)
    requires
        n >= 1,
        gs.len() == 2 * n + 1,
        ts.len() == 2 * n,
        gs[0].rows@.len() == n,
        gs[0].selection == n - 1,
        forall|i: int| 0 <= i < n ==> #[trigger] idle_up(gs, ts, i),
        0 <= k <= n,
    ensures
        gs[k].rows@.len() == n,
        gs[k].selection == after_ups(n - 1, k),
    decreases k,
{
    if k > 0 {
        lemma_ups(gs, ts, n, k - 1);
        assert(idle_up(gs, ts, k - 1));
    }
}

proof fn lemma_downs(gs: Seq<Grid>, ts: Seq<u64>, n: int, k: int)
    requires
        n >= 1,
        gs.len() == 2 * n + 1,
        ts.len() == 2 * n,
        gs[n].rows@.len() == n,
        gs[n].selection == 0,
        forall|i: int| n <= i < 2 * n ==> #[trigger] idle_down(gs, ts, i),
        0 <= k <= n,
    ensures
        gs[n + k].rows@.len() == n,
        gs[n + k].selection == after_downs(0, k, n),
    decreases k,
{
    if k > 0 {
        lemma_downs(gs, ts, n, k - 1);
        assert(idle_down(gs, ts, n + k - 1));
    }
}

/// Selection stays in bounds: in a grid of `n >= 1` rows with the last row
/// selected, `n` moves up followed by `n` moves down, each made once the
/// previous transition has run its course, bring the selection back to the
/// last row, and every selection on the way is a row of the grid.
/// `Grid::up` and `Grid::down` ensure `up_step` and `down_step`, so `gs`
/// is any run of those calls.
pub proof fn lemma_up_down_round_trip(gs: Seq<Grid>, ts: Seq<u64>, n: int)
    requires
        n >= 1,
        gs.len() == 2 * n + 1,
        ts.len() == 2 * n,
        gs[0].rows@.len() == n,
        gs[0].selection == n - 1,
        forall|i: int| 0 <= i < n ==> #[trigger] idle_up(gs, ts, i),
        forall|i: int| n <= i < 2 * n ==> #[trigger] idle_down(gs, ts, i),
    ensures
        gs[2 * n].selection == gs[0].selection,
        forall|i: int| 0 <= i <= 2 * n ==> #[trigger] gs[i].selection < n,
{
    lemma_ups(gs, ts, n, n);
    lemma_downs(gs, ts, n, n);
    assert forall|i: int| 0 <= i <= 2 * n implies #[trigger] gs[i].selection < n by {
        if i <= n {
            lemma_ups(gs, ts, n, i);
        } else {
            lemma_downs(gs, ts, n, i - n);
        }
    }
}

} // verus!
