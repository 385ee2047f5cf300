//! The automaton board: a rectangle of tiles that advances one generation
//! every few physics ticks, each cell computed from the board as it stood
//! before the step.

use vstd::prelude::*;
use crate::cell_rules::{CellEvents, CellRules, events_of, next_kind, non_empty_count};
use crate::tile_layer::TileEntry;

verus! {

/// Width and height of a tile in world units.
pub const TILE_SIZE: i64 = 64;

/// A rectangle of tiles: origin `(x, y)`, extent `w` by `h`.
#[derive(PartialEq, Eq, Structural, Clone, Copy, Debug)]
pub struct TileRect {
    pub x: i32,
    pub y: i32,
    pub w: i32,
    pub h: i32,
}

/// An event raised by one cell of the board, with the tile it stands on and
/// the world position of that tile's centre.
#[derive(PartialEq, Eq, Structural, Clone, Copy, Debug)]
pub struct CellEventAt {
    pub event: CellEvents,
    pub tile_x: i32,
    pub tile_y: i32,
    pub world_x: i64,
    pub world_y: i64,
}

/// What one generation step produces: the next board, row by row; the
/// events, in row-major order of the cells that raised them; and the tiles
/// to write back, every next kind but `ForceEmpty`, in row-major order.
pub struct GenerationStep {
    pub next: Vec<CellRules>,
    pub events: Vec<CellEventAt>,
    pub writes: Vec<TileEntry>,
}

/// The board that runs the automaton over `rect`.
pub struct DefenseLayer {
    pub update_phys_interval: i32,
    pub phys_clock: i32,
    pub rect: TileRect,
}

/// A rectangle whose tiles all have `i32` coordinates and whose cell count
/// fits in memory.
pub open spec fn rect_ok(r: TileRect) -> bool {
    &&& 0 <= r.w
    &&& 0 <= r.h
    &&& r.x + r.w <= i32::MAX
    &&& r.y + r.h <= i32::MAX
    &&& r.w * r.h <= usize::MAX
}

/// The kind at `(x, y)` of a row-major board `w` wide and `h` high; every
/// position off the board is `ForceEmpty`.
pub open spec fn cell_at(cells: Seq<CellRules>, w: int, h: int, x: int, y: int) -> CellRules {
    if 0 <= x < w && 0 <= y < h {
        cells[y * w + x]
    } else {
        CellRules::ForceEmpty
    }
}

/// The eight neighbours of `(x, y)`.
pub open spec fn neighbors_at(cells: Seq<CellRules>, w: int, h: int, x: int, y: int) -> Seq<
    CellRules,
> {
    seq![
        cell_at(cells, w, h, x + 1, y + 1),
        cell_at(cells, w, h, x + 1, y),
        cell_at(cells, w, h, x + 1, y - 1),
        cell_at(cells, w, h, x, y - 1),
        cell_at(cells, w, h, x - 1, y - 1),
        cell_at(cells, w, h, x - 1, y),
        cell_at(cells, w, h, x - 1, y + 1),
        cell_at(cells, w, h, x, y + 1),
    ]
}

/// Number of live neighbours of `(x, y)`.
pub open spec fn live_neighbors(cells: Seq<CellRules>, w: int, h: int, x: int, y: int) -> int {
    non_empty_count(neighbors_at(cells, w, h, x, y)) as int
}

/// The kind that `(x, y)` takes in the next generation.
pub open spec fn next_at(cells: Seq<CellRules>, w: int, h: int, x: int, y: int) -> CellRules {
    next_kind(cell_at(cells, w, h, x, y), live_neighbors(cells, w, h, x, y))
}

/// The events raised by the cell at `(x, y)` of `rect`'s board.
pub open spec fn events_at(cells: Seq<CellRules>, rect: TileRect, x: int, y: int) -> Seq<
    CellEventAt,
> {
    events_of(cell_at(cells, rect.w as int, rect.h as int, x, y), live_neighbors(cells, rect.w as int, rect.h as int, x, y)).map_values(
        |e: CellEvents|
            CellEventAt {
                event: e,
                tile_x: (rect.x + x) as i32,
                tile_y: (rect.y + y) as i32,
                world_x: ((rect.x + x) * TILE_SIZE + TILE_SIZE / 2) as i64,
                world_y: ((rect.y + y) * TILE_SIZE + TILE_SIZE / 2) as i64,
            },
    )
}

/// Events of the first `n` cells of row `y`.
pub open spec fn row_events(cells: Seq<CellRules>, rect: TileRect, y: int, n: int) -> Seq<
    CellEventAt,
>
    decreases n,
{
    if n <= 0 {
        seq![]
    } else {
        row_events(cells, rect, y, n - 1) + events_at(cells, rect, n - 1, y)
    }
}

/// Events of the first `k` rows of the board, row-major.
pub open spec fn board_events(cells: Seq<CellRules>, rect: TileRect, k: int) -> Seq<CellEventAt>
    decreases k,
{
    if k <= 0 {
        seq![]
    } else {
        board_events(cells, rect, k - 1) + row_events(cells, rect, k - 1, rect.w as int)
    }
}

/// The tile to write back for `(x, y)` of `rect`'s board: its next kind,
/// unless that is `ForceEmpty`, which is never written.
pub open spec fn write_at(cells: Seq<CellRules>, rect: TileRect, x: int, y: int) -> Seq<TileEntry> {
    let k = next_at(cells, rect.w as int, rect.h as int, x, y);
    if k != CellRules::ForceEmpty {
        seq![TileEntry { x: (rect.x + x) as i32, y: (rect.y + y) as i32, kind: k }]
    } else {
        seq![]
    }
}

/// Write-backs of the first `n` cells of row `y`.
pub open spec fn row_writes(cells: Seq<CellRules>, rect: TileRect, y: int, n: int) -> Seq<TileEntry>
    decreases n,
{
    if n <= 0 {
        seq![]
    } else {
        row_writes(cells, rect, y, n - 1) + write_at(cells, rect, n - 1, y)
    }
}

/// Write-backs of the first `k` rows of the board, row-major.
pub open spec fn board_writes(cells: Seq<CellRules>, rect: TileRect, k: int) -> Seq<TileEntry>
    decreases k,
{
    if k <= 0 {
        seq![]
    } else {
        board_writes(cells, rect, k - 1) + row_writes(cells, rect, k - 1, rect.w as int)
    }
}

proof fn lemma_index_in_board(w: int, h: int, x: int, y: int)
    requires
        0 <= x < w,
        0 <= y < h,
    ensures
        0 <= y * w + x < w * h,
        y * w + x < h * w,
        y * w + x + 1 <= w * h,
{
    assert(w * h == h * w) by (nonlinear_arith);
    assert(y * w + x < w * h) by (nonlinear_arith)
        requires
            0 <= x < w,
            0 <= y < h,
    ;
    assert(0 <= y * w) by (nonlinear_arith)
        requires
            0 <= w,
            0 <= y,
    ;
}

proof fn lemma_row_step(w: int, y: int)
    ensures
        y * w + w == (y + 1) * w,
{
    assert(y * w + w == (y + 1) * w) by (nonlinear_arith);
}

/// The events of `es` placed on the tile `(tile_x, tile_y)`.
pub open spec fn event_places(es: Seq<CellEvents>, tile_x: i32, tile_y: i32) -> Seq<CellEventAt> {
    es.map_values(
        |e: CellEvents|
            CellEventAt {
                event: e,
                tile_x: tile_x,
                tile_y: tile_y,
                world_x: (tile_x * TILE_SIZE + TILE_SIZE / 2) as i64,
                world_y: (tile_y * TILE_SIZE + TILE_SIZE / 2) as i64,
            },
    )
}

impl DefenseLayer {
    /// Appends the events of one cell, each with its tile and the world
    /// position of the tile's centre.
    fn push_events(events: &mut Vec<CellEventAt>, cell_events: &Vec<CellEvents>, tile_x: i32, tile_y: i32)
        ensures
            final(events)@ == old(events)@ + event_places(cell_events@, tile_x, tile_y),
    {
        let ghost start = events@;
        let ghost placed = event_places(cell_events@, tile_x, tile_y);
        let mut j: usize = 0;
        while j < cell_events.len()
            invariant
                0 <= j <= cell_events@.len(),
                placed == event_places(cell_events@, tile_x, tile_y),
                events@ == start + placed.take(j as int),
            decreases cell_events@.len() - j,
        {
            let wx = (tile_x as i64) * TILE_SIZE + TILE_SIZE / 2;
            let wy = (tile_y as i64) * TILE_SIZE + TILE_SIZE / 2;
            events.push(CellEventAt { event: cell_events[j], tile_x, tile_y, world_x: wx, world_y: wy });
            assert(placed.take(j + 1) == placed.take(j as int).push(placed[j as int]));
            j += 1;
        }
        assert(placed.take(cell_events@.len() as int) == placed);
    }

    /// Row-major index of `(x, y)` inside `rect`.
    pub fn map_vec_to_index(rect: TileRect, x: i32, y: i32) -> (r: usize)
        requires
            rect_ok(rect),
            0 <= x < rect.w,
            0 <= y < rect.h,
        ensures
            r as int == y * rect.w + x,
            r < rect.w * rect.h,
    {
        proof {
            lemma_index_in_board(rect.w as int, rect.h as int, x as int, y as int);
        }
        let x = x as usize;
        let cy = (y as usize) * (rect.w as usize);
        x + cy
    }

    /// The kind at `(x + dx, y + dy)` of the snapshot, `ForceEmpty` off the
    /// board.
    fn neighbor_kind(rect: TileRect, cells: &Vec<CellRules>, x: i32, y: i32, dx: i32, dy: i32) -> (r:
        CellRules)
        requires
            rect_ok(rect),
            cells@.len() == rect.w * rect.h,
            0 <= x < rect.w,
            0 <= y < rect.h,
            -1 <= dx <= 1,
            -1 <= dy <= 1,
        ensures
            r == cell_at(cells@, rect.w as int, rect.h as int, x + dx, y + dy),
    {
        let cx = x + dx;
        let cy = y + dy;
        if cx < 0 || cx >= rect.w {
            CellRules::ForceEmpty
        } else if cy < 0 || cy >= rect.h {
            CellRules::ForceEmpty
        } else {
            cells[Self::map_vec_to_index(rect, cx, cy)]
        }
    }

    /// One generation step over a snapshot of the board, `rect.w` by
    /// `rect.h` kinds in row-major order. Every next kind and event is
    /// computed from the snapshot alone.
    pub fn update_tiles(&self, cells: &Vec<CellRules>) -> (r: GenerationStep)
        requires
            rect_ok(self.rect),
            cells@.len() == self.rect.w * self.rect.h,
        ensures
            r.next@.len() == cells@.len(),
            forall|x: int, y: int|
                0 <= x < self.rect.w && 0 <= y < self.rect.h ==> #[trigger] r.next@[y * self.rect.w
                    + x] == next_at(cells@, self.rect.w as int, self.rect.h as int, x, y),
            r.events@ == board_events(cells@, self.rect, self.rect.h as int),
            r.writes@ == board_writes(cells@, self.rect, self.rect.h as int),
    {
        let rect = self.rect;
        let ghost w = rect.w as int;
        let ghost h = rect.h as int;
        let mut next: Vec<CellRules> = Vec::new();
        let mut events: Vec<CellEventAt> = Vec::new();
        let mut writes: Vec<TileEntry> = Vec::new();
        let mut y: i32 = 0;
        while y < rect.h
            invariant
                rect == self.rect,
                rect_ok(rect),
                w == rect.w,
                h == rect.h,
                cells@.len() == w * h,
                0 <= y <= h,
                next@.len() == y * w,
                forall|x2: int, y2: int|
                    0 <= x2 < w && 0 <= y2 < y ==> #[trigger] next@[y2 * w + x2] == next_at(
                        cells@,
                        w,
                        h,
                        x2,
                        y2,
                    ),
                events@ == board_events(cells@, rect, y as int),
                writes@ == board_writes(cells@, rect, y as int),
            decreases h - y,
        {
            let mut x: i32 = 0;
            let ghost before = events@;
            let ghost before_writes = writes@;
            while x < rect.w
                invariant
                    rect == self.rect,
                    rect_ok(rect),
                    w == rect.w,
                    h == rect.h,
                    cells@.len() == w * h,
                    0 <= y < h,
                    0 <= x <= w,
                    next@.len() == y * w + x,
                    forall|x2: int, y2: int|
                        0 <= x2 < w && 0 <= y2 < y ==> #[trigger] next@[y2 * w + x2] == next_at(
                            cells@,
                            w,
                            h,
                            x2,
                            y2,
                        ),
                    forall|x2: int| 0 <= x2 < x ==> #[trigger] next@[y * w + x2] == next_at(cells@, w, h, x2, y as int),
                    before == board_events(cells@, rect, y as int),
                    before_writes == board_writes(cells@, rect, y as int),
                    writes@ == before_writes + row_writes(cells@, rect, y as int, x as int),
                    events@ == before + row_events(cells@, rect, y as int, x as int),
                decreases w - x,
            {
                let i = Self::map_vec_to_index(rect, x, y);
                let neighbors = vec![
                    Self::neighbor_kind(rect, cells, x, y, 1, 1),
                    Self::neighbor_kind(rect, cells, x, y, 1, 0),
                    Self::neighbor_kind(rect, cells, x, y, 1, -1),
                    Self::neighbor_kind(rect, cells, x, y, 0, -1),
                    Self::neighbor_kind(rect, cells, x, y, -1, -1),
                    Self::neighbor_kind(rect, cells, x, y, -1, 0),
                    Self::neighbor_kind(rect, cells, x, y, -1, 1),
                    Self::neighbor_kind(rect, cells, x, y, 0, 1),
                ];
                assert(neighbors@ == neighbors_at(cells@, w, h, x as int, y as int));
                let cell_rules = cells[i];
                assert(cell_rules == cell_at(cells@, w, h, x as int, y as int));
                let cell_events = cell_rules.events(&neighbors);
                let tile_x = x + rect.x;
                let tile_y = y + rect.y;
                Self::push_events(&mut events, &cell_events, tile_x, tile_y);
                assert(events_at(cells@, rect, x as int, y as int) == event_places(cell_events@, tile_x, tile_y));
                assert(row_events(cells@, rect, y as int, x + 1) == row_events(cells@, rect, y as int, x as int) + events_at(cells@, rect, x as int, y as int));
                let t = cell_rules.next_cell(&neighbors);
                let ghost prev = next@;
                if t.can_set() {
                    writes.push(TileEntry { x: tile_x, y: tile_y, kind: t });
                }
                assert(row_writes(cells@, rect, y as int, x + 1) == row_writes(cells@, rect, y as int, x as int) + write_at(cells@, rect, x as int, y as int));
                next.push(t);
                assert forall|x2: int, y2: int|
                    0 <= x2 < w && 0 <= y2 < y implies #[trigger] next@[y2 * w + x2] == next_at(cells@, w, h, x2, y2) by {
                    lemma_index_in_board(w, y as int, x2, y2);
                    assert(next@[y2 * w + x2] == prev[y2 * w + x2]);
                }
                assert forall|x2: int| 0 <= x2 < x + 1 implies #[trigger] next@[y * w + x2] == next_at(cells@, w, h, x2, y as int) by {
                    if x2 < x {
                        assert(next@[y * w + x2] == prev[y * w + x2]);
                    }
                }
                x += 1;
            }
            proof {
                lemma_row_step(w, y as int);
            }
            assert(board_events(cells@, rect, y + 1) == board_events(cells@, rect, y as int) + row_events(cells@, rect, y as int, w));
            assert(board_writes(cells@, rect, y + 1) == board_writes(cells@, rect, y as int) + row_writes(cells@, rect, y as int, w));
            y += 1;
        }
        assert(h * w == w * h) by (nonlinear_arith);
        GenerationStep { next, events, writes }
    }

    /// One physics tick: returns whether a generation step is due, and
    /// restarts the count when it is.
    pub fn physics_process(&mut self) -> (r: bool)
        requires
            old(self).phys_clock < i32::MAX,
        ensures
            r == (old(self).phys_clock + 1 >= old(self).update_phys_interval),
            final(self).phys_clock == if r { 0 } else { old(self).phys_clock + 1 },
            final(self).update_phys_interval == old(self).update_phys_interval,
            final(self).rect == old(self).rect,
    {
        self.phys_clock += 1;
        if self.phys_clock >= self.update_phys_interval {
            self.phys_clock = 0;
            true
        } else {
            false
        }
    }
}

} // verus!
