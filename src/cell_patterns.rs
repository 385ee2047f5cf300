//! Patterns: small player-authored clusters of cells, painted while
//! drawing and stamped onto the board while defending, paid for out of the
//! energy pool; and the toolbox that selects the active pattern and brush.

use vstd::prelude::*;
use vstd::arithmetic::div_mod::{lemma_fundamental_div_mod, lemma_mod_bound};
use crate::cell_rules::{CellCosts, CellError, CellRules, cost_of, is_user_replaceable};
use crate::ingame_state_tracker::GameplayState;
use crate::player_energy::PlayerEnergy;
use crate::tile_layer::{TileEntry, TileLayer, key, lookup, tiles_wf, written, lemma_lookup_absent};

verus! {

/// Summed cost of the tiles of `s` under `costs`.
pub open spec fn layer_cost(s: Seq<TileEntry>, costs: CellCosts) -> int
    decreases s.len(),
{
    if s.len() == 0 {
        0
    } else {
        layer_cost(s.drop_last(), costs) + cost_of(s.last().kind, costs)
    }
}

/// Whether `s` holds a `PermaCell`.
pub open spec fn has_perma(s: Seq<TileEntry>) -> bool {
    exists|i: int| 0 <= i < s.len() && (#[trigger] s[i]).kind == CellRules::PermaCell
}

/// Sum of the tiles' `x` coordinates.
pub open spec fn sum_x(s: Seq<TileEntry>) -> int {
    s.fold_left(0int, |acc: int, e: TileEntry| acc + e.x)
}

/// Sum of the tiles' `y` coordinates.
pub open spec fn sum_y(s: Seq<TileEntry>) -> int {
    s.fold_left(0int, |acc: int, e: TileEntry| acc + e.y)
}

/// `a / n` rounded to the nearest integer, halves away from zero.
pub open spec fn round_div(a: int, n: int) -> int {
    if a >= 0 {
        (2 * a + n) / (2 * n)
    } else {
        -((-2 * a + n) / (2 * n))
    }
}

/// The centroid of the tiles' positions, the arithmetic mean rounded to
/// the nearest tile; `(0, 0)` for no tiles.
pub open spec fn centroid(s: Seq<TileEntry>) -> (int, int) {
    if s.len() == 0 {
        (0, 0)
    } else {
        (round_div(sum_x(s), s.len() as int), round_div(sum_y(s), s.len() as int))
    }
}

/// The shift that brings the centroid of `s` onto `(cx, cy)`.
pub open spec fn placement_offset(s: Seq<TileEntry>, cx: int, cy: int) -> (int, int) {
    (cx - centroid(s).0, cy - centroid(s).1)
}

/// Every tile of `s`, shifted by `off`, lands on an `i32` position.
pub open spec fn placement_fits(s: Seq<TileEntry>, off: (int, int)) -> bool {
    forall|i: int|
        0 <= i < s.len() ==> i32::MIN <= (#[trigger] s[i]).x + off.0 <= i32::MAX && i32::MIN <= s[i].y
            + off.1 <= i32::MAX
}

/// The kind at `k` after stamping `pat` shifted by `off` onto `before`:
/// the pattern's tile where it has one and either validity is not checked
/// or the tile it lands on is user-replaceable; otherwise `before`'s.
pub open spec fn place_kind(
    pat: Seq<TileEntry>,
    before: Seq<TileEntry>,
    off: (int, int),
    check_valid: bool,
    k: (int, int),
) -> CellRules {
    let src = lookup(pat, (k.0 - off.0, k.1 - off.1));
    if src != CellRules::ForceEmpty && (!check_valid || is_user_replaceable(lookup(before, k))) {
        src
    } else {
        lookup(before, k)
    }
}

/// `after` reads everywhere as `before` with `pat` stamped on it.
pub open spec fn placed(
    pat: Seq<TileEntry>,
    before: Seq<TileEntry>,
    after: Seq<TileEntry>,
    off: (int, int),
    check_valid: bool,
) -> bool {
    forall|k: (int, int)| #[trigger] lookup(after, k) == place_kind(pat, before, off, check_valid, k)
}

proof fn lemma_round_half(a: int, n: int, m: int)
    requires
        0 < n,
        0 <= m,
        0 <= a <= n * m,
    ensures
        0 <= (2 * a + n) / (2 * n) <= m,
{
    let d = 2 * n;
    let x = 2 * a + n;
    lemma_fundamental_div_mod(x, d);
    lemma_mod_bound(x, d);
    let q = x / d;
    let r = x % d;
    assert(x == d * q + r);
    assert(0 <= q) by (nonlinear_arith)
        requires
            x == d * q + r,
            0 <= r < d,
            0 <= x,
            0 < d,
    ;
    assert(q <= m) by (nonlinear_arith)
        requires
            x == d * q + r,
            0 <= r,
            d == 2 * n,
            x == 2 * a + n,
            a <= n * m,
            0 < n,
    ;
}

/// A mean of `i32` values, rounded, is an `i32`.
proof fn lemma_round_div_bounds(a: int, n: int)
    requires
        0 < n,
        n * i32::MIN <= a <= n * i32::MAX,
    ensures
        i32::MIN <= round_div(a, n) <= i32::MAX,
{
    if a >= 0 {
        lemma_round_half(a, n, i32::MAX as int);
    } else {
        lemma_round_half(-a, n, 0x8000_0000int);
    }
}

proof fn lemma_sum_step(s: Seq<TileEntry>, i: int)
    requires
        0 <= i < s.len(),
    ensures
        sum_x(s.take(i + 1)) == sum_x(s.take(i)) + s[i].x,
        sum_y(s.take(i + 1)) == sum_y(s.take(i)) + s[i].y,
{
    assert(s.take(i + 1).drop_last() == s.take(i));
}

proof fn lemma_cost_step(s: Seq<TileEntry>, costs: CellCosts, i: int)
    requires
        0 <= i < s.len(),
    ensures
        layer_cost(s.take(i + 1), costs) == layer_cost(s.take(i), costs) + cost_of(s[i].kind, costs),
{
    assert(s.take(i + 1).drop_last() == s.take(i));
}

/// The mean `sum / n`, rounded to the nearest integer, halves away from
/// zero.
fn rounded_mean(sum: i128, n: usize) -> (r: i32)
    requires
        0 < n,
        (n as int) * i32::MIN <= sum <= (n as int) * i32::MAX,
    ensures
        r == round_div(sum as int, n as int),
{
    proof {
        lemma_round_div_bounds(sum as int, n as int);
    }
    let d: u128 = 2 * (n as u128);
    if sum >= 0 {
        let q: u128 = (2 * (sum as u128) + n as u128) / d;
        q as i32
    } else {
        let q: u128 = (2 * ((-sum) as u128) + n as u128) / d;
        -(q as i128) as i32
    }
}

proof fn lemma_layer_cost_nonneg(s: Seq<TileEntry>, costs: CellCosts)
    requires
        costs.wf(),
    ensures
        0 <= layer_cost(s, costs),
    decreases s.len(),
{
    if s.len() > 0 {
        lemma_layer_cost_nonneg(s.drop_last(), costs);
    }
}

/// What a pattern did in one frame of the defending phase.
#[derive(PartialEq, Eq, Structural, Clone, Copy, Debug)]
pub enum DefendOutcome {
    /// The pattern is not the active one.
    Disabled,
    /// The pattern's cost cannot be computed.
    InvalidPattern(CellError),
    /// The pattern costs more than the pool holds; `alert` when a
    /// placement was asked for, so the player is told.
    Unaffordable { alert: bool },
    /// Centred on the pointer, the pattern would leave the coordinate range.
    OutOfRange,
    /// The preview shows the pattern at the pointer.
    Hovering,
    /// The cost was debited and the pattern stamped onto the board.
    Placed,
}

/// One defending frame of a pattern with tiles `s` paid at `costs`, with
/// the pointer on `(mouse_x, mouse_y)`: from energy `e0`, board `t0` and
/// preview `p0` to `e1`, `t1` and `p1`, with outcome `r`. A disabled
/// pattern, an invalid one, or one the pool cannot pay for changes
/// nothing. Otherwise the preview shows the pattern at the pointer, and
/// when placement is asked for, the cost is debited, the pattern is
/// stamped over user-replaceable tiles of the board, and the preview is
/// cleared.
pub open spec fn defended(
    s: Seq<TileEntry>,
    costs: CellCosts,
    enabled: bool,
    e0: PlayerEnergy,
    e1: PlayerEnergy,
    t0: Seq<TileEntry>,
    t1: Seq<TileEntry>,
    p0: Seq<TileEntry>,
    p1: Seq<TileEntry>,
    mouse_x: int,
    mouse_y: int,
    place_pressed: bool,
    r: DefendOutcome,
) -> bool {
    let cost = layer_cost(s, costs);
    let off = placement_offset(s, mouse_x, mouse_y);
    if !enabled {
        &&& r == DefendOutcome::Disabled
        &&& e1 == e0
        &&& t1 == t0
        &&& p1 == p0
    } else if has_perma(s) || cost > i32::MAX {
        &&& r == DefendOutcome::InvalidPattern(
            if has_perma(s) {
                CellError::IllegalCostQuery
            } else {
                CellError::CostOverflow
            },
        )
        &&& e1 == e0
        &&& t1 == t0
        &&& p1 == p0
    } else if cost > e0.current() {
        &&& r == (DefendOutcome::Unaffordable { alert: place_pressed })
        &&& e1 == e0
        &&& t1 == t0
        &&& p1 == p0
    } else if !placement_fits(s, off) {
        &&& r == DefendOutcome::OutOfRange
        &&& e1 == e0
        &&& t1 == t0
        &&& p1 == Seq::<TileEntry>::empty()
    } else if !place_pressed {
        &&& r == DefendOutcome::Hovering
        &&& e1 == e0
        &&& t1 == t0
        &&& placed(s, Seq::<TileEntry>::empty(), p1, off, false)
    } else {
        &&& r == DefendOutcome::Placed
        &&& e1.current() == e0.current() - cost
        &&& e1.max() == e0.max()
        &&& e1.timer() == e0.timer()
        &&& e1.interval() == e0.interval()
        &&& e1.per_interval() == e0.per_interval()
        &&& placed(s, t0, t1, off, true)
        &&& p1 == Seq::<TileEntry>::empty()
    }
}

/// A pattern: its own tile surface, the costs it is paid by, whether it is
/// the active one, and the last tile painted, which stops a held pointer
/// repainting the same tile.
pub struct CellPattern {
    pub tiles: TileLayer,
    pub costs: CellCosts,
    pub enabled: bool,
    pub last_mouse_pos: (i32, i32),
}

impl CellPattern {
    pub open spec fn wf(&self) -> bool {
        self.tiles.wf() && self.costs.wf()
    }

    pub open spec fn is_enabled(&self) -> bool {
        self.enabled
    }

    pub open spec fn last_painted(&self) -> (i32, i32) {
        self.last_mouse_pos
    }

    /// A disabled pattern with the given tiles, paid for at `costs`.
    pub fn new(tiles: TileLayer, costs: CellCosts) -> (r: Self)
        requires
            tiles.wf(),
            costs.wf(),
        ensures
            r.wf(),
            r.tiles@ == tiles@,
            r.costs == costs,
            !r.is_enabled(),
            r.last_painted() == (0i32, 0i32),
    {
        CellPattern { tiles, costs, enabled: false, last_mouse_pos: (0, 0) }
    }

    /// Whether this is the active pattern.
    pub fn get_enabled(&self) -> (r: bool)
        ensures
            r == self.is_enabled(),
    {
        self.enabled
    }

    /// Cost of placing the pattern, recomputed from its current tiles.
    pub fn get_cost(&self) -> (r: Result<i32, CellError>)
        requires
            self.wf(),
        ensures
            has_perma(self.tiles@) ==> r == Err::<i32, CellError>(CellError::IllegalCostQuery),
            !has_perma(self.tiles@) && layer_cost(self.tiles@, self.costs) > i32::MAX ==> r == Err::<
                i32,
                CellError,
            >(CellError::CostOverflow),
            !has_perma(self.tiles@) && layer_cost(self.tiles@, self.costs) <= i32::MAX ==> r == Ok::<
                i32,
                CellError,
            >(layer_cost(self.tiles@, self.costs) as i32),
    {
        let cells = self.tiles.entries();
        let ghost s = cells@;
        let mut cost: i128 = 0;
        let mut i: usize = 0;
        while i < cells.len()
            invariant
                s == cells@,
                s == self.tiles@,
                self.costs.wf(),
                i <= s.len(),
                cost == layer_cost(s.take(i as int), self.costs),
                0 <= cost <= i * 0x7fff_ffff,
                forall|j: int| 0 <= j < i ==> (#[trigger] s[j]).kind != CellRules::PermaCell,
            decreases s.len() - i,
        {
            proof {
                lemma_cost_step(s, self.costs, i as int);
            }
            let kind = cells[i].kind;
            if kind == CellRules::PermaCell {
                return Err(CellError::IllegalCostQuery);
            }
            cost = cost + kind.to_cost(&self.costs) as i128;
            i += 1;
        }
        assert(s.take(s.len() as int) == s);
        if cost > i32::MAX as i128 {
            Err(CellError::CostOverflow)
        } else {
            Ok(cost as i32)
        }
    }

    /// The pattern's centroid, rounded to the nearest tile; `(0, 0)` when
    /// it has no tiles.
    pub fn get_center(&self) -> (r: (i32, i32))
        ensures
            r.0 == centroid(self.tiles@).0,
            r.1 == centroid(self.tiles@).1,
    {
        let cells = self.tiles.entries();
        let ghost s = cells@;
        let mut sx: i128 = 0;
        let mut sy: i128 = 0;
        let mut i: usize = 0;
        while i < cells.len()
            invariant
                s == cells@,
                i <= s.len(),
                sx == sum_x(s.take(i as int)),
                sy == sum_y(s.take(i as int)),
                (i as int) * i32::MIN <= sx <= (i as int) * i32::MAX,
                (i as int) * i32::MIN <= sy <= (i as int) * i32::MAX,
            decreases s.len() - i,
        {
            proof {
                lemma_sum_step(s, i as int);
            }
            sx = sx + cells[i].x as i128;
            sy = sy + cells[i].y as i128;
            i += 1;
        }
        assert(s.take(s.len() as int) == s);
        if cells.len() == 0 {
            return (0, 0);
        }
        (rounded_mean(sx, cells.len()), rounded_mean(sy, cells.len()))
    }

    /// Stamps the pattern onto `target` so that its centroid lands on
    /// `(center_x, center_y)`. With `check_valid`, a tile is written only
    /// over a user-replaceable one; without, every tile is written. Returns
    /// `false`, writing nothing, when a tile would land off the `i32`
    /// coordinate range.
    pub fn place(&self, target: &mut TileLayer, center_x: i32, center_y: i32, check_valid: bool) -> (r:
        bool)
        requires
            self.wf(),
            old(target).wf(),
        ensures
            final(target).wf(),
            r == placement_fits(self.tiles@, placement_offset(self.tiles@, center_x as int, center_y as int)),
            r ==> placed(
                self.tiles@,
                old(target)@,
                final(target)@,
                placement_offset(self.tiles@, center_x as int, center_y as int),
                check_valid,
            ),
            !r ==> final(target)@ == old(target)@,
    {
        let ghost before = target@;
        let ghost pat = self.tiles@;
        let (cells_center_x, cells_center_y) = self.get_center();
        let off_x: i64 = center_x as i64 - cells_center_x as i64;
        let off_y: i64 = center_y as i64 - cells_center_y as i64;
        let ghost off = (off_x as int, off_y as int);
        assert(off == placement_offset(pat, center_x as int, center_y as int));
        let cells = self.tiles.entries();
        let mut i: usize = 0;
        while i < cells.len()
            invariant
                pat == cells@,
                pat == self.tiles@,
                target.wf(),
                target@ == before,
                off == placement_offset(pat, center_x as int, center_y as int),
                i <= pat.len(),
                forall|j: int|
                    0 <= j < i ==> i32::MIN <= (#[trigger] pat[j]).x + off.0 <= i32::MAX && i32::MIN
                        <= pat[j].y + off.1 <= i32::MAX,
                off == (off_x as int, off_y as int),
                -0x1_0000_0000 <= off_x <= 0x1_0000_0000,
                -0x1_0000_0000 <= off_y <= 0x1_0000_0000,
            decreases pat.len() - i,
        {
            let tx: i64 = cells[i].x as i64 + off_x;
            let ty: i64 = cells[i].y as i64 + off_y;
            if tx < i32::MIN as i64 || tx > i32::MAX as i64 || ty < i32::MIN as i64 || ty > i32::MAX as i64 {
                assert(!(i32::MIN <= pat[i as int].x + off.0 <= i32::MAX && i32::MIN <= pat[i as int].y + off.1 <= i32::MAX));
                return false;
            }
            i += 1;
        }
        let mut i: usize = 0;
        while i < cells.len()
            invariant
                pat == cells@,
                tiles_wf(pat),
                i <= pat.len(),
                placement_fits(pat, off),
                off == (off_x as int, off_y as int),
                target.wf(),
                forall|k: (int, int)| #[trigger] lookup(target@, k) == place_kind(pat.take(i as int), before, off, check_valid, k),
            decreases pat.len() - i,
        {
            let e = cells[i];
            let tx = (e.x as i64 + off_x) as i32;
            let ty = (e.y as i64 + off_y) as i32;
            let ghost tk = (tx as int, ty as int);
            let ghost prefix = pat.take(i as int);
            proof {
                assert forall|j: int| 0 <= j < prefix.len() implies key(#[trigger] prefix[j]) != key(e) by {
                    assert(prefix[j] == pat[j]);
                }
                lemma_lookup_absent(prefix, key(e));
                assert(pat.take(i + 1).drop_last() == prefix);
                assert(pat.take(i + 1).last() == e);
                assert(lookup(target@, tk) == place_kind(prefix, before, off, check_valid, tk));
            }
            let target_tile = target.get_cell(tx, ty);
            if target_tile.user_replaceable() || !check_valid {
                target.set_cell(tx, ty, e.kind);
            }
            proof {
                assert forall|k: (int, int)| #[trigger] lookup(target@, k) == place_kind(pat.take(i + 1), before, off, check_valid, k) by {
                    if k != tk {
                        assert((k.0 - off.0, k.1 - off.1) != key(e));
                    }
                }
            }
            i += 1;
        }
        assert(pat.take(pat.len() as int) == pat);
        true
    }

    /// Redraws the preview: clears it, then stamps the pattern on it at
    /// `(center_x, center_y)` without validity checks.
    pub fn update_hover(&self, preview: &mut TileLayer, center_x: i32, center_y: i32) -> (r: bool)
        requires
            self.wf(),
        ensures
            final(preview).wf(),
            r == placement_fits(self.tiles@, placement_offset(self.tiles@, center_x as int, center_y as int)),
            r ==> placed(
                self.tiles@,
                Seq::<TileEntry>::empty(),
                final(preview)@,
                placement_offset(self.tiles@, center_x as int, center_y as int),
                false,
            ),
            !r ==> final(preview)@ == Seq::<TileEntry>::empty(),
    {
        preview.clear();
        self.place(preview, center_x, center_y, false)
    }
}

impl CellPattern {
    /// Turns the pattern on or off; a change clears the preview.
    pub fn set_enabled(&mut self, enabled: bool, preview: &mut TileLayer)
        requires
            old(preview).wf(),
        ensures
            final(self).enabled == enabled,
            final(self).tiles == old(self).tiles,
            final(self).costs == old(self).costs,
            final(self).last_mouse_pos == old(self).last_mouse_pos,
            final(preview).wf(),
            old(self).enabled != enabled ==> final(preview)@ == Seq::<TileEntry>::empty(),
            old(self).enabled == enabled ==> final(preview)@ == old(preview)@,
    {
        if self.enabled != enabled {
            self.enabled = enabled;
            preview.clear();
        }
    }

    /// Paints `brush` at `(x, y)` of the pattern; a `ForceEmpty` brush
    /// erases the tile instead.
    pub fn draw_cell(&mut self, x: i32, y: i32, brush: CellRules)
        requires
            old(self).wf(),
        ensures
            final(self).wf(),
            written(old(self).tiles@, final(self).tiles@, (x as int, y as int), brush),
            final(self).costs == old(self).costs,
            final(self).enabled == old(self).enabled,
            final(self).last_mouse_pos == old(self).last_mouse_pos,
    {
        if brush == CellRules::ForceEmpty {
            self.tiles.erase_cell(x, y);
        } else {
            self.tiles.set_cell(x, y, brush);
        }
    }

    /// Handles the paint input while drawing: the active pattern paints
    /// the pointer's tile with `brush` when the paint action was just
    /// pressed, or is held and the pointer has moved to another tile.
    /// Returns whether it painted.
    pub fn unhandled_input(
        &mut self,
        state: GameplayState,
        mouse_x: i32,
        mouse_y: i32,
        just_pressed: bool,
        held: bool,
        brush: CellRules,
    ) -> (r: bool)
        requires
            old(self).wf(),
        ensures
            final(self).wf(),
            r == (old(self).enabled && state == GameplayState::DRAWING && (just_pressed || (held
                && (mouse_x, mouse_y) != old(self).last_mouse_pos))),
            r ==> written(old(self).tiles@, final(self).tiles@, (mouse_x as int, mouse_y as int), brush)
                && final(self).last_mouse_pos == (mouse_x, mouse_y) && final(self).enabled == old(self).enabled
                && final(self).costs == old(self).costs,
            !r ==> *final(self) == *old(self),
    {
        if !self.enabled {
            return false;
        }
        if state == GameplayState::DRAWING {
            let moved = mouse_x != self.last_mouse_pos.0 || mouse_y != self.last_mouse_pos.1;
            let valid = just_pressed || (held && moved);
            if valid {
                self.draw_cell(mouse_x, mouse_y, brush);
                self.last_mouse_pos = (mouse_x, mouse_y);
                return true;
            }
        }
        false
    }

    /// One frame of the defending phase for this pattern, with the pointer
    /// on `(mouse_x, mouse_y)`. An active pattern that the pool can pay
    /// for is previewed at the pointer; when placement is asked for, the
    /// cost is debited and the pattern stamped onto `target` over
    /// user-replaceable tiles only, and the preview is cleared.
    pub fn defending_process(
        &self,
        energy: &mut PlayerEnergy,
        target: &mut TileLayer,
        preview: &mut TileLayer,
        mouse_x: i32,
        mouse_y: i32,
        place_pressed: bool,
    ) -> (r: DefendOutcome)
        requires
            self.wf(),
            old(energy).wf(),
            old(target).wf(),
            old(preview).wf(),
        ensures
            final(energy).wf(),
            final(target).wf(),
            final(preview).wf(),
            defended(
                self.tiles@,
                self.costs,
                self.enabled,
                *old(energy),
                *final(energy),
                old(target)@,
                final(target)@,
                old(preview)@,
                final(preview)@,
                mouse_x as int,
                mouse_y as int,
                place_pressed,
                r,
            ),
    {
        if !self.enabled {
            return DefendOutcome::Disabled;
        }
        let cost = match self.get_cost() {
            Ok(c) => c,
            Err(e) => {
                return DefendOutcome::InvalidPattern(e);
            },
        };
        proof {
            lemma_layer_cost_nonneg(self.tiles@, self.costs);
        }
        if !energy.can_use(cost) {
            return DefendOutcome::Unaffordable { alert: place_pressed };
        }
        if !self.update_hover(preview, mouse_x, mouse_y) {
            return DefendOutcome::OutOfRange;
        }
        if !place_pressed {
            return DefendOutcome::Hovering;
        }
        if energy.try_use(cost) {
            self.place(target, mouse_x, mouse_y, true);
        }
        preview.clear();
        DefendOutcome::Placed
    }
}

/// `a` and `b` hold the same patterns, enabled or not, in the same order.
pub open spec fn same_patterns(a: Seq<CellPattern>, b: Seq<CellPattern>) -> bool {
    &&& a.len() == b.len()
    &&& forall|i: int|
        0 <= i < a.len() ==> (#[trigger] a[i]).tiles == b[i].tiles && a[i].costs == b[i].costs
            && a[i].last_mouse_pos == b[i].last_mouse_pos
}

/// Sets the enabled flag of the pattern at `i`.
fn update_enabled(patterns: &mut Vec<CellPattern>, i: usize, enabled: bool, preview: &mut TileLayer)
    requires
        i < old(patterns)@.len(),
        old(preview).wf(),
    ensures
        same_patterns(old(patterns)@, final(patterns)@),
        forall|j: int| 0 <= j < old(patterns)@.len() && j != i ==> #[trigger] final(patterns)@[j] == old(patterns)@[j],
        final(patterns)@[i as int].enabled == enabled,
        final(preview).wf(),
        old(patterns)@[i as int].enabled != enabled ==> final(preview)@ == Seq::<TileEntry>::empty(),
        old(patterns)@[i as int].enabled == enabled ==> final(preview)@ == old(preview)@,
{
    let mut p = patterns.remove(i);
    p.set_enabled(enabled, preview);
    patterns.insert(i, p);
}

/// The selection state: the patterns, exactly one of them enabled, the
/// preview layer they share, and the brush kinds to paint with.
pub struct CellPatternToolbox {
    patterns: Vec<CellPattern>,
    preview: TileLayer,
    selected_pattern: u8,
    brush_tiles: Vec<u16>,
    selected_tile: u8,
}

impl CellPatternToolbox {
    pub closed spec fn patterns(&self) -> Seq<CellPattern> {
        self.patterns@
    }

    pub closed spec fn preview_tiles(&self) -> Seq<TileEntry> {
        self.preview@
    }

    /// Index of the selected pattern.
    pub closed spec fn selected(&self) -> int {
        self.selected_pattern as int
    }

    /// The brush kinds, as tile ids.
    pub closed spec fn brushes(&self) -> Seq<u16> {
        self.brush_tiles@
    }

    /// Index of the selected brush.
    pub closed spec fn selected_brush_index(&self) -> int {
        self.selected_tile as int
    }

    pub open spec fn wf(&self) -> bool {
        &&& 1 <= self.patterns().len() <= 256
        &&& 0 <= self.selected() < self.patterns().len()
        &&& 1 <= self.brushes().len() <= 256
        &&& 0 <= self.selected_brush_index() < self.brushes().len()
        &&& forall|i: int|
            0 <= i < self.patterns().len() ==> (#[trigger] self.patterns()[i]).wf()
                && self.patterns()[i].enabled == (i == self.selected())
        &&& tiles_wf(self.preview_tiles())
    }

    /// A toolbox over `patterns` and `brush_tiles`, with the pattern at
    /// `selected_pattern` and the first brush selected; `None` unless there
    /// are between 1 and 256 of each and `selected_pattern` is a pattern.
    pub fn new(patterns: Vec<CellPattern>, selected_pattern: u8, brush_tiles: Vec<u16>) -> (r: Option<Self>)
        requires
            forall|i: int| 0 <= i < patterns@.len() ==> (#[trigger] patterns@[i]).wf(),
        ensures
            r.is_some() == (1 <= patterns@.len() <= 256 && 1 <= brush_tiles@.len() <= 256
                && selected_pattern < patterns@.len()),
            r matches Some(t) ==> {
                &&& t.wf()
                &&& same_patterns(patterns@, t.patterns())
                &&& t.selected() == selected_pattern
                &&& t.brushes() == brush_tiles@
                &&& t.selected_brush_index() == 0
                &&& t.preview_tiles() == Seq::<TileEntry>::empty()
            },
    {
        if patterns.len() == 0 || patterns.len() > 256 || brush_tiles.len() == 0 || brush_tiles.len() > 256
            || selected_pattern as usize >= patterns.len() {
            return None;
        }
        let mut patterns = patterns;
        let ghost start = patterns@;
        let mut preview = TileLayer::new();
        let mut i: usize = 0;
        while i < patterns.len()
            invariant
                i <= patterns@.len(),
                same_patterns(start, patterns@),
                forall|j: int| 0 <= j < patterns@.len() ==> (#[trigger] patterns@[j]).wf(),
                forall|j: int| 0 <= j < i ==> (#[trigger] patterns@[j]).enabled == (j == selected_pattern),
                preview.wf(),
            decreases patterns@.len() - i,
        {
            let ghost prev = patterns@;
            update_enabled(&mut patterns, i, i == selected_pattern as usize, &mut preview);
            proof {
                assert forall|j: int| 0 <= j < patterns@.len() implies (#[trigger] patterns@[j]).wf() by {
                    assert(patterns@[j].tiles == prev[j].tiles);
                    assert(patterns@[j].costs == prev[j].costs);
                }
                assert forall|j: int| 0 <= j < i + 1 implies (#[trigger] patterns@[j]).enabled == (j == selected_pattern) by {
                    if j != i {
                        assert(patterns@[j] == prev[j]);
                    }
                }
                assert forall|j: int| 0 <= j < start.len() implies (#[trigger] start[j]).tiles == patterns@[j].tiles && start[j].last_mouse_pos == patterns@[j].last_mouse_pos by {
                    assert(prev[j].tiles == patterns@[j].tiles);
                }
            }
            i += 1;
        }
        preview.clear();
        Some(CellPatternToolbox { patterns, preview, selected_pattern, brush_tiles, selected_tile: 0 })
    }

    /// The preview layer.
    pub fn preview(&self) -> (r: &TileLayer)
        ensures
            r@ == self.preview_tiles(),
    {
        &self.preview
    }

    /// Number of patterns.
    pub fn pattern_count(&self) -> (r: usize)
        ensures
            r == self.patterns().len(),
    {
        self.patterns.len()
    }

    /// The pattern at `i`.
    pub fn pattern(&self, i: usize) -> (r: &CellPattern)
        requires
            i < self.patterns().len(),
        ensures
            *r == self.patterns()[i as int],
    {
        &self.patterns[i]
    }

    /// Index of the selected pattern.
    pub fn get_selected_pattern(&self) -> (r: u8)
        ensures
            r == self.selected(),
    {
        self.selected_pattern
    }

    /// Index of the selected brush.
    pub fn get_selected_tile(&self) -> (r: u8)
        ensures
            r == self.selected_brush_index(),
    {
        self.selected_tile
    }

    /// Selects the pattern at `index`: the selected one is disabled, the
    /// new one enabled, and the preview cleared. An index past the last
    /// pattern changes nothing.
    pub fn switch_to(&mut self, index: u8)
        requires
            old(self).wf(),
        ensures
            final(self).wf(),
            index >= old(self).patterns().len() ==> *final(self) == *old(self),
            index < old(self).patterns().len() ==> {
                &&& final(self).selected() == index
                &&& same_patterns(old(self).patterns(), final(self).patterns())
                &&& final(self).preview_tiles() == Seq::<TileEntry>::empty()
                &&& final(self).brushes() == old(self).brushes()
                &&& final(self).selected_brush_index() == old(self).selected_brush_index()
            },
    {
        if index as usize >= self.patterns.len() {
            return;
        }
        let ghost start = self.patterns@;
        let ghost old_sel = self.selected_pattern as int;
        update_enabled(&mut self.patterns, self.selected_pattern as usize, false, &mut self.preview);
        let ghost mid = self.patterns@;
        self.selected_pattern = index;
        update_enabled(&mut self.patterns, self.selected_pattern as usize, true, &mut self.preview);
        proof {
            if index as int != old_sel {
                assert(mid[index as int] == start[index as int]);
            }
            assert forall|i: int| 0 <= i < self.patterns@.len() implies (#[trigger] self.patterns@[i]).wf()
                && self.patterns@[i].enabled == (i == index as int) by {
                assert(self.patterns@[i].tiles == start[i].tiles) by {
                    assert(self.patterns@[i].tiles == mid[i].tiles);
                    assert(mid[i].tiles == start[i].tiles);
                }
                if i != index as int {
                    assert(self.patterns@[i] == mid[i]);
                    if i != old_sel {
                        assert(mid[i] == start[i]);
                    }
                }
            }
            assert forall|i: int| 0 <= i < start.len() implies (#[trigger] start[i]).tiles == self.patterns@[i].tiles
                && start[i].last_mouse_pos == self.patterns@[i].last_mouse_pos by {
                assert(mid[i].tiles == self.patterns@[i].tiles);
                assert(start[i].tiles == mid[i].tiles);
            }
        }
    }

    /// Selects the next pattern, wrapping from the last to the first.
    pub fn switch_next(&mut self)
        requires
            old(self).wf(),
        ensures
            final(self).wf(),
            final(self).selected() == (old(self).selected() + 1) % (old(self).patterns().len() as int),
            same_patterns(old(self).patterns(), final(self).patterns()),
            final(self).preview_tiles() == Seq::<TileEntry>::empty(),
            final(self).brushes() == old(self).brushes(),
            final(self).selected_brush_index() == old(self).selected_brush_index(),
    {
        let n = self.patterns.len();
        let next = ((self.selected_pattern as usize + 1) % n) as u8;
        self.switch_to(next);
    }

    /// Selects the previous pattern, wrapping from the first to the last.
    pub fn switch_prev(&mut self)
        requires
            old(self).wf(),
        ensures
            final(self).wf(),
            final(self).selected() == (old(self).selected() + old(self).patterns().len() - 1) % (old(
                self,
            ).patterns().len() as int),
            same_patterns(old(self).patterns(), final(self).patterns()),
            final(self).preview_tiles() == Seq::<TileEntry>::empty(),
            final(self).brushes() == old(self).brushes(),
            final(self).selected_brush_index() == old(self).selected_brush_index(),
    {
        let n = self.patterns.len();
        let prev = ((self.selected_pattern as usize + n - 1) % n) as u8;
        self.switch_to(prev);
    }

    /// Selects the next brush, wrapping from the last to the first.
    pub fn switch_brush(&mut self)
        requires
            old(self).wf(),
        ensures
            final(self).wf(),
            final(self).selected_brush_index() == (old(self).selected_brush_index() + 1) % (old(
                self,
            ).brushes().len() as int),
            final(self).patterns() == old(self).patterns(),
            final(self).selected() == old(self).selected(),
            final(self).preview_tiles() == old(self).preview_tiles(),
            final(self).brushes() == old(self).brushes(),
    {
        let n = self.brush_tiles.len();
        self.selected_tile = ((self.selected_tile as usize + 1) % n) as u8;
    }

    /// The tile id of the selected brush.
    pub fn get_selected_brush_tile(&self) -> (r: u16)
        requires
            self.wf(),
        ensures
            r == self.brushes()[self.selected_brush_index()],
    {
        self.brush_tiles[self.selected_tile as usize]
    }

    /// The kind the selected brush paints.
    pub fn selected_brush(&self) -> (r: Result<CellRules, CellError>)
        requires
            self.wf(),
        ensures
            r == CellRules::from_id_spec(self.brushes()[self.selected_brush_index()]),
    {
        let id = self.get_selected_brush_tile();
        if id > 3 {
            return Err(CellError::InvalidCellId);
        }
        Ok(CellRules::from_id(id))
    }

    /// Routes the paint input to the selected pattern, painting with the
    /// selected brush. Fails, changing nothing, when the brush's tile id
    /// is not a kind.
    pub fn unhandled_input(&mut self, state: GameplayState, mouse_x: i32, mouse_y: i32, just_pressed: bool, held: bool) -> (r: Result<bool, CellError>)
        requires
            old(self).wf(),
        ensures
            final(self).wf(),
            final(self).selected() == old(self).selected(),
            final(self).brushes() == old(self).brushes(),
            final(self).selected_brush_index() == old(self).selected_brush_index(),
            final(self).preview_tiles() == old(self).preview_tiles(),
            final(self).patterns().len() == old(self).patterns().len(),
            forall|i: int| 0 <= i < old(self).patterns().len() && i != old(self).selected() ==> #[trigger] final(self).patterns()[i] == old(self).patterns()[i],
            ({
                let p = old(self).patterns()[old(self).selected()];
                let q = final(self).patterns()[old(self).selected()];
                match CellRules::from_id_spec(old(self).brushes()[old(self).selected_brush_index()]) {
                    Err(e) => r == Err::<bool, CellError>(e) && q == p,
                    Ok(brush) => {
                        &&& r == Ok::<bool, CellError>(state == GameplayState::DRAWING && (just_pressed || (held && (mouse_x, mouse_y) != p.last_mouse_pos)))
                        &&& r == Ok::<bool, CellError>(true) ==> written(p.tiles@, q.tiles@, (mouse_x as int, mouse_y as int), brush) && q.last_mouse_pos == (mouse_x, mouse_y) && q.enabled
                        &&& r == Ok::<bool, CellError>(false) ==> q == p
                    },
                }
            }),
    {
        let brush = match self.selected_brush() {
            Ok(b) => b,
            Err(e) => {
                return Err(e);
            },
        };
        let i = self.selected_pattern as usize;
        let ghost start = self.patterns@;
        let mut p = self.patterns.remove(i);
        let painted = p.unhandled_input(state, mouse_x, mouse_y, just_pressed, held, brush);
        self.patterns.insert(i, p);
        proof {
            assert(self.patterns@ == start.update(i as int, p));
        }
        Ok(painted)
    }

    /// Runs the defending frame of the selected pattern against `energy`
    /// and `target`, with the toolbox's preview.
    pub fn defending_process(
        &mut self,
        energy: &mut PlayerEnergy,
        target: &mut TileLayer,
        mouse_x: i32,
        mouse_y: i32,
        place_pressed: bool,
    ) -> (r: DefendOutcome)
        requires
            old(self).wf(),
            old(energy).wf(),
            old(target).wf(),
        ensures
            final(self).wf(),
            final(self).patterns() == old(self).patterns(),
            final(self).selected() == old(self).selected(),
            final(self).brushes() == old(self).brushes(),
            final(self).selected_brush_index() == old(self).selected_brush_index(),
            final(energy).wf(),
            final(target).wf(),
            defended(
                old(self).patterns()[old(self).selected()].tiles@,
                old(self).patterns()[old(self).selected()].costs,
                true,
                *old(energy),
                *final(energy),
                old(target)@,
                final(target)@,
                old(self).preview_tiles(),
                final(self).preview_tiles(),
                mouse_x as int,
                mouse_y as int,
                place_pressed,
                r,
            ),
    {
        let i = self.selected_pattern as usize;
        let p = &self.patterns[i];
        p.defending_process(energy, target, &mut self.preview, mouse_x, mouse_y, place_pressed)
    }
}

/// A notice shown for a while: `reset_timer` shows it, and it hides once
/// `delay` units of time have passed.
pub struct LayerHideAfter {
    pub delay: u64,
    pub timer: u64,
    pub visible: bool,
}

impl LayerHideAfter {
    /// A hidden notice that stays up for `delay` once shown.
    pub fn new(delay: u64) -> (r: Self)
        ensures
            r.delay == delay,
            r.timer == 0,
            !r.visible,
    {
        LayerHideAfter { delay, timer: 0, visible: false }
    }

    /// Shows the notice and restarts its countdown.
    pub fn reset_timer(&mut self)
        ensures
            final(self).visible,
            final(self).timer == old(self).delay,
            final(self).delay == old(self).delay,
    {
        self.visible = true;
        self.timer = self.delay;
    }

    /// Lets `delta` units of time pass; the notice hides when its
    /// countdown runs out.
    pub fn process(&mut self, delta: u64)
        ensures
            final(self).delay == old(self).delay,
            old(self).timer == 0 ==> *final(self) == *old(self),
            old(self).timer > 0 && delta < old(self).timer ==> final(self).timer == old(self).timer
                - delta && final(self).visible == old(self).visible,
            old(self).timer > 0 && delta >= old(self).timer ==> final(self).timer == 0
                && !final(self).visible,
    {
        if self.timer > 0 {
            self.timer = self.timer.saturating_sub(delta);
            if self.timer == 0 {
                self.visible = false;
            }
        }
    }
}

/// The centroid does not depend on the order of the tiles: any reordering
/// of the same tiles has the same centroid.
pub proof fn lemma_centroid_order_free(s: Seq<TileEntry>, t: Seq<TileEntry>)
    requires
        s.to_multiset() == t.to_multiset(),
    ensures
        centroid(s) == centroid(t),
{
    let fx = |acc: int, e: TileEntry| acc + e.x;
    let fy = |acc: int, e: TileEntry| acc + e.y;
    vstd::seq_lib::lemma_fold_left_permutation(s, t, fx, 0int);
    vstd::seq_lib::lemma_fold_left_permutation(s, t, fy, 0int);
    vstd::seq_lib::to_multiset_len(s);
    vstd::seq_lib::to_multiset_len(t);
}

/// Stamping without validity checks twice at the same place leaves the
/// same tiles as stamping once.
pub proof fn lemma_unchecked_place_idempotent(
    pat: Seq<TileEntry>,
    l0: Seq<TileEntry>,
    l1: Seq<TileEntry>,
    l2: Seq<TileEntry>,
    off: (int, int),
)
    requires
        placed(pat, l0, l1, off, false),
        placed(pat, l1, l2, off, false),
    ensures
        forall|k: (int, int)| #[trigger] lookup(l2, k) == lookup(l1, k),
{
    assert forall|k: (int, int)| #[trigger] lookup(l2, k) == lookup(l1, k) by {
        assert(lookup(l2, k) == place_kind(pat, l1, off, false, k));
        assert(lookup(l1, k) == place_kind(pat, l0, off, false, k));
    }
}

/// Redrawing the preview at the same place gives the same tiles, whatever
/// the preview held before each run.
pub proof fn lemma_hover_repeatable(
    pat: Seq<TileEntry>,
    first: Seq<TileEntry>,
    second: Seq<TileEntry>,
    off: (int, int),
)
    requires
        placed(pat, Seq::<TileEntry>::empty(), first, off, false),
        placed(pat, Seq::<TileEntry>::empty(), second, off, false),
    ensures
        forall|k: (int, int)| #[trigger] lookup(second, k) == lookup(first, k),
{
    assert forall|k: (int, int)| #[trigger] lookup(second, k) == lookup(first, k) by {
        assert(lookup(second, k) == place_kind(pat, Seq::<TileEntry>::empty(), off, false, k));
        assert(lookup(first, k) == place_kind(pat, Seq::<TileEntry>::empty(), off, false, k));
    }
}

} // verus!
