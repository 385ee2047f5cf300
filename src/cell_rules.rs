//! The kinds of cell, their ids and costs, and the automaton rule that
//! computes a cell's next kind and the event it raises from its eight
//! neighbours.

use vstd::prelude::*;

verus! {

/// Default cost of one `Empty` cell of a placed pattern.
pub const EMPTY_COST: i32 = 0;

/// Default cost of one `BasicFilled` cell of a placed pattern.
pub const BASIC_FILLED_COST: i32 = 6;

/// What each placeable kind costs in a pattern: configuration, never
/// negative.
#[derive(PartialEq, Eq, Structural, Clone, Copy, Debug)]
pub struct CellCosts {
    pub empty: i32,
    pub basic_filled: i32,
}

impl CellCosts {
    pub open spec fn wf(&self) -> bool {
        self.empty >= 0 && self.basic_filled >= 0
    }

    /// Costs of `empty` and `basic_filled`; `None` if either is negative.
    pub fn new(empty: i32, basic_filled: i32) -> (r: Option<CellCosts>)
        ensures
            r.is_some() == (empty >= 0 && basic_filled >= 0),
            r matches Some(c) ==> c.wf() && c.empty == empty && c.basic_filled == basic_filled,
    {
        if empty < 0 || basic_filled < 0 {
            None
        } else {
            Some(CellCosts { empty, basic_filled })
        }
    }

    /// The default costs: `EMPTY_COST` and `BASIC_FILLED_COST`.
    pub fn default_costs() -> (r: CellCosts)
        ensures
            r.wf(),
            r.empty == EMPTY_COST,
            r.basic_filled == BASIC_FILLED_COST,
    {
        CellCosts { empty: EMPTY_COST, basic_filled: BASIC_FILLED_COST }
    }
}

/// The kind of a grid cell.
#[derive(PartialEq, Eq, Structural, Clone, Copy, Debug)]
pub enum CellRules {
    Empty,
    /// Sentinel for "no tile": never written, never placeable.
    ForceEmpty,
    BasicFilled,
    /// Indestructible cell that players may not place.
    PermaCell,
}

/// A per-cell event raised by a generation step.
#[derive(PartialEq, Eq, Structural, Clone, Copy, Debug)]
pub enum CellEvents {
    OverpopulateDeath,
    ExtraOverpopulateDeath,
    CellCreate,
}

/// Data errors on cell values.
#[derive(PartialEq, Eq, Structural, Clone, Copy, Debug)]
pub enum CellError {
    /// A tile id outside `0..=3`.
    InvalidCellId,
    /// A pattern holds a `PermaCell`, which has no cost.
    IllegalCostQuery,
    /// A pattern's total cost does not fit in an `i32`.
    CostOverflow,
}

/// The id that encodes a kind on a tile.
pub open spec fn id_of(k: CellRules) -> int {
    match k {
        CellRules::ForceEmpty => 0,
        CellRules::Empty => 1,
        CellRules::BasicFilled => 2,
        CellRules::PermaCell => 3,
    }
}

/// The kind that an id in `0..=3` decodes to.
pub open spec fn kind_of_id(id: int) -> CellRules
    recommends
        0 <= id <= 3,
{
    if id == 0 {
        CellRules::ForceEmpty
    } else if id == 1 {
        CellRules::Empty
    } else if id == 2 {
        CellRules::BasicFilled
    } else {
        CellRules::PermaCell
    }
}

/// A cell counts as live unless it is `Empty` or `ForceEmpty`.
pub open spec fn is_non_empty(k: CellRules) -> bool {
    k != CellRules::Empty && k != CellRules::ForceEmpty
}

/// Number of live cells in `s`.
pub open spec fn non_empty_count(s: Seq<CellRules>) -> nat
    decreases s.len(),
{
    if s.len() == 0 {
        0
    } else {
        non_empty_count(s.drop_last()) + if is_non_empty(s.last()) {
            1nat
        } else {
            0nat
        }
    }
}

/// The kind a cell takes in the next generation when `c` of its
/// neighbours are live.
pub open spec fn next_kind(k: CellRules, c: int) -> CellRules {
    match k {
        CellRules::Empty => if c == 3 {
            CellRules::BasicFilled
        } else {
            CellRules::Empty
        },
        CellRules::BasicFilled => if 2 <= c <= 3 {
            CellRules::BasicFilled
        } else {
            CellRules::Empty
        },
        CellRules::ForceEmpty => CellRules::ForceEmpty,
        CellRules::PermaCell => CellRules::PermaCell,
    }
}

/// The events a cell raises in one generation when `c` of its neighbours
/// are live.
pub open spec fn events_of(k: CellRules, c: int) -> Seq<CellEvents> {
    match k {
        CellRules::Empty => if c == 3 {
            seq![CellEvents::CellCreate]
        } else {
            seq![]
        },
        CellRules::BasicFilled => if c > 4 {
            seq![CellEvents::ExtraOverpopulateDeath]
        } else if c > 3 {
            seq![CellEvents::OverpopulateDeath]
        } else {
            seq![]
        },
        _ => seq![],
    }
}

/// Whether a player-placed pattern may overwrite a tile of kind `k`.
pub open spec fn is_user_replaceable(k: CellRules) -> bool {
    k == CellRules::Empty || k == CellRules::BasicFilled
}

/// Cost of a kind under `costs`; `ForceEmpty` costs nothing and
/// `PermaCell` has no cost.
pub open spec fn cost_of(k: CellRules, costs: CellCosts) -> int {
    match k {
        CellRules::Empty => costs.empty as int,
        CellRules::BasicFilled => costs.basic_filled as int,
        _ => 0,
    }
}

/// Name of the notification that carries an event.
pub open spec fn event_name(e: CellEvents) -> Seq<char> {
    match e {
        CellEvents::OverpopulateDeath => "overpopulate_death"@,
        CellEvents::ExtraOverpopulateDeath => "extra_overpopulate_death"@,
        CellEvents::CellCreate => "cell_create"@,
    }
}

/// Index of an event among the notifications.
pub open spec fn event_index(e: CellEvents) -> int {
    match e {
        CellEvents::CellCreate => 2,
        CellEvents::ExtraOverpopulateDeath => 1,
        CellEvents::OverpopulateDeath => 0,
    }
}

impl CellRules {
    /// The result of decoding `id`, where ids outside `0..=3` are a data
    /// error.
    pub open spec fn from_id_spec(id: u16) -> Result<CellRules, CellError> {
        if id <= 3 {
            Ok(kind_of_id(id as int))
        } else {
            Err(CellError::InvalidCellId)
        }
    }

    /// Decodes a tile id. An id outside `0..=3` is corrupt tile data, which
    /// callers must rule out beforehand.
    pub fn from_id(id: u16) -> (r: CellRules)
        requires
            id <= 3,
        ensures
            r == kind_of_id(id as int),
            r.to_id_spec() == id,
    {
        match id {
            0 => CellRules::ForceEmpty,
            1 => CellRules::Empty,
            2 => CellRules::BasicFilled,
            _ => CellRules::PermaCell,
        }
    }

    /// The id of this kind.
    pub open spec fn to_id_spec(&self) -> u16 {
        id_of(*self) as u16
    }

    /// Encodes a kind as a tile id.
    pub fn to_id(&self) -> (r: u16)
        ensures
            r as int == id_of(*self),
    {
        match self {
            CellRules::ForceEmpty => 0,
            CellRules::Empty => 1,
            CellRules::BasicFilled => 2,
            CellRules::PermaCell => 3,
        }
    }

    /// Cost of placing a cell of this kind under `costs`. Asking it of a
    /// `PermaCell` is a logic error, which callers must rule out.
    pub fn to_cost(&self, costs: &CellCosts) -> (r: i32)
        requires
            *self != CellRules::PermaCell,
        ensures
            r == cost_of(*self, *costs),
    {
        match self {
            CellRules::Empty => costs.empty,
            CellRules::BasicFilled => costs.basic_filled,
            _ => 0,
        }
    }

    /// Whether a tile of this kind may be written; `ForceEmpty` may not.
    pub fn can_set(&self) -> (r: bool)
        ensures
            r == (*self != CellRules::ForceEmpty),
    {
        match self {
            CellRules::ForceEmpty => false,
            _ => true,
        }
    }

    /// Atlas coordinates of the tile that draws this kind.
    pub fn to_atlas_coords(&self) -> (r: (i32, i32))
        requires
            *self != CellRules::ForceEmpty,
        ensures
            r.0 as int == id_of(*self) - 1,
            r.1 == 0,
    {
        match self {
            CellRules::Empty => (0, 0),
            CellRules::BasicFilled => (1, 0),
            _ => (2, 0),
        }
    }

    /// Whether a player-placed pattern may overwrite a tile of this kind.
    pub fn user_replaceable(&self) -> (r: bool)
        ensures
            r == is_user_replaceable(*self),
    {
        match self {
            CellRules::Empty => true,
            CellRules::BasicFilled => true,
            _ => false,
        }
    }

    /// Number of live cells among the eight neighbours.
    pub fn count_non_empty(neighbors: &Vec<CellRules>) -> (r: u8)
        requires
            neighbors@.len() == 8,
        ensures
            r as int == non_empty_count(neighbors@),
    {
        let mut c: u8 = 8;
        let mut i: usize = 0;
        while i < neighbors.len()
            invariant
                i <= neighbors@.len() == 8,
                c as int == 8 - i + non_empty_count(neighbors@.take(i as int)),
            decreases neighbors@.len() - i,
        {
            assert(neighbors@.take(i + 1).drop_last() == neighbors@.take(i as int));
            proof {
                lemma_non_empty_count_bound(neighbors@.take(i as int));
            }
            let n = neighbors[i];
            if n == CellRules::Empty || n == CellRules::ForceEmpty {
                c -= 1;
            }
            i += 1;
        }
        assert(neighbors@.take(8) == neighbors@);
        c
    }

    /// The kind this cell takes in the next generation.
    pub fn next_cell(&self, neighbors: &Vec<CellRules>) -> (r: CellRules)
        requires
            neighbors@.len() == 8,
        ensures
            r == next_kind(*self, non_empty_count(neighbors@) as int),
    {
        match self {
            CellRules::Empty => {
                if Self::count_non_empty(neighbors) == 3 {
                    return CellRules::BasicFilled;
                }
                CellRules::Empty
            },
            CellRules::BasicFilled => {
                let c = Self::count_non_empty(neighbors);
                if c <= 3 && c >= 2 {
                    return CellRules::BasicFilled;
                }
                CellRules::Empty
            },
            CellRules::ForceEmpty => CellRules::ForceEmpty,
            CellRules::PermaCell => CellRules::PermaCell,
        }
    }

    /// The events this cell raises in the coming generation.
    pub fn events(&self, neighbors: &Vec<CellRules>) -> (r: Vec<CellEvents>)
        requires
            neighbors@.len() == 8,
        ensures
            r@ == events_of(*self, non_empty_count(neighbors@) as int),
    {
        match self {
            CellRules::Empty => {
                let c = Self::count_non_empty(neighbors);
                if c == 3 {
                    return vec![CellEvents::CellCreate];
                }
                vec![]
            },
            CellRules::PermaCell => vec![],
            CellRules::ForceEmpty => vec![],
            CellRules::BasicFilled => {
                let c = Self::count_non_empty(neighbors);
                if c > 4 {
                    return vec![CellEvents::ExtraOverpopulateDeath];
                }
                if c > 3 {
                    return vec![CellEvents::OverpopulateDeath];
                }
                vec![]
            },
        }
    }
}

impl CellEvents {
    /// Name of the notification that carries this event.
    pub fn get_event_name(&self) -> (r: &'static str)
        ensures
            r@ == event_name(*self),
    {
        proof {
            reveal_strlit("overpopulate_death");
            reveal_strlit("extra_overpopulate_death");
            reveal_strlit("cell_create");
        }
        match self {
            CellEvents::OverpopulateDeath => "overpopulate_death",
            CellEvents::ExtraOverpopulateDeath => "extra_overpopulate_death",
            CellEvents::CellCreate => "cell_create",
        }
    }

    /// Index of this event among the notifications.
    pub fn get_event_index(&self) -> (r: usize)
        ensures
            r as int == event_index(*self),
    {
        match self {
            CellEvents::CellCreate => 2,
            CellEvents::ExtraOverpopulateDeath => 1,
            CellEvents::OverpopulateDeath => 0,
        }
    }
}

/// The live count of a sequence never exceeds its length.
pub proof fn lemma_non_empty_count_bound(s: Seq<CellRules>)
    ensures
        non_empty_count(s) <= s.len(),
    decreases s.len(),
{
    if s.len() > 0 {
        lemma_non_empty_count_bound(s.drop_last());
    }
}

/// Decoding the id of a kind gives back that kind.
pub proof fn lemma_decode_encode(k: CellRules)
    ensures
        0 <= id_of(k) <= 3,
        CellRules::from_id_spec(k.to_id_spec()) == Ok::<CellRules, CellError>(k),
        kind_of_id(id_of(k)) == k,
{
}

/// For any eight neighbours with `c` live: a `BasicFilled` cell stays
/// `BasicFilled` exactly when `2 <= c <= 3`, and an `Empty` cell becomes
/// `BasicFilled` exactly when `c == 3`.
pub proof fn lemma_life_rule(neighbors: Seq<CellRules>)
    requires
        neighbors.len() == 8,
    ensures
        ({
            let c = non_empty_count(neighbors) as int;
            &&& (next_kind(CellRules::BasicFilled, c) == CellRules::BasicFilled <==> 2 <= c <= 3)
            &&& (next_kind(CellRules::Empty, c) == CellRules::BasicFilled <==> c == 3)
        }),
{
}

/// A cell raises at most one event per generation, whatever its neighbours.
pub proof fn lemma_at_most_one_event(k: CellRules, neighbors: Seq<CellRules>)
    requires
        neighbors.len() == 8,
    ensures
        events_of(k, non_empty_count(neighbors) as int).len() <= 1,
{
}

} // verus!
