//! A sparse tile surface: each position holds at most one kind, and a
//! position without a tile reads as `ForceEmpty`.

use vstd::prelude::*;
use crate::cell_rules::CellRules;

verus! {

/// A tile at `(x, y)`.
#[derive(PartialEq, Eq, Structural, Clone, Copy, Debug)]
pub struct TileEntry {
    pub x: i32,
    pub y: i32,
    pub kind: CellRules,
}

/// The position of a tile.
pub open spec fn key(e: TileEntry) -> (int, int) {
    (e.x as int, e.y as int)
}

/// The kind at `k`: that of the last tile at `k`, `ForceEmpty` if none.
pub open spec fn lookup(s: Seq<TileEntry>, k: (int, int)) -> CellRules
    decreases s.len(),
{
    if s.len() == 0 {
        CellRules::ForceEmpty
    } else if key(s.last()) == k {
        s.last().kind
    } else {
        lookup(s.drop_last(), k)
    }
}

/// Positions are distinct and no tile holds `ForceEmpty`.
pub open spec fn tiles_wf(s: Seq<TileEntry>) -> bool {
    &&& forall|i: int, j: int| 0 <= i < j < s.len() ==> key(#[trigger] s[i]) != key(#[trigger] s[j])
    &&& forall|i: int| 0 <= i < s.len() ==> (#[trigger] s[i]).kind != CellRules::ForceEmpty
}

/// A layer's tiles after writing `kind` at `k`, as seen through `lookup`.
pub open spec fn written(before: Seq<TileEntry>, after: Seq<TileEntry>, k: (int, int), kind: CellRules) -> bool {
    forall|k2: (int, int)|
        #[trigger] lookup(after, k2) == if k2 == k {
            kind
        } else {
            lookup(before, k2)
        }
}

pub proof fn lemma_lookup_found(s: Seq<TileEntry>, i: int)
    requires
        tiles_wf(s),
        0 <= i < s.len(),
    ensures
        lookup(s, key(s[i])) == s[i].kind,
    decreases s.len(),
{
    if i != s.len() - 1 {
        assert(key(s[i]) != key(s[s.len() - 1]));
        assert(s.drop_last()[i] == s[i]);
        lemma_lookup_found(s.drop_last(), i);
    }
}

pub proof fn lemma_lookup_absent(s: Seq<TileEntry>, k: (int, int))
    requires
        forall|i: int| 0 <= i < s.len() ==> key(#[trigger] s[i]) != k,
    ensures
        lookup(s, k) == CellRules::ForceEmpty,
    decreases s.len(),
{
    if s.len() > 0 {
        assert(key(s[s.len() - 1]) != k);
        assert forall|i: int| 0 <= i < s.drop_last().len() implies key(#[trigger] s.drop_last()[i]) != k by {
            assert(s.drop_last()[i] == s[i]);
        }
        lemma_lookup_absent(s.drop_last(), k);
    }
}

/// Two well-formed layers with the same tiles at the same positions read
/// the same everywhere but at `k`.
proof fn lemma_lookup_same_elsewhere(s: Seq<TileEntry>, t: Seq<TileEntry>, k: (int, int), k2: (int, int))
    requires
        tiles_wf(s),
        tiles_wf(t),
        k2 != k,
        forall|i: int| 0 <= i < s.len() && key(#[trigger] s[i]) != k ==> exists|j: int| 0 <= j < t.len() && t[j] == s[i],
        forall|j: int| 0 <= j < t.len() && key(#[trigger] t[j]) != k ==> exists|i: int| 0 <= i < s.len() && s[i] == t[j],
    ensures
        lookup(t, k2) == lookup(s, k2),
{
    if exists|i: int| 0 <= i < s.len() && key(s[i]) == k2 {
        let i = choose|i: int| 0 <= i < s.len() && key(s[i]) == k2;
        let j = choose|j: int| 0 <= j < t.len() && t[j] == s[i];
        lemma_lookup_found(s, i);
        lemma_lookup_found(t, j);
    } else if exists|j: int| 0 <= j < t.len() && key(t[j]) == k2 {
        let j = choose|j: int| 0 <= j < t.len() && key(t[j]) == k2;
        let i = choose|i: int| 0 <= i < s.len() && s[i] == t[j];
        assert(key(s[i]) == k2);
    } else {
        lemma_lookup_absent(s, k2);
        lemma_lookup_absent(t, k2);
    }
}

proof fn lemma_remove_index(before: Seq<TileEntry>, i: int, a: int)
    requires
        0 <= i < before.len(),
        0 <= a < before.len() - 1,
    ensures
        before.remove(i)[a] == before[if a < i { a } else { a + 1 }],
{
}

proof fn lemma_remove_wf(before: Seq<TileEntry>, i: int)
    requires
        tiles_wf(before),
        0 <= i < before.len(),
    ensures
        tiles_wf(before.remove(i)),
        forall|a: int| 0 <= a < before.remove(i).len() ==> key(#[trigger] before.remove(i)[a]) != key(before[i]),
{
    let after = before.remove(i);
    assert forall|a: int, b: int| 0 <= a < b < after.len() implies key(#[trigger] after[a]) != key(#[trigger] after[b]) by {
        lemma_remove_index(before, i, a);
        lemma_remove_index(before, i, b);
    }
    assert forall|a: int| 0 <= a < after.len() implies (#[trigger] after[a]).kind != CellRules::ForceEmpty by {
        lemma_remove_index(before, i, a);
    }
    assert forall|a: int| 0 <= a < after.len() implies key(#[trigger] after[a]) != key(before[i]) by {
        lemma_remove_index(before, i, a);
    }
}

proof fn lemma_remove_tile(before: Seq<TileEntry>, i: int)
    requires
        tiles_wf(before),
        0 <= i < before.len(),
    ensures
        tiles_wf(before.remove(i)),
        written(before, before.remove(i), key(before[i]), CellRules::ForceEmpty),
{
    let after = before.remove(i);
    let k = key(before[i]);
    lemma_remove_wf(before, i);
    assert forall|k2: (int, int)| #[trigger] lookup(after, k2) == if k2 == k {
        CellRules::ForceEmpty
    } else {
        lookup(before, k2)
    } by {
        if k2 == k {
            lemma_lookup_absent(after, k2);
        } else {
            assert forall|a: int| 0 <= a < before.len() && key(#[trigger] before[a]) != k implies exists|b: int| 0 <= b < after.len() && after[b] == before[a] by {
                let b = if a < i { a } else { a - 1 };
                lemma_remove_index(before, i, b);
            }
            assert forall|b: int| 0 <= b < after.len() && key(#[trigger] after[b]) != k implies exists|a: int| 0 <= a < before.len() && before[a] == after[b] by {
                lemma_remove_index(before, i, b);
            }
            lemma_lookup_same_elsewhere(before, after, k, k2);
        }
    }
}

/// A sparse tile surface.
pub struct TileLayer {
    tiles: Vec<TileEntry>,
}

impl View for TileLayer {
    type V = Seq<TileEntry>;

    closed spec fn view(&self) -> Seq<TileEntry> {
        self.tiles@
    }
}

impl TileLayer {
    pub open spec fn wf(&self) -> bool {
        tiles_wf(self@)
    }

    /// The kind at `(x, y)`, `ForceEmpty` where there is no tile.
    pub open spec fn kind_at(&self, x: int, y: int) -> CellRules {
        lookup(self@, (x, y))
    }

    /// An empty layer.
    pub fn new() -> (r: Self)
        ensures
            r.wf(),
            r@ == Seq::<TileEntry>::empty(),
    {
        TileLayer { tiles: Vec::new() }
    }

    /// The tiles, one per occupied position.
    pub fn entries(&self) -> (r: &Vec<TileEntry>)
        ensures
            r@ == self@,
    {
        &self.tiles
    }

    /// Number of occupied positions.
    pub fn len(&self) -> (r: usize)
        ensures
            r == self@.len(),
    {
        self.tiles.len()
    }

    fn find(&self, x: i32, y: i32) -> (r: Option<usize>)
        requires
            self.wf(),
        ensures
            match r {
                Some(i) => i < self@.len() && key(self@[i as int]) == (x as int, y as int),
                None => forall|i: int| 0 <= i < self@.len() ==> key(#[trigger] self@[i]) != (x as int, y as int),
            },
    {
        let mut i: usize = 0;
        while i < self.tiles.len()
            invariant
                i <= self@.len(),
                forall|j: int| 0 <= j < i ==> key(#[trigger] self@[j]) != (x as int, y as int),
            decreases self@.len() - i,
        {
            if self.tiles[i].x == x && self.tiles[i].y == y {
                return Some(i);
            }
            i += 1;
        }
        None
    }

    /// The kind at `(x, y)`.
    pub fn get_cell(&self, x: i32, y: i32) -> (r: CellRules)
        requires
            self.wf(),
        ensures
            r == self.kind_at(x as int, y as int),
    {
        match self.find(x, y) {
            Some(i) => {
                proof {
                    lemma_lookup_found(self@, i as int);
                }
                self.tiles[i].kind
            },
            None => {
                proof {
                    lemma_lookup_absent(self@, (x as int, y as int));
                }
                CellRules::ForceEmpty
            },
        }
    }

    /// Writes a tile of `kind` at `(x, y)`.
    pub fn set_cell(&mut self, x: i32, y: i32, kind: CellRules)
        requires
            old(self).wf(),
            kind != CellRules::ForceEmpty,
        ensures
            final(self).wf(),
            written(old(self)@, final(self)@, (x as int, y as int), kind),
    {
        let ghost before = self@;
        let e = TileEntry { x, y, kind };
        match self.find(x, y) {
            Some(i) => {
                self.tiles.set(i, e);
                proof {
                    assert(self@ == before.update(i as int, e));
                    assert(tiles_wf(self@)) by {
                        assert forall|a: int, b: int| 0 <= a < b < self@.len() implies key(#[trigger] self@[a]) != key(#[trigger] self@[b]) by {
                            assert(key(self@[a]) == key(before[a]));
                            assert(key(self@[b]) == key(before[b]));
                        }
                    }
                    assert forall|k2: (int, int)| #[trigger] lookup(self@, k2) == if k2 == (x as int, y as int) {
                        kind
                    } else {
                        lookup(before, k2)
                    } by {
                        if k2 == (x as int, y as int) {
                            lemma_lookup_found(self@, i as int);
                        } else {
                            assert forall|a: int| 0 <= a < before.len() && key(#[trigger] before[a]) != (x as int, y as int) implies exists|b: int| 0 <= b < self@.len() && self@[b] == before[a] by {
                                assert(self@[a] == before[a]);
                            }
                            assert forall|b: int| 0 <= b < self@.len() && key(#[trigger] self@[b]) != (x as int, y as int) implies exists|a: int| 0 <= a < before.len() && before[a] == self@[b] by {
                                assert(self@[b] == before[b]);
                            }
                            lemma_lookup_same_elsewhere(before, self@, (x as int, y as int), k2);
                        }
                    }
                }
            },
            None => {
                self.tiles.push(e);
                proof {
                    assert(self@ == before.push(e));
                    assert(self@.drop_last() == before);
                    assert(tiles_wf(self@)) by {
                        assert forall|a: int, b: int| 0 <= a < b < self@.len() implies key(#[trigger] self@[a]) != key(#[trigger] self@[b]) by {
                            if b == self@.len() - 1 {
                                assert(self@[a] == before[a]);
                            } else {
                                assert(self@[a] == before[a]);
                                assert(self@[b] == before[b]);
                            }
                        }
                    }
                }
            },
        }
    }

    /// Removes the tile at `(x, y)`, if any.
    pub fn erase_cell(&mut self, x: i32, y: i32)
        requires
            old(self).wf(),
        ensures
            final(self).wf(),
            written(old(self)@, final(self)@, (x as int, y as int), CellRules::ForceEmpty),
    {
        let ghost before = self@;
        match self.find(x, y) {
            Some(i) => {
                self.tiles.remove(i);
                proof {
                    lemma_remove_tile(before, i as int);
                    assert(self@ == before.remove(i as int));
                }
            },
            None => {
                proof {
                    lemma_lookup_absent(before, (x as int, y as int));
                }
            },
        }
    }

    /// Removes every tile.
    pub fn clear(&mut self)
        ensures
            final(self).wf(),
            final(self)@ == Seq::<TileEntry>::empty(),
    {
        self.tiles.clear();
    }
}

} // verus!
