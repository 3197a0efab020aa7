//! The broad-phase spatial grid: a uniform-cell index over particle
//! positions, rebuilt every tick, that narrows collision detection to pairs
//! within one cell of each other.

use vstd::prelude::*;

verus! {

use crate::dot::{Dot, dots_wf, ARENA_WIDTH, ARENA_HEIGHT};
use crate::fixed::iabs;
use vstd::arithmetic::div_mod::*;

/// The broad-phase structure: one bucket of particle indices per grid cell.
pub struct Physics {
    pub grid: Vec<Vec<usize>>,
    pub cols: usize,
    pub rows: usize,
    /// Cell edge length, fixed point; twice the particle radius.
    pub cell_size: i64,
}

pub open spec fn physics_wf(p: &Physics) -> bool {
    &&& 1 <= p.cell_size <= ARENA_WIDTH
    &&& 1 <= p.cols <= 1024
    &&& 1 <= p.rows <= 1024
    &&& p.grid@.len() == p.cols * p.rows
}

/// The grid column a horizontal position falls in, clamped to the last one.
pub open spec fn spec_cell_x(p: &Physics, x: int) -> int {
    let c = x / (p.cell_size as int);
    if c < p.cols - 1 {
        c
    } else {
        p.cols - 1
    }
}

/// The grid row a vertical position falls in, clamped to the last one.
pub open spec fn spec_cell_y(p: &Physics, y: int) -> int {
    let c = y / (p.cell_size as int);
    if c < p.rows - 1 {
        c
    } else {
        p.rows - 1
    }
}

/// The flat cell index a particle's position falls in.
pub open spec fn spec_cell_idx(p: &Physics, d: Dot) -> int {
    spec_cell_y(p, d.y as int) * p.cols + spec_cell_x(p, d.x as int)
}

/// Whether bucket `c` holds the particle index `i`.
pub open spec fn bucket_has(p: &Physics, c: int, i: int) -> bool {
    exists|k: int| 0 <= k < p.grid@[c]@.len() && p.grid@[c]@[k] == i
}

/// The grid faithfully indexes the particle set: buckets hold only valid
/// indices filed under their own cell, in strictly increasing order, and
/// every particle index is filed.
pub open spec fn grid_synced(p: &Physics, dots: Seq<Dot>) -> bool {
    &&& forall|c: int, k: int|
        0 <= c < p.grid@.len() && 0 <= k < p.grid@[c]@.len() ==> (#[trigger] p.grid@[c]@[k])
            < dots.len() && spec_cell_idx(p, dots[p.grid@[c]@[k] as int]) == c
    &&& forall|c: int, k1: int, k2: int|
        0 <= c < p.grid@.len() && 0 <= k1 < k2 < p.grid@[c]@.len() ==> (#[trigger] p.grid@[c]@[k1])
            < (#[trigger] p.grid@[c]@[k2])
    &&& forall|i: int|
        0 <= i < dots.len() ==> bucket_has(p, #[trigger] spec_cell_idx(p, dots[i]), i)
}

/// Two particles' cells are within one step of each other in both axes.
pub open spec fn spec_neighbors(p: &Physics, a: Dot, b: Dot) -> bool {
    &&& -1 <= spec_cell_x(p, a.x as int) - spec_cell_x(p, b.x as int) <= 1
    &&& -1 <= spec_cell_y(p, a.y as int) - spec_cell_y(p, b.y as int) <= 1
}

/// The `o`-th cell (of nine) around cell `(cx, cy)`, if it is on the grid.
pub open spec fn spec_neighbor_cell(p: &Physics, cx: int, cy: int, o: int) -> Option<int> {
    let dx = o % 3 - 1;
    let dy = o / 3 - 1;
    if 0 <= cx + dx < p.cols && 0 <= cy + dy < p.rows {
        Some((cy + dy) * p.cols + (cx + dx))
    } else {
        None
    }
}

/// Whether the pair list holds `(i, j)`.
pub open spec fn pairs_has(s: Seq<(usize, usize)>, i: int, j: int) -> bool {
    exists|k: int| 0 <= k < s.len() && s[k].0 == i && s[k].1 == j
}

/// Close coordinates land in the same or adjacent columns.
proof fn lemma_axis_close(u: int, v: int, cs: int)
    requires
        cs >= 1,
        0 <= u,
        0 <= v,
        iabs(v - u) < cs,
    ensures
        iabs(v / cs - u / cs) <= 1,
{
    if u <= v {
        lemma_div_is_ordered(u, v, cs);
        lemma_div_is_ordered(v, u + cs, cs);
        lemma_div_plus_one(u, cs);
    } else {
        lemma_div_is_ordered(v, u, cs);
        lemma_div_is_ordered(u, v + cs, cs);
        lemma_div_plus_one(v, cs);
    }
}

/// Two particles closer than one cell edge in each axis sit in the same or
/// touching cells, so the broad phase always offers their pair.
pub proof fn lemma_close_positions_are_neighbors(p: &Physics, a: Dot, b: Dot)
    requires
        physics_wf(p),
        0 <= a.x && 0 <= a.y,
        0 <= b.x && 0 <= b.y,
        iabs(b.x - a.x) < p.cell_size,
        iabs(b.y - a.y) < p.cell_size,
    ensures
        spec_neighbors(p, a, b),
{
    lemma_axis_close(a.x as int, b.x as int, p.cell_size as int);
    lemma_axis_close(a.y as int, b.y as int, p.cell_size as int);
}

/// Flat cell indices are injective in the cell coordinates.
proof fn lemma_cell_id_injective(p: &Physics, x1: int, y1: int, x2: int, y2: int)
    requires
        physics_wf(p),
        0 <= x1 < p.cols,
        0 <= x2 < p.cols,
        0 <= y1 < p.rows,
        0 <= y2 < p.rows,
        y1 * p.cols + x1 == y2 * p.cols + x2,
    ensures
        x1 == x2,
        y1 == y2,
{
    assert(x1 == x2 && y1 == y2) by (nonlinear_arith)
        requires
            0 <= x1 < p.cols,
            0 <= x2 < p.cols,
            0 <= y1 < p.rows,
            0 <= y2 < p.rows,
            y1 * p.cols + x1 == y2 * p.cols + x2,
    ;
}

/// Cell coordinates are in range and the flat index is in range.
proof fn lemma_cell_coords_in_range(p: &Physics, d: Dot)
    requires
        physics_wf(p),
        0 <= d.x,
        0 <= d.y,
    ensures
        0 <= spec_cell_x(p, d.x as int) < p.cols,
        0 <= spec_cell_y(p, d.y as int) < p.rows,
        0 <= spec_cell_idx(p, d) < p.grid@.len(),
{
    lemma_div_pos_is_pos(d.x as int, p.cell_size as int);
    lemma_div_pos_is_pos(d.y as int, p.cell_size as int);
    let cx = spec_cell_x(p, d.x as int);
    let cy = spec_cell_y(p, d.y as int);
    assert(0 <= cy * p.cols + cx < p.rows * p.cols) by (nonlinear_arith)
        requires
            0 <= cx < p.cols,
            0 <= cy < p.rows,
            p.cols >= 1,
            p.rows >= 1,
    ;
    assert(p.rows * p.cols == p.cols * p.rows) by (nonlinear_arith);
}

/// If two particles are neighbors, the second one's cell is among the nine
/// cells around the first one's.
proof fn lemma_neighbor_covered(p: &Physics, a: Dot, b: Dot)
    requires
        physics_wf(p),
        0 <= a.x && 0 <= a.y,
        0 <= b.x && 0 <= b.y,
        spec_neighbors(p, a, b),
    ensures
        exists|o: int|
            0 <= o < 9 && #[trigger] spec_neighbor_cell(
                p,
                spec_cell_x(p, a.x as int),
                spec_cell_y(p, a.y as int),
                o,
            ) == Some(spec_cell_idx(p, b)),
{
    lemma_cell_coords_in_range(p, a);
    lemma_cell_coords_in_range(p, b);
    let ax = spec_cell_x(p, a.x as int);
    let ay = spec_cell_y(p, a.y as int);
    let bx = spec_cell_x(p, b.x as int);
    let by = spec_cell_y(p, b.y as int);
    let o = (bx - ax + 1) + 3 * (by - ay + 1);
    assert(0 <= o < 9);
    assert(o % 3 == bx - ax + 1 && o / 3 == by - ay + 1) by {
        lemma_fundamental_div_mod_converse(o, 3, by - ay + 1, bx - ax + 1);
    }
    assert(spec_neighbor_cell(p, ax, ay, o) == Some(spec_cell_idx(p, b)));
}

impl Physics {
    /// A fresh grid for particles of the given radius: cells twice the
    /// radius wide, covering the whole arena, all buckets empty.
    pub fn new(radius: i64) -> (p: Physics)
        requires
            1_000_000 <= radius <= 50_000_000,
        ensures
            physics_wf(&p),
            p.cell_size == 2 * radius,
            forall|c: int| 0 <= c < p.grid@.len() ==> (#[trigger] p.grid@[c]@).len() == 0,
    {
        let cell_size: i64 = 2 * radius;
        let cols: usize = (((ARENA_WIDTH + cell_size - 1) as u64) / (cell_size as u64)) as usize;
        let rows: usize = (((ARENA_HEIGHT + cell_size - 1) as u64) / (cell_size as u64)) as usize;
        proof {
            lemma_div_pos_is_pos((ARENA_WIDTH + cell_size - 1) as int, cell_size as int);
            lemma_div_pos_is_pos((ARENA_HEIGHT + cell_size - 1) as int, cell_size as int);
            lemma_div_is_ordered(
                (ARENA_WIDTH + cell_size - 1) as int,
                ARENA_WIDTH as int + ARENA_WIDTH as int,
                cell_size as int,
            );
            lemma_div_is_ordered_by_denominator(
                ARENA_WIDTH as int + ARENA_WIDTH as int,
                2_000_000,
                cell_size as int,
            );
            lemma_div_is_ordered(
                (ARENA_HEIGHT + cell_size - 1) as int,
                ARENA_WIDTH as int + ARENA_WIDTH as int,
                cell_size as int,
            );
            lemma_div_is_ordered((cell_size - 1) as int, (cell_size - 1) as int, cell_size as int);
            lemma_div_pos_is_pos(ARENA_WIDTH as int - 1 + cell_size as int, cell_size as int);
            // cols >= 1: the dividend is at least the divisor.
            lemma_div_is_ordered(
                cell_size as int,
                (ARENA_WIDTH + cell_size - 1) as int,
                cell_size as int,
            );
            lemma_div_by_self(cell_size as int);
            lemma_div_is_ordered(
                cell_size as int,
                (ARENA_HEIGHT + cell_size - 1) as int,
                cell_size as int,
            );
        }
        let mut grid: Vec<Vec<usize>> = Vec::new();
        proof {
            assert((cols as int) * (rows as int) <= 1024 * 1024) by (nonlinear_arith)
                requires
                    0 <= cols <= 1024,
                    0 <= rows <= 1024,
            ;
        }
        let total: usize = cols * rows;
        let mut c: usize = 0;
        while c < total
            invariant
                c <= total,
                grid@.len() == c,
                forall|cc: int| 0 <= cc < c ==> (#[trigger] grid@[cc]@).len() == 0,
            decreases total - c,
        {
            grid.push(Vec::new());
            c = c + 1;
        }
        Physics { grid, cols, rows, cell_size }
    }

    /// The grid column of a horizontal position.
    fn cell_x(&self, x: i64) -> (r: usize)
        requires
            physics_wf(self),
            0 <= x <= ARENA_WIDTH,
        ensures
            r == spec_cell_x(self, x as int),
            r < self.cols,
    {
        proof {
            lemma_div_pos_is_pos(x as int, self.cell_size as int);
            lemma_div_is_ordered(x as int, ARENA_WIDTH as int, self.cell_size as int);
            lemma_div_is_ordered_by_denominator(ARENA_WIDTH as int, 1, self.cell_size as int);
        }
        let c: usize = (((x as u64)) / (self.cell_size as u64)) as usize;
        if c < self.cols - 1 {
            c
        } else {
            self.cols - 1
        }
    }

    /// The grid row of a vertical position.
    fn cell_y(&self, y: i64) -> (r: usize)
        requires
            physics_wf(self),
            0 <= y <= ARENA_HEIGHT,
        ensures
            r == spec_cell_y(self, y as int),
            r < self.rows,
    {
        proof {
            lemma_div_pos_is_pos(y as int, self.cell_size as int);
            lemma_div_is_ordered(y as int, ARENA_WIDTH as int, self.cell_size as int);
            lemma_div_is_ordered_by_denominator(ARENA_WIDTH as int, 1, self.cell_size as int);
        }
        let c: usize = (((y as u64)) / (self.cell_size as u64)) as usize;
        if c < self.rows - 1 {
            c
        } else {
            self.rows - 1
        }
    }

    /// Clears every bucket and re-files each particle index under the cell
    /// its position falls in.
    pub fn rebuild(&mut self, dots: &Vec<Dot>)
        requires
            physics_wf(old(self)),
            dots_wf(dots@),
        ensures
            physics_wf(final(self)),
            final(self).cols == old(self).cols,
            final(self).rows == old(self).rows,
            final(self).cell_size == old(self).cell_size,
            grid_synced(final(self), dots@),
    {
        let mut c: usize = 0;
        let n_cells: usize = self.grid.len();
        while c < n_cells
            invariant
                physics_wf(self),
                c <= n_cells,
                n_cells == self.grid@.len(),
                self.cols == old(self).cols,
                self.rows == old(self).rows,
                self.cell_size == old(self).cell_size,
                forall|cc: int| 0 <= cc < c ==> (#[trigger] self.grid@[cc]@).len() == 0,
            decreases n_cells - c,
        {
            self.grid[c] = Vec::new();
            c = c + 1;
        }
        let mut i: usize = 0;
        let n: usize = dots.len();
        while i < n
            invariant
                physics_wf(self),
                dots_wf(dots@),
                n == dots@.len(),
                i <= n,
                self.cols == old(self).cols,
                self.rows == old(self).rows,
                self.cell_size == old(self).cell_size,
                forall|c2: int, k: int|
                    0 <= c2 < self.grid@.len() && 0 <= k < self.grid@[c2]@.len() ==> (
                    #[trigger] self.grid@[c2]@[k]) < i && spec_cell_idx(
                        self,
                        dots@[self.grid@[c2]@[k] as int],
                    ) == c2,
                forall|c2: int, k1: int, k2: int|
                    0 <= c2 < self.grid@.len() && 0 <= k1 < k2 < self.grid@[c2]@.len() ==> (
                    #[trigger] self.grid@[c2]@[k1]) < (#[trigger] self.grid@[c2]@[k2]),
                forall|i2: int|
                    0 <= i2 < i ==> bucket_has(self, #[trigger] spec_cell_idx(self, dots@[i2]), i2),
            decreases n - i,
        {
            let ghost pre = *self;
            let cx: usize = self.cell_x(dots[i].x);
            let cy: usize = self.cell_y(dots[i].y);
            proof {
                lemma_cell_coords_in_range(self, dots@[i as int]);
                assert((cy as int) * (self.cols as int) + (cx as int) < self.grid@.len());
                assert((cy as int) * (self.cols as int) + (cx as int) <= 1024 * 1024)
                    by (nonlinear_arith)
                    requires
                        0 <= cy < self.rows <= 1024,
                        0 <= cx < self.cols <= 1024,
                ;
            }
            let idx: usize = cy * self.cols + cx;
            let ghost before = self.grid@;
            self.grid[idx].push(i);
            proof {
                assert(self.grid@[idx as int]@ == before[idx as int]@.push(i));
                assert(forall|c2: int|
                    0 <= c2 < self.grid@.len() && c2 != idx ==> self.grid@[c2] == before[c2]);
                assert(bucket_has(self, spec_cell_idx(self, dots@[i as int]), i as int)) by {
                    let kk = self.grid@[idx as int]@.len() - 1;
                    assert(self.grid@[idx as int]@[kk] == i);
                }
                assert forall|i2: int| 0 <= i2 < i implies bucket_has(
                    self,
                    spec_cell_idx(self, dots@[i2]),
                    i2,
                ) by {
                    lemma_cell_coords_in_range(self, dots@[i2]);
                    assert(bucket_has(&pre, spec_cell_idx(&pre, dots@[i2]), i2));
                    assert(spec_cell_idx(&pre, dots@[i2]) == spec_cell_idx(self, dots@[i2]));
                    let c2 = spec_cell_idx(self, dots@[i2]);
                    assert(0 <= c2 < self.grid@.len());
                    let k = choose|k: int|
                        0 <= k < pre.grid@[c2]@.len() && pre.grid@[c2]@[k] == i2;
                    if c2 == idx {
                        assert(self.grid@[c2]@[k] == pre.grid@[c2]@.push(i as usize)[k]);
                    } else {
                        assert(self.grid@[c2]@ == pre.grid@[c2]@);
                    }
                    assert(self.grid@[c2]@[k] == i2);
                }
            }
            i = i + 1;
        }
    }
}

/// Membership in a pair list survives appending.
proof fn lemma_pairs_has_push(s: Seq<(usize, usize)>, v: (usize, usize), a: int, b: int)
    requires
        pairs_has(s, a, b),
    ensures
        pairs_has(s.push(v), a, b),
{
    let k = choose|k: int| 0 <= k < s.len() && s[k].0 == a && s[k].1 == b;
    assert(s.push(v)[k] == s[k]);
}

/// The appended pair is in the list.
proof fn lemma_pairs_has_new(s: Seq<(usize, usize)>, v: (usize, usize))
    ensures
        pairs_has(s.push(v), v.0 as int, v.1 as int),
{
    assert(s.push(v)[s.len() as int] == v);
}

/// Distinct neighbor offsets that are both on the grid name distinct cells.
proof fn lemma_neighbor_offsets_distinct(p: &Physics, cx: int, cy: int, o1: int, o2: int)
    requires
        physics_wf(p),
        0 <= o1 < 9,
        0 <= o2 < 9,
        o1 != o2,
        spec_neighbor_cell(p, cx, cy, o1) is Some,
        spec_neighbor_cell(p, cx, cy, o2) is Some,
    ensures
        spec_neighbor_cell(p, cx, cy, o1) != spec_neighbor_cell(p, cx, cy, o2),
{
    let x1 = cx + o1 % 3 - 1;
    let y1 = cy + o1 / 3 - 1;
    let x2 = cx + o2 % 3 - 1;
    let y2 = cy + o2 / 3 - 1;
    lemma_fundamental_div_mod(o1, 3);
    lemma_fundamental_div_mod(o2, 3);
    lemma_mod_bound(o1, 3);
    lemma_mod_bound(o2, 3);
    if y1 * p.cols + x1 == y2 * p.cols + x2 {
        lemma_cell_id_injective(p, x1, y1, x2, y2);
        assert(o1 == o2);
    }
}

impl Physics {
    /// The `o`-th of the nine cells around `(cx, cy)`, if it is on the grid.
    fn neighbor_cell(&self, cx: usize, cy: usize, o: usize) -> (r: Option<usize>)
        requires
            physics_wf(self),
            cx < self.cols,
            cy < self.rows,
            o < 9,
        ensures
            match r {
                Some(c) => spec_neighbor_cell(self, cx as int, cy as int, o as int) == Some(
                    c as int,
                ) && c < self.grid@.len(),
                None => spec_neighbor_cell(self, cx as int, cy as int, o as int) is None,
            },
    {
        let dxm: usize = o % 3;
        let dym: usize = o / 3;
        if cx + dxm >= 1 && cx + dxm - 1 < self.cols && cy + dym >= 1 && cy + dym - 1 < self.rows {
            let nx: usize = cx + dxm - 1;
            let ny: usize = cy + dym - 1;
            proof {
                assert((ny as int) * (self.cols as int) + (nx as int) < self.cols * self.rows
                    && (ny as int) * (self.cols as int) + (nx as int) <= 1024 * 1024)
                    by (nonlinear_arith)
                    requires
                        0 <= nx < self.cols <= 1024,
                        0 <= ny < self.rows <= 1024,
                ;
            }
            Some(ny * self.cols + nx)
        } else {
            None
        }
    }

    /// Yields every candidate pair `(i, j)` with `i < j`: for each particle,
    /// the higher-indexed particles filed in its own and the eight
    /// surrounding cells.  No unordered pair is yielded twice, and every
    /// pair of particles whose cells touch is yielded.
    pub fn candidate_pairs(&self, dots: &Vec<Dot>) -> (pairs: Vec<(usize, usize)>)
        requires
            physics_wf(self),
            dots_wf(dots@),
            grid_synced(self, dots@),
        ensures
            forall|k: int|
                0 <= k < pairs@.len() ==> (#[trigger] pairs@[k]).0 < pairs@[k].1 < dots@.len(),
            forall|k1: int, k2: int|
                0 <= k1 < k2 < pairs@.len() ==> (#[trigger] pairs@[k1]) != (#[trigger] pairs@[k2]),
            forall|i: int, j: int|
                0 <= i < j < dots@.len() && spec_neighbors(self, dots@[i], dots@[j]) ==> pairs_has(
                    pairs@,
                    i,
                    j,
                ),
    {
        let n: usize = dots.len();
        let mut pairs: Vec<(usize, usize)> = Vec::new();
        let mut i: usize = 0;
        while i < n
            invariant
                physics_wf(self),
                dots_wf(dots@),
                grid_synced(self, dots@),
                n == dots@.len(),
                i <= n,
                forall|k: int|
                    0 <= k < pairs@.len() ==> (#[trigger] pairs@[k]).0 < pairs@[k].1 < n,
                forall|k1: int, k2: int|
                    0 <= k1 < k2 < pairs@.len() ==> (#[trigger] pairs@[k1]) != (
                    #[trigger] pairs@[k2]),
                forall|a: int, b: int|
                    0 <= a < i && a < b < n && spec_neighbors(self, dots@[a], dots@[b])
                        ==> pairs_has(pairs@, a, b),
                forall|k: int| 0 <= k < pairs@.len() ==> (#[trigger] pairs@[k]).0 < i,
            decreases n - i,
        {
            proof {
                lemma_cell_coords_in_range(self, dots@[i as int]);
            }
            let cx: usize = self.cell_x(dots[i].x);
            let cy: usize = self.cell_y(dots[i].y);
            let mut o: usize = 0;
            while o < 9
                invariant
                    physics_wf(self),
                    dots_wf(dots@),
                    grid_synced(self, dots@),
                    n == dots@.len(),
                    i < n,
                    o <= 9,
                    cx == spec_cell_x(self, dots@[i as int].x as int),
                    cy == spec_cell_y(self, dots@[i as int].y as int),
                    cx < self.cols,
                    cy < self.rows,
                    forall|k: int|
                        0 <= k < pairs@.len() ==> (#[trigger] pairs@[k]).0 < pairs@[k].1 < n,
                    forall|k1: int, k2: int|
                        0 <= k1 < k2 < pairs@.len() ==> (#[trigger] pairs@[k1]) != (
                        #[trigger] pairs@[k2]),
                    forall|a: int, b: int|
                        0 <= a < i && a < b < n && spec_neighbors(self, dots@[a], dots@[b])
                            ==> pairs_has(pairs@, a, b),
                    forall|k: int|
                        0 <= k < pairs@.len() ==> (#[trigger] pairs@[k]).0 < i || (pairs@[k].0 == i
                            && exists|o2: int|
                            0 <= o2 < o && spec_neighbor_cell(self, cx as int, cy as int, o2)
                                == Some(spec_cell_idx(self, dots@[pairs@[k].1 as int]))),
                    forall|j: int, o2: int|
                        i < j < n && 0 <= o2 < o && spec_neighbor_cell(
                            self,
                            cx as int,
                            cy as int,
                            o2,
                        ) == Some(spec_cell_idx(self, dots@[j])) ==> pairs_has(pairs@, i as int, j),
                decreases 9 - o,
            {
                let cell_opt: Option<usize> = self.neighbor_cell(cx, cy, o);
                match cell_opt {
                    Some(cell) => {
                        let blen: usize = self.grid[cell].len();
                        let mut k: usize = 0;
                        while k < blen
                            invariant
                                physics_wf(self),
                                dots_wf(dots@),
                                grid_synced(self, dots@),
                                n == dots@.len(),
                                i < n,
                                o < 9,
                                k <= blen,
                                cx == spec_cell_x(self, dots@[i as int].x as int),
                                cy == spec_cell_y(self, dots@[i as int].y as int),
                                cx < self.cols,
                                cy < self.rows,
                                cell < self.grid@.len(),
                                spec_neighbor_cell(self, cx as int, cy as int, o as int) == Some(
                                    cell as int,
                                ),
                                blen == self.grid@[cell as int]@.len(),
                                forall|k: int|
                                    0 <= k < pairs@.len() ==> (#[trigger] pairs@[k]).0 < pairs@[k].1
                                        < n,
                                forall|k1: int, k2: int|
                                    0 <= k1 < k2 < pairs@.len() ==> (#[trigger] pairs@[k1]) != (
                                    #[trigger] pairs@[k2]),
                                forall|a: int, b: int|
                                    0 <= a < i && a < b < n && spec_neighbors(
                                        self,
                                        dots@[a],
                                        dots@[b],
                                    ) ==> pairs_has(pairs@, a, b),
                                forall|kk: int|
                                    0 <= kk < pairs@.len() ==> (#[trigger] pairs@[kk]).0 < i || (
                                    pairs@[kk].0 == i && ((exists|o2: int|
                                        0 <= o2 < o && spec_neighbor_cell(
                                            self,
                                            cx as int,
                                            cy as int,
                                            o2,
                                        ) == Some(
                                            spec_cell_idx(self, dots@[pairs@[kk].1 as int]),
                                        )) || (spec_cell_idx(self, dots@[pairs@[kk].1 as int])
                                        == cell && exists|k2: int|
                                        0 <= k2 < k && self.grid@[cell as int]@[k2]
                                            == pairs@[kk].1))),
                                forall|j: int, o2: int|
                                    i < j < n && 0 <= o2 < o && spec_neighbor_cell(
                                        self,
                                        cx as int,
                                        cy as int,
                                        o2,
                                    ) == Some(spec_cell_idx(self, dots@[j])) ==> pairs_has(
                                        pairs@,
                                        i as int,
                                        j,
                                    ),
                                forall|k2: int|
                                    0 <= k2 < k && (#[trigger] self.grid@[cell as int]@[k2]) > i
                                        ==> pairs_has(
                                        pairs@,
                                        i as int,
                                        self.grid@[cell as int]@[k2] as int,
                                    ),
                            decreases blen - k,
                        {
                            let j: usize = self.grid[cell][k];
                            proof {
                                assert(j < n && spec_cell_idx(self, dots@[j as int])
                                    == cell as int);
                            }
                            if i < j {
                                proof {
                                    let ghost ps = pairs@;
                                    assert forall|kk: int| 0 <= kk < ps.len() implies ps[kk] != (
                                    i,
                                    j,
                                    ) by {
                                        if ps[kk].0 == i && ps[kk].1 == j {
                                            if exists|o2: int|
                                                0 <= o2 < o && spec_neighbor_cell(
                                                    self,
                                                    cx as int,
                                                    cy as int,
                                                    o2,
                                                ) == Some(
                                                    spec_cell_idx(self, dots@[ps[kk].1 as int]),
                                                ) {
                                                let o2 = choose|o2: int|
                                                    0 <= o2 < o && spec_neighbor_cell(
                                                        self,
                                                        cx as int,
                                                        cy as int,
                                                        o2,
                                                    ) == Some(
                                                        spec_cell_idx(self, dots@[ps[kk].1 as int]),
                                                    );
                                                lemma_neighbor_offsets_distinct(
                                                    self,
                                                    cx as int,
                                                    cy as int,
                                                    o2,
                                                    o as int,
                                                );
                                            } else {
                                                let k2 = choose|k2: int|
                                                    0 <= k2 < k && self.grid@[cell as int]@[k2]
                                                        == ps[kk].1;
                                                let gc = self.grid@[cell as int]@;
                                                assert(gc[k2] < gc[k as int]);
                                            }
                                        }
                                    }
                                }
                                let ghost before_push = pairs@;
                                pairs.push((i, j));
                                proof {
                                    lemma_pairs_has_new(before_push, (i, j));
                                    assert forall|a: int, b: int|
                                        0 <= a < i && a < b < n && spec_neighbors(
                                            self,
                                            dots@[a],
                                            dots@[b],
                                        ) implies pairs_has(pairs@, a, b) by {
                                        assert(pairs_has(before_push, a, b));
                                        lemma_pairs_has_push(before_push, (i, j), a, b);
                                    }
                                    assert forall|j2: int, o2: int|
                                        i < j2 < n && 0 <= o2 < o && spec_neighbor_cell(
                                            self,
                                            cx as int,
                                            cy as int,
                                            o2,
                                        ) == Some(
                                            spec_cell_idx(self, dots@[j2]),
                                        ) implies pairs_has(pairs@, i as int, j2) by {
                                        assert(pairs_has(before_push, i as int, j2));
                                        lemma_pairs_has_push(before_push, (i, j), i as int, j2);
                                    }
                                    assert forall|k2: int|
                                        0 <= k2 < k && (#[trigger] self.grid@[cell as int]@[k2])
                                            > i implies pairs_has(
                                        pairs@,
                                        i as int,
                                        self.grid@[cell as int]@[k2] as int,
                                    ) by {
                                        assert(pairs_has(
                                            before_push,
                                            i as int,
                                            self.grid@[cell as int]@[k2] as int,
                                        ));
                                        lemma_pairs_has_push(
                                            before_push,
                                            (i, j),
                                            i as int,
                                            self.grid@[cell as int]@[k2] as int,
                                        );
                                    }
                                }
                            }
                            k = k + 1;
                        }
                        proof {
                            // Everything filed in this cell with a larger index
                            // is now paired: fold the cell into the offset
                            // classification and completeness.
                            assert forall|j: int, o2: int|
                                i < j < n && 0 <= o2 < o + 1 && spec_neighbor_cell(
                                    self,
                                    cx as int,
                                    cy as int,
                                    o2,
                                ) == Some(spec_cell_idx(self, dots@[j])) implies pairs_has(
                                pairs@,
                                i as int,
                                j,
                            ) by {
                                if o2 == o {
                                    assert(spec_cell_idx(self, dots@[j]) == cell as int);
                                    assert(bucket_has(self, cell as int, j));
                                    let gc = self.grid@[cell as int]@;
                                    let k2 = choose|k2: int| 0 <= k2 < gc.len() && gc[k2] == j;
                                    assert(gc[k2] > i);
                                }
                            }
                        }
                    },
                    None => {
                    },
                }
                o = o + 1;
            }
            proof {
                assert forall|b: int|
                    i < b < n && spec_neighbors(self, dots@[i as int], dots@[b]) implies pairs_has(
                    pairs@,
                    i as int,
                    b,
                ) by {
                    lemma_neighbor_covered(self, dots@[i as int], dots@[b]);
                    let o2 = choose|o2: int|
                        0 <= o2 < 9 && spec_neighbor_cell(self, cx as int, cy as int, o2) == Some(
                            spec_cell_idx(self, dots@[b]),
                        );
                }
            }
            i = i + 1;
        }
        pairs
    }
}

/// After a rebuild the buckets partition the particle indices: every index is
/// filed under exactly its own cell, buckets hold nothing else, and no bucket
/// files an index twice.
pub proof fn lemma_grid_partition(p: &Physics, dots: Seq<Dot>)
    requires
        physics_wf(p),
        grid_synced(p, dots),
    ensures
        forall|i: int| 0 <= i < dots.len() ==> bucket_has(p, #[trigger] spec_cell_idx(p, dots[i]), i),
        forall|c: int, k: int|
            0 <= c < p.grid@.len() && 0 <= k < p.grid@[c]@.len() ==> (#[trigger] p.grid@[c]@[k])
                < dots.len() && spec_cell_idx(p, dots[p.grid@[c]@[k] as int]) == c,
        forall|c: int, k1: int, k2: int|
            0 <= c < p.grid@.len() && 0 <= k1 < k2 < p.grid@[c]@.len() ==> (#[trigger] p.grid@[c]@[k1])
                != (#[trigger] p.grid@[c]@[k2]),
        forall|c: int, i: int|
            0 <= c < p.grid@.len() && 0 <= i < dots.len() && c != spec_cell_idx(p, dots[i])
                ==> !bucket_has(p, c, i),
{
    assert forall|c: int, i: int|
        0 <= c < p.grid@.len() && 0 <= i < dots.len() && c != spec_cell_idx(p, dots[i])
        implies !bucket_has(p, c, i) by {
        if bucket_has(p, c, i) {
            let k = choose|k: int| 0 <= k < p.grid@[c]@.len() && p.grid@[c]@[k] == i;
            assert(spec_cell_idx(p, dots[p.grid@[c]@[k] as int]) == c);
        }
    }
}

} // verus!
