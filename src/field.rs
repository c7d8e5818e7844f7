//! The playing field: the player, the robots, the scrap heaps and the grid
//! that shows which of them stands on each cell.

use vstd::prelude::*;

use crate::geometry::{Point, step, step_toward};
use crate::placement::{
    center,
    cells,
    free_cells,
    lemma_cell_index,
    lemma_cells,
    lemma_free_cells,
    lemma_pick,
    pick,
};
use crate::random::random_usize;

verus! {

/// What a cell of the grid shows.
#[derive(Clone, Copy, Debug, PartialEq, Eq, Structural)]
pub enum Object {
    Player,
    Robot,
    Scrap,
    Null,
}

/// The character that shows `o` on the screen.
pub open spec fn glyph(o: Object) -> char {
    match o {
        Object::Player => '@',
        Object::Robot => '+',
        Object::Scrap => '*',
        Object::Null => ' ',
    }
}

impl Object {
    /// The character that shows this object on the screen.
    pub fn symbol(&self) -> (c: char)
        ensures
            c == glyph(*self),
    {
        match self {
            Object::Player => '@',
            Object::Robot => '+',
            Object::Scrap => '*',
            Object::Null => ' ',
        }
    }
}

/// A field of `width` by `height` cells.
///
/// The positions (`player_pos`, `robots_pos`, `scraps_pos`) are the state of
/// the game; `field` is the grid, indexed `field[y][x]`, which `robots_move`
/// rebuilds from them and `player_move` keeps in step.  Scrap heaps never
/// disappear, and `scraps_pos` lists each of them once.
pub struct Field {
    /// Where the field is drawn on the screen.
    pub pos: Point,
    pub width: usize,
    pub height: usize,
    pub player_pos: Point,
    pub robots_pos: Vec<Point>,
    pub scraps_pos: Vec<Point>,
    pub field: Vec<Vec<Object>>,
}

/// The grid `g` has `h` rows of `w` cells each.
pub open spec fn grid_shaped(g: Seq<Vec<Object>>, w: usize, h: usize) -> bool {
    &&& g.len() == h
    &&& forall|y: int| 0 <= y < h ==> (#[trigger] g[y])@.len() == w
}

/// The object that the grid `g` shows on cell `p`.
pub open spec fn grid_at(g: Seq<Vec<Object>>, p: Point) -> Object {
    g[p.y as int]@[p.x as int]
}

/// Every point of `s` lies inside a `w` by `h` field.
pub open spec fn all_inside(s: Seq<Point>, w: usize, h: usize) -> bool {
    forall|i: int| 0 <= i < s.len() ==> (#[trigger] s[i]).x < w && s[i].y < h
}

/// Where the robots stand after they took their step toward the player on
/// `player` (in a frozen turn they stay where they are).
pub open spec fn moved(robots: Seq<Point>, player: Point, stop: bool) -> Seq<Point> {
    if stop {
        robots
    } else {
        robots.map_values(|r: Point| step_toward(r, player))
    }
}

/// Two or more of the robots in `m` stand on `p`.
pub open spec fn collided(m: Seq<Point>, p: Point) -> bool {
    m.to_multiset().count(p) >= 2
}

/// A robot on `p` is destroyed: robots collided there, or a scrap heap lies
/// there already.
pub open spec fn wrecked(m: Seq<Point>, scraps: Seq<Point>, p: Point) -> bool {
    scraps.contains(p) || collided(m, p)
}

/// The robots of `m` that are not destroyed, in their order.
pub open spec fn survivors(m: Seq<Point>, scraps: Seq<Point>) -> Seq<Point> {
    m.filter(|r: Point| !wrecked(m, scraps, r))
}

/// What a turn returns when the robots stand on `robots`, the heaps on
/// `scraps` and the player on `player`: `None` when the player ends the turn
/// on a robot or on a heap, and otherwise the number of robots destroyed.
pub open spec fn advance_outcome(
    robots: Seq<Point>,
    scraps: Seq<Point>,
    player: Point,
    stop: bool,
) -> Option<u64> {
    let m = moved(robots, player, stop);
    let s = survivors(m, scraps);
    if s.contains(player) || wrecked(m, scraps, player) {
        None
    } else {
        Some((m.len() - s.len()) as u64)
    }
}

/// How many times `p` occurs in `v`.
fn count_in(v: &Vec<Point>, p: Point) -> (c: usize)
    ensures
        c == v@.to_multiset().count(p),
{
    broadcast use vstd::seq_lib::group_to_multiset_ensures;

    let n = v.len();
    let mut c: usize = 0;
    let mut i: usize = 0;
    while i < n
        invariant
            n == v@.len(),
            i <= n,
            c <= i,
            c == v@.take(i as int).to_multiset().count(p),
        decreases n - i,
    {
        assert(v@.take(i + 1) == v@.take(i as int).push(v@[i as int]));
        proof {
            v@.take(i as int).to_multiset_ensures();
        }
        if v[i] == p {
            c += 1;
        }
        i += 1;
    }
    assert(v@.take(n as int) == v@);
    c
}

/// Whether `p` occurs in `v`.
fn contains_point(v: &Vec<Point>, p: Point) -> (r: bool)
    ensures
        r == v@.contains(p),
{
    let n = v.len();
    let mut i: usize = 0;
    while i < n
        invariant
            n == v@.len(),
            i <= n,
            forall|j: int| 0 <= j < i ==> v@[j] != p,
        decreases n - i,
    {
        if v[i] == p {
            return true;
        }
        i += 1;
    }
    false
}

/// A row of `w` empty cells.
fn null_row(w: usize) -> (row: Vec<Object>)
    ensures
        row@.len() == w,
        forall|c: int| 0 <= c < w ==> #[trigger] row@[c] == Object::Null,
{
    let mut row: Vec<Object> = Vec::new();
    let mut x: usize = 0;
    while x < w
        invariant
            x <= w,
            row@.len() == x,
            forall|c: int| 0 <= c < x ==> #[trigger] row@[c] == Object::Null,
        decreases w - x,
    {
        row.push(Object::Null);
        x += 1;
    }
    row
}

/// Writes `obj` on cell `p` of the grid.
fn set_cell(grid: &mut Vec<Vec<Object>>, p: Point, obj: Object, w: usize, h: usize)
    requires
        grid_shaped(old(grid)@, w, h),
        p.x < w,
        p.y < h,
    ensures
        grid_shaped(final(grid)@, w, h),
        forall|q: Point|
            q.x < w && q.y < h ==> #[trigger] grid_at(final(grid)@, q) == if q == p {
                obj
            } else {
                grid_at(old(grid)@, q)
            },
{
    let ghost prev = grid@;
    grid[p.y][p.x] = obj;
    assert forall|q: Point| q.x < w && q.y < h implies #[trigger] grid_at(grid@, q) == if q == p {
        obj
    } else {
        grid_at(prev, q)
    } by {
        if q.y != p.y {
            assert(grid@[q.y as int] == prev[q.y as int]);
        }
    }
    assert forall|y: int| 0 <= y < h implies (#[trigger] grid@[y])@.len() == w by {
        if y != p.y {
            assert(grid@[y] == prev[y]);
        }
    }
}

/// Writes `obj` on every cell of `points`.
fn stamp(grid: &mut Vec<Vec<Object>>, points: &Vec<Point>, obj: Object, w: usize, h: usize)
    requires
        grid_shaped(old(grid)@, w, h),
        all_inside(points@, w, h),
    ensures
        grid_shaped(final(grid)@, w, h),
        forall|p: Point|
            p.x < w && p.y < h ==> #[trigger] grid_at(final(grid)@, p) == if points@.contains(p) {
                obj
            } else {
                grid_at(old(grid)@, p)
            },
{
    let n = points.len();
    let mut i: usize = 0;
    while i < n
        invariant
            n == points@.len(),
            i <= n,
            all_inside(points@, w, h),
            grid_shaped(grid@, w, h),
            forall|p: Point|
                p.x < w && p.y < h ==> #[trigger] grid_at(grid@, p) == if points@.subrange(
                    0,
                    i as int,
                ).contains(p) {
                    obj
                } else {
                    grid_at(old(grid)@, p)
                },
        decreases n - i,
    {
        let p = points[i];
        set_cell(grid, p, obj, w, h);
        assert forall|q: Point| q.x < w && q.y < h implies #[trigger] grid_at(grid@, q) == if points@.subrange(
            0,
            i + 1,
        ).contains(q) {
            obj
        } else {
            grid_at(old(grid)@, q)
        } by {
            assert(points@.subrange(0, i + 1) == points@.subrange(0, i as int).push(p));
            if q != p {
                assert(points@.subrange(0, i + 1).contains(q) == points@.subrange(
                    0,
                    i as int,
                ).contains(q));
            } else {
                assert(points@.subrange(0, i + 1)[i as int] == q);
            }
        }
        i += 1;
    }
    assert(points@.subrange(0, n as int) == points@);
}

impl Field {
    pub open spec fn in_bounds(&self, p: Point) -> bool {
        p.x < self.width && p.y < self.height
    }

    /// The object that the grid shows on cell `p`.
    pub open spec fn cell(&self, p: Point) -> Object {
        grid_at(self.field@, p)
    }

    /// The grid has the field's dimensions, every position lies inside the
    /// field, and no scrap heap is listed twice.
    pub open spec fn wf(&self) -> bool {
        &&& grid_shaped(self.field@, self.width, self.height)
        &&& self.scraps_pos@.no_duplicates()
        &&& self.in_bounds(self.player_pos)
        &&& all_inside(self.robots_pos@, self.width, self.height)
        &&& all_inside(self.scraps_pos@, self.width, self.height)
    }

    /// What the grid ought to show on `p`, judged from the positions alone:
    /// a scrap heap hides a robot, and either hides the player.
    pub open spec fn expected(&self, p: Point) -> Object {
        if self.scraps_pos@.contains(p) {
            Object::Scrap
        } else if self.robots_pos@.contains(p) {
            Object::Robot
        } else if p == self.player_pos {
            Object::Player
        } else {
            Object::Null
        }
    }

    /// The cells inside the field on which the grid shows `o`.
    pub open spec fn showing(&self, o: Object) -> Set<Point> {
        Set::new(|p: Point| self.in_bounds(p) && self.cell(p) == o)
    }

    /// The grid shows exactly what the positions say.
    pub open spec fn synced(&self) -> bool {
        forall|p: Point| self.in_bounds(p) ==> #[trigger] self.cell(p) == self.expected(p)
    }

    /// A `width` by `height` field drawn at `pos`, with the player in the
    /// middle cell and `robots_num` robots on distinct cells chosen at random
    /// among the others.  A field has only `width * height - 1` such cells: a
    /// larger `robots_num` fills them all.
    pub fn new(pos: Point, width: usize, height: usize, robots_num: usize) -> (r: Field)
        requires
            width > 0,
            height > 0,
            width * height <= usize::MAX,
        ensures
            r.wf(),
            r.synced(),
            r.pos == pos,
            r.width == width,
            r.height == height,
            r.player_pos == center(width, height),
            r.robots_pos@.len() == if robots_num < width * height {
                robots_num as int
            } else {
                width * height - 1
            },
            r.robots_pos@.no_duplicates(),
            !r.robots_pos@.contains(r.player_pos),
            r.scraps_pos@.len() == 0,
            r.showing(Object::Player) == set![r.player_pos],
            r.showing(Object::Robot) == r.robots_pos@.to_set(),
            r.showing(Object::Robot).len() == r.robots_pos@.len(),
            r.showing(Object::Scrap) == Set::<Point>::empty(),
    {
        let total = width * height;
        assert(total >= 1) by (nonlinear_arith)
            requires
                total == width * height,
                width > 0,
                height > 0,
        ;
        let count = if robots_num < total {
            robots_num
        } else {
            total - 1
        };
        let mut draws: Vec<usize> = Vec::new();
        let mut i: usize = 0;
        while i < count
            invariant
                i <= count,
                draws@.len() == i,
            decreases count - i,
        {
            draws.push(random_usize());
            i += 1;
        }
        proof {
            lemma_free_cells(width, height);
            lemma_pick(free_cells(width, height), draws@);
        }
        Field::with_draws(pos, width, height, &draws)
    }

    /// A `width` by `height` field drawn at `pos`, with the player in the
    /// middle cell and one robot for each draw, as long as free cells last.
    /// Each draw, taken modulo the number of cells still free, picks one of
    /// them in row order.
    pub fn with_draws(pos: Point, width: usize, height: usize, draws: &Vec<usize>) -> (r: Field)
        requires
            width > 0,
            height > 0,
            width * height <= usize::MAX,
        ensures
            r.wf(),
            r.synced(),
            r.pos == pos,
            r.width == width,
            r.height == height,
            r.player_pos == center(width, height),
            r.robots_pos@ == pick(free_cells(width, height), draws@),
            r.robots_pos@.no_duplicates(),
            !r.robots_pos@.contains(r.player_pos),
            r.scraps_pos@.len() == 0,
            r.showing(Object::Player) == set![r.player_pos],
            r.showing(Object::Robot) == r.robots_pos@.to_set(),
            r.showing(Object::Robot).len() == r.robots_pos@.len(),
            r.showing(Object::Scrap) == Set::<Point>::empty(),
    {
        let ghost all = cells(width, height);
        proof {
            lemma_cells(width, height);
            lemma_free_cells(width, height);
        }
        // Every cell, row after row.
        let mut coord_list: Vec<Point> = Vec::new();
        let mut y: usize = 0;
        while y < height
            invariant
                width > 0,
                height > 0,
                width * height <= usize::MAX,
                y <= height,
                all == cells(width, height),
                coord_list@ == all.take(y * width),
            decreases height - y,
        {
            let mut x: usize = 0;
            while x < width
                invariant
                    width > 0,
                    width * height <= usize::MAX,
                    y < height,
                    x <= width,
                    all == cells(width, height),
                    coord_list@ == all.take(y * width + x),
                decreases width - x,
            {
                proof {
                    lemma_cell_index(width, height, x, y);
                }
                coord_list.push(Point { x, y });
                assert(coord_list@ == all.take(y * width + x + 1));
                x += 1;
            }
            assert((y + 1) * width == y * width + width) by (nonlinear_arith);
            y += 1;
        }
        assert(height * width == width * height) by (nonlinear_arith);
        assert(coord_list@ =~= all);
        let player = Point { x: width / 2, y: height / 2 };
        proof {
            lemma_cell_index(width, height, width / 2, height / 2);
        }
        let player_idx = (height / 2) * width + width / 2;
        coord_list.remove(player_idx);
        assert(coord_list@ == free_cells(width, height));
        // One robot for each draw, on a cell taken out of the free ones.
        let ghost free = free_cells(width, height);
        let mut robots: Vec<Point> = Vec::new();
        let n = draws.len();
        let mut i: usize = 0;
        assert(draws@.skip(0) =~= draws@);
        assert(robots@ + pick(coord_list@, draws@.skip(0)) =~= pick(free, draws@));
        while i < n && coord_list.len() > 0
            invariant
                n == draws@.len(),
                i <= n,
                coord_list@.no_duplicates(),
                robots@ + pick(coord_list@, draws@.skip(i as int)) == pick(free, draws@),
            decreases n - i,
        {
            let idx = draws[i] % coord_list.len();
            let q = coord_list[idx];
            let ghost pool = coord_list@;
            let ghost rest = draws@.skip(i as int);
            assert(rest.drop_first() == draws@.skip(i + 1));
            assert(rest[0] == draws@[i as int]);
            proof {
                lemma_pick(pool, rest);
            }
            robots.push(q);
            coord_list.remove(idx);
            assert(pick(pool, rest) == seq![q] + pick(coord_list@, draws@.skip(i + 1)));
            assert(robots@ + pick(coord_list@, draws@.skip(i + 1)) == pick(free, draws@));
            proof {
                assert forall|a: int, b: int|
                    0 <= a < coord_list@.len() && 0 <= b < coord_list@.len() && a != b implies coord_list@[a]
                    != coord_list@[b] by {
                    let aa = if a < idx {
                        a
                    } else {
                        a + 1
                    };
                    let bb = if b < idx {
                        b
                    } else {
                        b + 1
                    };
                    assert(coord_list@[a] == pool[aa] && coord_list@[b] == pool[bb]);
                }
            }
            i += 1;
        }
        assert(pick(coord_list@, draws@.skip(i as int)) == Seq::<Point>::empty());
        assert(robots@ == pick(free, draws@));
        proof {
            lemma_pick(free, draws@);
            assert forall|k: int| 0 <= k < robots@.len() implies (#[trigger] robots@[k]).x < width
                && robots@[k].y < height by {
                assert(robots@.contains(robots@[k]));
                let j = choose|j: int| 0 <= j < free.len() && free[j] == robots@[k];
            }
        }
        // An empty grid, then the robots and the player on it.
        let mut grid: Vec<Vec<Object>> = Vec::new();
        let mut gy: usize = 0;
        while gy < height
            invariant
                gy <= height,
                grid@.len() == gy,
                forall|r: int| 0 <= r < gy ==> (#[trigger] grid@[r])@.len() == width,
                forall|p: Point| p.x < width && p.y < gy ==> #[trigger] grid_at(grid@, p) == Object::Null,
            decreases height - gy,
        {
            let row = null_row(width);
            let ghost prev = grid@;
            grid.push(row);
            assert forall|p: Point| p.x < width && p.y < gy + 1 implies #[trigger] grid_at(grid@, p)
                == Object::Null by {
                if p.y < gy {
                    assert(grid@[p.y as int] == prev[p.y as int]);
                    assert(grid_at(prev, p) == Object::Null);
                } else {
                    assert(grid@[p.y as int] == row);
                    assert(row@[p.x as int] == Object::Null);
                }
            }
            gy += 1;
        }
        let ghost g0 = grid@;
        stamp(&mut grid, &robots, Object::Robot, width, height);
        let ghost g1 = grid@;
        set_cell(&mut grid, player, Object::Player, width, height);
        let r = Field {
            pos,
            width,
            height,
            player_pos: player,
            robots_pos: robots,
            scraps_pos: Vec::new(),
            field: grid,
        };
        assert forall|p: Point| r.in_bounds(p) implies #[trigger] r.cell(p) == r.expected(p) by {
            assert(grid_at(g0, p) == Object::Null);
            assert(grid_at(g1, p) == if r.robots_pos@.contains(p) {
                Object::Robot
            } else {
                Object::Null
            });
        }
        proof {
            r.robots_pos@.unique_seq_to_set();
            assert(r.showing(Object::Player) =~= set![r.player_pos]);
            assert(r.showing(Object::Robot) =~= r.robots_pos@.to_set()) by {
                assert forall|p: Point| #[trigger] r.robots_pos@.contains(p) implies r.in_bounds(p) by {
                    let k = choose|k: int| 0 <= k < r.robots_pos@.len() && r.robots_pos@[k] == p;
                }
            }
            assert(r.showing(Object::Scrap) =~= Set::<Point>::empty());
        }
        r
    }

    /// Fills the whole grid with `Object::Null`.
    pub fn field_clear(&mut self)
        requires
            grid_shaped(old(self).field@, old(self).width, old(self).height),
        ensures
            grid_shaped(final(self).field@, final(self).width, final(self).height),
            forall|p: Point| final(self).in_bounds(p) ==> #[trigger] final(self).cell(p) == Object::Null,
            final(self).pos == old(self).pos,
            final(self).width == old(self).width,
            final(self).height == old(self).height,
            final(self).player_pos == old(self).player_pos,
            final(self).robots_pos@ == old(self).robots_pos@,
            final(self).scraps_pos@ == old(self).scraps_pos@,
    {
        let w = self.width;
        let h = self.height;
        let mut y: usize = 0;
        while y < h
            invariant
                w == self.width,
                h == self.height,
                y <= h,
                grid_shaped(self.field@, w, h),
                forall|p: Point| p.x < w && p.y < y ==> #[trigger] grid_at(self.field@, p) == Object::Null,
                self.pos == old(self).pos,
                self.player_pos == old(self).player_pos,
                self.robots_pos@ == old(self).robots_pos@,
                self.scraps_pos@ == old(self).scraps_pos@,
            decreases h - y,
        {
            let mut x: usize = 0;
            while x < w
                invariant
                    w == self.width,
                    h == self.height,
                    y < h,
                    x <= w,
                    grid_shaped(self.field@, w, h),
                    forall|p: Point|
                        p.x < w && p.y < y ==> #[trigger] grid_at(self.field@, p) == Object::Null,
                    forall|p: Point|
                        p.x < x && p.y == y ==> #[trigger] grid_at(self.field@, p) == Object::Null,
                    self.pos == old(self).pos,
                    self.player_pos == old(self).player_pos,
                    self.robots_pos@ == old(self).robots_pos@,
                    self.scraps_pos@ == old(self).scraps_pos@,
                decreases w - x,
            {
                set_cell(&mut self.field, Point { x, y }, Object::Null, w, h);
                x += 1;
            }
            y += 1;
        }
    }

    /// Writes `obj` on the grid at every point of `points`; other cells keep
    /// what they showed.
    pub fn field_set(&mut self, points: Vec<Point>, obj: Object)
        requires
            grid_shaped(old(self).field@, old(self).width, old(self).height),
            all_inside(points@, old(self).width, old(self).height),
        ensures
            grid_shaped(final(self).field@, final(self).width, final(self).height),
            forall|p: Point|
                final(self).in_bounds(p) ==> #[trigger] final(self).cell(p) == if points@.contains(
                    p,
                ) {
                    obj
                } else {
                    old(self).cell(p)
                },
            final(self).pos == old(self).pos,
            final(self).width == old(self).width,
            final(self).height == old(self).height,
            final(self).player_pos == old(self).player_pos,
            final(self).robots_pos@ == old(self).robots_pos@,
            final(self).scraps_pos@ == old(self).scraps_pos@,
    {
        stamp(&mut self.field, &points, obj, self.width, self.height);
    }

    /// Moves the player to `pos`.
    ///
    /// The move is taken when `pos` lies inside the field and the grid shows
    /// nothing there, or the player itself; staying on the player's own cell
    /// is always taken and changes nothing.  A move that is not taken returns
    /// `false` and changes nothing.
    pub fn player_move(&mut self, pos: Point) -> (r: bool)
        requires
            old(self).wf(),
        ensures
            r == (pos == old(self).player_pos || (old(self).in_bounds(pos) && (old(self).cell(pos)
                == Object::Null || old(self).cell(pos) == Object::Player))),
            !r ==> *final(self) == *old(self),
            pos == old(self).player_pos ==> *final(self) == *old(self),
            r && pos != old(self).player_pos ==> {
                &&& final(self).wf()
                &&& final(self).player_pos == pos
                &&& final(self).pos == old(self).pos
                &&& final(self).width == old(self).width
                &&& final(self).height == old(self).height
                &&& final(self).robots_pos == old(self).robots_pos
                &&& final(self).scraps_pos == old(self).scraps_pos
                &&& forall|p: Point|
                    final(self).in_bounds(p) ==> #[trigger] final(self).cell(p) == if p == pos {
                        Object::Player
                    } else if p == old(self).player_pos {
                        Object::Null
                    } else {
                        old(self).cell(p)
                    }
            },
    {
        if pos.x == self.player_pos.x && pos.y == self.player_pos.y {
            return true;
        }
        if pos.x >= self.width || pos.y >= self.height {
            return false;
        }
        match self.field[pos.y][pos.x] {
            Object::Null | Object::Player => {
                let old_pos = self.player_pos;
                set_cell(&mut self.field, old_pos, Object::Null, self.width, self.height);
                set_cell(&mut self.field, pos, Object::Player, self.width, self.height);
                self.player_pos = pos;
                true
            },
            _ => false,
        }
    }

    /// The field as the screen shows it: `height + 2` lines of `width + 2`
    /// characters.  The first and the last line are the top and bottom edge,
    /// a `-` over each column; each line between is a row of the grid, framed
    /// by `|` on either side.
    pub fn picture(&self) -> (r: Vec<Vec<char>>)
        requires
            grid_shaped(self.field@, self.width, self.height),
            self.width + 2 <= usize::MAX,
            self.height + 2 <= usize::MAX,
        ensures
            r@.len() == self.height + 2,
            forall|i: int| 0 <= i < r@.len() ==> (#[trigger] r@[i])@.len() == self.width + 2,
            forall|c: int|
                0 <= c < self.width + 2 ==> #[trigger] r@[0]@[c] == if 0 < c <= self.width {
                    '-'
                } else {
                    ' '
                } && r@[self.height + 1]@[c] == r@[0]@[c],
            forall|y: int|
                0 <= y < self.height ==> #[trigger] r@[y + 1]@[0] == '|' && r@[y + 1]@[self.width
                    + 1] == '|',
            forall|x: usize, y: usize|
                x < self.width && y < self.height ==> #[trigger] r@[y + 1]@[x + 1] == glyph(
                    self.cell(Point { x, y }),
                ),
    {
        let w = self.width;
        let h = self.height;
        let edge = self.edge_line();
        let mut lines: Vec<Vec<char>> = Vec::new();
        lines.push(edge);
        let mut y: usize = 0;
        while y < h
            invariant
                w == self.width,
                h == self.height,
                w + 2 <= usize::MAX,
                grid_shaped(self.field@, w, h),
                y <= h,
                lines@.len() == y + 1,
                forall|i: int| 0 <= i < lines@.len() ==> (#[trigger] lines@[i])@.len() == w + 2,
                forall|c: int|
                    0 <= c < w + 2 ==> #[trigger] lines@[0]@[c] == if 0 < c <= w {
                        '-'
                    } else {
                        ' '
                    },
                forall|j: int|
                    0 <= j < y ==> #[trigger] lines@[j + 1]@[0] == '|' && lines@[j + 1]@[w + 1] == '|',
                forall|px: usize, py: usize|
                    px < w && py < y ==> #[trigger] lines@[py + 1]@[px + 1] == glyph(
                        self.cell(Point { x: px, y: py }),
                    ),
            decreases h - y,
        {
            let row = self.row_line(y);
            lines.push(row);
            y += 1;
        }
        let edge = self.edge_line();
        lines.push(edge);
        lines
    }

    /// The top or bottom edge of the picture.
    fn edge_line(&self) -> (r: Vec<char>)
        requires
            self.width + 2 <= usize::MAX,
        ensures
            r@.len() == self.width + 2,
            forall|c: int|
                0 <= c < self.width + 2 ==> #[trigger] r@[c] == if 0 < c <= self.width {
                    '-'
                } else {
                    ' '
                },
    {
        let mut line: Vec<char> = Vec::new();
        line.push(' ');
        let mut x: usize = 0;
        while x < self.width
            invariant
                x <= self.width,
                line@.len() == x + 1,
                line@[0] == ' ',
                forall|c: int| 0 < c <= x ==> #[trigger] line@[c] == '-',
            decreases self.width - x,
        {
            line.push('-');
            x += 1;
        }
        line.push(' ');
        line
    }

    /// Row `y` of the grid, framed by `|` on either side.
    fn row_line(&self, y: usize) -> (r: Vec<char>)
        requires
            grid_shaped(self.field@, self.width, self.height),
            y < self.height,
            self.width + 2 <= usize::MAX,
        ensures
            r@.len() == self.width + 2,
            r@[0] == '|',
            r@[self.width + 1] == '|',
            forall|x: usize| x < self.width ==> #[trigger] r@[x + 1] == glyph(self.cell(Point { x, y })),
    {
        let mut line: Vec<char> = Vec::new();
        line.push('|');
        let mut x: usize = 0;
        while x < self.width
            invariant
                grid_shaped(self.field@, self.width, self.height),
                y < self.height,
                x <= self.width,
                line@.len() == x + 1,
                line@[0] == '|',
                forall|c: usize| c < x ==> #[trigger] line@[c + 1] == glyph(self.cell(Point { x: c, y })),
            decreases self.width - x,
        {
            let c = self.field[y][x].symbol();
            line.push(c);
            x += 1;
        }
        line.push('|');
        line
    }

    /// Plays the robots' half of a turn.
    ///
    /// Unless `stop` freezes them, every robot takes one step toward the
    /// player.  Robots that end on the same cell leave a scrap heap there and
    /// are destroyed, and so is every robot that ends on a heap.  The grid is
    /// then rebuilt from the positions.  Returns `None` when the player ends
    /// the turn on a robot or a heap, and otherwise the number of robots
    /// destroyed.
    pub fn robots_move(&mut self, stop: bool) -> (r: Option<u64>)
        requires
            old(self).wf(),
        ensures
            ({
                let m = moved(old(self).robots_pos@, old(self).player_pos, stop);
                &&& final(self).robots_pos@ == survivors(m, old(self).scraps_pos@)
                &&& forall|p: Point|
                    #[trigger] final(self).scraps_pos@.contains(p) <==> wrecked(
                        m,
                        old(self).scraps_pos@,
                        p,
                    )
            }),
            r == advance_outcome(
                old(self).robots_pos@,
                old(self).scraps_pos@,
                old(self).player_pos,
                stop,
            ),
            r is None <==> (final(self).robots_pos@.contains(final(self).player_pos)
                || final(self).scraps_pos@.contains(final(self).player_pos)),
            forall|p: Point| #[trigger]
                old(self).scraps_pos@.contains(p) ==> final(self).scraps_pos@.contains(p),
            final(self).wf(),
            final(self).synced(),
            final(self).pos == old(self).pos,
            final(self).width == old(self).width,
            final(self).height == old(self).height,
            final(self).player_pos == old(self).player_pos,
    {
        let n = self.robots_pos.len();
        let player = self.player_pos;
        if !stop {
            let mut i: usize = 0;
            while i < n
                invariant
                    n == self.robots_pos@.len(),
                    n == old(self).robots_pos@.len(),
                    i <= n,
                    player == self.player_pos,
                    self.wf(),
                    self.pos == old(self).pos,
                    self.width == old(self).width,
                    self.height == old(self).height,
                    self.player_pos == old(self).player_pos,
                    self.scraps_pos == old(self).scraps_pos,
                    forall|j: int|
                        0 <= j < i ==> #[trigger] self.robots_pos@[j] == step_toward(
                            old(self).robots_pos@[j],
                            player,
                        ),
                    forall|j: int| i <= j < n ==> #[trigger] self.robots_pos@[j] == old(self).robots_pos@[j],
                decreases n - i,
            {
                let q = step(self.robots_pos[i], player);
                self.robots_pos.set(i, q);
                i += 1;
            }
        }
        assert(self.robots_pos@ == moved(old(self).robots_pos@, player, stop));
        let ghost m = self.robots_pos@;
        assert(all_inside(m, self.width, self.height));
        let score = self.check_scrap();
        let safe = self.check_player_pos();
        proof {
            broadcast use vstd::seq_lib::group_to_multiset_ensures;
            broadcast use Seq::lemma_filter_contains_rev;

            assert forall|k: int| 0 <= k < self.robots_pos@.len() implies (
            #[trigger] self.robots_pos@[k]).x < self.width && self.robots_pos@[k].y
                < self.height by {
                assert(self.robots_pos@.contains(self.robots_pos@[k]));
                assert(m.contains(self.robots_pos@[k]));
            }
            assert forall|k: int| 0 <= k < self.scraps_pos@.len() implies (
            #[trigger] self.scraps_pos@[k]).x < self.width && self.scraps_pos@[k].y
                < self.height by {
                let q = self.scraps_pos@[k];
                assert(self.scraps_pos@.contains(q));
                if !old(self).scraps_pos@.contains(q) {
                    assert(m.to_multiset().count(q) > 0);
                    assert(m.contains(q));
                } else {
                    let t = choose|t: int|
                        0 <= t < old(self).scraps_pos@.len() && #[trigger] old(self).scraps_pos@[t]
                            == q;
                }
            }
        }
        // The grid is rebuilt from the positions.
        self.field_clear();
        let ghost cleared = *self;
        set_cell(&mut self.field, player, Object::Player, self.width, self.height);
        let ghost g1 = self.field@;
        stamp(&mut self.field, &self.robots_pos, Object::Robot, self.width, self.height);
        let ghost g2 = self.field@;
        stamp(&mut self.field, &self.scraps_pos, Object::Scrap, self.width, self.height);
        assert forall|p: Point| self.in_bounds(p) implies #[trigger] self.cell(p) == self.expected(
            p,
        ) by {
            assert(cleared.cell(p) == Object::Null);
            assert(grid_at(g1, p) == if p == player {
                Object::Player
            } else {
                Object::Null
            });
            assert(grid_at(g2, p) == if self.robots_pos@.contains(p) {
                Object::Robot
            } else {
                grid_at(g1, p)
            });
        }
        if safe {
            Some(score)
        } else {
            None
        }
    }

    /// Turns robots that share a cell into a scrap heap on that cell, then
    /// destroys every robot that stands on a heap.  Returns how many robots
    /// were destroyed.
    fn check_scrap(&mut self) -> (score: u64)
        requires
            old(self).scraps_pos@.no_duplicates(),
        ensures
            final(self).robots_pos@ == survivors(old(self).robots_pos@, old(self).scraps_pos@),
            forall|p: Point|
                #[trigger] final(self).scraps_pos@.contains(p) <==> wrecked(
                    old(self).robots_pos@,
                    old(self).scraps_pos@,
                    p,
                ),
            final(self).scraps_pos@.no_duplicates(),
            score == old(self).robots_pos@.len() - final(self).robots_pos@.len(),
            final(self).pos == old(self).pos,
            final(self).width == old(self).width,
            final(self).height == old(self).height,
            final(self).player_pos == old(self).player_pos,
            final(self).field == old(self).field,
    {
        broadcast use vstd::seq_lib::group_to_multiset_ensures;
        broadcast use vstd::seq_lib::group_filter_ensures;

        let ghost robots = self.robots_pos@;
        let ghost scraps0 = self.scraps_pos@;
        let n = self.robots_pos.len();
        // First every cell where robots collided gets a heap.
        let mut i: usize = 0;
        while i < n
            invariant
                n == robots.len(),
                i <= n,
                self.robots_pos@ == robots,
                self.scraps_pos@.no_duplicates(),
                forall|p: Point|
                    #[trigger] self.scraps_pos@.contains(p) <==> scraps0.contains(p) || (robots.take(
                        i as int,
                    ).contains(p) && collided(robots, p)),
                self.pos == old(self).pos,
                self.width == old(self).width,
                self.height == old(self).height,
                self.player_pos == old(self).player_pos,
                self.field == old(self).field,
            decreases n - i,
        {
            let r = self.robots_pos[i];
            assert(robots.take(i + 1) == robots.take(i as int).push(r));
            let c = count_in(&self.robots_pos, r);
            let ghost before = self.scraps_pos@;
            if c >= 2 && !contains_point(&self.scraps_pos, r) {
                self.scraps_pos.push(r);
                assert forall|p: Point| #[trigger] self.scraps_pos@.contains(p) <==> (before.contains(p)
                    || p == r) by {
                    if p == r {
                        assert(self.scraps_pos@[before.len() as int] == r);
                    }
                    if before.contains(p) {
                        let k = choose|k: int| 0 <= k < before.len() && #[trigger] before[k] == p;
                        assert(self.scraps_pos@[k] == p);
                    }
                    if self.scraps_pos@.contains(p) && p != r {
                        let k = choose|k: int|
                            0 <= k < self.scraps_pos@.len() && #[trigger] self.scraps_pos@[k] == p;
                        assert(before[k] == p);
                    }
                }
            }
            assert forall|p: Point| robots.take(i + 1).contains(p) <==> (robots.take(i as int).contains(p)
                || p == r) by {
                if p == r {
                    assert(robots.take(i + 1)[i as int] == r);
                }
                if robots.take(i + 1).contains(p) && p != r {
                    let k = choose|k: int| 0 <= k < i + 1 && #[trigger] robots.take(i + 1)[k] == p;
                    assert(robots.take(i as int)[k] == p);
                }
            }
            i += 1;
        }
        assert(robots.take(n as int) == robots);
        // Then only the robots off every heap remain.
        let ghost keep = |r: Point| !wrecked(robots, scraps0, r);
        let mut kept: Vec<Point> = Vec::new();
        let mut j: usize = 0;
        while j < n
            invariant
                n == robots.len(),
                j <= n,
                self.robots_pos@ == robots,
                forall|p: Point|
                    #[trigger] self.scraps_pos@.contains(p) <==> scraps0.contains(p) || (
                    robots.contains(p) && collided(robots, p)),
                forall|r: Point| #[trigger] keep(r) == !wrecked(robots, scraps0, r),
                kept@ == robots.take(j as int).filter(keep),
            decreases n - j,
        {
            let r = self.robots_pos[j];
            assert(robots.take(j + 1) == robots.take(j as int).push(r));
            assert(robots[j as int] == r);
            assert(robots.contains(r));
            assert(self.scraps_pos@.contains(r) == wrecked(robots, scraps0, r));
            proof {
                robots.take(j as int).lemma_filter_push(r, keep);
            }
            if !contains_point(&self.scraps_pos, r) {
                kept.push(r);
            }
            j += 1;
        }
        assert(robots.take(n as int) == robots);
        assert forall|p: Point| #[trigger] self.scraps_pos@.contains(p) <==> wrecked(
            robots,
            scraps0,
            p,
        ) by {
            if collided(robots, p) {
                assert(robots.to_multiset().count(p) > 0);
            }
        }
        self.robots_pos = kept;
        (n - self.robots_pos.len()) as u64
    }

    /// Whether the player is safe: on no robot and on no scrap heap.
    fn check_player_pos(&self) -> (r: bool)
        ensures
            r == !(self.robots_pos@.contains(self.player_pos) || self.scraps_pos@.contains(
                self.player_pos,
            )),
    {
        !contains_point(&self.robots_pos, self.player_pos) && !contains_point(
            &self.scraps_pos,
            self.player_pos,
        )
    }
}

} // verus!
