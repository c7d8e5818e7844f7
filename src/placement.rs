//! Where a new field puts its robots: on distinct cells, chosen by a series
//! of draws among the cells that are still free.

use vstd::prelude::*;

use vstd::arithmetic::div_mod::{lemma_fundamental_div_mod, lemma_fundamental_div_mod_converse};

use crate::geometry::Point;

verus! {

/// Every cell of a `w` by `h` field, row after row.
pub open spec fn cells(w: usize, h: usize) -> Seq<Point> {
    Seq::new(
        (w * h) as nat,
        |i: int| Point { x: (i % (w as int)) as usize, y: (i / (w as int)) as usize },
    )
}

/// The cell in the middle of the field, where the player starts.
pub open spec fn center(w: usize, h: usize) -> Point {
    Point { x: w / 2, y: h / 2 }
}

/// The index of the middle cell in `cells(w, h)`.
pub open spec fn center_index(w: usize, h: usize) -> int {
    (h / 2) * w + w / 2
}

/// The cells on which robots may be put: all but the player's.
pub open spec fn free_cells(w: usize, h: usize) -> Seq<Point> {
    cells(w, h).remove(center_index(w, h))
}

/// The cells that the draws choose from `pool`: each draw, taken modulo the
/// number of cells still left, picks one of them and takes it out.  Stops when
/// the draws or the cells run out.
pub open spec fn pick(pool: Seq<Point>, draws: Seq<usize>) -> Seq<Point>
    decreases draws.len(),
{
    if draws.len() == 0 || pool.len() == 0 {
        Seq::empty()
    } else {
        let k = (draws[0] as int) % (pool.len() as int);
        seq![pool[k]] + pick(pool.remove(k), draws.drop_first())
    }
}

/// Cell `(x, y)` stands at index `y * w + x` of `cells(w, h)`.
pub proof fn lemma_cell_index(w: usize, h: usize, x: usize, y: usize)
    requires
        x < w,
        y < h,
    ensures
        0 <= y * w + x < w * h,
        cells(w, h)[y * w + x] == (Point { x, y }),
{
    assert(y * w + x < w * h) by (nonlinear_arith)
        requires
            x < w,
            y < h,
    ;
    lemma_fundamental_div_mod_converse(y * w + x, w as int, y as int, x as int);
}

/// The cells of a field are distinct and lie inside it.
pub proof fn lemma_cells(w: usize, h: usize)
    requires
        w > 0,
    ensures
        cells(w, h).no_duplicates(),
        forall|i: int| 0 <= i < w * h ==> (#[trigger] cells(w, h)[i]).x < w && cells(w, h)[i].y < h,
{
    let c = cells(w, h);
    assert forall|i: int| 0 <= i < w * h implies (#[trigger] c[i]).x < w && c[i].y < h by {
        lemma_fundamental_div_mod(i, w as int);
        let q = i / (w as int);
        let r = i % (w as int);
        assert(q < h) by (nonlinear_arith)
            requires
                i == w * q + r,
                0 <= r,
                i < w * h,
                w > 0,
        ;
        assert(0 <= q) by (nonlinear_arith)
            requires
                i == w * q + r,
                0 <= i,
                r < w,
                w > 0,
        ;
    }
    assert forall|i: int, j: int| 0 <= i < c.len() && 0 <= j < c.len() && i != j implies c[i]
        != c[j] by {
        lemma_fundamental_div_mod(i, w as int);
        lemma_fundamental_div_mod(j, w as int);
        let qi = i / (w as int);
        let qj = j / (w as int);
        assert(0 <= qi < h && 0 <= qj < h) by (nonlinear_arith)
            requires
                i == w * qi + i % (w as int),
                j == w * qj + j % (w as int),
                0 <= i % (w as int) < w,
                0 <= j % (w as int) < w,
                0 <= i < w * h,
                0 <= j < w * h,
                w > 0,
        ;
    }
}

/// The free cells are all the field's cells but the middle one, each once.
pub proof fn lemma_free_cells(w: usize, h: usize)
    requires
        w > 0,
        h > 0,
    ensures
        free_cells(w, h).len() == w * h - 1,
        free_cells(w, h).no_duplicates(),
        !free_cells(w, h).contains(center(w, h)),
        forall|i: int|
            0 <= i < free_cells(w, h).len() ==> (#[trigger] free_cells(w, h)[i]).x < w
                && free_cells(w, h)[i].y < h,
{
    lemma_cells(w, h);
    lemma_cell_index(w, h, w / 2, h / 2);
    let c = cells(w, h);
    let k = center_index(w, h);
    let f = free_cells(w, h);
    assert forall|i: int| 0 <= i < f.len() implies (#[trigger] f[i]).x < w && f[i].y < h by {
        if i < k {
            assert(f[i] == c[i]);
        } else {
            assert(f[i] == c[i + 1]);
        }
    }
    assert forall|i: int, j: int| 0 <= i < f.len() && 0 <= j < f.len() && i != j implies f[i]
        != f[j] by {
        let ii = if i < k {
            i
        } else {
            i + 1
        };
        let jj = if j < k {
            j
        } else {
            j + 1
        };
        assert(f[i] == c[ii] && f[j] == c[jj]);
    }
    if f.contains(center(w, h)) {
        let i = choose|i: int| 0 <= i < f.len() && f[i] == center(w, h);
        let ii = if i < k {
            i
        } else {
            i + 1
        };
        assert(f[i] == c[ii]);
    }
}

/// The picked cells are distinct cells of the pool, one for each draw as long
/// as the pool lasts.
pub proof fn lemma_pick(pool: Seq<Point>, draws: Seq<usize>)
    requires
        pool.no_duplicates(),
    ensures
        pick(pool, draws).len() == if draws.len() < pool.len() {
            draws.len()
        } else {
            pool.len()
        },
        pick(pool, draws).no_duplicates(),
        forall|q: Point| #[trigger] pick(pool, draws).contains(q) ==> pool.contains(q),
    decreases draws.len(),
{
    if draws.len() > 0 && pool.len() > 0 {
        let k = (draws[0] as int) % (pool.len() as int);
        let rest = pool.remove(k);
        assert forall|i: int, j: int| 0 <= i < rest.len() && 0 <= j < rest.len() && i != j implies rest[i]
            != rest[j] by {
            let ii = if i < k {
                i
            } else {
                i + 1
            };
            let jj = if j < k {
                j
            } else {
                j + 1
            };
            assert(rest[i] == pool[ii] && rest[j] == pool[jj]);
        }
        lemma_pick(rest, draws.drop_first());
        let tail = pick(rest, draws.drop_first());
        let all = pick(pool, draws);
        assert(all == seq![pool[k]] + tail);
        assert forall|q: Point| #[trigger] rest.contains(q) implies pool.contains(q) && q != pool[k] by {
            let i = choose|i: int| 0 <= i < rest.len() && rest[i] == q;
            let ii = if i < k {
                i
            } else {
                i + 1
            };
            assert(rest[i] == pool[ii]);
        }
        assert forall|q: Point| #[trigger] all.contains(q) implies pool.contains(q) by {
            let i = choose|i: int| 0 <= i < all.len() && all[i] == q;
            if i > 0 {
                assert(tail[i - 1] == q);
                assert(tail.contains(q));
            }
        }
        assert forall|i: int, j: int| 0 <= i < all.len() && 0 <= j < all.len() && i != j implies all[i]
            != all[j] by {
            if i > 0 && j > 0 {
                assert(all[i] == tail[i - 1] && all[j] == tail[j - 1]);
            } else if i == 0 {
                assert(all[j] == tail[j - 1]);
                assert(tail.contains(all[j]));
            } else {
                assert(all[i] == tail[i - 1]);
                assert(tail.contains(all[i]));
            }
        }
    }
}

} // verus!
