//! Cells of the field and the one-step pursuit rule.

use vstd::prelude::*;

verus! {

/// A cell of the field: column `x`, row `y`, both counted from zero.
#[derive(Clone, Copy, Debug, PartialEq, Eq, Hash, Structural)]
pub struct Point {
    pub x: usize,
    pub y: usize,
}

impl Point {
    pub fn new(x: usize, y: usize) -> (r: Point)
        ensures
            r == (Point { x, y }),
    {
        Point { x, y }
    }
}

/// One unit step from coordinate `a` toward coordinate `b` (none when equal).
pub open spec fn approach(a: usize, b: usize) -> usize {
    if a < b {
        (a + 1) as usize
    } else if a > b {
        (a - 1) as usize
    } else {
        a
    }
}

/// Where a robot standing on `p` goes in one turn when the player is on `target`:
/// one step along each axis on which the two differ.
pub open spec fn step_toward(p: Point, target: Point) -> Point {
    Point { x: approach(p.x, target.x), y: approach(p.y, target.y) }
}

/// Absolute difference of two coordinates.
pub open spec fn gap(a: usize, b: usize) -> nat {
    if a < b {
        (b - a) as nat
    } else {
        (a - b) as nat
    }
}

/// Number of king moves between two cells: the larger of the two offsets.
pub open spec fn distance(p: Point, q: Point) -> nat {
    let dx = gap(p.x, q.x);
    let dy = gap(p.y, q.y);
    if dx < dy {
        dy
    } else {
        dx
    }
}

/// Where a robot starting on `p` stands after `k` turns of chasing a player who
/// stays on `target`.
pub open spec fn chase(p: Point, target: Point, k: nat) -> Point
    decreases k,
{
    if k == 0 {
        p
    } else {
        chase(step_toward(p, target), target, (k - 1) as nat)
    }
}

/// `step_toward`, computed.
pub fn step(p: Point, target: Point) -> (r: Point)
    ensures
        r == step_toward(p, target),
{
    let x = if p.x < target.x {
        p.x + 1
    } else if p.x > target.x {
        p.x - 1
    } else {
        p.x
    };
    let y = if p.y < target.y {
        p.y + 1
    } else if p.y > target.y {
        p.y - 1
    } else {
        p.y
    };
    Point { x, y }
}

/// One step shortens the distance to a distinct target by exactly one.
pub proof fn lemma_step_closer(p: Point, target: Point)
    requires
        p != target,
    ensures
        distance(step_toward(p, target), target) + 1 == distance(p, target),
{
}

/// A robot chasing a player who stands still reaches the player's cell after
/// exactly `distance(p, target)` turns and not before, and it moves diagonally
/// on every turn that starts with both offsets nonzero.
pub proof fn lemma_chase_converges(p: Point, target: Point)
    ensures
        chase(p, target, distance(p, target)) == target,
        forall|k: nat| k < distance(p, target) ==> #[trigger] chase(p, target, k) != target,
        forall|k: nat|
            k < distance(p, target) && (#[trigger] chase(p, target, k)).x != target.x && chase(
                p,
                target,
                k,
            ).y != target.y ==> {
                let c = chase(p, target, k);
                let n = chase(p, target, k + 1);
                n.x != c.x && n.y != c.y
            },
    decreases distance(p, target),
{
    if p != target {
        lemma_step_closer(p, target);
        let q = step_toward(p, target);
        lemma_chase_converges(q, target);
        assert forall|k: nat| k < distance(p, target) implies #[trigger] chase(p, target, k) != target by {
            if k > 0 {
                assert(chase(p, target, k) == chase(q, target, (k - 1) as nat));
            }
        }
        assert forall|k: nat|
            k < distance(p, target) && (#[trigger] chase(p, target, k)).x != target.x && chase(
                p,
                target,
                k,
            ).y != target.y implies {
            let c = chase(p, target, k);
            let n = chase(p, target, k + 1);
            n.x != c.x && n.y != c.y
        } by {
            lemma_chase_step(p, target, k);
        }
    }
}

/// `chase` unfolded at its last turn instead of its first.
pub proof fn lemma_chase_step(p: Point, target: Point, k: nat)
    ensures
        chase(p, target, k + 1) == step_toward(chase(p, target, k), target),
    decreases k,
{
    if k > 0 {
        let q = step_toward(p, target);
        lemma_chase_step(q, target, (k - 1) as nat);
        assert(chase(p, target, k) == chase(q, target, (k - 1) as nat));
        assert(chase(p, target, k + 1) == chase(q, target, k));
    } else {
        assert(chase(p, target, 1) == chase(step_toward(p, target), target, 0));
    }
}

} // verus!
