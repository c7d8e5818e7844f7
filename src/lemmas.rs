//! Facts about whole turns, stated over the specifications that
//! `Field::robots_move` meets.

use vstd::prelude::*;

use crate::field::{advance_outcome, collided, moved, survivors, wrecked};
use crate::geometry::{Point, chase, distance, lemma_chase_converges, lemma_chase_step, step_toward};

verus! {

broadcast use vstd::seq_lib::group_to_multiset_ensures;

/// A lone robot on `c`, with no heap on the field, steps to
/// `step_toward(c, player)` and survives; the player is caught exactly when
/// that step lands on the player's cell, and otherwise no point is scored.
pub proof fn lemma_lone_robot_turn(c: Point, player: Point)
    ensures
        survivors(moved(seq![c], player, false), Seq::empty()) == seq![step_toward(c, player)],
        advance_outcome(seq![c], Seq::empty(), player, false) == if step_toward(c, player)
            == player {
            None
        } else {
            Some(0u64)
        },
{
    let q = step_toward(c, player);
    let m = moved(seq![c], player, false);
    assert(m =~= seq![q]);
    assert(seq![q] =~= Seq::<Point>::empty().push(q));
    assert(m.to_multiset().count(q) == 1);
    assert(!collided(m, q));
    assert(forall|p: Point| p != q ==> m.to_multiset().count(p) == 0);
    reveal(Seq::filter);
    assert(Seq::<Point>::empty().push(q).drop_last() =~= Seq::<Point>::empty());
    assert(survivors(m, Seq::empty()) =~= seq![q]);
    assert(!wrecked(m, Seq::empty(), player));
}

/// A robot that starts on `r` and chases a player who stays on `player`,
/// alone on a field without heaps, stands on `chase(r, player, k)` before
/// turn `k + 1`.  Every turn before the one that reaches the player leaves
/// the player safe with no point scored, and the turn numbered
/// `distance(r, player)` catches the player: the robot moves diagonally while
/// both offsets are nonzero and needs exactly the larger offset in turns.
pub proof fn lemma_lone_robot_chase(r: Point, player: Point, k: nat)
    requires
        k < distance(r, player),
    ensures
        survivors(moved(seq![chase(r, player, k)], player, false), Seq::empty()) == seq![
            chase(r, player, k + 1),
        ],
        advance_outcome(seq![chase(r, player, k)], Seq::empty(), player, false) == if k + 1
            == distance(r, player) {
            None
        } else {
            Some(0u64)
        },
        chase(r, player, distance(r, player)) == player,
{
    lemma_chase_converges(r, player);
    lemma_chase_step(r, player, k);
    lemma_lone_robot_turn(chase(r, player, k), player);
    if k + 1 < distance(r, player) {
        assert(chase(r, player, k + 1) != player);
    }
}

/// Two robots that step onto the same cell `c` are both destroyed and leave
/// a heap on `c`; when the player stands neither on `c` nor on an old heap,
/// the turn scores exactly two points.
pub proof fn lemma_pair_merge(a: Point, b: Point, player: Point, scraps: Seq<Point>)
    requires
        step_toward(a, player) == step_toward(b, player),
    ensures
        ({
            let m = moved(seq![a, b], player, false);
            &&& collided(m, step_toward(a, player))
            &&& survivors(m, scraps) == Seq::<Point>::empty()
        }),
        step_toward(a, player) != player && !scraps.contains(player) ==> advance_outcome(
            seq![a, b],
            scraps,
            player,
            false,
        ) == Some(2u64),
{
    let c = step_toward(a, player);
    let m = moved(seq![a, b], player, false);
    assert(m =~= seq![c, c]);
    assert(seq![c, c] =~= Seq::<Point>::empty().push(c).push(c));
    assert(Seq::<Point>::empty().push(c).push(c).drop_last() =~= Seq::<Point>::empty().push(c));
    assert(m.to_multiset().count(c) == 2);
    let f = |r: Point| !wrecked(m, scraps, r);
    assert(!f(c));
    reveal(Seq::filter);
    assert(Seq::<Point>::empty().filter(f) =~= Seq::<Point>::empty());
    Seq::<Point>::empty().lemma_filter_push(c, f);
    Seq::<Point>::empty().push(c).lemma_filter_push(c, f);
    assert(m.filter(f) =~= Seq::<Point>::empty());
    assert(survivors(m, scraps) =~= Seq::<Point>::empty());
    if c != player {
        assert(m.to_multiset().count(player) == 0);
    }
}

/// A robot that ends its step on a heap (`i` is its index) is destroyed and
/// scores one point, and changes nothing else: the turn leaves the same
/// survivors and the same heaps as it would without that robot, and catches
/// the player exactly when it would without it.
pub proof fn lemma_scrap_absorbs(
    robots: Seq<Point>,
    scraps: Seq<Point>,
    player: Point,
    stop: bool,
    i: int,
)
    requires
        0 <= i < robots.len(),
        robots.len() <= usize::MAX,
        scraps.contains(moved(robots, player, stop)[i]),
    ensures
        ({
            let m = moved(robots, player, stop);
            let m2 = moved(robots.remove(i), player, stop);
            &&& survivors(m, scraps) == survivors(m2, scraps)
            &&& forall|p: Point| #[trigger] wrecked(m, scraps, p) == wrecked(m2, scraps, p)
        }),
        match advance_outcome(robots.remove(i), scraps, player, stop) {
            None => advance_outcome(robots, scraps, player, stop) is None,
            Some(k) => advance_outcome(robots, scraps, player, stop) == Some((k + 1) as u64),
        },
{
    let m = moved(robots, player, stop);
    let m2 = moved(robots.remove(i), player, stop);
    let x = m[i];
    assert(m2 =~= m.remove(i));
    assert forall|p: Point| #[trigger] wrecked(m, scraps, p) == wrecked(m2, scraps, p) by {
        if p != x {
            assert(m2.to_multiset().count(p) == m.to_multiset().count(p));
        }
    }
    let f = |r: Point| !wrecked(m, scraps, r);
    let f2 = |r: Point| !wrecked(m2, scraps, r);
    assert(f =~= f2);
    broadcast use vstd::seq_lib::group_seq_lib_default;

    assert(m =~= m.take(i) + seq![x] + m.skip(i + 1));
    assert(m2 =~= m.take(i) + m.skip(i + 1));
    reveal(Seq::filter);
    assert(seq![x] =~= Seq::<Point>::empty().push(x));
    assert(Seq::<Point>::empty().push(x).drop_last() =~= Seq::<Point>::empty());
    assert(!f(x));
    assert(Seq::<Point>::empty().filter(f) =~= Seq::<Point>::empty());
    Seq::<Point>::empty().lemma_filter_push(x, f);
    assert(seq![x].filter(f) =~= Seq::<Point>::empty());
    assert(m.filter(f) == (m.take(i) + seq![x]).filter(f) + m.skip(i + 1).filter(f));
    assert((m.take(i) + seq![x]).filter(f) == m.take(i).filter(f) + seq![x].filter(f));
    assert(m.filter(f) =~= m2.filter(f));
    assert(survivors(m, scraps) == survivors(m2, scraps));
    let s = survivors(m, scraps);
    s.lemma_filter_len(f);
}

} // verus!
