//! A* search over a 4-connected integer grid, with a pluggable walkability
//! predicate and move-cost function.
//!
//! The open set, score tables and predecessor links are kept in plain vectors
//! (association lists with first-match lookup); maps are small bounded grids,
//! so correctness-first linear scans are acceptable here.

use vstd::prelude::*;

use crate::geometry::abs_int;

verus! {

/// Two cells are adjacent when they differ by exactly one unit on exactly
/// one axis.
pub open spec fn spec_adjacent(a: (i32, i32), b: (i32, i32)) -> bool {
    abs_int(a.0 - b.0) + abs_int(a.1 - b.1) == 1
}

/// Whether the predicate can return `true` for the cell `n`: every path cell
/// an A* result reports was answered `true` by the walkability predicate.
pub open spec fn walk_true<W: Fn(i32, i32) -> bool>(walkable: W, n: (i32, i32)) -> bool {
    call_ensures(walkable, (n.0, n.1), true)
}

/// Whether the association list holds an entry for key `k`.
spec fn alist_has<V>(s: Seq<((i32, i32), V)>, k: (i32, i32)) -> bool {
    exists|j: int| 0 <= j < s.len() && s[j].0 == k
}

/// First-match lookup in an association list.
fn alist_get<V: Copy>(s: &Vec<((i32, i32), V)>, k: (i32, i32)) -> (r: Option<V>)
    ensures
        match r {
            Some(v) => exists|j: int|
                0 <= j < s@.len() && s@[j] == (k, v) && (forall|j2: int|
                    0 <= j2 < j ==> s@[j2].0 != k),
            None => !alist_has(s@, k),
        },
{
    let mut i: usize = 0;
    while i < s.len()
        invariant
            0 <= i <= s@.len(),
            forall|j: int| 0 <= j < i ==> s@[j].0 != k,
        decreases s@.len() - i,
    {
        let (k2, v2) = s[i];
        if k2.0 == k.0 && k2.1 == k.1 {
            return Some(v2);
        }
        i = i + 1;
    }
    None
}

/// Updates the first entry with key `k`, or appends one.
fn alist_set<V: Copy>(s: &mut Vec<((i32, i32), V)>, k: (i32, i32), v: V)
    ensures
        alist_has(old(s)@, k) ==> exists|j: int|
            0 <= j < old(s)@.len() && old(s)@[j].0 == k && (forall|j2: int|
                0 <= j2 < j ==> old(s)@[j2].0 != k) && final(s)@ == old(s)@.update(j, (k, v)),
        !alist_has(old(s)@, k) ==> final(s)@ == old(s)@.push((k, v)),
{
    let mut i: usize = 0;
    while i < s.len()
        invariant
            s@ == old(s)@,
            0 <= i <= s@.len(),
            forall|j: int| 0 <= j < i ==> s@[j].0 != k,
        decreases s@.len() - i,
    {
        let (k2, _) = s[i];
        if k2.0 == k.0 && k2.1 == k.1 {
            assert(s@[i as int].0 == k);
            s.set(i, (k, v));
            return ;
        }
        i = i + 1;
    }
    s.push((k, v));
}

/// Whether the vector holds the cell `k`.
fn vec_contains(s: &Vec<(i32, i32)>, k: (i32, i32)) -> (r: bool)
    ensures
        r == s@.contains(k),
{
    let mut i: usize = 0;
    while i < s.len()
        invariant
            0 <= i <= s@.len(),
            forall|j: int| 0 <= j < i ==> s@[j] != k,
        decreases s@.len() - i,
    {
        let (x, y) = s[i];
        if x == k.0 && y == k.1 {
            assert(s@[i as int] == k);
            return true;
        }
        i = i + 1;
    }
    false
}

/// `a + b`, saturating at `u32::MAX`.
fn sat_add(a: u32, b: u32) -> (r: u32)
    ensures
        r as int == if a + b <= u32::MAX {
            a + b
        } else {
            u32::MAX as int
        },
{
    if a > u32::MAX - b {
        u32::MAX
    } else {
        a + b
    }
}

/// The Manhattan-distance heuristic, saturating at `u32::MAX` for extreme
/// coordinates.
fn manhattan(a: (i32, i32), b: (i32, i32)) -> u32 {
    let dx: i64 = (a.0 as i64) - (b.0 as i64);
    let dy: i64 = (a.1 as i64) - (b.1 as i64);
    let adx: i64 = if dx < 0 {
        -dx
    } else {
        dx
    };
    let ady: i64 = if dy < 0 {
        -dy
    } else {
        dy
    };
    let sum: i64 = adx + ady;
    if sum > (u32::MAX as i64) {
        u32::MAX
    } else {
        sum as u32
    }
}

/// What every predecessor entry satisfies during the search: the key is a
/// walkable cell other than the start, adjacent to its recorded predecessor,
/// and every predecessor is itself keyed or is the start.
spec fn cf_entry_ok<W: Fn(i32, i32) -> bool>(
    walkable: W,
    start: (i32, i32),
    cf: Seq<((i32, i32), (i32, i32))>,
    j: int,
) -> bool {
    let e = cf[j];
    &&& spec_adjacent(e.0, e.1)
    &&& walk_true(walkable, e.0)
    &&& e.0 != start
    &&& (e.1 == start || alist_has(cf, e.1))
}

/// What every open-set cell satisfies: it is the start or has a recorded
/// predecessor.
spec fn open_entry_ok(
    start: (i32, i32),
    cf: Seq<((i32, i32), (i32, i32))>,
    n: (i32, i32),
) -> bool {
    n == start || alist_has(cf, n)
}

/// What a reconstructed path satisfies: it starts at `current`, each step
/// follows the first matching predecessor link, and it is maximal — its
/// final cell has no link at all.
spec fn reconstructed(
    cf: Seq<((i32, i32), (i32, i32))>,
    current: (i32, i32),
    p: Seq<(i32, i32)>,
) -> bool {
    &&& p.len() >= 1
    &&& p[0] == current
    &&& (forall|i: int|
        0 <= i < p.len() - 1 ==> exists|j: int|
            0 <= j < cf.len() && cf[j] == ((#[trigger] p[i]), p[i + 1]) && (forall|j2: int|
                0 <= j2 < j ==> cf[j2].0 != p[i]))
    &&& !alist_has(cf, p[p.len() - 1])
}

/// Walks the predecessor links back from `current`: the sequence from
/// `current` to the first cell with no recorded link, each step taking the
/// first matching link. A chain of distinct cells takes at most one step per
/// link, so the walk gives up with `None` if the links have not run out by
/// then — which only a cyclic link table could cause.
fn reconstruct_path(came_from: &Vec<((i32, i32), (i32, i32))>, current: (i32, i32)) -> (r: Option<
    Vec<(i32, i32)>,
>)
    ensures
        r matches Some(p) ==> reconstructed(came_from@, current, p@),
{
    let mut path: Vec<(i32, i32)> = Vec::new();
    path.push(current);
    let mut cur = current;
    let mut fuel: usize = came_from.len();
    while fuel > 0
        invariant
            path@.len() >= 1,
            path@[0] == current,
            path@[path@.len() - 1] == cur,
            forall|i: int|
                0 <= i < path@.len() - 1 ==> exists|j: int|
                    0 <= j < came_from@.len() && came_from@[j] == (
                    (#[trigger] path@[i]),
                    path@[i + 1],
                    ) && (forall|j2: int| 0 <= j2 < j ==> came_from@[j2].0 != path@[i]),
        decreases fuel,
    {
        match alist_get(came_from, cur) {
            None => {
                return Some(path);
            },
            Some(next) => {
                path.push(next);
                cur = next;
                fuel = fuel - 1;
            },
        }
    }
    // the links may end exactly when the budget does: one final look
    match alist_get(came_from, cur) {
        None => Some(path),
        Some(_) => None,
    }
}

/// Computes a path with A* using only orthogonal movement.
///
/// `walkable` says whether a cell may be entered; `move_cost` gives the cost
/// of a step (it is consulted only for cells `walkable` admitted). When the
/// goal is not walkable there is no path. A returned path runs from the goal
/// back to the start, each consecutive pair of cells adjacent on exactly one
/// axis, and every cell before the final one was answered walkable. The
/// search gives up after an astronomically large step budget, so that every
/// run terminates.
pub fn ortho_star<W, MC>(
    start: (i32, i32),
    goal: (i32, i32),
    walkable: W,
    move_cost: MC,
) -> (r: Option<Vec<(i32, i32)>>) where
    W: Fn(i32, i32) -> bool,
    MC: Fn((i32, i32), (i32, i32)) -> u32,

    requires
        forall|a: (i32, i32)| #[trigger] call_requires(walkable, a),
        forall|a: ((i32, i32), (i32, i32))|
            spec_adjacent(a.1, a.0) && walk_true(walkable, a.1) ==> #[trigger] call_requires(
                move_cost,
                a,
            ),
    ensures
        (forall|b: bool| call_ensures(walkable, (goal.0, goal.1), b) ==> !b) ==> r is None,
        start == goal && (forall|b: bool| call_ensures(walkable, (goal.0, goal.1), b) ==> b)
            ==> r is Some,
        r is Some ==> walk_true(walkable, goal),
        r matches Some(p) ==> p@.len() >= 1 && p@[0] == goal && p@[p@.len() - 1] == start,
        r matches Some(p) ==> forall|i: int|
            0 <= i < p@.len() - 1 ==> spec_adjacent(#[trigger] p@[i], p@[i + 1]),
        r matches Some(p) ==> forall|i: int|
            0 <= i < p@.len() - 1 ==> walk_true(walkable, #[trigger] p@[i]),
{
    if !walkable(goal.0, goal.1) {
        return None;
    }
    if start.0 == goal.0 && start.1 == goal.1 {
        // the trivial route: the search below would pop the start at once
        // and reconstruct this same single-cell path
        let mut p: Vec<(i32, i32)> = Vec::new();
        p.push(goal);
        return Some(p);
    }
    let mut closed: Vec<(i32, i32)> = Vec::new();
    let mut came_from: Vec<((i32, i32), (i32, i32))> = Vec::new();
    let mut open: Vec<(i32, i32)> = Vec::new();
    open.push(start);
    let mut g: Vec<((i32, i32), u32)> = Vec::new();
    g.push((start, 0));
    let mut f: Vec<((i32, i32), u32)> = Vec::new();
    let h0 = manhattan(start, goal);
    f.push((start, h0));
    let mut fuel: u64 = u64::MAX;
    while open.len() > 0 && fuel > 0
        invariant
            start != goal,
            forall|a: (i32, i32)| #[trigger] call_requires(walkable, a),
            forall|a: ((i32, i32), (i32, i32))|
                spec_adjacent(a.1, a.0) && walk_true(walkable, a.1) ==> #[trigger] call_requires(
                    move_cost,
                    a,
                ),
            walk_true(walkable, goal),
            g@.len() >= 1,
            g@[0] == ((start, 0u32)),
            forall|j: int| 0 <= j < came_from@.len() ==> cf_entry_ok(walkable, start, came_from@, j),
            forall|j: int|
                0 <= j < open@.len() ==> open_entry_ok(start, came_from@, #[trigger] open@[j]),
        decreases fuel,
    {
        fuel = fuel - 1;
        // pick the open cell with the least f-score
        let mut best: usize = 0;
        let mut best_f: u32 = match alist_get(&f, open[0]) {
            Some(v) => v,
            None => u32::MAX,
        };
        let mut j: usize = 1;
        while j < open.len()
            invariant
                open@.len() > 0,
                0 <= best < open@.len(),
                1 <= j <= open@.len(),
            decreases open@.len() - j,
        {
            let fj = match alist_get(&f, open[j]) {
                Some(v) => v,
                None => u32::MAX,
            };
            if fj < best_f {
                best = j;
                best_f = fj;
            }
            j = j + 1;
        }
        let current = open[best];
        assert(open_entry_ok(start, came_from@, current));
        if current.0 == goal.0 && current.1 == goal.1 {
            let ghost cf_snapshot = came_from@;
            match reconstruct_path(&came_from, current) {
                Some(p) => {
                    proof {
                        assert(current == goal);
                        let last = p@[p@.len() - 1];
                        if p@.len() == 1 {
                            // the goal has no predecessor link, so by the
                            // open-set invariant it is the start; but equal
                            // endpoints were handled before the search
                            assert(open_entry_ok(start, cf_snapshot, current));
                            assert(last == start);
                        } else {
                            let i = p@.len() - 2;
                            let j2 = choose|j2: int|
                                0 <= j2 < cf_snapshot.len() && cf_snapshot[j2] == (
                                p@[i],
                                p@[i + 1],
                                ) && (forall|j3: int|
                                    0 <= j3 < j2 ==> cf_snapshot[j3].0 != p@[i]);
                            assert(cf_entry_ok(walkable, start, cf_snapshot, j2));
                            assert(last == start);
                        }
                        assert forall|i: int| 0 <= i < p@.len() - 1 implies spec_adjacent(
                            #[trigger] p@[i],
                            p@[i + 1],
                        ) && walk_true(walkable, p@[i]) by {
                            let j2 = choose|j2: int|
                                0 <= j2 < cf_snapshot.len() && cf_snapshot[j2] == (
                                p@[i],
                                p@[i + 1],
                                ) && (forall|j3: int|
                                    0 <= j3 < j2 ==> cf_snapshot[j3].0 != p@[i]);
                            assert(cf_entry_ok(walkable, start, cf_snapshot, j2));
                        }
                    }
                    return Some(p);
                },
                None => {
                    // the predecessor links formed a cycle and never reached
                    // a link-free cell; report no path rather than a broken
                    // one
                    return None;
                },
            }
        }
        let _ = open.remove(best);
        closed.push(current);
        let gcur = match alist_get(&g, current) {
            Some(v) => v,
            None => u32::MAX,
        };
        let mut d: u8 = 0;
        while d < 4
            invariant
                forall|a: (i32, i32)| #[trigger] call_requires(walkable, a),
                forall|a: ((i32, i32), (i32, i32))|
                    spec_adjacent(a.1, a.0) && walk_true(walkable, a.1)
                        ==> #[trigger] call_requires(move_cost, a),
                walk_true(walkable, goal),
                g@.len() >= 1,
                g@[0] == ((start, 0u32)),
                forall|j2: int|
                    0 <= j2 < came_from@.len() ==> cf_entry_ok(walkable, start, came_from@, j2),
                forall|j2: int|
                    0 <= j2 < open@.len() ==> open_entry_ok(start, came_from@, #[trigger] open@[j2]),
                open_entry_ok(start, came_from@, current),
            decreases 4 - d,
        {
            let n_opt: Option<(i32, i32)> = if d == 0 {
                if current.0 < i32::MAX {
                    Some((current.0 + 1, current.1))
                } else {
                    None
                }
            } else if d == 1 {
                if current.0 > i32::MIN {
                    Some((current.0 - 1, current.1))
                } else {
                    None
                }
            } else if d == 2 {
                if current.1 < i32::MAX {
                    Some((current.0, current.1 + 1))
                } else {
                    None
                }
            } else {
                if current.1 > i32::MIN {
                    Some((current.0, current.1 - 1))
                } else {
                    None
                }
            };
            if let Some(n) = n_opt {
                assert(spec_adjacent(n, current));
                if walkable(n.0, n.1) && !vec_contains(&closed, n) {
                    let mc = move_cost(current, n);
                    let tentative = sat_add(gcur, mc);
                    let gn = match alist_get(&g, n) {
                        Some(v) => v,
                        None => u32::MAX,
                    };
                    if tentative < gn {
                        proof {
                            if n == start {
                                // the start's g-score is 0 and is never beaten
                                assert(g@[0] == ((start, 0u32)));
                                assert(gn == 0);
                                assert(false);
                            }
                        }
                        let ghost old_cf = came_from@;
                        alist_set(&mut came_from, n, current);
                        proof {
                            let upd = if alist_has(old_cf, n) {
                                choose|j3: int|
                                    0 <= j3 < old_cf.len() && old_cf[j3].0 == n && (forall|j4: int|
                                        0 <= j4 < j3 ==> old_cf[j4].0 != n) && came_from@
                                        == old_cf.update(j3, (n, current))
                            } else {
                                old_cf.len() as int
                            };
                            // after the update, entry `upd` is (n, current) and
                            // every other entry is what it was
                            assert(came_from@[upd] == ((n, current)));
                            assert(0 <= upd < came_from@.len());
                            assert(forall|j2: int|
                                0 <= j2 < came_from@.len() && j2 != upd ==> came_from@[j2]
                                    == old_cf[j2]);
                            assert forall|k: (i32, i32)| alist_has(old_cf, k) implies alist_has(
                                came_from@,
                                k,
                            ) by {
                                let j2 = choose|j2: int| 0 <= j2 < old_cf.len() && old_cf[j2].0 == k;
                                if j2 == upd {
                                    assert(old_cf[j2].0 == n);
                                    assert(came_from@[upd].0 == n);
                                } else {
                                    assert(came_from@[j2].0 == k);
                                }
                            }
                            assert(alist_has(came_from@, n));
                            assert forall|j2: int| 0 <= j2 < came_from@.len() implies cf_entry_ok(
                                walkable,
                                start,
                                came_from@,
                                j2,
                            ) by {
                                if j2 == upd {
                                    assert(open_entry_ok(start, old_cf, current));
                                } else {
                                    assert(came_from@[j2] == old_cf[j2]);
                                    assert(cf_entry_ok(walkable, start, old_cf, j2));
                                }
                            }
                        }
                        alist_set(&mut g, n, tentative);
                        let h = manhattan(n, goal);
                        let fs = sat_add(tentative, h);
                        alist_set(&mut f, n, fs);
                        if !vec_contains(&open, n) {
                            open.push(n);
                        }
                    }
                }
            }
            d = d + 1;
        }
    }
    None
}

} // verus!
