//! Regions of a graph: what can be reached from a vertex, and how many
//! regions there are.
use vstd::prelude::*;
use crate::graph::clear_flags;
use crate::graph::count_clear;
use crate::graph::follow_links;
use crate::graph::followed;
use crate::graph::lemma_count_clear_bound;
use crate::graph::lemma_count_clear_drops;
use crate::graph::lemma_within_grows;
use crate::graph::lemma_within_is_inside;
use crate::graph::links_are_inside;
use crate::graph::links_to;
use crate::graph::rows;
use crate::graph::within;

verus! {

/// Whether `v` can be reached from `s` along the links, in any number of
/// steps.
pub open spec fn reachable(links: Seq<Seq<usize>>, s: int, v: int) -> bool {
    exists|k: nat| #[trigger] within(links, s, v, k)
}

/// What can be reached from what can be reached, can be reached.
pub proof fn lemma_within_composes(links: Seq<Seq<usize>>, a: int, b: int, c: int, j: nat, k: nat)
    requires
        within(links, a, b, j),
        within(links, b, c, k),
    ensures
        within(links, a, c, j + k),
    decreases k,
{
    if k == 0 {
    } else if within(links, b, c, (k - 1) as nat) {
        lemma_within_composes(links, a, b, c, j, (k - 1) as nat);
        lemma_within_grows(links, a, c, (j + k - 1) as nat, j + k);
    } else {
        let u = choose|u: int|
            within(links, b, u, (k - 1) as nat) && #[trigger] links_to(links, u, c);
        lemma_within_composes(links, a, b, u, j, (k - 1) as nat);
        assert(within(links, a, u, (j + k - 1) as nat));
        assert(links_to(links, u, c));
    }
}

/// Reachability is transitive.
pub proof fn lemma_reachable_composes(links: Seq<Seq<usize>>, a: int, b: int, c: int)
    requires
        reachable(links, a, b),
        reachable(links, b, c),
    ensures
        reachable(links, a, c),
{
    let j = choose|j: nat| #[trigger] within(links, a, b, j);
    let k = choose|k: nat| #[trigger] within(links, b, c, k);
    lemma_within_composes(links, a, b, c, j, k);
}

/// No link leads out of the flagged vertices.
pub open spec fn is_closed(links: Seq<Seq<usize>>, flags: Seq<bool>) -> bool {
    forall|u: int, v: int|
        0 <= u < flags.len() && flags[u] && #[trigger] links_to(links, u, v) ==> flags[v]
}

/// Where one more step than `d` reaches nothing but what `old` flags or `d`
/// steps reach, no number of steps does.
proof fn lemma_flood_settles(
    links: Seq<Seq<usize>>,
    old: Seq<bool>,
    s: int,
    d: nat,
    v: int,
    k: nat,
)
    requires
        links_are_inside(links),
        0 <= s < links.len(),
        old.len() == links.len(),
        is_closed(links, old),
        forall|x: int|
            0 <= x < links.len() && #[trigger] within(links, s, x, d + 1) ==> old[x] || within(
                links,
                s,
                x,
                d,
            ),
        within(links, s, v, k),
    ensures
        old[v] || within(links, s, v, d),
    decreases k,
{
    lemma_within_is_inside(links, s, v, k);
    if k <= d {
        lemma_within_grows(links, s, v, k, d);
    } else if within(links, s, v, (k - 1) as nat) {
        lemma_flood_settles(links, old, s, d, v, (k - 1) as nat);
    } else {
        let u = choose|u: int|
            within(links, s, u, (k - 1) as nat) && #[trigger] links_to(links, u, v);
        lemma_flood_settles(links, old, s, d, u, (k - 1) as nat);
        lemma_within_is_inside(links, s, u, (k - 1) as nat);
        if old[u] {
            assert(old[v]);
        } else {
            assert(within(links, s, v, d + 1));
        }
    }
}

/// After the links of the whole frontier were followed, what is flagged is
/// what was flagged at the start or lies within one more step.
proof fn lemma_flood_level(
    links: Seq<Seq<usize>>,
    old: Seq<bool>,
    level: Seq<bool>,
    seen: Seq<bool>,
    frontier: Seq<usize>,
    start: int,
    distance: nat,
)
    requires
        links_are_inside(links),
        0 <= start < links.len(),
        old.len() == links.len(),
        level.len() == links.len(),
        seen.len() == links.len(),
        is_closed(links, old),
        forall|v: int|
            0 <= v < links.len() ==> (#[trigger] level[v] <==> old[v] || within(
                links,
                start,
                v,
                distance,
            )),
        forall|i: int|
            0 <= i < frontier.len() ==> (#[trigger] frontier[i]) < links.len() && level[frontier[i] as int]
                && !old[frontier[i] as int],
        forall|v: int|
            0 <= v < links.len() && !old[v] && within(links, start, v, distance) && (distance > 0
                ==> !within(links, start, v, (distance - 1) as nat)) ==> exists|i: int|
                0 <= i < frontier.len() && #[trigger] frontier[i] == v,
        forall|v: int|
            0 <= v < links.len() ==> (#[trigger] seen[v] <==> followed(
                links,
                level,
                frontier,
                frontier.len() as int,
                v,
            )),
    ensures
        forall|v: int|
            0 <= v < links.len() ==> (#[trigger] seen[v] <==> old[v] || within(
                links,
                start,
                v,
                distance + 1,
            )),
{
    assert forall|v: int| 0 <= v < links.len() implies (#[trigger] seen[v] <==> old[v] || within(
        links,
        start,
        v,
        distance + 1,
    )) by {
        if seen[v] && !level[v] {
            let i = choose|i: int|
                0 <= i < frontier.len() && #[trigger] links_to(links, frontier[i] as int, v);
            assert(level[frontier[i] as int] && !old[frontier[i] as int]);
            assert(within(links, start, frontier[i] as int, distance));
        }
        if within(links, start, v, distance + 1) && !level[v] {
            let u = choose|u: int|
                within(links, start, u, distance) && #[trigger] links_to(links, u, v);
            lemma_within_is_inside(links, start, u, distance);
            if old[u] {
                assert(old[v]);
            }
            if distance > 0 && within(links, start, u, (distance - 1) as nat) {
                assert(within(links, start, v, distance));
            }
            let i = choose|i: int| 0 <= i < frontier.len() && #[trigger] frontier[i] == u;
            assert(links_to(links, frontier[i] as int, v));
        }
    }
}

/// Flags all that can be reached from `start`. The flags set before must
/// be closed: no link leads from a flagged vertex to one that is not.
pub fn flood(adjacency: &Vec<Vec<usize>>, start: usize, seen: &mut Vec<bool>)
    requires
        links_are_inside(rows(*adjacency)),
        start < adjacency.len(),
        old(seen)@.len() == adjacency.len(),
        !old(seen)@[start as int],
        is_closed(rows(*adjacency), old(seen)@),
    ensures
        final(seen)@.len() == adjacency.len(),
        forall|v: int|
            0 <= v < adjacency.len() ==> (#[trigger] final(seen)@[v] <==> old(seen)@[v]
                || reachable(rows(*adjacency), start as int, v)),
{
    let ghost links = rows(*adjacency);
    let ghost before = seen@;
    let n = adjacency.len();
    proof {
        lemma_count_clear_bound(seen@);
        lemma_count_clear_drops(seen@, start as int);
    }
    seen.set(start, true);
    let mut frontier: Vec<usize> = Vec::new();
    frontier.push(start);
    let ghost mut distance: nat = 0;
    proof {
        assert(frontier@[0] == start);
    }
    loop
        invariant_except_break
            links == rows(*adjacency),
            links_are_inside(links),
            n == adjacency.len(),
            start < n,
            before.len() == n,
            is_closed(links, before),
            seen@.len() == n,
            frontier@.len() > 0,
            forall|v: int|
                0 <= v < n ==> (#[trigger] seen@[v] <==> before[v] || within(
                    links,
                    start as int,
                    v,
                    distance,
                )),
            forall|i: int|
                0 <= i < frontier@.len() ==> (#[trigger] frontier@[i]) < n && seen@[frontier@[i] as int]
                    && !before[frontier@[i] as int],
            forall|v: int|
                0 <= v < n && !before[v] && within(links, start as int, v, distance) && (distance
                    > 0 ==> !within(links, start as int, v, (distance - 1) as nat)) ==> exists|
                    i: int,
                | 0 <= i < frontier@.len() && #[trigger] frontier@[i] == v,
        ensures
            seen@.len() == n,
            forall|v: int|
                0 <= v < n ==> (#[trigger] seen@[v] <==> before[v] || reachable(
                    links,
                    start as int,
                    v,
                )),
        decreases count_clear(seen@),
    {
        let ghost level = seen@;
        let mut next: Vec<usize> = Vec::new();
        let mut fi: usize = 0;
        while fi < frontier.len()
            invariant
                links == rows(*adjacency),
                links_are_inside(links),
                n == adjacency.len(),
                start < n,
                before.len() == n,
                seen@.len() == n,
                level.len() == n,
                fi <= frontier@.len(),
                forall|v: int| 0 <= v < n && before[v] ==> #[trigger] level[v],
                forall|i: int|
                    0 <= i < frontier@.len() ==> (#[trigger] frontier@[i]) < n && level[frontier@[i] as int]
                        && !before[frontier@[i] as int],
                forall|i: int|
                    0 <= i < next@.len() ==> (#[trigger] next@[i]) < n && seen@[next@[i] as int]
                        && !level[next@[i] as int],
                forall|v: int|
                    0 <= v < n ==> (#[trigger] seen@[v] <==> followed(
                        links,
                        level,
                        frontier@,
                        fi as int,
                        v,
                    )),
                forall|v: int|
                    0 <= v < n && seen@[v] && !level[v] ==> exists|i: int|
                        0 <= i < next@.len() && #[trigger] next@[i] == v,
                count_clear(seen@) + next@.len() == count_clear(level),
            decreases frontier@.len() - fi,
        {
            let u = frontier[fi];
            let ghost seen_before = seen@;
            let ghost next_before = next@;
            let found = follow_links(adjacency, u, n, seen, &mut next);
            proof {
                assert forall|v: int| 0 <= v < n implies (#[trigger] seen@[v] <==> followed(
                    links,
                    level,
                    frontier@,
                    fi + 1,
                    v,
                )) by {
                    if seen@[v] && !seen_before[v] {
                        assert(links_to(links, frontier@[fi as int] as int, v));
                    }
                    if followed(links, level, frontier@, fi + 1, v) && !level[v] {
                        let i = choose|i: int|
                            0 <= i < fi + 1 && #[trigger] links_to(links, frontier@[i] as int, v);
                        if i < fi {
                            assert(followed(links, level, frontier@, fi as int, v));
                        }
                    }
                }
                assert forall|v: int| 0 <= v < n && seen@[v] && !level[v] implies exists|i: int|
                    0 <= i < next@.len() && #[trigger] next@[i] == v by {
                    if seen_before[v] {
                        let at = choose|i: int|
                            0 <= i < next_before.len() && #[trigger] next_before[i] == v;
                        assert(next@[at] == v);
                    } else {
                        let at = choose|i: int|
                            next_before.len() <= i < next@.len() && #[trigger] next@[i] == v;
                        assert(next@[at] == v);
                    }
                }
                assert forall|i: int| 0 <= i < next@.len() implies (#[trigger] next@[i]) < n
                    && seen@[next@[i] as int] && !level[next@[i] as int] by {
                    if i < next_before.len() {
                        assert(next@[i] == next_before[i]);
                    } else {
                        let w = next@[i] as int;
                        assert(!seen_before[w]);
                        if level[w] {
                            assert(followed(links, level, frontier@, fi as int, w));
                        }
                    }
                }
            }
            fi += 1;
        }
        proof {
            lemma_flood_level(links, before, level, seen@, frontier@, start as int, distance);
        }
        if next.len() == 0 {
            proof {
                assert forall|v: int| 0 <= v < n implies (#[trigger] seen@[v] <==> before[v]
                    || reachable(links, start as int, v)) by {
                    assert(seen@[v] == level[v]) by {
                        if seen@[v] && !level[v] {
                            let at = choose|i: int|
                                0 <= i < next@.len() && #[trigger] next@[i] == v;
                        }
                        if level[v] && !seen@[v] {
                            assert(followed(links, level, frontier@, frontier@.len() as int, v));
                        }
                    }
                    if reachable(links, start as int, v) {
                        let k = choose|k: nat| #[trigger] within(links, start as int, v, k);
                        assert forall|x: int|
                            0 <= x < links.len() && #[trigger] within(
                                links,
                                start as int,
                                x,
                                distance + 1,
                            ) implies before[x] || within(links, start as int, x, distance) by {
                            assert(seen@[x]);
                            if !level[x] {
                                let at = choose|i: int|
                                    0 <= i < next@.len() && #[trigger] next@[i] == x;
                            }
                        }
                        lemma_flood_settles(links, before, start as int, distance, v, k);
                    }
                    if level[v] && !before[v] {
                        assert(within(links, start as int, v, distance));
                    }
                }
            }
            break;
        }
        proof {
            assert forall|v: int|
                0 <= v < n && !before[v] && within(links, start as int, v, distance + 1)
                    && !within(links, start as int, v, distance) implies exists|i: int|
                0 <= i < next@.len() && #[trigger] next@[i] == v by {
                assert(seen@[v] && !level[v]);
            }
            distance = distance + 1;
        }
        frontier = next;
    }
}

/// Whether `v` can be reached from a member that comes before `p`.
pub open spec fn reached_before(links: Seq<Seq<usize>>, member: Seq<bool>, p: int, v: int) -> bool {
    exists|u: int| 0 <= u < p && member[u] && #[trigger] reachable(links, u, v)
}

/// A leader is a member that no earlier member reaches. Where links go
/// both ways, every region has exactly one leader: its first member.
pub open spec fn is_leader(links: Seq<Seq<usize>>, member: Seq<bool>, v: int) -> bool {
    member[v] && !reached_before(links, member, v, v)
}

/// A leader is enclosed where nothing that it reaches first lies on the
/// edge. Where links go both ways, what a leader reaches first is its
/// whole region.
pub open spec fn is_enclosed_leader(
    links: Seq<Seq<usize>>,
    member: Seq<bool>,
    edge: Seq<bool>,
    v: int,
) -> bool {
    is_leader(links, member, v) && forall|w: int|
        0 <= w < links.len() && #[trigger] reachable(links, v, w) && !reached_before(
            links,
            member,
            v,
            w,
        ) ==> !edge[w]
}

/// The number of enclosed leaders among the first `upto` vertices.
pub open spec fn count_enclosed(
    links: Seq<Seq<usize>>,
    member: Seq<bool>,
    edge: Seq<bool>,
    upto: nat,
) -> nat
    decreases upto,
{
    if upto == 0 {
        0
    } else {
        count_enclosed(links, member, edge, (upto - 1) as nat) + (if is_enclosed_leader(
            links,
            member,
            edge,
            upto - 1,
        ) {
            1nat
        } else {
            0nat
        })
    }
}

/// The number of leaders among the first `upto` vertices.
pub open spec fn count_leaders(links: Seq<Seq<usize>>, member: Seq<bool>, upto: nat) -> nat
    decreases upto,
{
    if upto == 0 {
        0
    } else {
        count_leaders(links, member, (upto - 1) as nat) + (if is_leader(links, member, upto - 1) {
            1nat
        } else {
            0nat
        })
    }
}

/// Without an edge every leader is enclosed.
pub proof fn lemma_no_edge_encloses_all(
    links: Seq<Seq<usize>>,
    member: Seq<bool>,
    edge: Seq<bool>,
    upto: nat,
)
    requires
        edge.len() == links.len(),
        forall|w: int| 0 <= w < edge.len() ==> !#[trigger] edge[w],
    ensures
        count_enclosed(links, member, edge, upto) == count_leaders(links, member, upto),
    decreases upto,
{
    if upto > 0 {
        lemma_no_edge_encloses_all(links, member, edge, (upto - 1) as nat);
    }
}

/// Every link joins two members.
pub open spec fn links_join_members(links: Seq<Seq<usize>>, member: Seq<bool>) -> bool {
    forall|u: int, v: int| #[trigger] links_to(links, u, v) ==> member[u] && member[v]
}

/// Whether a vertex that is flagged in `after` but not in `before` lies on
/// the edge.
fn newly_flagged_on_edge(before: &Vec<bool>, after: &Vec<bool>, edge: &Vec<bool>) -> (r: bool)
    requires
        before.len() == after.len(),
        edge.len() == after.len(),
    ensures
        r <==> exists|w: int|
            0 <= w < after.len() && #[trigger] after@[w] && !before@[w] && edge@[w],
{
    let mut w: usize = 0;
    while w < after.len()
        invariant
            before.len() == after.len(),
            edge.len() == after.len(),
            w <= after.len(),
            forall|x: int| 0 <= x < w ==> !(#[trigger] after@[x] && !before@[x] && edge@[x]),
        decreases after.len() - w,
    {
        if after[w] && !before[w] && edge[w] {
            return true;
        }
        w += 1;
    }
    false
}

/// A copy of the flags.
fn copy_flags(flags: &Vec<bool>) -> (r: Vec<bool>)
    ensures
        r@ == flags@,
{
    let mut out: Vec<bool> = Vec::new();
    let mut i: usize = 0;
    while i < flags.len()
        invariant
            i <= flags.len(),
            out@ == flags@.take(i as int),
        decreases flags.len() - i,
    {
        out.push(flags[i]);
        assert(out@ =~= flags@.take(i + 1));
        i += 1;
    }
    assert(flags@.take(flags.len() as int) =~= flags@);
    out
}

/// Counts the regions of members that keep off the edge: the members are
/// gone through in order; each that no earlier member reaches opens a
/// region, which is counted unless what it reaches first touches the edge.
pub fn count_enclosed_regions(adjacency: &Vec<Vec<usize>>, member: &Vec<bool>, edge: &Vec<bool>)
    -> (r: usize)
    requires
        links_are_inside(rows(*adjacency)),
        member.len() == adjacency.len(),
        edge.len() == adjacency.len(),
        links_join_members(rows(*adjacency), member@),
    ensures
        r == count_enclosed(rows(*adjacency), member@, edge@, adjacency.len() as nat),
{
    let ghost links = rows(*adjacency);
    let n = adjacency.len();
    let mut seen = clear_flags(n);
    let mut count: usize = 0;
    let mut p: usize = 0;
    while p < n
        invariant
            links == rows(*adjacency),
            links_are_inside(links),
            n == adjacency.len(),
            member.len() == n,
            edge.len() == n,
            links_join_members(links, member@),
            seen@.len() == n,
            p <= n,
            count <= p,
            count == count_enclosed(links, member@, edge@, p as nat),
            forall|v: int|
                0 <= v < n ==> (#[trigger] seen@[v] <==> reached_before(
                    links,
                    member@,
                    p as int,
                    v,
                )),
        decreases n - p,
    {
        let ghost seen_here = seen@;
        if member[p] && !seen[p] {
            proof {
                assert forall|u: int, v: int|
                    0 <= u < seen@.len() && seen@[u] && #[trigger] links_to(
                        links,
                        u,
                        v,
                    ) implies seen@[v] by {
                    let i = choose|i: int| 0 <= i < links[u].len() && #[trigger] links[u][i] == v;
                    assert(links[u][i] < links.len());
                    let first = choose|first: int|
                        0 <= first < p && member@[first] && #[trigger] reachable(links, first, u);
                    let k = choose|k: nat| #[trigger] within(links, first, u, k);
                    assert(within(links, first, v, k + 1));
                    assert(reachable(links, first, v));
                }
            }
            let before = copy_flags(&seen);
            flood(adjacency, p, &mut seen);
            let touches = newly_flagged_on_edge(&before, &seen, edge);
            proof {
                assert(is_leader(links, member@, p as int));
                assert(is_enclosed_leader(links, member@, edge@, p as int) <==> !touches) by {
                    if touches {
                        let w = choose|w: int|
                            0 <= w < seen@.len() && #[trigger] seen@[w] && !before@[w] && edge@[w];
                        assert(reachable(links, p as int, w));
                    }
                    if !touches {
                        assert forall|w: int|
                            0 <= w < links.len() && #[trigger] reachable(links, p as int, w)
                                && !reached_before(links, member@, p as int, w) implies !edge@[w] by {
                            assert(seen@[w] && !before@[w]);
                        }
                    }
                }
            }
            if !touches {
                count = count + 1;
            }
            proof {
                assert forall|v: int| 0 <= v < n implies (#[trigger] seen@[v] <==> reached_before(
                    links,
                    member@,
                    p + 1,
                    v,
                )) by {
                    if seen@[v] {
                        if seen_here[v] {
                            let first = choose|first: int|
                                0 <= first < p && member@[first] && #[trigger] reachable(
                                    links,
                                    first,
                                    v,
                                );
                            assert(reachable(links, first, v));
                        } else {
                            assert(reachable(links, p as int, v));
                        }
                    }
                    if reached_before(links, member@, p + 1, v) {
                        let first = choose|first: int|
                            0 <= first < p + 1 && member@[first] && #[trigger] reachable(
                                links,
                                first,
                                v,
                            );
                        if first < p {
                            assert(reached_before(links, member@, p as int, v));
                        }
                    }
                }
            }
        } else {
            proof {
                if member@[p as int] {
                    assert(reached_before(links, member@, p as int, p as int));
                }
                assert(!is_leader(links, member@, p as int));
                assert forall|v: int| 0 <= v < n implies (#[trigger] seen@[v] <==> reached_before(
                    links,
                    member@,
                    p + 1,
                    v,
                )) by {
                    if seen@[v] {
                        let first = choose|first: int|
                            0 <= first < p && member@[first] && #[trigger] reachable(
                                links,
                                first,
                                v,
                            );
                        assert(reachable(links, first, v));
                    }
                    if reached_before(links, member@, p + 1, v) {
                        let first = choose|first: int|
                            0 <= first < p + 1 && member@[first] && #[trigger] reachable(
                                links,
                                first,
                                v,
                            );
                        if first == p {
                            let earlier = choose|earlier: int|
                                0 <= earlier < p && member@[earlier] && #[trigger] reachable(
                                    links,
                                    earlier,
                                    p as int,
                                );
                            lemma_reachable_composes(links, earlier, p as int, v);
                            assert(reachable(links, earlier, v));
                        } else {
                            assert(reachable(links, first, v));
                        }
                    }
                }
            }
        }
        p += 1;
    }
    count
}

/// Counts the regions of members: the members that no earlier member
/// reaches.
pub fn count_regions(adjacency: &Vec<Vec<usize>>, member: &Vec<bool>) -> (r: usize)
    requires
        links_are_inside(rows(*adjacency)),
        member.len() == adjacency.len(),
        links_join_members(rows(*adjacency), member@),
    ensures
        r == count_leaders(rows(*adjacency), member@, adjacency.len() as nat),
{
    let edge = clear_flags(adjacency.len());
    proof {
        lemma_no_edge_encloses_all(rows(*adjacency), member@, edge@, adjacency.len() as nat);
    }
    count_enclosed_regions(adjacency, member, &edge)
}

} // verus!
