//! An undirected graph over lattice vertices that grows edge by edge, and
//! the distance between two of its vertices.
use vstd::prelude::*;
use crate::rlt::Vertex;

verus! {

/// Whether `u` is linked to `v`: `adjacency[u]` lists `v`.
pub open spec fn links_to(adjacency: Seq<Seq<usize>>, u: int, v: int) -> bool {
    0 <= u < adjacency.len() && exists|i: int|
        0 <= i < adjacency[u].len() && #[trigger] adjacency[u][i] == v
}

/// Whether `v` can be reached from `s` in at most `k` steps along the
/// links.
pub open spec fn within(adjacency: Seq<Seq<usize>>, s: int, v: int, k: nat) -> bool
    decreases k,
{
    if k == 0 {
        v == s
    } else {
        within(adjacency, s, v, (k - 1) as nat) || exists|u: int|
            within(adjacency, s, u, (k - 1) as nat) && #[trigger] links_to(adjacency, u, v)
    }
}

/// Every link leads to a vertex of the graph.
pub open spec fn links_are_inside(adjacency: Seq<Seq<usize>>) -> bool {
    forall|u: int, i: int|
        0 <= u < adjacency.len() && 0 <= i < adjacency[u].len() ==> (#[trigger] adjacency[u][i])
            < adjacency.len()
}

/// What can be reached in `k` steps can be reached in more.
pub proof fn lemma_within_grows(adjacency: Seq<Seq<usize>>, s: int, v: int, k: nat, more: nat)
    requires
        within(adjacency, s, v, k),
        k <= more,
    ensures
        within(adjacency, s, v, more),
    decreases more - k,
{
    if k < more {
        lemma_within_grows(adjacency, s, v, k, (more - 1) as nat);
    }
}

/// What can be reached lies inside the graph.
pub proof fn lemma_within_is_inside(adjacency: Seq<Seq<usize>>, s: int, v: int, k: nat)
    requires
        0 <= s < adjacency.len(),
        links_are_inside(adjacency),
        within(adjacency, s, v, k),
    ensures
        0 <= v < adjacency.len(),
    decreases k,
{
    if k > 0 {
        if within(adjacency, s, v, (k - 1) as nat) {
            lemma_within_is_inside(adjacency, s, v, (k - 1) as nat);
        } else {
            let u = choose|u: int|
                within(adjacency, s, u, (k - 1) as nat) && #[trigger] links_to(adjacency, u, v);
            let i = choose|i: int| 0 <= i < adjacency[u].len() && #[trigger] adjacency[u][i] == v;
            assert(adjacency[u][i] < adjacency.len());
        }
    }
}

/// Where one more step than `d` reaches nothing new, no number of steps
/// does.
pub proof fn lemma_within_settles(adjacency: Seq<Seq<usize>>, s: int, d: nat, v: int, k: nat)
    requires
        forall|x: int| #[trigger]
            within(adjacency, s, x, d + 1) ==> within(adjacency, s, x, d),
        within(adjacency, s, v, k),
    ensures
        within(adjacency, s, v, d),
    decreases k,
{
    if k <= d {
        lemma_within_grows(adjacency, s, v, k, d);
    } else {
        if within(adjacency, s, v, (k - 1) as nat) {
            lemma_within_settles(adjacency, s, d, v, (k - 1) as nat);
        } else {
            let u = choose|u: int|
                within(adjacency, s, u, (k - 1) as nat) && #[trigger] links_to(adjacency, u, v);
            lemma_within_settles(adjacency, s, d, u, (k - 1) as nat);
            assert(within(adjacency, s, v, d + 1));
        }
    }
}

/// The number of entries that are `false`.
pub open spec fn count_clear(flags: Seq<bool>) -> nat
    decreases flags.len(),
{
    if flags.len() == 0 {
        0
    } else {
        count_clear(flags.drop_last()) + (if flags.last() {
            0nat
        } else {
            1nat
        })
    }
}

/// Setting a clear entry leaves one clear entry fewer.
pub proof fn lemma_count_clear_drops(flags: Seq<bool>, i: int)
    requires
        0 <= i < flags.len(),
        !flags[i],
    ensures
        count_clear(flags.update(i, true)) + 1 == count_clear(flags),
    decreases flags.len(),
{
    if i == flags.len() - 1 {
        assert(flags.update(i, true).drop_last() =~= flags.drop_last());
    } else {
        lemma_count_clear_drops(flags.drop_last(), i);
        assert(flags.update(i, true).drop_last() =~= flags.drop_last().update(i, true));
    }
}

/// There are no more clear entries than entries.
pub proof fn lemma_count_clear_bound(flags: Seq<bool>)
    ensures
        count_clear(flags) <= flags.len(),
    decreases flags.len(),
{
    if flags.len() > 0 {
        lemma_count_clear_bound(flags.drop_last());
    }
}

/// The rows of an adjacency list.
pub open spec fn rows(adjacency: Vec<Vec<usize>>) -> Seq<Seq<usize>> {
    Seq::new(adjacency@.len(), |i: int| adjacency@[i]@)
}

/// `n` flags, all clear.
pub fn clear_flags(n: usize) -> (r: Vec<bool>)
    ensures
        r@.len() == n,
        forall|i: int| 0 <= i < n ==> !r@[i],
{
    let mut flags: Vec<bool> = Vec::new();
    let mut i: usize = 0;
    while i < n
        invariant
            i <= n,
            flags@.len() == i,
            forall|j: int| 0 <= j < i ==> !flags@[j],
        decreases n - i,
    {
        flags.push(false);
        i += 1;
    }
    flags
}

/// What `seen` holds after the links of the first `done` vertices of the
/// frontier were followed from the flags `level`: all that was seen, and
/// all that those vertices are linked to.
pub open spec fn followed(
    links: Seq<Seq<usize>>,
    level: Seq<bool>,
    frontier: Seq<usize>,
    done: int,
    v: int,
) -> bool {
    level[v] || exists|i: int| 0 <= i < done && #[trigger] links_to(links, frontier[i] as int, v)
}

/// Follows the links of `u`: every vertex that `u` is linked to and that
/// was not seen is marked and appended to `next`. Says whether `goal` was
/// among them; the search ends there.
pub fn follow_links(
    adjacency: &Vec<Vec<usize>>,
    u: usize,
    goal: usize,
    seen: &mut Vec<bool>,
    next: &mut Vec<usize>,
) -> (found: bool)
    requires
        links_are_inside(rows(*adjacency)),
        u < adjacency.len(),
        goal <= adjacency.len(),
        old(seen)@.len() == adjacency.len(),
        goal < adjacency.len() ==> !old(seen)@[goal as int],
        forall|i: int|
            0 <= i < old(next)@.len() ==> (#[trigger] old(next)@[i]) < adjacency.len() && old(seen)@[old(next)@[i] as int],
    ensures
        final(seen)@.len() == adjacency.len(),
        forall|i: int| 0 <= i < final(next)@.len() ==> (#[trigger] final(next)@[i])
            < adjacency.len(),
        found ==> goal < adjacency.len() && links_to(rows(*adjacency), u as int, goal as int),
        !found ==> {
            &&& goal < adjacency.len() ==> !final(seen)@[goal as int]
            &&& forall|i: int|
                0 <= i < final(next)@.len() ==> final(seen)@[#[trigger] final(next)@[i] as int]
            &&& forall|v: int|
                0 <= v < adjacency.len() ==> (#[trigger] final(seen)@[v] <==> old(seen)@[v]
                    || links_to(rows(*adjacency), u as int, v))
            &&& count_clear(final(seen)@) + final(next)@.len() == count_clear(old(seen)@) + old(next)@.len()
            &&& old(next)@.len() <= final(next)@.len()
            &&& forall|i: int| 0 <= i < old(next)@.len() ==> final(next)@[i] == old(next)@[i]
            &&& forall|i: int|
                old(next)@.len() <= i < final(next)@.len() ==> !old(seen)@[#[trigger] final(next)@[i] as int]
            &&& forall|v: int|
                0 <= v < adjacency.len() && final(seen)@[v] && !old(seen)@[v] ==> exists|i: int|
                    old(next)@.len() <= i < final(next)@.len() && #[trigger] final(next)@[i] == v
        },
{
    let ghost links = rows(*adjacency);
    let n = adjacency.len();
    let mut j: usize = 0;
    while j < adjacency[u].len()
        invariant
            links == rows(*adjacency),
            links_are_inside(links),
            n == adjacency.len(),
            u < n,
            goal <= n,
            seen@.len() == n,
            j <= adjacency@[u as int]@.len(),
            goal < n ==> !seen@[goal as int],
            forall|i: int| 0 <= i < next@.len() ==> (#[trigger] next@[i]) < n && seen@[next@[i] as int],
            forall|v: int|
                0 <= v < n ==> (#[trigger] seen@[v] <==> old(seen)@[v] || exists|t: int|
                    0 <= t < j && #[trigger] links[u as int][t] == v),
            count_clear(seen@) + next@.len() == count_clear(old(seen)@) + old(next)@.len(),
            old(next)@.len() <= next@.len(),
            forall|i: int| 0 <= i < old(next)@.len() ==> next@[i] == old(next)@[i],
            forall|i: int|
                old(next)@.len() <= i < next@.len() ==> !old(seen)@[#[trigger] next@[i] as int],
            forall|v: int| 0 <= v < n && old(seen)@[v] ==> #[trigger] seen@[v],
            forall|v: int|
                0 <= v < n && seen@[v] && !old(seen)@[v] ==> exists|i: int|
                    old(next)@.len() <= i < next@.len() && #[trigger] next@[i] == v,
        decreases adjacency@[u as int]@.len() - j,
    {
        let v = adjacency[u][j];
        assert(links[u as int][j as int] == v);
        assert(v < n);
        let ghost seen_before = seen@;
        let ghost next_before = next@;
        if !seen[v] {
            if v == goal {
                return true;
            }
            proof {
                lemma_count_clear_drops(seen@, v as int);
            }
            seen.set(v, true);
            next.push(v);
            proof {
                assert(next@[next@.len() - 1] == v);
                assert forall|w: int| 0 <= w < n && seen@[w] && !old(seen)@[w] implies exists|
                    i: int,
                |
                    old(next)@.len() <= i < next@.len() && #[trigger] next@[i] == w by {
                    if w != v {
                        let at = choose|i: int|
                            old(next)@.len() <= i < next_before.len() && #[trigger] next_before[i]
                                == w;
                        assert(next@[at] == w);
                    }
                }
            }
        }
        proof {
            assert forall|w: int| 0 <= w < n implies (#[trigger] seen@[w] <==> old(seen)@[w]
                || exists|t: int| 0 <= t < j + 1 && #[trigger] links[u as int][t] == w) by {
                if seen@[w] && !old(seen)@[w] {
                    if w == v {
                        assert(links[u as int][j as int] == w);
                    } else {
                        assert(seen_before[w]);
                        let t = choose|t: int| 0 <= t < j && #[trigger] links[u as int][t] == w;
                        assert(links[u as int][t] == w);
                    }
                }
            }
        }
        j += 1;
    }
    false
}

/// The number of steps on a shortest way from `start` to `goal` along the
/// links, or `None` where there is no way.
pub fn shortest_distance(adjacency: &Vec<Vec<usize>>, start: usize, goal: usize) -> (r: Option<
    usize,
>)
    requires
        links_are_inside(rows(*adjacency)),
        start < adjacency.len(),
        goal < adjacency.len(),
    ensures
        match r {
            Some(d) => within(rows(*adjacency), start as int, goal as int, d as nat) && (d > 0
                ==> !within(rows(*adjacency), start as int, goal as int, (d - 1) as nat)),
            None => forall|k: nat| !within(rows(*adjacency), start as int, goal as int, k),
        },
{
    if start == goal {
        return Some(0);
    }
    let ghost links = rows(*adjacency);
    let n = adjacency.len();
    let mut seen = clear_flags(n);
    proof {
        lemma_count_clear_bound(seen@);
        lemma_count_clear_drops(seen@, start as int);
    }
    seen.set(start, true);
    let mut frontier: Vec<usize> = Vec::new();
    frontier.push(start);
    let mut distance: usize = 0;
    proof {
        assert(frontier@[0] == start);
    }
    while frontier.len() > 0
        invariant
            links == rows(*adjacency),
            links_are_inside(links),
            n == adjacency.len(),
            start < n,
            goal < n,
            start != goal,
            seen@.len() == n,
            frontier@.len() > 0,
            distance + count_clear(seen@) < n,
            forall|v: int|
                0 <= v < n ==> (#[trigger] seen@[v] <==> within(
                    links,
                    start as int,
                    v,
                    distance as nat,
                )),
            forall|i: int|
                0 <= i < frontier@.len() ==> (#[trigger] frontier@[i]) < n && seen@[frontier@[i] as int],
            forall|v: int|
                0 <= v < n && within(links, start as int, v, distance as nat) && (distance > 0
                    ==> !within(links, start as int, v, (distance - 1) as nat)) ==> exists|i: int|
                    0 <= i < frontier@.len() && #[trigger] frontier@[i] == v,
            !seen@[goal as int],
        decreases count_clear(seen@),
    {
        let ghost level = seen@;
        let mut next: Vec<usize> = Vec::new();
        let mut fi: usize = 0;
        while fi < frontier.len()
            invariant
                links == rows(*adjacency),
                links_are_inside(links),
                n == adjacency.len(),
                start < n,
                goal < n,
                seen@.len() == n,
                level.len() == n,
                fi <= frontier@.len(),
                distance < n,
                forall|v: int|
                    0 <= v < n ==> (#[trigger] level[v] <==> within(
                        links,
                        start as int,
                        v,
                        distance as nat,
                    )),
                forall|i: int|
                    0 <= i < frontier@.len() ==> (#[trigger] frontier@[i]) < n && level[frontier@[i] as int],
                forall|i: int|
                    0 <= i < next@.len() ==> (#[trigger] next@[i]) < n && seen@[next@[i] as int],
                forall|v: int|
                    0 <= v < n ==> (#[trigger] seen@[v] <==> followed(
                        links,
                        level,
                        frontier@,
                        fi as int,
                        v,
                    )),
                forall|v: int|
                    0 <= v < n && seen@[v] && !level[v] ==> exists|i: int|
                        0 <= i < next@.len() && #[trigger] next@[i] == v,
                count_clear(seen@) + next@.len() == count_clear(level),
                !seen@[goal as int],
            decreases frontier@.len() - fi,
        {
            let u = frontier[fi];
            let ghost seen_before = seen@;
            let ghost next_before = next@;
            let found = follow_links(adjacency, u, goal, &mut seen, &mut next);
            if found {
                proof {
                    assert(level[u as int]) by {
                        assert(frontier@[fi as int] < n);
                        assert(seen_before[u as int] <==> followed(
                            links,
                            level,
                            frontier@,
                            fi as int,
                            u as int,
                        ));
                        assert(within(links, start as int, u as int, distance as nat)) by {
                            lemma_frontier_is_within(links, level, seen_before, frontier@, fi as int, start as int, distance as nat);
                        }
                    }
                    assert(within(links, start as int, u as int, distance as nat));
                    assert(within(links, start as int, goal as int, (distance + 1) as nat));
                    assert(!within(links, start as int, goal as int, distance as nat));
                }
                return Some(distance + 1);
            }
            proof {
                assert forall|v: int| 0 <= v < n implies (#[trigger] seen@[v] <==> followed(
                    links,
                    level,
                    frontier@,
                    fi + 1,
                    v,
                )) by {
                    if seen@[v] && !seen_before[v] {
                        assert(links_to(links, frontier@[fi as int] as int, v));
                    }
                    if followed(links, level, frontier@, fi + 1, v) && !level[v] {
                        let i = choose|i: int|
                            0 <= i < fi + 1 && #[trigger] links_to(links, frontier@[i] as int, v);
                        if i < fi {
                            assert(followed(links, level, frontier@, fi as int, v));
                        }
                    }
                }
                assert forall|v: int| 0 <= v < n && seen@[v] && !level[v] implies exists|i: int|
                    0 <= i < next@.len() && #[trigger] next@[i] == v by {
                    if seen_before[v] {
                        let at = choose|i: int|
                            0 <= i < next_before.len() && #[trigger] next_before[i] == v;
                        assert(next@[at] == v);
                    } else {
                        let at = choose|i: int|
                            next_before.len() <= i < next@.len() && #[trigger] next@[i] == v;
                        assert(next@[at] == v);
                    }
                }
            }
            fi += 1;
        }
        proof {
            lemma_level_is_complete(
                links,
                level,
                seen@,
                frontier@,
                start as int,
                distance as nat,
            );
        }
        if next.len() == 0 {
            proof {
                assert forall|x: int| #[trigger]
                    within(links, start as int, x, (distance + 1) as nat) implies within(
                    links,
                    start as int,
                    x,
                    distance as nat,
                ) by {
                    lemma_within_is_inside(links, start as int, x, (distance + 1) as nat);
                    if !level[x] {
                        assert(seen@[x]);
                        let at = choose|i: int| 0 <= i < next@.len() && #[trigger] next@[i] == x;
                    }
                }
                assert forall|k: nat| !within(links, start as int, goal as int, k) by {
                    if within(links, start as int, goal as int, k) {
                        lemma_within_settles(links, start as int, distance as nat, goal as int, k);
                    }
                }
            }
            return None;
        }
        proof {
            assert forall|v: int|
                0 <= v < n && within(links, start as int, v, (distance + 1) as nat) && !within(
                    links,
                    start as int,
                    v,
                    distance as nat,
                ) implies exists|i: int| 0 <= i < next@.len() && #[trigger] next@[i] == v by {
                assert(seen@[v] && !level[v]);
            }
        }
        frontier = next;
        distance = distance + 1;
    }
    None
}

/// Every vertex of the frontier was seen at the level: it lies within the
/// distance of the level.
proof fn lemma_frontier_is_within(
    links: Seq<Seq<usize>>,
    level: Seq<bool>,
    seen: Seq<bool>,
    frontier: Seq<usize>,
    at: int,
    start: int,
    distance: nat,
)
    requires
        0 <= at < frontier.len(),
        frontier[at] < level.len(),
        forall|v: int| 0 <= v < level.len() ==> (#[trigger] level[v] <==> within(links, start, v, distance)),
        level[frontier[at] as int],
    ensures
        within(links, start, frontier[at] as int, distance),
{
}

/// After the links of the whole frontier were followed, what is seen is
/// what lies within one more step.
proof fn lemma_level_is_complete(
    links: Seq<Seq<usize>>,
    level: Seq<bool>,
    seen: Seq<bool>,
    frontier: Seq<usize>,
    start: int,
    distance: nat,
)
    requires
        links_are_inside(links),
        0 <= start < links.len(),
        level.len() == links.len(),
        seen.len() == links.len(),
        forall|v: int|
            0 <= v < links.len() ==> (#[trigger] level[v] <==> within(links, start, v, distance)),
        forall|i: int| 0 <= i < frontier.len() ==> (#[trigger] frontier[i]) < links.len(),
        forall|i: int| 0 <= i < frontier.len() ==> level[#[trigger] frontier[i] as int],
        forall|v: int|
            0 <= v < links.len() && within(links, start, v, distance) && (distance > 0 ==> !within(
                links,
                start,
                v,
                (distance - 1) as nat,
            )) ==> exists|i: int| 0 <= i < frontier.len() && #[trigger] frontier[i] == v,
        forall|v: int|
            0 <= v < links.len() ==> (#[trigger] seen[v] <==> followed(
                links,
                level,
                frontier,
                frontier.len() as int,
                v,
            )),
    ensures
        forall|v: int|
            0 <= v < links.len() ==> (#[trigger] seen[v] <==> within(links, start, v, distance + 1)),
{
    assert forall|v: int| 0 <= v < links.len() implies (#[trigger] seen[v] <==> within(
        links,
        start,
        v,
        distance + 1,
    )) by {
        if seen[v] && !level[v] {
            let i = choose|i: int|
                0 <= i < frontier.len() && #[trigger] links_to(links, frontier[i] as int, v);
            assert(level[frontier[i] as int]);
            assert(within(links, start, frontier[i] as int, distance));
        }
        if within(links, start, v, distance + 1) && !level[v] {
            let u = choose|u: int|
                within(links, start, u, distance) && #[trigger] links_to(links, u, v);
            lemma_within_is_inside(links, start, u, distance);
            if distance > 0 && within(links, start, u, (distance - 1) as nat) {
                assert(within(links, start, v, distance));
            }
            let i = choose|i: int| 0 <= i < frontier.len() && #[trigger] frontier[i] == u;
            assert(links_to(links, frontier[i] as int, v));
        }
    }
}

/// The place of a vertex in the list.
pub open spec fn place(vertices: Seq<Vertex>, vertex: Vertex) -> int {
    choose|i: int| 0 <= i < vertices.len() && vertices[i] == vertex
}

/// The list with `vertex` at its end unless the list holds it already.
pub open spec fn with_vertex(vertices: Seq<Vertex>, vertex: Vertex) -> Seq<Vertex> {
    if vertices.contains(vertex) {
        vertices
    } else {
        vertices.push(vertex)
    }
}

/// The links after `vertex` was added to the list: an empty list of links
/// for a new vertex.
pub open spec fn links_with_vertex(
    vertices: Seq<Vertex>,
    links: Seq<Seq<usize>>,
    vertex: Vertex,
) -> Seq<Seq<usize>> {
    if vertices.contains(vertex) {
        links
    } else {
        links.push(Seq::empty())
    }
}

/// The links with one from `from` to `to`, appended unless it is there.
pub open spec fn with_link(links: Seq<Seq<usize>>, from: int, to: int) -> Seq<Seq<usize>> {
    if links_to(links, from, to) {
        links
    } else {
        links.update(from, links[from].push(to as usize))
    }
}

/// The vertices after the edge between `a` and `b` was added.
pub open spec fn edge_vertices(vertices: Seq<Vertex>, a: Vertex, b: Vertex) -> Seq<Vertex> {
    with_vertex(with_vertex(vertices, a), b)
}

/// The links after the edge between `a` and `b` was added: the link from
/// `a` to `b`, then the link from `b` to `a`.
pub open spec fn edge_links(
    vertices: Seq<Vertex>,
    links: Seq<Seq<usize>>,
    a: Vertex,
    b: Vertex,
) -> Seq<Seq<usize>> {
    let all = edge_vertices(vertices, a, b);
    let widened = links_with_vertex(
        with_vertex(vertices, a),
        links_with_vertex(vertices, links, a),
        b,
    );
    with_link(with_link(widened, place(all, a), place(all, b)), place(all, b), place(all, a))
}

/// The vertices of the graph of a walk: the vertices walked over, each
/// once, in the order of their first visit.
pub open spec fn walk_vertices(walk: Seq<Vertex>) -> Seq<Vertex>
    decreases walk.len(),
{
    if walk.len() == 0 {
        Seq::empty()
    } else if walk.len() == 1 {
        seq![walk[0]]
    } else {
        edge_vertices(walk_vertices(walk.drop_last()), walk[walk.len() - 2], walk.last())
    }
}

/// The links of the graph of a walk: an edge for every step.
pub open spec fn walk_links(walk: Seq<Vertex>) -> Seq<Seq<usize>>
    decreases walk.len(),
{
    if walk.len() == 0 {
        Seq::empty()
    } else if walk.len() == 1 {
        seq![Seq::empty()]
    } else {
        edge_links(
            walk_vertices(walk.drop_last()),
            walk_links(walk.drop_last()),
            walk[walk.len() - 2],
            walk.last(),
        )
    }
}

/// Whether `goal` can be reached from `start` in at most `k` steps.
pub open spec fn reaches(
    vertices: Seq<Vertex>,
    links: Seq<Seq<usize>>,
    start: Vertex,
    goal: Vertex,
    k: nat,
) -> bool {
    exists|i: int, j: int|
        0 <= i < vertices.len() && vertices[i] == start && 0 <= j < vertices.len() && vertices[j]
            == goal && #[trigger] within(links, i, j, k)
}

/// Whether `d` is the least number of steps in which `goal` can be reached
/// from `start`.
pub open spec fn is_distance(
    vertices: Seq<Vertex>,
    links: Seq<Seq<usize>>,
    start: Vertex,
    goal: Vertex,
    d: nat,
) -> bool {
    reaches(vertices, links, start, goal, d) && (d > 0 ==> !reaches(
        vertices,
        links,
        start,
        goal,
        (d - 1) as nat,
    ))
}

/// The number of steps on a shortest way from `start` to `goal`, or `None`
/// where there is no way. A vertex is at distance 0 from itself, whether
/// the graph holds it or not.
pub open spec fn distance(
    vertices: Seq<Vertex>,
    links: Seq<Seq<usize>>,
    start: Vertex,
    goal: Vertex,
) -> Option<nat> {
    if start == goal {
        Some(0nat)
    } else if exists|d: nat| is_distance(vertices, links, start, goal, d) {
        Some(choose|d: nat| is_distance(vertices, links, start, goal, d))
    } else {
        None
    }
}

/// What can be reached in `k` steps can be reached in more.
pub proof fn lemma_reaches_grows(
    vertices: Seq<Vertex>,
    links: Seq<Seq<usize>>,
    start: Vertex,
    goal: Vertex,
    k: nat,
    more: nat,
)
    requires
        reaches(vertices, links, start, goal, k),
        k <= more,
    ensures
        reaches(vertices, links, start, goal, more),
{
    let (i, j) = choose|i: int, j: int|
        0 <= i < vertices.len() && vertices[i] == start && 0 <= j < vertices.len() && vertices[j]
            == goal && #[trigger] within(links, i, j, k);
    lemma_within_grows(links, i, j, k, more);
}

/// There is at most one distance.
pub proof fn lemma_distance_is_unique(
    vertices: Seq<Vertex>,
    links: Seq<Seq<usize>>,
    start: Vertex,
    goal: Vertex,
    d: nat,
    e: nat,
)
    requires
        is_distance(vertices, links, start, goal, d),
        is_distance(vertices, links, start, goal, e),
    ensures
        d == e,
{
    if d < e {
        lemma_reaches_grows(vertices, links, start, goal, d, (e - 1) as nat);
    } else if e < d {
        lemma_reaches_grows(vertices, links, start, goal, e, (d - 1) as nat);
    }
}

/// In a list without repetition a vertex has one place.
pub proof fn lemma_place_is_unique(vertices: Seq<Vertex>, vertex: Vertex, at: int)
    requires
        0 <= at < vertices.len(),
        vertices[at] == vertex,
        forall|i: int, j: int|
            0 <= i < vertices.len() && 0 <= j < vertices.len() && i != j
                ==> #[trigger] vertices[i] != #[trigger] vertices[j],
    ensures
        place(vertices, vertex) == at,
{
    let chosen = place(vertices, vertex);
    assert(0 <= chosen < vertices.len() && vertices[chosen] == vertex);
    if chosen != at {
        assert(vertices[chosen] != vertices[at]);
    }
}

/// An undirected graph over lattice vertices.
#[derive(Debug)]
pub struct Graph {
    vertices: Vec<Vertex>,
    adjacency: Vec<Vec<usize>>,
}

impl Graph {
    /// The vertices in the order in which they were added.
    pub closed spec fn vertex_list(&self) -> Seq<Vertex> {
        self.vertices@
    }

    /// For each vertex, by its place in the list, the places of the
    /// vertices it is linked to.
    pub closed spec fn links(&self) -> Seq<Seq<usize>> {
        rows(self.adjacency)
    }

    /// One list of links per vertex, every link to a vertex of the graph,
    /// and no vertex twice.
    pub closed spec fn wf(&self) -> bool {
        &&& self.adjacency@.len() == self.vertices@.len()
        &&& links_are_inside(rows(self.adjacency))
        &&& forall|i: int, j: int|
            0 <= i < self.vertices@.len() && 0 <= j < self.vertices@.len() && i != j
                ==> #[trigger] self.vertices@[i] != #[trigger] self.vertices@[j]
    }

    /// Whether the vertex stands at place `i`.
    pub open spec fn is_at(&self, vertex: Vertex, i: int) -> bool {
        0 <= i < self.vertex_list().len() && self.vertex_list()[i] == vertex
    }

    /// Whether the graph holds `vertex`.
    pub open spec fn has(&self, vertex: Vertex) -> bool {
        exists|i: int| #[trigger] self.is_at(vertex, i)
    }

    /// Whether `a` is linked to `b`.
    pub open spec fn linked(&self, a: Vertex, b: Vertex) -> bool {
        exists|i: int, j: int|
            self.is_at(a, i) && self.is_at(b, j) && #[trigger] links_to(self.links(), i, j)
    }

    /// Whether `goal` can be reached from `start` in at most `k` steps.
    pub open spec fn reaches_within(&self, start: Vertex, goal: Vertex, k: nat) -> bool {
        exists|i: int, j: int|
            self.is_at(start, i) && self.is_at(goal, j) && #[trigger] within(self.links(), i, j, k)
    }

    /// A vertex of a well-formed graph has one place.
    pub proof fn lemma_place(&self, vertex: Vertex, at: int)
        requires
            self.wf(),
            self.is_at(vertex, at),
        ensures
            place(self.vertex_list(), vertex) == at,
    {
        lemma_place_is_unique(self.vertex_list(), vertex, at);
    }

    /// A graph without vertices.
    pub fn new() -> (r: Graph)
        ensures
            r.wf(),
            r.vertex_list() == Seq::<Vertex>::empty(),
            r.links() == Seq::<Seq<usize>>::empty(),
    {
        let graph = Graph { vertices: Vec::new(), adjacency: Vec::new() };
        assert(links_are_inside(rows(graph.adjacency)));
        assert(rows(graph.adjacency) =~= Seq::<Seq<usize>>::empty());
        graph
    }

    /// The number of vertices.
    pub fn vertex_count(&self) -> (r: usize)
        ensures
            r == self.vertex_list().len(),
    {
        self.vertices.len()
    }

    /// The place of `vertex`, if the graph holds it.
    pub fn find(&self, vertex: Vertex) -> (r: Option<usize>)
        requires
            self.wf(),
        ensures
            match r {
                Some(i) => self.is_at(vertex, i as int),
                None => !self.has(vertex),
            },
    {
        let mut i: usize = 0;
        while i < self.vertices.len()
            invariant
                i <= self.vertices.len(),
                forall|j: int| 0 <= j < i ==> !self.is_at(vertex, j),
            decreases self.vertices.len() - i,
        {
            if self.vertices[i].x == vertex.x && self.vertices[i].y == vertex.y {
                return Some(i);
            }
            i += 1;
        }
        None
    }

    /// Adds `vertex` unless the graph holds it, and returns its place.
    pub fn ensure_vertex(&mut self, vertex: Vertex) -> (r: usize)
        requires
            old(self).wf(),
        ensures
            final(self).wf(),
            final(self).is_at(vertex, r as int),
            old(self).has(vertex) ==> final(self).vertex_list() == old(self).vertex_list(),
            !old(self).has(vertex) ==> final(self).vertex_list() == old(self).vertex_list().push(
                vertex,
            ),
            final(self).links().len() == final(self).vertex_list().len(),
            final(self).vertex_list() == with_vertex(old(self).vertex_list(), vertex),
            final(self).links() == links_with_vertex(
                old(self).vertex_list(),
                old(self).links(),
                vertex,
            ),
            r == place(final(self).vertex_list(), vertex),
            forall|u: int|
                0 <= u < old(self).links().len() ==> final(self).links()[u] == old(self).links()[u],
            forall|u: int|
                old(self).links().len() <= u < final(self).links().len() ==> final(self).links()[u].len() == 0,
    {
        match self.find(vertex) {
            Some(i) => {
                proof {
                    assert(self.vertices@[i as int] == vertex);
                    assert(self.vertices@.contains(vertex));
                    lemma_place_is_unique(self.vertices@, vertex, i as int);
                }
                i
            },
            None => {
                self.vertices.push(vertex);
                self.adjacency.push(Vec::new());
                proof {
                    let before = old(self).vertices@;
                    assert(!before.contains(vertex)) by {
                        if before.contains(vertex) {
                            let at = choose|at: int| 0 <= at < before.len() && before[at] == vertex;
                            assert(old(self).is_at(vertex, at));
                        }
                    }
                    assert(rows(self.adjacency) =~= rows(old(self).adjacency).push(Seq::empty()));
                    assert forall|i: int, j: int|
                        0 <= i < self.vertices@.len() && 0 <= j < self.vertices@.len() && i
                            != j implies #[trigger] self.vertices@[i] != #[trigger] self.vertices@[j] by {
                        if i == before.len() {
                            assert(!old(self).is_at(vertex, j));
                        } else if j == before.len() {
                            assert(!old(self).is_at(vertex, i));
                        } else {
                            assert(before[i] != before[j]);
                        }
                    }
                    assert forall|u: int, i: int|
                        0 <= u < rows(self.adjacency).len() && 0 <= i < rows(
                            self.adjacency,
                        )[u].len() implies (#[trigger] rows(self.adjacency)[u][i]) < rows(
                        self.adjacency,
                    ).len() by {
                        assert(rows(old(self).adjacency)[u][i] < rows(old(self).adjacency).len());
                    }
                    lemma_place_is_unique(self.vertices@, vertex, before.len() as int);
                }
                self.vertices.len() - 1
            },
        }
    }

    /// Links the vertex at place `from` to the vertex at place `to` unless
    /// the link is there already.
    fn link(&mut self, from: usize, to: usize)
        requires
            old(self).wf(),
            from < old(self).vertex_list().len(),
            to < old(self).vertex_list().len(),
        ensures
            final(self).wf(),
            final(self).vertex_list() == old(self).vertex_list(),
            final(self).links().len() == old(self).links().len(),
            forall|u: int, v: int|
                links_to(final(self).links(), u, v) <==> links_to(old(self).links(), u, v) || (u
                    == from && v == to),
            final(self).links() == with_link(old(self).links(), from as int, to as int),
    {
        let mut present = false;
        let mut i: usize = 0;
        while i < self.adjacency[from].len()
            invariant
                from < self.adjacency@.len(),
                i <= self.adjacency@[from as int]@.len(),
                present <==> exists|j: int|
                    0 <= j < i && #[trigger] self.adjacency@[from as int]@[j] == to,
                *self == *old(self),
            decreases self.adjacency@[from as int]@.len() - i,
        {
            if self.adjacency[from][i] == to {
                present = true;
            }
            i += 1;
        }
        let ghost before = rows(self.adjacency);
        if !present {
            let list = &mut self.adjacency[from];
            list.push(to);
        }
        proof {
            let after = rows(self.adjacency);
            assert(after.len() == before.len());
            if present {
                let t = choose|t: int|
                    0 <= t < before[from as int].len() && #[trigger] before[from as int][t] == to;
                assert(links_to(before, from as int, to as int));
                assert(after =~= with_link(before, from as int, to as int));
            } else {
                assert(!links_to(before, from as int, to as int)) by {
                    if links_to(before, from as int, to as int) {
                        let t = choose|t: int|
                            0 <= t < before[from as int].len() && #[trigger] before[from as int][t]
                                == to;
                        assert(old(self).adjacency@[from as int]@[t] == to);
                    }
                }
                assert(after[from as int] =~= before[from as int].push(to));
                assert(after =~= with_link(before, from as int, to as int));
            }
            assert forall|u: int, t: int|
                0 <= u < after.len() && 0 <= t < after[u].len() implies (#[trigger] after[u][t])
                < after.len() by {
                if u == from && t == before[u].len() {
                } else {
                    assert(after[u][t] == before[u][t]);
                }
            }
            assert forall|u: int, v: int|
                links_to(after, u, v) <==> links_to(before, u, v) || (u == from && v == to) by {
                if links_to(after, u, v) {
                    let t = choose|t: int| 0 <= t < after[u].len() && #[trigger] after[u][t] == v;
                    if !(u == from && v == to) {
                        assert(before[u][t] == v);
                    }
                }
                if links_to(before, u, v) {
                    let t = choose|t: int| 0 <= t < before[u].len() && #[trigger] before[u][t] == v;
                    assert(after[u][t] == v);
                }
                if u == from && v == to {
                    if present {
                        let t = choose|t: int|
                            0 <= t < before[from as int].len() && #[trigger] before[from as int][t]
                                == to;
                        assert(after[u][t] == v);
                    } else {
                        assert(after[u][before[u].len() as int] == v);
                    }
                }
            }
        }
    }

    /// Adds the edge between `a` and `b`, and the two vertices where the
    /// graph does not hold them yet. Nothing else changes.
    pub fn add_edge(&mut self, a: Vertex, b: Vertex)
        requires
            old(self).wf(),
        ensures
            final(self).wf(),
            forall|v: Vertex| #[trigger] final(self).has(v) <==> old(self).has(v) || v == a || v == b,
            forall|v: Vertex, w: Vertex| #[trigger]
                final(self).linked(v, w) <==> old(self).linked(v, w) || (v == a && w == b) || (v
                    == b && w == a),
            final(self).vertex_list() == edge_vertices(old(self).vertex_list(), a, b),
            final(self).links() == edge_links(old(self).vertex_list(), old(self).links(), a, b),
    {
        let ghost before = *self;
        let ia = self.ensure_vertex(a);
        let ghost with_a = *self;
        let ib = self.ensure_vertex(b);
        let ghost with_both = *self;
        proof {
            assert(self.is_at(a, ia as int));
            self.lemma_place(a, ia as int);
        }
        self.link(ia, ib);
        let ghost half = *self;
        self.link(ib, ia);
        proof {
            let list = self.vertex_list();
            assert(list == with_both.vertex_list());
            assert forall|v: Vertex| #[trigger] self.has(v) <==> before.has(v) || v == a || v
                == b by {
                if self.has(v) {
                    let i = choose|i: int| #[trigger] self.is_at(v, i);
                    if i < before.vertex_list().len() {
                        assert(before.is_at(v, i));
                    } else if i < with_a.vertex_list().len() {
                        assert(v == a);
                    } else {
                        assert(v == b);
                    }
                }
                if before.has(v) {
                    let i = choose|i: int| #[trigger] before.is_at(v, i);
                    assert(self.is_at(v, i));
                }
                if v == a {
                    assert(self.is_at(v, ia as int));
                }
                if v == b {
                    assert(self.is_at(v, ib as int));
                }
            }
            assert forall|v: Vertex, w: Vertex| #[trigger]
                self.linked(v, w) <==> before.linked(v, w) || (v == a && w == b) || (v == b && w
                    == a) by {
                if self.linked(v, w) {
                    let (i, j) = choose|i: int, j: int|
                        self.is_at(v, i) && self.is_at(w, j) && #[trigger] links_to(
                            self.links(),
                            i,
                            j,
                        );
                    if !(i == ib && j == ia) && !(i == ia && j == ib) {
                        assert(links_to(with_both.links(), i, j));
                        let t = choose|t: int|
                            0 <= t < with_both.links()[i].len() && #[trigger] with_both.links()[i][t]
                                == j;
                        assert(i < before.links().len());
                        assert(before.links()[i][t] == j);
                        assert(before.links()[i][t] < before.links().len());
                        assert(links_to(before.links(), i, j));
                        assert(before.is_at(v, i) && before.is_at(w, j));
                    } else {
                        assert(self.is_at(a, ia as int) && self.is_at(b, ib as int));
                    }
                }
                if before.linked(v, w) {
                    let (i, j) = choose|i: int, j: int|
                        before.is_at(v, i) && before.is_at(w, j) && #[trigger] links_to(
                            before.links(),
                            i,
                            j,
                        );
                    let t = choose|t: int|
                        0 <= t < before.links()[i].len() && #[trigger] before.links()[i][t] == j;
                    assert(with_both.links()[i][t] == j);
                    assert(links_to(with_both.links(), i, j));
                    assert(links_to(self.links(), i, j));
                    assert(self.is_at(v, i) && self.is_at(w, j));
                }
                if v == a && w == b {
                    assert(self.is_at(a, ia as int) && self.is_at(b, ib as int));
                    assert(links_to(self.links(), ia as int, ib as int));
                }
                if v == b && w == a {
                    assert(self.is_at(a, ia as int) && self.is_at(b, ib as int));
                    assert(links_to(self.links(), ib as int, ia as int));
                }
            }
        }
    }

    /// The number of steps on a shortest way from `start` to `goal`, or
    /// `None` where there is no way. A vertex is at distance 0 from itself,
    /// whether the graph holds it or not.
    pub fn bfs_distance(&self, start: Vertex, goal: Vertex) -> (r: Option<usize>)
        requires
            self.wf(),
        ensures
            match r {
                Some(d) => if start == goal {
                    d == 0
                } else {
                    d > 0 && self.reaches_within(start, goal, d as nat) && !self.reaches_within(
                        start,
                        goal,
                        (d - 1) as nat,
                    )
                },
                None => start != goal && forall|k: nat| !self.reaches_within(start, goal, k),
            },
            match r {
                Some(d) => distance(self.vertex_list(), self.links(), start, goal) == Some(
                    d as nat,
                ),
                None => distance(self.vertex_list(), self.links(), start, goal) is None,
            },
    {
        if start.x == goal.x && start.y == goal.y {
            return Some(0);
        }
        proof {
            assert forall|k: nat| #[trigger]
                self.reaches_within(start, goal, k) <==> reaches(
                    self.vertex_list(),
                    self.links(),
                    start,
                    goal,
                    k,
                ) by {
                if self.reaches_within(start, goal, k) {
                    let (i, j) = choose|i: int, j: int|
                        self.is_at(start, i) && self.is_at(goal, j) && #[trigger] within(
                            self.links(),
                            i,
                            j,
                            k,
                        );
                    assert(within(self.links(), i, j, k));
                }
                if reaches(self.vertex_list(), self.links(), start, goal, k) {
                    let (i, j) = choose|i: int, j: int|
                        0 <= i < self.vertex_list().len() && self.vertex_list()[i] == start && 0
                            <= j < self.vertex_list().len() && self.vertex_list()[j] == goal
                            && #[trigger] within(self.links(), i, j, k);
                    assert(self.is_at(start, i) && self.is_at(goal, j));
                }
            }
        }
        let s = match self.find(start) {
            Some(s) => s,
            None => {
                assert forall|k: nat| !self.reaches_within(start, goal, k) by {
                    if self.reaches_within(start, goal, k) {
                        let (i, j) = choose|i: int, j: int|
                            self.is_at(start, i) && self.is_at(goal, j) && #[trigger] within(
                                self.links(),
                                i,
                                j,
                                k,
                            );
                        assert(self.is_at(start, i));
                    }
                }
                assert forall|e: nat| !is_distance(
                    self.vertex_list(),
                    self.links(),
                    start,
                    goal,
                    e,
                ) by {
                    assert(!self.reaches_within(start, goal, e));
                }
                return None;
            },
        };
        let g = match self.find(goal) {
            Some(g) => g,
            None => {
                assert forall|k: nat| !self.reaches_within(start, goal, k) by {
                    if self.reaches_within(start, goal, k) {
                        let (i, j) = choose|i: int, j: int|
                            self.is_at(start, i) && self.is_at(goal, j) && #[trigger] within(
                                self.links(),
                                i,
                                j,
                                k,
                            );
                        assert(self.is_at(goal, j));
                    }
                }
                assert forall|e: nat| !is_distance(
                    self.vertex_list(),
                    self.links(),
                    start,
                    goal,
                    e,
                ) by {
                    assert(!self.reaches_within(start, goal, e));
                }
                return None;
            },
        };
        let found = shortest_distance(&self.adjacency, s, g);
        proof {
            assert forall|k: nat| #[trigger]
                self.reaches_within(start, goal, k) <==> within(
                    self.links(),
                    s as int,
                    g as int,
                    k,
                ) by {
                if self.reaches_within(start, goal, k) {
                    let (i, j) = choose|i: int, j: int|
                        self.is_at(start, i) && self.is_at(goal, j) && #[trigger] within(
                            self.links(),
                            i,
                            j,
                            k,
                        );
                    assert(i == s && j == g);
                }
            }
            match found {
                Some(d) => {
                    assert(d > 0) by {
                        if d == 0 {
                            assert(within(self.links(), s as int, g as int, 0));
                        }
                    }
                    assert(self.reaches_within(start, goal, d as nat));
                    assert(!self.reaches_within(start, goal, (d - 1) as nat));
                    assert(is_distance(self.vertex_list(), self.links(), start, goal, d as nat));
                    let chosen = choose|e: nat|
                        is_distance(self.vertex_list(), self.links(), start, goal, e);
                    lemma_distance_is_unique(
                        self.vertex_list(),
                        self.links(),
                        start,
                        goal,
                        d as nat,
                        chosen,
                    );
                },
                None => {
                    assert forall|e: nat| !is_distance(
                        self.vertex_list(),
                        self.links(),
                        start,
                        goal,
                        e,
                    ) by {
                        assert(!self.reaches_within(start, goal, e));
                    }
                },
            }
        }
        found
    }

    /// The graph of a walk: its vertices, and an edge for every step.
    pub fn from_walk(walk: &Vec<Vertex>) -> (r: Graph)
        ensures
            r.wf(),
            r.vertex_list() == walk_vertices(walk@),
            r.links() == walk_links(walk@),
    {
        let mut graph = Graph::new();
        let mut idx: usize = 0;
        assert(walk@.take(0) =~= Seq::<Vertex>::empty());
        while idx < walk.len()
            invariant
                idx <= walk.len(),
                graph.wf(),
                graph.vertex_list() == walk_vertices(walk@.take(idx as int)),
                graph.links() == walk_links(walk@.take(idx as int)),
            decreases walk.len() - idx,
        {
            proof {
                assert(walk@.take(idx + 1).drop_last() =~= walk@.take(idx as int));
                assert(walk@.take(idx + 1).last() == walk@[idx as int]);
            }
            if idx > 0 {
                proof {
                    assert(walk@.take(idx + 1)[idx - 1] == walk@[idx - 1]);
                }
                graph.add_edge(walk[idx - 1], walk[idx]);
            } else {
                let at = graph.ensure_vertex(walk[idx]);
                proof {
                    assert(graph.vertex_list() =~= seq![walk@[0]]);
                    assert(graph.links() =~= seq![Seq::<usize>::empty()]);
                    assert(walk@.take(1)[0] == walk@[0]);
                }
            }
            idx += 1;
        }
        assert(walk@.take(walk.len() as int) =~= walk@);
        graph
    }
}

} // verus!
