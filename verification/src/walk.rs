//! The resonance walk on the lattice: which regime a parameter falls
//! under, where each regime steps to, and what a walk sums up to. Where
//! 32-bit arithmetic would overflow, a step has no result.
use vstd::prelude::*;
use crate::binary64::Binary64;
use crate::binary64::count_number;
use crate::binary64::number;
use crate::binary64::ZERO_BITS;
use crate::graph::distance;
use crate::graph::walk_links;
use crate::graph::walk_vertices;
use crate::graph::Graph;
use crate::rlt::bounded_step;
use crate::rlt::bounded_vertex;
use crate::rlt::encode_vertex;
use crate::rlt::expanded_vertex;
use crate::rlt::expanding_step;
use crate::rlt::phase;
use crate::rlt::positive_part;
use crate::rlt::rise;
use crate::rlt::vertex_code;
use crate::rlt::wrapped;
use crate::rlt::Vertex;
use crate::rlt::WORD_SPAN;

verus! {

/// Pattern of `0.22`: below it the walk is bounded.
pub const BOUNDED_BELOW_BITS: u64 = 0x3FCC_28F5_C28F_5C29;

/// Pattern of `0.58`: below it, and not bounded, the walk is transitional.
pub const TRANSITIONAL_BELOW_BITS: u64 = 0x3FE2_8F5C_28F5_C28F;

/// Pattern of `11.0`.
pub const ELEVEN_BITS: u64 = 0x4026_0000_0000_0000;

/// Pattern of `5.0`.
pub const FIVE_BITS: u64 = 0x4014_0000_0000_0000;

/// Pattern of `10.0`.
pub const TEN_BITS: u64 = 0x4024_0000_0000_0000;

/// Pattern of `16.0`.
pub const SIXTEEN_BITS: u64 = 0x4030_0000_0000_0000;

/// What drives a walk.
#[derive(Clone, Copy, Debug)]
pub struct DriveSignal {
    pub phase_bias: Binary64,
    pub trust_bias: Binary64,
    pub drift_bias: Binary64,
}

/// The regime of a walk.
#[derive(Clone, Copy, Debug, PartialEq, Eq, Structural)]
pub enum RltRegime {
    Bounded,
    Transitional,
    Expanding,
}

/// The regime of a normalised parameter: bounded below 0.22, transitional
/// below 0.58, expanding otherwise.
pub open spec fn regime_of(lambda_norm: Binary64) -> RltRegime {
    if lambda_norm.below(number(BOUNDED_BELOW_BITS)) {
        RltRegime::Bounded
    } else if lambda_norm.below(number(TRANSITIONAL_BELOW_BITS)) {
        RltRegime::Transitional
    } else {
        RltRegime::Expanding
    }
}

pub fn classify_regime(lambda_norm: Binary64) -> (r: RltRegime)
    ensures
        r == regime_of(lambda_norm),
{
    if lambda_norm.lt(Binary64::from_bits(BOUNDED_BELOW_BITS)) {
        RltRegime::Bounded
    } else if lambda_norm.lt(Binary64::from_bits(TRANSITIONAL_BELOW_BITS)) {
        RltRegime::Transitional
    } else {
        RltRegime::Expanding
    }
}

/// Whether a whole number fits 32 bits with sign.
pub open spec fn fits(v: int) -> bool {
    i32::MIN <= v <= i32::MAX
}

/// The whole number as a 32-bit number, if it fits.
pub open spec fn narrow(v: int) -> Option<i32> {
    if fits(v) {
        Some(v as i32)
    } else {
        None
    }
}

fn narrowed(v: i64) -> (r: Option<i32>)
    ensures
        r == narrow(v as int),
{
    if v < -0x8000_0000 || v > 0x7FFF_FFFF {
        None
    } else {
        Some(v as i32)
    }
}

/// The phase bucket of a walk: `lambda_norm * 11` and `phase_bias * 5`,
/// each rounded, added up.
pub open spec fn bucket_of(lambda_norm: Binary64, drive: DriveSignal) -> Option<i32> {
    narrow(
        lambda_norm.times(number(ELEVEN_BITS)).rounded_i32() + drive.phase_bias.times(
            number(FIVE_BITS),
        ).rounded_i32(),
    )
}

pub fn phase_bucket(lambda_norm: Binary64, drive: DriveSignal) -> (r: Option<i32>)
    ensures
        r == bucket_of(lambda_norm, drive),
{
    let a = lambda_norm.mul_rounded(Binary64::from_bits(ELEVEN_BITS)).round_to_i32();
    let b = drive.phase_bias.mul_rounded(Binary64::from_bits(FIVE_BITS)).round_to_i32();
    narrowed(a as i64 + b as i64)
}

/// The trust sign of a walk: 1 for a trust bias that is not below zero, -1
/// otherwise.
pub open spec fn trust_sign_of(drive: DriveSignal) -> i32 {
    if drive.trust_bias.at_least(number(ZERO_BITS)) {
        1i32
    } else {
        -1i32
    }
}

pub fn trust_sign(drive: DriveSignal) -> (r: i32)
    ensures
        r == trust_sign_of(drive),
{
    if drive.trust_bias.ge(Binary64::zero()) {
        1
    } else {
        -1
    }
}

/// The leash of the transitional regime: 2 plus `lambda_norm * 10`
/// rounded.
pub open spec fn leash_of(lambda_norm: Binary64) -> Option<i32> {
    narrow(2 + lambda_norm.times(number(TEN_BITS)).rounded_i32())
}

/// After how many steps the transitional regime starts anew:
/// `16 - 10 * lambda_norm` rounded, held to 6 to 16.
pub open spec fn reset_period_of(lambda_norm: Binary64) -> usize {
    let raw = number(SIXTEEN_BITS).minus(number(TEN_BITS).times(lambda_norm)).rounded_usize();
    if raw < 6 {
        6
    } else if raw > 16 {
        16
    } else {
        raw
    }
}

/// The remainder of a division by 3 that is rounded towards zero.
pub open spec fn truncated_mod3(a: int) -> int {
    if a >= 0 {
        a % 3
    } else {
        -((-a) % 3)
    }
}

/// Where the transitional regime moves to before leash and restart, by the
/// class of the step.
pub open spec fn free_move(current: Vertex, class: int, trust_sign: i32) -> (int, int) {
    if class == 0 {
        (current.x + 1, current.y as int)
    } else if class == 1 {
        (current.x as int, current.y + 1)
    } else if class == 2 {
        (current.x - 1, current.y + trust_sign)
    } else if class == 3 {
        (current.x + trust_sign, current.y - 1)
    } else if class == 4 {
        (current.x + 1, current.y + 1)
    } else {
        (current.x - trust_sign, current.y as int)
    }
}

/// Where a restart puts the walk.
pub open spec fn restart(step: usize, period: usize, phase_bucket: i32) -> (int, int) {
    (phase_bucket as int % 3 - 1, truncated_mod3(wrapped((step / period) as usize)) - 1)
}

/// `v` held to `[-leash, leash]`.
pub open spec fn leashed(v: int, leash: int) -> int {
    if v < -leash {
        -leash
    } else if v > leash {
        leash
    } else {
        v
    }
}

/// The step of the transitional regime: a move by the class of the step,
/// every `reset_period` steps a restart near the origin instead, and either
/// held on the leash. There is no step where the leash is negative or where
/// the phase or the move do not fit 32 bits.
pub open spec fn transitional_vertex(
    current: Vertex,
    step: usize,
    lambda_norm: Binary64,
    phase_bucket: i32,
    trust_sign: i32,
) -> Option<Vertex> {
    let period = reset_period_of(lambda_norm);
    let class = phase(step, phase_bucket) % 6;
    let free = free_move(current, class, trust_sign);
    let next = if step % period == 0 {
        restart(step, period, phase_bucket)
    } else {
        free
    };
    match leash_of(lambda_norm) {
        None => None,
        Some(leash) => if !fits(phase(step, phase_bucket)) || !fits(free.0) || !fits(free.1)
            || leash < 0 {
            None
        } else {
            Some(
                Vertex {
                    x: leashed(next.0, leash as int) as i32,
                    y: leashed(next.1, leash as int) as i32,
                },
            )
        },
    }
}

/// The step count as a signed 32-bit number.
fn wrap(step: usize) -> (r: i64)
    ensures
        r == wrapped(step),
{
    let low: u64 = (step as u64) % WORD_SPAN;
    if low < 0x8000_0000 {
        low as i64
    } else {
        low as i64 - 0x1_0000_0000
    }
}

/// The Euclidean remainder of a 33-bit number by a small modulus.
fn euclid(a: i64, modulus: i64) -> (r: i64)
    requires
        -0x1_0000_0000 <= a <= 0x1_0000_0000,
        modulus == 3 || modulus == 6,
    ensures
        r == a as int % modulus as int,
{
    // 4294967298 is a multiple of both 3 and 6 that lifts `a` above zero.
    let lifted: u64 = (a + 4_294_967_298) as u64;
    assert((a + 4_294_967_298) % (modulus as int) == (a as int) % (modulus as int)) by {
        assert(4_294_967_298int == 3 * 1_431_655_766 && 4_294_967_298int == 6 * 715_827_883);
        vstd::arithmetic::div_mod::lemma_mod_multiples_vanish(
            if modulus == 3 {
                1_431_655_766int
            } else {
                715_827_883int
            },
            a as int,
            modulus as int,
        );
    }
    (lifted % (modulus as u64)) as i64
}

fn hold_on_leash(v: i64, leash: i64) -> (r: i64)
    requires
        0 <= leash <= i32::MAX,
    ensures
        r == leashed(v as int, leash as int),
        -leash <= r <= leash,
{
    if v < -leash {
        -leash
    } else if v > leash {
        leash
    } else {
        v
    }
}

/// The step of the transitional regime.
pub fn transitional_step(
    current: Vertex,
    step: usize,
    lambda_norm: Binary64,
    phase_bucket: i32,
    trust_sign: i32,
) -> (r: Option<Vertex>)
    ensures
        r == transitional_vertex(current, step, lambda_norm, phase_bucket, trust_sign),
{
    let leash = match narrowed(
        2 + lambda_norm.mul_rounded(Binary64::from_bits(TEN_BITS)).round_to_i32() as i64,
    ) {
        None => return None,
        Some(leash) => leash,
    };
    let phased: i64 = wrap(step) + phase_bucket as i64;
    if phased < -0x8000_0000 || phased > 0x7FFF_FFFF {
        return None;
    }
    let class = euclid(phased, 6);
    let x = current.x as i64;
    let y = current.y as i64;
    let t = trust_sign as i64;
    let (free_x, free_y): (i64, i64) = if class == 0 {
        (x + 1, y)
    } else if class == 1 {
        (x, y + 1)
    } else if class == 2 {
        (x - 1, y + t)
    } else if class == 3 {
        (x + t, y - 1)
    } else if class == 4 {
        (x + 1, y + 1)
    } else {
        (x - t, y)
    };
    if free_x < -0x8000_0000 || free_x > 0x7FFF_FFFF || free_y < -0x8000_0000 || free_y
        > 0x7FFF_FFFF {
        return None;
    }
    let raw = Binary64::from_bits(SIXTEEN_BITS).sub_rounded(
        Binary64::from_bits(TEN_BITS).mul_rounded(lambda_norm),
    ).round_to_usize();
    let reset_period: usize = if raw < 6 {
        6
    } else if raw > 16 {
        16
    } else {
        raw
    };
    let (next_x, next_y): (i64, i64) = if step % reset_period == 0 {
        let turns = wrap(step / reset_period);
        let rest: i64 = if turns >= 0 {
            turns % 3
        } else {
            -((-turns) % 3)
        };
        (euclid(phase_bucket as i64, 3) - 1, rest - 1)
    } else {
        (free_x, free_y)
    };
    if leash < 0 {
        return None;
    }
    let held_x = hold_on_leash(next_x, leash as i64);
    let held_y = hold_on_leash(next_y, leash as i64);
    Some(Vertex { x: held_x as i32, y: held_y as i32 })
}

/// The step of the walk under a normalised parameter and a drive: that of
/// the parameter's regime. There is no step where the arithmetic of the
/// regime does not fit 32 bits.
pub open spec fn resonance_vertex(
    current: Vertex,
    step: usize,
    lambda_norm: Binary64,
    drive: DriveSignal,
) -> Option<Vertex> {
    match bucket_of(lambda_norm, drive) {
        None => None,
        Some(bucket) => match regime_of(lambda_norm) {
            RltRegime::Bounded => if fits(phase(step, bucket)) {
                Some(bounded_vertex(step, bucket, trust_sign_of(drive)))
            } else {
                None
            },
            RltRegime::Transitional => transitional_vertex(
                current,
                step,
                lambda_norm,
                bucket,
                trust_sign_of(drive),
            ),
            RltRegime::Expanding => if fits(phase(step, bucket)) && current.x < i32::MAX && fits(
                current.y + rise(step, bucket),
            ) && fits(current.y + rise(step, bucket) + positive_part(trust_sign_of(drive))) {
                Some(expanded_vertex(current, step, bucket, trust_sign_of(drive)))
            } else {
                None
            },
        },
    }
}

/// The step of the walk.
pub fn resonance_step(current: Vertex, step: usize, lambda_norm: Binary64, drive: DriveSignal)
    -> (r: Option<Vertex>)
    ensures
        r == resonance_vertex(current, step, lambda_norm, drive),
{
    let regime = classify_regime(lambda_norm);
    let bucket = match phase_bucket(lambda_norm, drive) {
        None => return None,
        Some(bucket) => bucket,
    };
    let sign = trust_sign(drive);
    let phased: i64 = wrap(step) + bucket as i64;
    let phase_fits = -0x8000_0000 <= phased && phased <= 0x7FFF_FFFF;
    match regime {
        RltRegime::Bounded => {
            if phase_fits {
                Some(bounded_step(step, bucket, sign))
            } else {
                None
            }
        },
        RltRegime::Transitional => transitional_step(current, step, lambda_norm, bucket, sign),
        RltRegime::Expanding => {
            if !phase_fits || current.x == i32::MAX {
                return None;
            }
            let class = euclid5(phased);
            let dy: i64 = if class == 0 {
                0
            } else if class == 1 || class == 2 {
                1
            } else {
                2
            };
            let lift: i64 = if sign > 0 {
                sign as i64
            } else {
                0
            };
            let first = current.y as i64 + dy;
            if first > 0x7FFF_FFFF || first + lift > 0x7FFF_FFFF {
                return None;
            }
            Some(expanding_step(current, step, bucket, sign))
        },
    }
}

/// The Euclidean remainder of a 32-bit number by 5.
fn euclid5(a: i64) -> (r: i64)
    requires
        -0x8000_0000 <= a <= 0x7FFF_FFFF,
    ensures
        r == a as int % 5,
{
    let lifted: u64 = (a + 4_294_967_300) as u64;
    assert((a + 4_294_967_300) % 5 == (a as int) % 5) by {
        assert(4_294_967_300int == 5 * 858_993_460);
        vstd::arithmetic::div_mod::lemma_mod_multiples_vanish(858_993_460int, a as int, 5);
    }
    (lifted % 5) as i64
}

/// The walk over `n` steps from the origin: the origin and the vertex after
/// each step. There is no walk where a step has no result.
pub open spec fn walked(lambda_norm: Binary64, drive: DriveSignal, n: nat) -> Option<Seq<Vertex>>
    decreases n,
{
    if n == 0 {
        Some(seq![Vertex { x: 0, y: 0 }])
    } else {
        match walked(lambda_norm, drive, (n - 1) as nat) {
            None => None,
            Some(before) => match resonance_vertex(
                before.last(),
                (n - 1) as usize,
                lambda_norm,
                drive,
            ) {
                None => None,
                Some(next) => Some(before.push(next)),
            },
        }
    }
}

/// A walk has one vertex more than steps.
pub proof fn lemma_walked_length(lambda_norm: Binary64, drive: DriveSignal, n: nat)
    ensures
        walked(lambda_norm, drive, n) matches Some(walk) ==> walk.len() == n + 1,
    decreases n,
{
    if n > 0 {
        lemma_walked_length(lambda_norm, drive, (n - 1) as nat);
    }
}

/// Walks `steps` steps from the origin.
pub fn simulate_vertices(lambda_norm: Binary64, drive: DriveSignal, steps: usize) -> (r: Option<
    Vec<Vertex>,
>)
    ensures
        match r {
            Some(vertices) => walked(lambda_norm, drive, steps as nat) == Some(vertices@),
            None => exists|n: nat| n <= steps && walked(lambda_norm, drive, n) is None,
        },
{
    let mut current = Vertex { x: 0, y: 0 };
    let mut vertices: Vec<Vertex> = Vec::new();
    vertices.push(current);
    assert(vertices@ =~= seq![Vertex { x: 0, y: 0 }]);
    let mut step: usize = 0;
    while step < steps
        invariant
            step <= steps,
            walked(lambda_norm, drive, step as nat) == Some(vertices@),
            vertices@.len() == step + 1,
            current == vertices@.last(),
        decreases steps - step,
    {
        match resonance_step(current, step, lambda_norm, drive) {
            None => {
                assert(walked(lambda_norm, drive, (step + 1) as nat) is None);
                return None;
            },
            Some(next) => {
                current = next;
                vertices.push(current);
            },
        }
        step += 1;
    }
    Some(vertices)
}

/// `steps`, and 1 in place of 0.
pub open spec fn at_least_one(steps: usize) -> nat {
    if steps == 0 {
        1
    } else {
        steps as nat
    }
}

/// Where a walk starts, and where it ends: the origin of the lattice for
/// an empty walk.
pub open spec fn walk_start(walk: Seq<Vertex>) -> Vertex {
    if walk.len() == 0 {
        Vertex { x: 0, y: 0 }
    } else {
        walk[0]
    }
}

pub open spec fn walk_end(walk: Seq<Vertex>) -> Vertex {
    if walk.len() == 0 {
        Vertex { x: 0, y: 0 }
    } else {
        walk.last()
    }
}

/// How far the end of a walk lies from its start in the graph of the walk;
/// `steps` where there is no way.
pub open spec fn escape_distance(walk: Seq<Vertex>, steps: usize) -> nat {
    match distance(walk_vertices(walk), walk_links(walk), walk_start(walk), walk_end(walk)) {
        Some(d) => d,
        None => steps as nat,
    }
}

/// Escape rate and expansion ratio of a walk: how far its end lies from
/// its start in the graph of the walk, and how many vertices it visited,
/// either over the number of steps.
pub fn summarize_trajectory(vertices: &Vec<Vertex>, steps: usize) -> (r: (Binary64, Binary64))
    ensures
        r.0 == count_number(escape_distance(vertices@, steps)).over(
            count_number(at_least_one(steps)),
        ),
        r.1 == count_number(walk_vertices(vertices@).len()).over(count_number(at_least_one(steps))),
{
    let graph = Graph::from_walk(vertices);
    let origin = if vertices.len() == 0 {
        Vertex { x: 0, y: 0 }
    } else {
        vertices[0]
    };
    let goal = if vertices.len() == 0 {
        origin
    } else {
        vertices[vertices.len() - 1]
    };
    let distance = match graph.bfs_distance(origin, goal) {
        Some(d) => d,
        None => steps,
    };
    let visited = graph.vertex_count();
    let over = Binary64::from_count(if steps == 0 { 1 } else { steps });
    (
        Binary64::from_count(distance).div_rounded(over),
        Binary64::from_count(visited).div_rounded(over),
    )
}

/// One step of an example trajectory.
#[derive(Clone, Copy, Debug)]
pub struct RltTrajectoryPoint {
    pub step: usize,
    pub lambda: Binary64,
    pub vertex_id: i64,
    pub x: i32,
    pub y: i32,
    pub distance_from_start: usize,
}

/// The point of step `i` of a walk: the vertex with its number, and its
/// distance from the start in the graph of the walk so far; `i` where there
/// is no way.
pub open spec fn point_at(walk: Seq<Vertex>, lambda: Binary64, i: int) -> RltTrajectoryPoint {
    let so_far = walk.take(i + 1);
    RltTrajectoryPoint {
        step: i as usize,
        lambda,
        vertex_id: vertex_code(walk[i]) as i64,
        x: walk[i].x,
        y: walk[i].y,
        distance_from_start: match distance(
            walk_vertices(so_far),
            walk_links(so_far),
            walk[0],
            walk[i],
        ) {
            Some(d) => d as usize,
            None => i as usize,
        },
    }
}

/// The points of a walk under the parameter `lambda`.
pub fn trajectory_points(vertices: &Vec<Vertex>, lambda: Binary64) -> (r: Vec<RltTrajectoryPoint>)
    ensures
        r@.len() == vertices@.len(),
        forall|i: int| 0 <= i < r@.len() ==> #[trigger] r@[i] == point_at(vertices@, lambda, i),
{
    let mut graph = Graph::new();
    let mut points: Vec<RltTrajectoryPoint> = Vec::new();
    let mut step: usize = 0;
    assert(vertices@.take(0) =~= Seq::<Vertex>::empty());
    while step < vertices.len()
        invariant
            step <= vertices.len(),
            graph.wf(),
            graph.vertex_list() == walk_vertices(vertices@.take(step as int)),
            graph.links() == walk_links(vertices@.take(step as int)),
            points@.len() == step,
            forall|i: int|
                0 <= i < step ==> #[trigger] points@[i] == point_at(vertices@, lambda, i),
        decreases vertices.len() - step,
    {
        let vertex = vertices[step];
        proof {
            assert(vertices@.take(step + 1).drop_last() =~= vertices@.take(step as int));
            assert(vertices@.take(step + 1).last() == vertex);
        }
        if step > 0 {
            proof {
                assert(vertices@.take(step + 1)[step - 1] == vertices@[step - 1]);
            }
            graph.add_edge(vertices[step - 1], vertex);
        } else {
            let at = graph.ensure_vertex(vertex);
            proof {
                assert(graph.vertex_list() =~= seq![vertices@[0]]);
                assert(graph.links() =~= seq![Seq::<usize>::empty()]);
                assert(vertices@.take(1)[0] == vertices@[0]);
            }
        }
        let origin = vertices[0];
        let distance_from_start = match graph.bfs_distance(origin, vertex) {
            Some(d) => d,
            None => step,
        };
        points.push(
            RltTrajectoryPoint {
                step,
                lambda,
                vertex_id: encode_vertex(vertex),
                x: vertex.x,
                y: vertex.y,
                distance_from_start,
            },
        );
        step += 1;
    }
    points
}

} // verus!
