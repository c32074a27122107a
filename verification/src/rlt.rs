//! Walks on the integer lattice: the step rules of the bounded and the
//! expanding regime, and the naming of example trajectories.
use vstd::prelude::*;

verus! {

/// Steps in an example trajectory.
pub const RLT_EXAMPLE_STEPS: usize = 240;

/// Which of the two example trajectories is meant.
#[derive(Clone, Copy, Debug, PartialEq, Eq, Structural)]
pub enum RltExampleKind {
    Bounded,
    Expanding,
}

impl RltExampleKind {
    /// The file name prefix of this kind.
    pub open spec fn prefix(self) -> Seq<char> {
        match self {
            RltExampleKind::Bounded => "bounded"@,
            RltExampleKind::Expanding => "expanding"@,
        }
    }

    /// The prefix under which files of this kind are written.
    pub fn filename_prefix(self) -> (r: &'static str)
        ensures
            r@ == self.prefix(),
    {
        match self {
            RltExampleKind::Bounded => "bounded",
            RltExampleKind::Expanding => "expanding",
        }
    }
}

/// `2^32`.
pub const WORD_SPAN: u64 = 0x1_0000_0000;

/// A vertex of the integer lattice.
#[derive(Clone, Copy, Debug, PartialEq, Eq, Structural)]
pub struct Vertex {
    pub x: i32,
    pub y: i32,
}

/// A step count as a signed 32-bit number: its low 32 bits in two's
/// complement.
pub open spec fn wrapped(step: usize) -> int {
    let low = step as int % 0x1_0000_0000;
    if low < 0x8000_0000 {
        low
    } else {
        low - 0x1_0000_0000
    }
}

/// The phase of a step: the step count as a signed 32-bit number plus the
/// bucket.
pub open spec fn phase(step: usize, phase_bucket: i32) -> int {
    wrapped(step) + phase_bucket
}

/// The phase of a step taken modulo `cycle`, which is 5 or 6.
fn phase_class(step: usize, phase_bucket: i32, cycle: u64) -> (r: u64)
    requires
        i32::MIN <= phase(step, phase_bucket) <= i32::MAX,
        cycle == 5 || cycle == 6,
    ensures
        r == phase(step, phase_bucket) % (cycle as int),
{
    let low: u64 = (step as u64) % WORD_SPAN;
    let signed: i64 = if low < 0x8000_0000 {
        low as i64
    } else {
        low as i64 - 0x1_0000_0000
    };
    let sum: i64 = signed + phase_bucket as i64;
    // 12884901900 is the least common multiple of 5 and 6 times 429496730,
    // large enough to lift every 32-bit sum above zero.
    let lifted: u64 = (sum + 12_884_901_900) as u64;
    assert((sum + 12_884_901_900) % (cycle as int) == (sum as int) % (cycle as int)) by {
        assert(12_884_901_900int == 5 * 2_576_980_380 && 12_884_901_900int == 6 * 2_147_483_650);
        vstd::arithmetic::div_mod::lemma_mod_multiples_vanish(
            if cycle == 5 {
                2_576_980_380int
            } else {
                2_147_483_650int
            },
            sum as int,
            cycle as int,
        );
    }
    lifted % cycle
}

/// The cycle of the bounded regime.
pub open spec fn cycle_vertex(index: int) -> Vertex {
    if index == 0 {
        Vertex { x: 0, y: 0 }
    } else if index == 1 {
        Vertex { x: 1, y: 0 }
    } else if index == 2 {
        Vertex { x: 1, y: 1 }
    } else if index == 3 {
        Vertex { x: 0, y: 1 }
    } else if index == 4 {
        Vertex { x: -1i32, y: 1 }
    } else {
        Vertex { x: -1i32, y: 0 }
    }
}

/// The vertex of the bounded regime at a step: the walk goes round a cycle
/// of six vertices, mirrored in `x` under a negative trust sign.
pub open spec fn bounded_vertex(step: usize, phase_bucket: i32, trust_sign: i32) -> Vertex {
    let on_cycle = cycle_vertex(phase(step, phase_bucket) % 6);
    Vertex { x: (on_cycle.x * trust_sign) as i32, y: on_cycle.y }
}

/// The step of the bounded regime.
pub fn bounded_step(step: usize, phase_bucket: i32, trust_sign: i32) -> (r: Vertex)
    requires
        i32::MIN <= phase(step, phase_bucket) <= i32::MAX,
        trust_sign > i32::MIN,
    ensures
        r == bounded_vertex(step, phase_bucket, trust_sign),
{
    let idx = phase_class(step, phase_bucket, 6);
    let (x, y): (i32, i32) = if idx == 0 {
        (0, 0)
    } else if idx == 1 {
        (1, 0)
    } else if idx == 2 {
        (1, 1)
    } else if idx == 3 {
        (0, 1)
    } else if idx == 4 {
        (-1, 1)
    } else {
        (-1, 0)
    };
    assert(x * trust_sign == trust_sign || x * trust_sign == -trust_sign || x * trust_sign == 0)
        by (nonlinear_arith)
        requires
            x == 0 || x == 1 || x == -1,
    ;
    Vertex { x: x * trust_sign, y }
}

/// The rise of the expanding regime at a step: 0, 1, 1, 2, 2 over a cycle
/// of five.
pub open spec fn rise(step: usize, phase_bucket: i32) -> int {
    let class = phase(step, phase_bucket) % 5;
    if class == 0 {
        0
    } else if class == 1 || class == 2 {
        1
    } else {
        2
    }
}

/// The trust sign where it is positive, else 0.
pub open spec fn positive_part(trust_sign: i32) -> int {
    if trust_sign > 0 {
        trust_sign as int
    } else {
        0
    }
}

/// The vertex that the expanding regime moves to: one to the right, and up
/// by the rise of the step and by a positive trust sign.
pub open spec fn expanded_vertex(current: Vertex, step: usize, phase_bucket: i32, trust_sign: i32)
    -> Vertex {
    Vertex {
        x: (current.x + 1) as i32,
        y: (current.y + rise(step, phase_bucket) + positive_part(trust_sign)) as i32,
    }
}

/// The step of the expanding regime.
pub fn expanding_step(current: Vertex, step: usize, phase_bucket: i32, trust_sign: i32) -> (r:
    Vertex)
    requires
        i32::MIN <= phase(step, phase_bucket) <= i32::MAX,
        current.x < i32::MAX,
        current.y + rise(step, phase_bucket) <= i32::MAX,
        current.y + rise(step, phase_bucket) + positive_part(trust_sign) <= i32::MAX,
    ensures
        r == expanded_vertex(current, step, phase_bucket, trust_sign),
{
    let resonance_class = phase_class(step, phase_bucket, 5);
    let dy: i32 = if resonance_class == 0 {
        0
    } else if resonance_class == 1 || resonance_class == 2 {
        1
    } else {
        2
    };
    let lift: i32 = if trust_sign > 0 {
        trust_sign
    } else {
        0
    };
    Vertex { x: current.x + 1, y: current.y + dy + lift }
}

/// The number that stands for a vertex: `x` in the high 32 bits, `y` in the
/// low 32 bits in two's complement.
pub open spec fn vertex_code(vertex: Vertex) -> int {
    vertex.x * 0x1_0000_0000 + (if vertex.y >= 0 {
        vertex.y as int
    } else {
        vertex.y + 0x1_0000_0000
    })
}

/// Encodes a vertex as one number. Distinct vertices have distinct codes.
pub fn encode_vertex(vertex: Vertex) -> (r: i64)
    ensures
        r == vertex_code(vertex),
{
    let high: i64 = vertex.x as i64 * 0x1_0000_0000;
    let low: i64 = if vertex.y >= 0 {
        vertex.y as i64
    } else {
        vertex.y as i64 + 0x1_0000_0000
    };
    high + low
}

/// Distinct vertices have distinct codes.
pub proof fn law_vertex_code_is_injective(a: Vertex, b: Vertex)
    requires
        vertex_code(a) == vertex_code(b),
    ensures
        a == b,
{
    let low_a = if a.y >= 0 {
        a.y as int
    } else {
        a.y + 0x1_0000_0000
    };
    let low_b = if b.y >= 0 {
        b.y as int
    } else {
        b.y + 0x1_0000_0000
    };
    assert(a.x == b.x) by (nonlinear_arith)
        requires
            a.x * 0x1_0000_0000 + low_a == b.x * 0x1_0000_0000 + low_b,
            0 <= low_a < 0x1_0000_0000,
            0 <= low_b < 0x1_0000_0000,
    ;
}

} // verus!
