//! The texture grammar: a recursive generator that walks the genome to
//! assemble a tree of texture operators.
//!
//! Each production rule is a variant of `Node`. Numeric parameters are kept
//! as the raw genome values that chose them; the ranges they map to are given
//! with each field. Complexities are in thousandths (`COMPLEXITY_UNIT` is
//! one) and weights in thousandths too.
use crate::distance::Distance;
use crate::dna::{
    advanced, can_draw, fresh_genome, grouped, index_draw, labels_of, raw_draw, u32_draw, u32_in_draw,
    ungrouped, weights_of, Dna, DnaView,
};
use crate::ease::Ease;
use vstd::prelude::*;

verus! {

/// One unit of complexity, in thousandths.
pub const COMPLEXITY_UNIT: i64 = 1000;

/// The deepest recursion of the grammar. At this depth only leaves can be chosen.
pub const MAX_DEPTH: u32 = 16;

/// A texture operator tree. Raw values read as fractions of 2^32 of the range
/// given with each field, except where said otherwise.
#[derive(Debug)]
pub enum Node {
    /// Gradient noise leaf. `frequency`: log-uniform in [2, 32]; `None` inside
    /// a fractal, which sets the frequency itself.
    Noise { seed: u32, frequency: Option<u32> },
    /// Value noise leaf.
    VNoise { seed: u32, frequency: Option<u32>, ease: Ease },
    /// Voronoi leaf. Patterns are integers in [0, 25].
    Voronoi {
        seed: u32,
        frequency: Option<u32>,
        pattern_x: u32,
        pattern_y: u32,
        pattern_z: u32,
        ease: Ease,
        metric: Distance,
    },
    /// Camouflage leaf. `border`: width in [0.01, 0.10], if on; `sharpness`
    /// and `gradient` in [0, 1].
    Camo {
        seed: u32,
        frequency: Option<u32>,
        border: Option<u32>,
        sharpness: u32,
        gradient: u32,
        ease: Ease,
        metric: Distance,
    },
    /// Saturation, `amount` in [1, 5] (squared).
    Saturate { amount: u32, child: Box<Node> },
    /// Posterization, `levels` in [2, 10], `sharpness` in [0, 1].
    Posterize { levels: u32, sharpness: u32, child: Box<Node> },
    /// Overdrive, `amount` in [1, 5] (squared).
    Overdrive { amount: u32, child: Box<Node> },
    /// Vector reflection, `amount` in [1, 10].
    VReflect { amount: u32, child: Box<Node> },
    /// Reflection, `amount` in [1, 2], offsets in [-1, 1].
    Reflect { amount: u32, x_offset: u32, y_offset: u32, z_offset: u32, child: Box<Node> },
    /// Channel shift, from a full-range `seed`.
    Shift { seed: u32, child: Box<Node> },
    /// Rotation of one map by another, `amount` in [1, 3].
    Rotate { amount: u32, a: Box<Node>, b: Box<Node> },
    /// Soft mix, `amount` in [1, 5] (squared), `displacement` in [0, 0.5].
    Softmix { amount: u32, displacement: u32, a: Box<Node>, b: Box<Node> },
    /// Layering, `width` in [1, 3].
    Layer { width: u32, ease: Ease, a: Box<Node>, b: Box<Node> },
    /// Displacement of one map by another, `amount` in [0, 0.5].
    Displace { amount: u32, a: Box<Node>, b: Box<Node> },
    /// Fractal summation. `base` in [1.5, 9], `roughness` log-uniform in
    /// [0.4, 0.9], `octaves` an integer in [2, 10], `first_octave` an integer
    /// below `octaves`, `lacunarity` log-uniform in [1.5, 3], `displace` in
    /// [0, 0.5] and `layer` in [1, 4] when on.
    Fractal {
        base: u32,
        roughness: u32,
        octaves: u32,
        first_octave: u32,
        lacunarity: u32,
        displace: Option<u32>,
        layer: Option<u32>,
        child: Box<Node>,
    },
    /// A palette of three colors over a map: hue and saturation in [0, 1],
    /// lightness the square root of a value in [0, 1].
    Palette { colors: [u32; 9], child: Box<Node> },
}

/// The four families of nodes.
#[derive(Clone, Copy, PartialEq, Eq, Debug, Structural)]
pub enum NodeFamily {
    Basis,
    Unary,
    Binary,
    Fractal,
}

/// The family of a node.
pub open spec fn family_of(n: Node) -> NodeFamily
    decreases n,
{
    match n {
        Node::Noise { .. } | Node::VNoise { .. } | Node::Voronoi { .. } | Node::Camo { .. } => NodeFamily::Basis,
        Node::Saturate { .. } | Node::Posterize { .. } | Node::Overdrive { .. } | Node::VReflect { .. } | Node::Reflect { .. } | Node::Shift { .. } => NodeFamily::Unary,
        Node::Rotate { .. } | Node::Softmix { .. } | Node::Layer { .. } | Node::Displace { .. } => NodeFamily::Binary,
        Node::Fractal { .. } => NodeFamily::Fractal,
        Node::Palette { child, .. } => family_of(*child),
    }
}

impl Node {
    /// The family of this node; a palette reports the family of its map.
    pub fn family(&self) -> (r: NodeFamily)
        ensures
            r == family_of(*self),
        decreases self,
    {
        match self {
            Node::Noise { .. } | Node::VNoise { .. } | Node::Voronoi { .. } | Node::Camo { .. } => NodeFamily::Basis,
            Node::Saturate { .. } | Node::Posterize { .. } | Node::Overdrive { .. } | Node::VReflect { .. } | Node::Reflect { .. } | Node::Shift { .. } => NodeFamily::Unary,
            Node::Rotate { .. } | Node::Softmix { .. } | Node::Layer { .. } | Node::Displace { .. } => NodeFamily::Binary,
            Node::Fractal { .. } => NodeFamily::Fractal,
            Node::Palette { child, .. } => child.family(),
        }
    }
}

/// A fresh branch without a parent parameter.
pub open spec fn descended(v: DnaView) -> DnaView {
    DnaView { address: v.address.push(0), ..v }
}

/// Weight of a leaf, by complexity.
pub open spec fn basis_weight(c: i64) -> u32 {
    if c <= 10_000 {
        1500
    } else if c <= 40_000 {
        800
    } else if c <= 80_000 {
        400
    } else {
        200
    }
}

/// Weight of a unary operator, by complexity; none at the depth limit.
pub open spec fn unary_weight(c: i64, depth: nat) -> u32 {
    if depth == 0 {
        0
    } else if c >= 20_000 {
        1500
    } else if c >= 5_000 {
        1000
    } else {
        10
    }
}

/// Weight of a binary operator, by complexity; none at the depth limit.
pub open spec fn binary_weight(c: i64, depth: nat) -> u32 {
    if depth == 0 {
        0
    } else if c >= 8_000 {
        1000
    } else {
        10
    }
}

/// Weight of a fractal, by complexity. A fractal cannot start inside another,
/// nor at the depth limit; a small weight elsewhere lets an editor pick it.
pub open spec fn fractal_weight(c: i64, is_fractal: bool, depth: nat) -> u32 {
    if is_fractal || depth == 0 {
        0
    } else if c >= 9_000 {
        800
    } else {
        10
    }
}

/// The node type choices.
pub open spec fn node_types(c: i64, is_fractal: bool, depth: nat) -> Seq<(u32, &'static str)> {
    seq![
        (basis_weight(c), "basis"),
        (unary_weight(c, depth), "unary"),
        (binary_weight(c, depth), "binary"),
        (fractal_weight(c, is_fractal, depth), "fractal"),
    ]
}

/// The leaf choices.
pub open spec fn basis_types() -> Seq<(u32, &'static str)> {
    seq![(1000u32, "gradient noise"), (1000u32, "value noise"), (1000u32, "Voronoi"), (500u32, "camo")]
}

/// The unary operator choices.
pub open spec fn unary_types() -> Seq<(u32, &'static str)> {
    seq![
        (1000u32, "saturate"),
        (1000u32, "posterize"),
        (1000u32, "overdrive"),
        (1000u32, "vreflect"),
        (2000u32, "reflect"),
        (3000u32, "shift"),
    ]
}

/// The binary operator choices.
pub open spec fn binary_types() -> Seq<(u32, &'static str)> {
    seq![(1000u32, "rotate"), (1000u32, "softmix"), (1000u32, "layer"), (2000u32, "displace")]
}

/// The distance metric choices.
pub open spec fn metric_types() -> Seq<(u32, &'static str)> {
    seq![(1000u32, "1-norm"), (4000u32, "2-norm"), (1000u32, "4-norm"), (1000u32, "8-norm"), (1000u32, "max norm")]
}

/// The choices of eases that are smooth near zero.
pub open spec fn ease_smooth_types() -> Seq<(u32, &'static str)> {
    seq![
        (1000u32, "smooth3"),
        (2000u32, "smooth5"),
        (1000u32, "smooth7"),
        (1000u32, "smooth9"),
        (1000u32, "squared"),
        (1000u32, "cubed"),
        (1000u32, "up arc"),
    ]
}

/// The choices of eases for the Voronoi basis.
pub open spec fn ease_voronoi_types() -> Seq<(u32, &'static str)> {
    seq![
        (1000u32, "id"),
        (1000u32, "smooth3"),
        (1000u32, "smooth5"),
        (1000u32, "smooth7"),
        (1000u32, "smooth9"),
        (1000u32, "squared"),
    ]
}

/// The choices of all eases.
pub open spec fn ease_types() -> Seq<(u32, &'static str)> {
    seq![
        (1000u32, "id"),
        (1000u32, "smooth3"),
        (1000u32, "smooth5"),
        (1000u32, "smooth7"),
        (1000u32, "smooth9"),
        (1000u32, "sqrt"),
        (1000u32, "squared"),
        (1000u32, "cubed"),
        (1000u32, "down arc"),
        (1000u32, "up arc"),
    ]
}

/// An on/off switch with the given weights.
pub open spec fn on_off(on: u32, off: u32) -> Seq<(u32, &'static str)> {
    seq![(on, "on"), (off, "off")]
}

/// A weighted categorical draw over a list of choices.
pub open spec fn pick_draw(v: DnaView, name: Seq<char>, cs: Seq<(u32, &'static str)>) -> (u32, DnaView) {
    index_draw(v, name, weights_of(cs), labels_of(cs))
}

/// The metric of a slot of `metric_types`.
pub open spec fn metric_of(i: u32) -> Distance {
    if i == 0 {
        Distance::Norm1
    } else if i == 1 {
        Distance::Norm2
    } else if i == 2 {
        Distance::Norm4
    } else if i == 3 {
        Distance::Norm8
    } else {
        Distance::NormMax
    }
}

/// The ease of a slot of `ease_smooth_types`.
pub open spec fn ease_smooth_of(i: u32) -> Ease {
    if i == 0 {
        Ease::Smooth3
    } else if i == 1 {
        Ease::Smooth5
    } else if i == 2 {
        Ease::Smooth7
    } else if i == 3 {
        Ease::Smooth9
    } else if i == 4 {
        Ease::Squared
    } else if i == 5 {
        Ease::Cubed
    } else {
        Ease::UpArc
    }
}

/// The ease of a slot of `ease_voronoi_types`.
pub open spec fn ease_voronoi_of(i: u32) -> Ease {
    if i == 0 {
        Ease::Id
    } else if i == 1 {
        Ease::Smooth3
    } else if i == 2 {
        Ease::Smooth5
    } else if i == 3 {
        Ease::Smooth7
    } else if i == 4 {
        Ease::Smooth9
    } else {
        Ease::Squared
    }
}

/// The ease of a slot of `ease_types`.
pub open spec fn ease_of(i: u32) -> Ease {
    if i == 0 {
        Ease::Id
    } else if i == 1 {
        Ease::Smooth3
    } else if i == 2 {
        Ease::Smooth5
    } else if i == 3 {
        Ease::Smooth7
    } else if i == 4 {
        Ease::Smooth9
    } else if i == 5 {
        Ease::Sqrt
    } else if i == 6 {
        Ease::Squared
    } else if i == 7 {
        Ease::Cubed
    } else if i == 8 {
        Ease::DownArc
    } else {
        Ease::UpArc
    }
}

/// Runs a draw of choices from exec code: the helper that each generator uses.
fn pick(dna: &mut Dna, name: &str, choices: &[(u32, &'static str)]) -> (r: u32)
    requires
        can_draw(old(dna)@),
        1 <= choices@.len() < u32::MAX,
    ensures
        (r, final(dna)@) == pick_draw(old(dna)@, name@, choices@),
        r < choices@.len(),
        final(dna)@.address == advanced(old(dna)@.address),
{
    dna.index(name, choices)
}


/// A distance metric draw.
pub open spec fn metric_spec(v: DnaView, name: Seq<char>) -> (Distance, DnaView) {
    let (i, w) = pick_draw(v, name, metric_types());
    (metric_of(i), w)
}

/// An ease draw among the eases that are smooth near zero.
pub open spec fn ease_smooth_spec(v: DnaView, name: Seq<char>) -> (Ease, DnaView) {
    let (i, w) = pick_draw(v, name, ease_smooth_types());
    (ease_smooth_of(i), w)
}

/// An ease draw among the eases that suit the Voronoi basis.
pub open spec fn ease_voronoi_spec(v: DnaView, name: Seq<char>) -> (Ease, DnaView) {
    let (i, w) = pick_draw(v, name, ease_voronoi_types());
    (ease_voronoi_of(i), w)
}

/// An ease draw among all eases.
pub open spec fn ease_spec(v: DnaView, name: Seq<char>) -> (Ease, DnaView) {
    let (i, w) = pick_draw(v, name, ease_types());
    (ease_of(i), w)
}

/// Generate a distance metric.
pub fn gen_metric(dna: &mut Dna, name: &str) -> (r: Distance)
    requires
        can_draw(old(dna)@),
    ensures
        (r, final(dna)@) == metric_spec(old(dna)@, name@),
        final(dna)@.address == advanced(old(dna)@.address),
{
    let choices = [(1000u32, "1-norm"), (4000u32, "2-norm"), (1000u32, "4-norm"), (1000u32, "8-norm"), (1000u32, "max norm")];
    proof {
        assert(choices@ =~= metric_types());
    }
    let i = pick(dna, name, &choices);
    if i == 0 {
        Distance::Norm1
    } else if i == 1 {
        Distance::Norm2
    } else if i == 2 {
        Distance::Norm4
    } else if i == 3 {
        Distance::Norm8
    } else {
        Distance::NormMax
    }
}

/// Generate an ease that is smooth near zero.
pub fn gen_ease_smooth(dna: &mut Dna, name: &str) -> (r: Ease)
    requires
        can_draw(old(dna)@),
    ensures
        (r, final(dna)@) == ease_smooth_spec(old(dna)@, name@),
        final(dna)@.address == advanced(old(dna)@.address),
{
    let choices = [
        (1000u32, "smooth3"),
        (2000u32, "smooth5"),
        (1000u32, "smooth7"),
        (1000u32, "smooth9"),
        (1000u32, "squared"),
        (1000u32, "cubed"),
        (1000u32, "up arc"),
    ];
    proof {
        assert(choices@ =~= ease_smooth_types());
    }
    let i = pick(dna, name, &choices);
    if i == 0 {
        Ease::Smooth3
    } else if i == 1 {
        Ease::Smooth5
    } else if i == 2 {
        Ease::Smooth7
    } else if i == 3 {
        Ease::Smooth9
    } else if i == 4 {
        Ease::Squared
    } else if i == 5 {
        Ease::Cubed
    } else {
        Ease::UpArc
    }
}

/// Generate an ease suitable for the Voronoi basis.
pub fn gen_ease_voronoi(dna: &mut Dna, name: &str) -> (r: Ease)
    requires
        can_draw(old(dna)@),
    ensures
        (r, final(dna)@) == ease_voronoi_spec(old(dna)@, name@),
        final(dna)@.address == advanced(old(dna)@.address),
{
    let choices = [
        (1000u32, "id"),
        (1000u32, "smooth3"),
        (1000u32, "smooth5"),
        (1000u32, "smooth7"),
        (1000u32, "smooth9"),
        (1000u32, "squared"),
    ];
    proof {
        assert(choices@ =~= ease_voronoi_types());
    }
    let i = pick(dna, name, &choices);
    if i == 0 {
        Ease::Id
    } else if i == 1 {
        Ease::Smooth3
    } else if i == 2 {
        Ease::Smooth5
    } else if i == 3 {
        Ease::Smooth7
    } else if i == 4 {
        Ease::Smooth9
    } else {
        Ease::Squared
    }
}

/// Generate an ease.
pub fn gen_ease(dna: &mut Dna, name: &str) -> (r: Ease)
    requires
        can_draw(old(dna)@),
    ensures
        (r, final(dna)@) == ease_spec(old(dna)@, name@),
        final(dna)@.address == advanced(old(dna)@.address),
{
    let choices = [
        (1000u32, "id"),
        (1000u32, "smooth3"),
        (1000u32, "smooth5"),
        (1000u32, "smooth7"),
        (1000u32, "smooth9"),
        (1000u32, "sqrt"),
        (1000u32, "squared"),
        (1000u32, "cubed"),
        (1000u32, "down arc"),
        (1000u32, "up arc"),
    ];
    proof {
        assert(choices@ =~= ease_types());
    }
    let i = pick(dna, name, &choices);
    if i == 0 {
        Ease::Id
    } else if i == 1 {
        Ease::Smooth3
    } else if i == 2 {
        Ease::Smooth5
    } else if i == 3 {
        Ease::Smooth7
    } else if i == 4 {
        Ease::Smooth9
    } else if i == 5 {
        Ease::Sqrt
    } else if i == 6 {
        Ease::Squared
    } else if i == 7 {
        Ease::Cubed
    } else if i == 8 {
        Ease::DownArc
    } else {
        Ease::UpArc
    }
}


/// The complexity of a child: half the parent's less one unit. Below two
/// units every value weighs the same, so those all map to minus one unit.
pub open spec fn child_complexity(c: i64) -> i64 {
    if c >= 2 * COMPLEXITY_UNIT {
        ((c - 2 * COMPLEXITY_UNIT) / 2) as i64
    } else {
        (-COMPLEXITY_UNIT) as i64
    }
}

/// The complexity of a fractal's child: capped at twenty units.
pub open spec fn fractal_child_complexity(c: i64) -> i64 {
    if child_complexity(c) < 20 * COMPLEXITY_UNIT {
        child_complexity(c)
    } else {
        (20 * COMPLEXITY_UNIT) as i64
    }
}

/// A node generated at the current address, with the genome after it.
pub open spec fn gen_spec(c: i64, is_fractal: bool, depth: nat, v: DnaView) -> (Node, DnaView)
    decreases depth, 1nat,
{
    let (t, v1) = pick_draw(v, "node type"@, node_types(c, is_fractal, depth));
    let v2 = grouped(v1);
    let (n, v3) = if t == 0 || depth == 0 {
        basis_spec(is_fractal, v2)
    } else if t == 1 {
        unary_spec(child_complexity(c), is_fractal, (depth - 1) as nat, v2)
    } else if t == 2 {
        binary_spec(child_complexity(c), is_fractal, (depth - 1) as nat, v2)
    } else {
        fractal_spec(fractal_child_complexity(c), (depth - 1) as nat, v2)
    };
    (n, ungrouped(v3))
}

/// A child node generated in a fresh branch.
pub open spec fn branch_spec(c: i64, is_fractal: bool, depth: nat, v: DnaView) -> (Node, DnaView)
    decreases depth, 2nat,
{
    let (n, w) = gen_spec(c, is_fractal, depth, descended(v));
    (n, ungrouped(w))
}

/// A leaf: a seed, a frequency unless inside a fractal, and one of four bases.
pub open spec fn basis_spec(is_fractal: bool, v: DnaView) -> (Node, DnaView) {
    let (seed, v1) = u32_draw(v, "seed"@);
    let (frequency, v2) = if is_fractal {
        (None, v1)
    } else {
        let (x, w) = raw_draw(v1, "frequency"@);
        (Some(x), w)
    };
    let (b, v3) = pick_draw(v2, "basis"@, basis_types());
    if b == 0 {
        (Node::Noise { seed, frequency }, v3)
    } else if b == 1 {
        let (ease, w) = ease_smooth_spec(grouped(v3), "noise ease"@);
        (Node::VNoise { seed, frequency, ease }, ungrouped(w))
    } else if b == 2 {
        let (pattern_x, w1) = u32_in_draw(grouped(v3), "Voronoi X pattern"@, 0, 25);
        let (pattern_y, w2) = u32_in_draw(w1, "Voronoi Y pattern"@, 0, 25);
        let (pattern_z, w3) = u32_in_draw(w2, "Voronoi Z pattern"@, 0, 25);
        let (ease, w4) = ease_voronoi_spec(w3, "Voronoi ease"@);
        let (metric, w5) = metric_spec(w4, "distance metric"@);
        (
            Node::Voronoi { seed, frequency, pattern_x, pattern_y, pattern_z, ease, metric },
            ungrouped(w5),
        )
    } else {
        let (o, x1) = pick_draw(descended(grouped(v3)), "border"@, on_off(500, 500));
        let (border, x2) = if o == 0 {
            let (bw, y) = raw_draw(x1, "border width"@);
            (Some(bw), y)
        } else {
            (None, x1)
        };
        let (sharpness, w1) = raw_draw(ungrouped(x2), "camo sharpness"@);
        let (gradient, w2) = raw_draw(w1, "camo gradient"@);
        let (ease, w3) = ease_smooth_spec(w2, "camo ease"@);
        let (metric, w4) = metric_spec(w3, "distance metric"@);
        (
            Node::Camo { seed, frequency, border, sharpness, gradient, ease, metric },
            ungrouped(w4),
        )
    }
}

/// A unary operator over one child.
pub open spec fn unary_spec(c: i64, is_fractal: bool, depth: nat, v: DnaView) -> (Node, DnaView)
    decreases depth, 3nat,
{
    let (k, v1) = pick_draw(v, "unary node"@, unary_types());
    let w = grouped(v1);
    if k == 0 {
        let (amount, w1) = raw_draw(w, "amount"@);
        let (child, w2) = branch_spec(c, is_fractal, depth, w1);
        (Node::Saturate { amount, child: Box::new(child) }, ungrouped(w2))
    } else if k == 1 {
        let (levels, w1) = raw_draw(w, "levels"@);
        let (sharpness, w2) = raw_draw(w1, "sharpness"@);
        let (child, w3) = branch_spec(c, is_fractal, depth, w2);
        (Node::Posterize { levels, sharpness, child: Box::new(child) }, ungrouped(w3))
    } else if k == 2 {
        let (amount, w1) = raw_draw(w, "amount"@);
        let (child, w2) = branch_spec(c, is_fractal, depth, w1);
        (Node::Overdrive { amount, child: Box::new(child) }, ungrouped(w2))
    } else if k == 3 {
        let (amount, w1) = raw_draw(w, "amount"@);
        let (child, w2) = branch_spec(c, is_fractal, depth, w1);
        (Node::VReflect { amount, child: Box::new(child) }, ungrouped(w2))
    } else if k == 4 {
        let (amount, w1) = raw_draw(w, "amount"@);
        let (x_offset, w2) = raw_draw(w1, "X offset"@);
        let (y_offset, w3) = raw_draw(w2, "Y offset"@);
        let (z_offset, w4) = raw_draw(w3, "Z offset"@);
        let (child, w5) = branch_spec(c, is_fractal, depth, w4);
        (
            Node::Reflect { amount, x_offset, y_offset, z_offset, child: Box::new(child) },
            ungrouped(w5),
        )
    } else {
        let (seed, w1) = u32_draw(w, "seed"@);
        let (child, w2) = branch_spec(c, is_fractal, depth, w1);
        (Node::Shift { seed, child: Box::new(child) }, ungrouped(w2))
    }
}

/// A binary operator over two children of the same complexity.
pub open spec fn binary_spec(c: i64, is_fractal: bool, depth: nat, v: DnaView) -> (Node, DnaView)
    decreases depth, 3nat,
{
    let (k, v1) = pick_draw(v, "binary node"@, binary_types());
    let w = grouped(v1);
    if k == 0 {
        let (amount, w1) = raw_draw(w, "amount"@);
        let (a, w2) = branch_spec(c, is_fractal, depth, w1);
        let (b, w3) = branch_spec(c, is_fractal, depth, w2);
        (Node::Rotate { amount, a: Box::new(a), b: Box::new(b) }, ungrouped(w3))
    } else if k == 1 {
        let (amount, w1) = raw_draw(w, "amount"@);
        let (displacement, w2) = raw_draw(w1, "displacement"@);
        let (a, w3) = branch_spec(c, is_fractal, depth, w2);
        let (b, w4) = branch_spec(c, is_fractal, depth, w3);
        (Node::Softmix { amount, displacement, a: Box::new(a), b: Box::new(b) }, ungrouped(w4))
    } else if k == 2 {
        let (width, w1) = raw_draw(w, "width"@);
        let (ease, w2) = ease_spec(w1, "layer ease"@);
        let (a, w3) = branch_spec(c, is_fractal, depth, w2);
        let (b, w4) = branch_spec(c, is_fractal, depth, w3);
        (Node::Layer { width, ease, a: Box::new(a), b: Box::new(b) }, ungrouped(w4))
    } else {
        let (amount, w1) = raw_draw(w, "amount"@);
        let (a, w2) = branch_spec(c, is_fractal, depth, w1);
        let (b, w3) = branch_spec(c, is_fractal, depth, w2);
        (Node::Displace { amount, a: Box::new(a), b: Box::new(b) }, ungrouped(w3))
    }
}

/// An optional magnitude: an on/off switch in a fresh branch, and the
/// magnitude if on.
pub open spec fn option_spec(v: DnaView, name: Seq<char>, magnitude: Seq<char>) -> (Option<u32>, DnaView) {
    let (o, x1) = pick_draw(descended(v), name, on_off(333, 666));
    let (m, x2) = if o == 0 {
        let (x, y) = raw_draw(x1, magnitude);
        (Some(x), y)
    } else {
        (None, x1)
    };
    (m, ungrouped(x2))
}

/// A fractal over one child, which cannot start a fractal of its own.
pub open spec fn fractal_spec(c: i64, depth: nat, v: DnaView) -> (Node, DnaView)
    decreases depth, 3nat,
{
    let (base, v1) = raw_draw(v, "base frequency"@);
    let (roughness, v2) = raw_draw(v1, "roughness"@);
    let (octaves, v3) = u32_in_draw(v2, "octaves"@, 2, 10);
    let (first_octave, v4) = u32_in_draw(v3, "first octave"@, 0, (octaves - 1) as u32);
    let (lacunarity, v5) = raw_draw(v4, "lacunarity"@);
    let (displace, v6) = option_spec(v5, "displace"@, "amount"@);
    let (layer, v7) = option_spec(v6, "layer"@, "width"@);
    let (child, v8) = branch_spec(c, true, depth, v7);
    (
        Node::Fractal {
            base,
            roughness,
            octaves,
            first_octave,
            lacunarity,
            displace,
            layer,
            child: Box::new(child),
        },
        v8,
    )
}


/// Where a family of nodes leaves the address: at the same level, some
/// siblings on.
pub open spec fn same_level(a: Seq<u32>, b: Seq<u32>) -> bool {
    &&& b.len() == a.len()
    &&& b.len() >= 1
    &&& b.drop_last() == a.drop_last()
    &&& b.last() <= 8
}

/// The complexity of a child.
fn child_complexity_of(c: i64) -> (r: i64)
    ensures
        r == child_complexity(c),
{
    if c >= 2 * COMPLEXITY_UNIT {
        (c - 2 * COMPLEXITY_UNIT) / 2
    } else {
        -COMPLEXITY_UNIT
    }
}

/// The complexity of a fractal's child.
fn fractal_child_complexity_of(c: i64) -> (r: i64)
    ensures
        r == fractal_child_complexity(c),
{
    let cc = child_complexity_of(c);
    if cc < 20 * COMPLEXITY_UNIT {
        cc
    } else {
        20 * COMPLEXITY_UNIT
    }
}

/// Generate a texture node at the current address, `depth` levels above
/// the limit of the recursion.
pub fn genmap3_node(complexity: i64, is_fractal: bool, depth: u32, dna: &mut Dna) -> (r: Node)
    requires
        can_draw(old(dna)@),
    ensures
        (r, final(dna)@) == gen_spec(complexity, is_fractal, depth as nat, old(dna)@),
        final(dna)@.address == advanced(old(dna)@.address),
    decreases depth, 1nat,
{
    let ghost v0 = dna@;
    let c = complexity;
    let bw: u32 = if c <= 10_000 {
        1500
    } else if c <= 40_000 {
        800
    } else if c <= 80_000 {
        400
    } else {
        200
    };
    let uw: u32 = if depth == 0 {
        0
    } else if c >= 20_000 {
        1500
    } else if c >= 5_000 {
        1000
    } else {
        10
    };
    let nw: u32 = if depth == 0 {
        0
    } else if c >= 8_000 {
        1000
    } else {
        10
    };
    let fw: u32 = if is_fractal || depth == 0 {
        0
    } else if c >= 9_000 {
        800
    } else {
        10
    };
    let choices = [(bw, "basis"), (uw, "unary"), (nw, "binary"), (fw, "fractal")];
    proof {
        assert(choices@ =~= node_types(c, is_fractal, depth as nat));
    }
    let t = pick(dna, "node type", &choices);
    let ghost v1 = dna@;
    dna.group();
    let ghost v2 = dna@;
    let n = if t == 0 || depth == 0 {
        gen_basis(is_fractal, dna)
    } else if t == 1 {
        gen_unary(child_complexity_of(c), is_fractal, depth - 1, dna)
    } else if t == 2 {
        gen_binary(child_complexity_of(c), is_fractal, depth - 1, dna)
    } else {
        gen_fractal(fractal_child_complexity_of(c), depth - 1, dna)
    };
    proof {
        let f = dna@.address;
        assert(f[f.len() - 2] == f.drop_last()[f.len() - 2]);
        assert(v2.address[v2.address.len() - 2] == v2.address.drop_last()[v2.address.len() - 2]);
    }
    dna.ungroup();
    proof {
        assert(dna@.address =~= advanced(v0.address));
    }
    n
}

/// Generate a child node in a fresh branch.
fn gen_branch(complexity: i64, is_fractal: bool, depth: u32, dna: &mut Dna) -> (r: Node)
    requires
        can_draw(old(dna)@),
    ensures
        (r, final(dna)@) == branch_spec(complexity, is_fractal, depth as nat, old(dna)@),
        final(dna)@.address == advanced(old(dna)@.address),
    decreases depth, 2nat,
{
    let ghost v0 = dna@;
    dna.generate_begin();
    let n = genmap3_node(complexity, is_fractal, depth, dna);
    proof {
        assert(dna@.address[dna@.address.len() - 2] == v0.address.last());
    }
    dna.ungroup();
    proof {
        assert(dna@.address =~= advanced(v0.address));
    }
    n
}

/// Generate a leaf.
#[verifier::rlimit(40)]
fn gen_basis(is_fractal: bool, dna: &mut Dna) -> (r: Node)
    requires
        old(dna)@.address.len() >= 1,
        old(dna)@.address.last() == 0,
    ensures
        (r, final(dna)@) == basis_spec(is_fractal, old(dna)@),
        same_level(old(dna)@.address, final(dna)@.address),
{
    let ghost a = dna@.address;
    let seed = dna.u32("seed");
    let frequency = if is_fractal {
        None
    } else {
        Some(dna.raw("frequency"))
    };
    let choices = [(1000u32, "gradient noise"), (1000u32, "value noise"), (1000u32, "Voronoi"), (500u32, "camo")];
    proof {
        assert(choices@ =~= basis_types());
    }
    let b = pick(dna, "basis", &choices);
    if b == 0 {
        proof {
            assert(dna@.address.drop_last() =~= a.drop_last());
        }
        Node::Noise { seed, frequency }
    } else if b == 1 {
        dna.group();
        let ease = gen_ease_smooth(dna, "noise ease");
        dna.ungroup();
        proof {
            assert(dna@.address.drop_last() =~= a.drop_last());
        }
        Node::VNoise { seed, frequency, ease }
    } else if b == 2 {
        dna.group();
        let pattern_x = dna.u32_in("Voronoi X pattern", 0, 25);
        let pattern_y = dna.u32_in("Voronoi Y pattern", 0, 25);
        let pattern_z = dna.u32_in("Voronoi Z pattern", 0, 25);
        let ease = gen_ease_voronoi(dna, "Voronoi ease");
        let metric = gen_metric(dna, "distance metric");
        dna.ungroup();
        proof {
            assert(dna@.address.drop_last() =~= a.drop_last());
        }
        Node::Voronoi { seed, frequency, pattern_x, pattern_y, pattern_z, ease, metric }
    } else {
        dna.group();
        dna.generate_begin();
        let switch = [(500u32, "on"), (500u32, "off")];
        proof {
            assert(switch@ =~= on_off(500, 500));
        }
        let o = pick(dna, "border", &switch);
        let border = if o == 0 {
            Some(dna.raw("border width"))
        } else {
            None
        };
        dna.ungroup();
        let sharpness = dna.raw("camo sharpness");
        let gradient = dna.raw("camo gradient");
        let ease = gen_ease_smooth(dna, "camo ease");
        let metric = gen_metric(dna, "distance metric");
        dna.ungroup();
        proof {
            assert(dna@.address.drop_last() =~= a.drop_last());
        }
        Node::Camo { seed, frequency, border, sharpness, gradient, ease, metric }
    }
}

/// Shape a map with a unary operator.
fn gen_unary(complexity: i64, is_fractal: bool, depth: u32, dna: &mut Dna) -> (r: Node)
    requires
        old(dna)@.address.len() >= 1,
        old(dna)@.address.last() == 0,
    ensures
        (r, final(dna)@) == unary_spec(complexity, is_fractal, depth as nat, old(dna)@),
        same_level(old(dna)@.address, final(dna)@.address),
    decreases depth, 3nat,
{
    let ghost a = dna@.address;
    let choices = [
        (1000u32, "saturate"),
        (1000u32, "posterize"),
        (1000u32, "overdrive"),
        (1000u32, "vreflect"),
        (2000u32, "reflect"),
        (3000u32, "shift"),
    ];
    proof {
        assert(choices@ =~= unary_types());
    }
    let k = pick(dna, "unary node", &choices);
    dna.group();
    let n = if k == 0 {
        let amount = dna.raw("amount");
        let child = gen_branch(complexity, is_fractal, depth, dna);
        Node::Saturate { amount, child: Box::new(child) }
    } else if k == 1 {
        let levels = dna.raw("levels");
        let sharpness = dna.raw("sharpness");
        let child = gen_branch(complexity, is_fractal, depth, dna);
        Node::Posterize { levels, sharpness, child: Box::new(child) }
    } else if k == 2 {
        let amount = dna.raw("amount");
        let child = gen_branch(complexity, is_fractal, depth, dna);
        Node::Overdrive { amount, child: Box::new(child) }
    } else if k == 3 {
        let amount = dna.raw("amount");
        let child = gen_branch(complexity, is_fractal, depth, dna);
        Node::VReflect { amount, child: Box::new(child) }
    } else if k == 4 {
        let amount = dna.raw("amount");
        let x_offset = dna.raw("X offset");
        let y_offset = dna.raw("Y offset");
        let z_offset = dna.raw("Z offset");
        let child = gen_branch(complexity, is_fractal, depth, dna);
        Node::Reflect { amount, x_offset, y_offset, z_offset, child: Box::new(child) }
    } else {
        let seed = dna.u32("seed");
        let child = gen_branch(complexity, is_fractal, depth, dna);
        Node::Shift { seed, child: Box::new(child) }
    };
    dna.ungroup();
    proof {
        assert(dna@.address.drop_last() =~= a.drop_last());
    }
    n
}

/// Combine two maps with a binary operator.
fn gen_binary(complexity: i64, is_fractal: bool, depth: u32, dna: &mut Dna) -> (r: Node)
    requires
        old(dna)@.address.len() >= 1,
        old(dna)@.address.last() == 0,
    ensures
        (r, final(dna)@) == binary_spec(complexity, is_fractal, depth as nat, old(dna)@),
        same_level(old(dna)@.address, final(dna)@.address),
    decreases depth, 3nat,
{
    let ghost a = dna@.address;
    let choices = [(1000u32, "rotate"), (1000u32, "softmix"), (1000u32, "layer"), (2000u32, "displace")];
    proof {
        assert(choices@ =~= binary_types());
    }
    let k = pick(dna, "binary node", &choices);
    dna.group();
    let n = if k == 0 {
        let amount = dna.raw("amount");
        let a = gen_branch(complexity, is_fractal, depth, dna);
        let b = gen_branch(complexity, is_fractal, depth, dna);
        Node::Rotate { amount, a: Box::new(a), b: Box::new(b) }
    } else if k == 1 {
        let amount = dna.raw("amount");
        let displacement = dna.raw("displacement");
        let a = gen_branch(complexity, is_fractal, depth, dna);
        let b = gen_branch(complexity, is_fractal, depth, dna);
        Node::Softmix { amount, displacement, a: Box::new(a), b: Box::new(b) }
    } else if k == 2 {
        let width = dna.raw("width");
        let ease = gen_ease(dna, "layer ease");
        let a = gen_branch(complexity, is_fractal, depth, dna);
        let b = gen_branch(complexity, is_fractal, depth, dna);
        Node::Layer { width, ease, a: Box::new(a), b: Box::new(b) }
    } else {
        let amount = dna.raw("amount");
        let a = gen_branch(complexity, is_fractal, depth, dna);
        let b = gen_branch(complexity, is_fractal, depth, dna);
        Node::Displace { amount, a: Box::new(a), b: Box::new(b) }
    };
    dna.ungroup();
    proof {
        assert(dna@.address.drop_last() =~= a.drop_last());
    }
    n
}

/// An optional magnitude: an on/off switch in a fresh branch, and the
/// magnitude if on.
fn gen_option(dna: &mut Dna, name: &str, magnitude: &str) -> (r: Option<u32>)
    requires
        can_draw(old(dna)@),
    ensures
        (r, final(dna)@) == option_spec(old(dna)@, name@, magnitude@),
        final(dna)@.address == advanced(old(dna)@.address),
{
    let ghost a = dna@.address;
    dna.generate_begin();
    let choices = [(333u32, "on"), (666u32, "off")];
    proof {
        assert(choices@ =~= on_off(333, 666));
    }
    let o = pick(dna, name, &choices);
    let m = if o == 0 {
        Some(dna.raw(magnitude))
    } else {
        None
    };
    dna.ungroup();
    proof {
        assert(dna@.address =~= advanced(a));
    }
    m
}

/// Fractalize a map by sampling many octaves.
fn gen_fractal(complexity: i64, depth: u32, dna: &mut Dna) -> (r: Node)
    requires
        old(dna)@.address.len() >= 1,
        old(dna)@.address.last() == 0,
    ensures
        (r, final(dna)@) == fractal_spec(complexity, depth as nat, old(dna)@),
        same_level(old(dna)@.address, final(dna)@.address),
    decreases depth, 3nat,
{
    let ghost a = dna@.address;
    let base = dna.raw("base frequency");
    let roughness = dna.raw("roughness");
    let octaves = dna.u32_in("octaves", 2, 10);
    let first_octave = dna.u32_in("first octave", 0, octaves - 1);
    let lacunarity = dna.raw("lacunarity");
    let displace = gen_option(dna, "displace", "amount");
    let layer = gen_option(dna, "layer", "width");
    let child = gen_branch(complexity, true, depth, dna);
    proof {
        assert(dna@.address.drop_last() =~= a.drop_last());
    }
    Node::Fractal {
        base,
        roughness,
        octaves,
        first_octave,
        lacunarity,
        displace,
        layer,
        child: Box::new(child),
    }
}


/// A palette over a map: three colors, each a hue, a saturation and a
/// lightness, then the map itself at the same level.
pub open spec fn palette_spec(c: i64, v: DnaView) -> (Node, DnaView) {
    let (h1, v1) = raw_draw(v, "hue 1"@);
    let (s1, v2) = raw_draw(v1, "saturation 1"@);
    let (l1, v3) = raw_draw(v2, "lightness 1"@);
    let (h2, v4) = raw_draw(v3, "hue 2"@);
    let (s2, v5) = raw_draw(v4, "saturation 2"@);
    let (l2, v6) = raw_draw(v5, "lightness 2"@);
    let (h3, v7) = raw_draw(v6, "hue 3"@);
    let (s3, v8) = raw_draw(v7, "saturation 3"@);
    let (l3, v9) = raw_draw(v8, "lightness 3"@);
    let (child, w) = gen_spec(c, false, MAX_DEPTH as nat, v9);
    (Node::Palette { colors: [h1, s1, l1, h2, s2, l2, h3, s3, l3], child: Box::new(child) }, w)
}

/// Generate a texture of the given complexity (in thousandths) at the
/// current address of the genome.
pub fn genmap3(complexity: i64, dna: &mut Dna) -> (r: Node)
    requires
        can_draw(old(dna)@),
    ensures
        (r, final(dna)@) == gen_spec(complexity, false, MAX_DEPTH as nat, old(dna)@),
        final(dna)@.address == advanced(old(dna)@.address),
{
    genmap3_node(complexity, false, MAX_DEPTH, dna)
}

/// Generate a texture with a palette.
pub fn genmap3palette(complexity: i64, dna: &mut Dna) -> (r: Node)
    requires
        can_draw(old(dna)@),
        old(dna)@.address.last() < u32::MAX - 10,
    ensures
        (r, final(dna)@) == palette_spec(complexity, old(dna)@),
{
    let h1 = dna.raw("hue 1");
    let s1 = dna.raw("saturation 1");
    let l1 = dna.raw("lightness 1");
    let h2 = dna.raw("hue 2");
    let s2 = dna.raw("saturation 2");
    let l2 = dna.raw("lightness 2");
    let h3 = dna.raw("hue 3");
    let s3 = dna.raw("saturation 3");
    let l3 = dna.raw("lightness 3");
    let child = genmap3_node(complexity, false, MAX_DEPTH, dna);
    Node::Palette { colors: [h1, s1, l1, h2, s2, l2, h3, s3, l3], child: Box::new(child) }
}

/// Generation is a function of the complexity and the genome alone: two
/// genomes made from the same seed generate the same tree, and are left in
/// the same state, with the same parameter log.
pub proof fn lemma_generation_deterministic(complexity: i64, seed: u64, a: DnaView, b: DnaView)
    requires
        a == fresh_genome(seed),
        b == fresh_genome(seed),
    ensures
        gen_spec(complexity, false, MAX_DEPTH as nat, a) == gen_spec(complexity, false, MAX_DEPTH as nat, b),
        gen_spec(complexity, false, MAX_DEPTH as nat, a).1.log == gen_spec(complexity, false, MAX_DEPTH as nat, b).1.log,
{
}

} // verus!
