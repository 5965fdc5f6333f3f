//! The L-system fractal interpreter: a depth-bounded recursive-descent walk
//! over the implicit expansion tree of a string-rewriting grammar, driving a
//! turtle whose forward steps are measured in one pass and drawn in a second.
//!
//! Nothing here materializes the expanded symbol string, which grows
//! exponentially with depth: each symbol is either rewritten (recursing one
//! level deeper) or executed as a turtle command on the spot. Recursion depth
//! is bounded by the clamped iteration count, and the bracket stack by its
//! fixed capacity, so memory stays bounded for every pattern.
//!
//! Geometry is fixed point: positions carry [`trig::SIN_SCALE`] sub-pixel
//! units and headings are tenths of a degree. Both passes are proved equal to
//! the single specification-level interpreter [`spec_interp`], which is what
//! makes the measured and the drawn geometry identical.

use vstd::prelude::*;

use crate::epaper::buffer::{spec_set_pixel, DisplayBuffer};
use crate::epaper::{spec_from_rgb888, Color, Rgb888};
use crate::graphics::trig;

verus! {

/// Hard ceiling on the iteration depth, regardless of what a pattern
/// requests: it bounds both the recursion depth and the running time.
pub const MAX_ITERATION_DEPTH: u16 = 10;

/// Capacity of the turtle's save/restore stack for bracketed branch points.
pub const TURTLE_STACK_SIZE: usize = 128;

/// The requested depth clamped to the safety ceiling.
pub open spec fn spec_clamp_depth(d: int) -> int {
    if d > MAX_ITERATION_DEPTH {
        MAX_ITERATION_DEPTH as int
    } else {
        d
    }
}

/// Clamps a requested iteration count to the safety ceiling.
pub fn clamp_depth(d: u16) -> (r: u16)
    ensures
        r == spec_clamp_depth(d as int),
        r <= MAX_ITERATION_DEPTH,
{
    if d > MAX_ITERATION_DEPTH {
        MAX_ITERATION_DEPTH
    } else {
        d
    }
}

/// Positions are clamped to this many fixed-point units from the origin, so
/// a runaway pattern saturates far off screen instead of overflowing.
pub const POS_LIMIT: i64 = 2147483648;

/// The turtle's start heading: pointing up (toward smaller `y`).
pub const START_HEADING: u16 = 2700;

/// The turtle at one instant: a fixed-point position and a heading in tenths
/// of a degree.
pub ghost struct TurtleModel {
    pub x: int,
    pub y: int,
    pub heading: int,
}

/// One forward step: a drawn line segment between two fixed-point points.
pub ghost struct SegmentModel {
    pub x0: int,
    pub y0: int,
    pub x1: int,
    pub y1: int,
}

/// The interpreter state: the turtle and the stack of saved branch points.
pub ghost struct InterpState {
    pub t: TurtleModel,
    pub stack: Seq<TurtleModel>,
}

/// What interpreting a symbol sequence yields: the final state and every
/// segment traced by forward steps, in drawing order.
pub ghost struct InterpResult {
    pub s: InterpState,
    pub segs: Seq<SegmentModel>,
}

/// A running bounding box over visited points. The origin is always included,
/// matching a measurement pass that starts there.
pub ghost struct BBoxModel {
    pub min_x: int,
    pub max_x: int,
    pub min_y: int,
    pub max_y: int,
}

/// A turtle within the clamped position range with a normalized heading.
pub open spec fn wf_turtle_model(t: TurtleModel) -> bool {
    &&& -POS_LIMIT <= t.x <= POS_LIMIT
    &&& -POS_LIMIT <= t.y <= POS_LIMIT
    &&& 0 <= t.heading < 3600
}

/// A well-formed interpreter state: turtle and every saved branch point are
/// well-formed, and the stack is within its capacity.
pub open spec fn wf_state(s: InterpState) -> bool {
    &&& wf_turtle_model(s.t)
    &&& s.stack.len() <= TURTLE_STACK_SIZE
    &&& forall|i: int| 0 <= i < s.stack.len() ==> wf_turtle_model(#[trigger] s.stack[i])
}

/// A coordinate clamped into the position range.
pub open spec fn spec_clamp_pos(v: int) -> int {
    if v < -POS_LIMIT {
        -POS_LIMIT as int
    } else if v > POS_LIMIT {
        POS_LIMIT as int
    } else {
        v
    }
}

/// One forward step of the turtle: the position advances by the step length
/// times the heading's direction vector, saturating at the position range;
/// the heading is unchanged.
pub open spec fn spec_forward(t: TurtleModel, step: int) -> TurtleModel {
    TurtleModel {
        x: spec_clamp_pos(t.x + step * trig::spec_cos_fp(t.heading)),
        y: spec_clamp_pos(t.y + step * trig::spec_sin_fp(t.heading)),
        heading: t.heading,
    }
}

/// The effect of one turtle command on the state, and the segments it draws.
/// `F` moves forward and draws; `+`/`-` turn by the configured angle; `|`
/// reverses the heading; `[` saves the turtle (silently dropped when the
/// stack is full); `]` restores the last saved turtle (a no-op when the stack
/// is empty); anything else is a placeholder that only drives rewrite rules.
pub open spec fn spec_command(step: int, angle: int, s: InterpState, c: u8) -> (
    InterpState,
    Seq<SegmentModel>,
) {
    if c == 70 {  // 'F'
        let t2 = spec_forward(s.t, step);
        (
            InterpState { t: t2, stack: s.stack },
            seq![SegmentModel { x0: s.t.x, y0: s.t.y, x1: t2.x, y1: t2.y }],
        )
    } else if c == 43 {  // '+'
        (
            InterpState {
                t: TurtleModel { heading: (s.t.heading + angle) % 3600, ..s.t },
                stack: s.stack,
            },
            Seq::empty(),
        )
    } else if c == 45 {  // '-'
        (
            InterpState {
                t: TurtleModel { heading: (s.t.heading + 3600 - angle) % 3600, ..s.t },
                stack: s.stack,
            },
            Seq::empty(),
        )
    } else if c == 124 {  // '|'
        (
            InterpState {
                t: TurtleModel { heading: (s.t.heading + 1800) % 3600, ..s.t },
                stack: s.stack,
            },
            Seq::empty(),
        )
    } else if c == 91 {  // '['
        (
            InterpState {
                t: s.t,
                stack: if s.stack.len() < TURTLE_STACK_SIZE {
                    s.stack.push(s.t)
                } else {
                    s.stack
                },
            },
            Seq::empty(),
        )
    } else if c == 93 {  // ']'
        if s.stack.len() > 0 {
            (InterpState { t: s.stack.last(), stack: s.stack.drop_last() }, Seq::empty())
        } else {
            (s, Seq::empty())
        }
    } else {
        (s, Seq::empty())
    }
}

/// The replacement of the first rule whose symbol is `c`, if any.
pub open spec fn spec_find_rule(rules: Seq<(u8, Seq<u8>)>, c: u8) -> Option<Seq<u8>>
    decreases rules.len(),
{
    if rules.len() == 0 {
        None
    } else if rules[0].0 == c {
        Some(rules[0].1)
    } else {
        spec_find_rule(rules.drop_first(), c)
    }
}

/// The recursive-descent interpretation of a symbol sequence at a given
/// remaining depth: a symbol with a rewrite rule is expanded one level deeper
/// while depth remains, otherwise it is executed as a turtle command; the
/// rest of the sequence follows from the resulting state. This one function
/// is the geometry of the fractal: the measurement pass and the drawing pass
/// are both proved equal to it.
pub open spec fn spec_interp(
    step: int,
    angle: int,
    rules: Seq<(u8, Seq<u8>)>,
    s: InterpState,
    syms: Seq<u8>,
    depth: nat,
) -> InterpResult
    decreases depth, syms.len(),
{
    if syms.len() == 0 {
        InterpResult { s, segs: Seq::empty() }
    } else {
        let c = syms[0];
        let first = if depth > 0 && spec_find_rule(rules, c) is Some {
            spec_interp(step, angle, rules, s, spec_find_rule(rules, c).unwrap(), (depth - 1) as nat)
        } else {
            let (s1, segs1) = spec_command(step, angle, s, c);
            InterpResult { s: s1, segs: segs1 }
        };
        let rest = spec_interp(step, angle, rules, first.s, syms.drop_first(), depth);
        InterpResult { s: rest.s, segs: first.segs + rest.segs }
    }
}

/// The bounding box around the origin alone.
pub open spec fn spec_bbox_zero() -> BBoxModel {
    BBoxModel { min_x: 0, max_x: 0, min_y: 0, max_y: 0 }
}

/// The bounding box widened to include one point.
pub open spec fn spec_bbox_update(b: BBoxModel, x: int, y: int) -> BBoxModel {
    BBoxModel {
        min_x: if x < b.min_x {
            x
        } else {
            b.min_x
        },
        max_x: if x > b.max_x {
            x
        } else {
            b.max_x
        },
        min_y: if y < b.min_y {
            y
        } else {
            b.min_y
        },
        max_y: if y > b.max_y {
            y
        } else {
            b.max_y
        },
    }
}

/// The bounding box widened by the end point of every segment, in order:
/// exactly what the measurement pass accumulates, one update per forward
/// step.
pub open spec fn spec_bbox_of_segs(b: BBoxModel, segs: Seq<SegmentModel>) -> BBoxModel
    decreases segs.len(),
{
    if segs.len() == 0 {
        b
    } else {
        spec_bbox_of_segs(spec_bbox_update(b, segs[0].x1, segs[0].y1), segs.drop_first())
    }
}

/// Folding a bounding box over concatenated segments equals folding over the
/// parts in order.
pub proof fn lemma_bbox_of_segs_concat(b: BBoxModel, s1: Seq<SegmentModel>, s2: Seq<SegmentModel>)
    ensures
        spec_bbox_of_segs(b, s1 + s2) == spec_bbox_of_segs(spec_bbox_of_segs(b, s1), s2),
    decreases s1.len(),
{
    if s1.len() == 0 {
        assert(s1 + s2 =~= s2);
    } else {
        assert((s1 + s2).drop_first() =~= s1.drop_first() + s2);
        lemma_bbox_of_segs_concat(spec_bbox_update(b, s1[0].x1, s1[0].y1), s1.drop_first(), s2);
    }
}

/// The model of one saved turtle tuple.
pub open spec fn tuple_model(p: (i64, i64, u16)) -> TurtleModel {
    TurtleModel { x: p.0 as int, y: p.1 as int, heading: p.2 as int }
}

/// The models of a whole stack of saved turtles.
pub open spec fn stack_models(s: Seq<(i64, i64, u16)>) -> Seq<TurtleModel> {
    s.map_values(|p: (i64, i64, u16)| tuple_model(p))
}

#[verifier::external_type_specification]
#[verifier::external_body]
#[verifier::reject_recursive_types(T)]
pub struct ExHeaplessVec<T, const N: usize>(heapless::Vec<T, N>);

/// The saved turtles a bracket stack holds, oldest first.
pub uninterp spec fn turtle_stack_model(v: &heapless::Vec<(i64, i64, u16), 128>) -> Seq<
    (i64, i64, u16),
>;

/// Relies on `heapless::Vec::new`: the vector starts empty.
#[verifier::external_body]
fn turtle_stack_new() -> (v: heapless::Vec<(i64, i64, u16), 128>)
    ensures
        turtle_stack_model(&v) == Seq::<(i64, i64, u16)>::empty(),
{
    heapless::Vec::new()
}

/// Relies on `heapless::Vec::push`: appends the item while below the fixed
/// capacity of 128, and otherwise hands the item back leaving the vector
/// unchanged — the silent drop the bracket command wants.
#[verifier::external_body]
fn turtle_stack_push(v: &mut heapless::Vec<(i64, i64, u16), 128>, item: (i64, i64, u16))
    ensures
        turtle_stack_model(final(v)) == if turtle_stack_model(old(v)).len() < 128 {
            turtle_stack_model(old(v)).push(item)
        } else {
            turtle_stack_model(old(v))
        },
{
    let _ = v.push(item);
}

/// Relies on `heapless::Vec::pop`: removes and returns the last element, or
/// returns `None` when the vector is empty.
#[verifier::external_body]
fn turtle_stack_pop(v: &mut heapless::Vec<(i64, i64, u16), 128>) -> (r: Option<(i64, i64, u16)>)
    ensures
        ({
            let m = turtle_stack_model(old(v));
            if m.len() > 0 {
                r == Some(m.last()) && turtle_stack_model(final(v)) == m.drop_last()
            } else {
                r == None::<(i64, i64, u16)> && turtle_stack_model(final(v)) == m
            }
        }),
{
    v.pop()
}

/// The drawing cursor as both passes step it: a position, a heading, the
/// pattern's step length and turn angle, and the bracket stack.
pub struct Turtle {
    x: i64,
    y: i64,
    heading: u16,
    step_length: u16,
    turn_angle: u16,
    stack: heapless::Vec<(i64, i64, u16), 128>,
}

impl Turtle {
    /// The interpreter state this turtle is in.
    pub closed spec fn interp_state(self) -> InterpState {
        InterpState {
            t: TurtleModel { x: self.x as int, y: self.y as int, heading: self.heading as int },
            stack: stack_models(turtle_stack_model(&self.stack)),
        }
    }

    /// The pattern's step length.
    pub closed spec fn step_spec(self) -> u16 {
        self.step_length
    }

    /// The pattern's turn angle in tenths of a degree.
    pub closed spec fn angle_spec(self) -> u16 {
        self.turn_angle
    }

    /// A well-formed turtle: its state is well-formed and its turn angle is a
    /// normalized number of tenths of a degree.
    pub open spec fn wf(self) -> bool {
        &&& wf_state(self.interp_state())
        &&& self.angle_spec() < 3600
    }

    /// A turtle at the given fixed-point position, heading up, with an empty
    /// bracket stack.
    pub fn new(step_length: u16, turn_angle: u16, x: i64, y: i64) -> (r: Turtle)
        requires
            turn_angle < 3600,
            -POS_LIMIT <= x <= POS_LIMIT,
            -POS_LIMIT <= y <= POS_LIMIT,
        ensures
            r.wf(),
            r.interp_state() == spec_initial_state(x as int, y as int),
            r.step_spec() == step_length,
            r.angle_spec() == turn_angle,
    {
        let r = Turtle {
            x,
            y,
            heading: START_HEADING,
            step_length,
            turn_angle,
            stack: turtle_stack_new(),
        };
        proof {
            assert(stack_models(turtle_stack_model(&r.stack)) =~= Seq::<TurtleModel>::empty());
        }
        r
    }

    /// Executes one turtle command, returning the fixed-point segment a
    /// forward step traced, if any.
    pub fn apply_command(&mut self, c: u8) -> (seg: Option<(i64, i64, i64, i64)>)
        requires
            old(self).wf(),
        ensures
            final(self).wf(),
            final(self).step_spec() == old(self).step_spec(),
            final(self).angle_spec() == old(self).angle_spec(),
            ({
                let (s2, segs) = spec_command(
                    old(self).step_spec() as int,
                    old(self).angle_spec() as int,
                    old(self).interp_state(),
                    c,
                );
                &&& final(self).interp_state() == s2
                &&& segs == match seg {
                    None => Seq::<SegmentModel>::empty(),
                    Some(q) => seq![SegmentModel { x0: q.0 as int, y0: q.1 as int, x1: q.2 as int, y1: q.3 as int }],
                }
            }),
            seg matches Some(q) ==> -POS_LIMIT <= q.0 <= POS_LIMIT && -POS_LIMIT <= q.1
                <= POS_LIMIT && -POS_LIMIT <= q.2 <= POS_LIMIT && -POS_LIMIT <= q.3 <= POS_LIMIT,
    {
        if c == 70 {  // 'F'
            let sin_v = trig::sin_fp(self.heading);
            let cos_v = trig::cos_fp(self.heading);
            proof {
                assert(-(65535i64 * 4096) <= self.step_length as i64 * (cos_v as i64)
                    <= 65535i64 * 4096) by (nonlinear_arith)
                    requires
                        0 <= self.step_length <= 65535,
                        -4096 <= cos_v <= 4096,
                ;
                assert(-(65535i64 * 4096) <= self.step_length as i64 * (sin_v as i64)
                    <= 65535i64 * 4096) by (nonlinear_arith)
                    requires
                        0 <= self.step_length <= 65535,
                        -4096 <= sin_v <= 4096,
                ;
            }
            let dx = (self.step_length as i64) * (cos_v as i64);
            let dy = (self.step_length as i64) * (sin_v as i64);
            let x0 = self.x;
            let y0 = self.y;
            let nx = clamp_pos(x0 + dx);
            let ny = clamp_pos(y0 + dy);
            self.x = nx;
            self.y = ny;
            Some((x0, y0, nx, ny))
        } else if c == 43 {  // '+'
            self.heading = (self.heading + self.turn_angle) % 3600;
            None
        } else if c == 45 {  // '-'
            self.heading = (self.heading + 3600 - self.turn_angle) % 3600;
            None
        } else if c == 124 {  // '|'
            self.heading = (self.heading + 1800) % 3600;
            None
        } else if c == 91 {  // '['
            let ghost m0 = turtle_stack_model(&self.stack);
            let item = (self.x, self.y, self.heading);
            turtle_stack_push(&mut self.stack, item);
            proof {
                if m0.len() < 128 {
                    assert(stack_models(m0.push(item)) =~= stack_models(m0).push(
                        tuple_model(item),
                    ));
                }
            }
            None
        } else if c == 93 {  // ']'
            let ghost m0 = turtle_stack_model(&self.stack);
            match turtle_stack_pop(&mut self.stack) {
                Some(saved) => {
                    proof {
                        assert(stack_models(m0).last() == tuple_model(m0.last()));
                        assert(stack_models(m0.drop_last()) =~= stack_models(m0).drop_last());
                    }
                    self.x = saved.0;
                    self.y = saved.1;
                    self.heading = saved.2;
                },
                None => {},
            }
            None
        } else {
            None
        }
    }
}

/// The interpreter state a pass starts from: the turtle at the given
/// fixed-point position, heading up, with an empty stack.
pub open spec fn spec_initial_state(x: int, y: int) -> InterpState {
    InterpState {
        t: TurtleModel { x, y, heading: START_HEADING as int },
        stack: Seq::empty(),
    }
}

/// Clamps a fixed-point coordinate into the position range.
fn clamp_pos(v: i64) -> (r: i64)
    ensures
        r == spec_clamp_pos(v as int),
{
    if v < -POS_LIMIT {
        -POS_LIMIT
    } else if v > POS_LIMIT {
        POS_LIMIT
    } else {
        v
    }
}

/// Concatenation of sequences is associative; used to regroup the segments
/// of nested expansions.
proof fn lemma_seq_concat_assoc<A>(a: Seq<A>, b: Seq<A>, c: Seq<A>)
    ensures
        (a + b) + c == a + (b + c),
{
    assert((a + b) + c =~= a + (b + c));
}

/// One rewrite rule: a single symbol and its replacement string.
pub struct Rule {
    pub symbol: u8,
    pub replacement: Vec<u8>,
}

/// The model of an ordered rule set.
pub open spec fn rules_model(rules: Seq<Rule>) -> Seq<(u8, Seq<u8>)> {
    rules.map_values(|r: Rule| (r.symbol, r.replacement@))
}

/// An L-system: a start symbol string, an ordered set of single-symbol rewrite
/// rules, a turn angle in tenths of a degree, an inclusive iteration range
/// resolved once per invocation, and a step length in pixels.
pub struct LSystemPattern {
    pub start: Vec<u8>,
    pub rules: Vec<Rule>,
    pub angle_tenths: u16,
    pub min_iterations: u16,
    pub max_iterations: u16,
    pub step_length: u16,
}

impl LSystemPattern {
    /// A well-formed pattern has a normalized turn angle.
    pub open spec fn wf(self) -> bool {
        self.angle_tenths < 3600
    }
}

/// Finds the first rule for symbol `c`, returning its index.
fn find_rule(rules: &[Rule], c: u8) -> (r: Option<usize>)
    ensures
        match r {
            None => spec_find_rule(rules_model(rules@), c) is None,
            Some(i) => i < rules@.len() && spec_find_rule(rules_model(rules@), c) == Some(
                rules@[i as int].replacement@,
            ),
        },
{
    let ghost m = rules_model(rules@);
    proof {
        assert(m.skip(0) =~= m);
    }
    let mut k: usize = 0;
    while k < rules.len()
        invariant
            k <= rules@.len(),
            m == rules_model(rules@),
            spec_find_rule(m, c) == spec_find_rule(m.skip(k as int), c),
        decreases rules@.len() - k,
    {
        proof {
            assert(m.skip(k as int)[0] == m[k as int]);
            assert(m.skip(k as int).drop_first() =~= m.skip(k as int + 1));
        }
        if rules[k].symbol == c {
            return Some(k);
        }
        k = k + 1;
    }
    proof {
        assert(m.skip(rules@.len() as int) =~= Seq::<(u8, Seq<u8>)>::empty());
    }
    None
}

/// A bounding box whose corners are within the clamped position range.
pub open spec fn wf_bbox(b: BBoxModel) -> bool {
    &&& -POS_LIMIT <= b.min_x <= POS_LIMIT
    &&& -POS_LIMIT <= b.max_x <= POS_LIMIT
    &&& -POS_LIMIT <= b.min_y <= POS_LIMIT
    &&& -POS_LIMIT <= b.max_y <= POS_LIMIT
}

/// Truncating division: the quotient rounded toward zero, as the drawing
/// pass converts fixed-point coordinates to pixels.
pub open spec fn spec_tdiv(a: int, b: int) -> int
    recommends
        b > 0,
{
    if a >= 0 {
        a / b
    } else {
        -((-a) / b)
    }
}

/// The running bounding box the measurement pass accumulates: the smallest
/// axis-aligned box holding the origin and every visited point.
pub struct BoundingBox {
    pub min_x: i64,
    pub max_x: i64,
    pub min_y: i64,
    pub max_y: i64,
}

impl View for BoundingBox {
    type V = BBoxModel;

    open spec fn view(&self) -> BBoxModel {
        BBoxModel {
            min_x: self.min_x as int,
            max_x: self.max_x as int,
            min_y: self.min_y as int,
            max_y: self.max_y as int,
        }
    }
}

impl BoundingBox {
    /// The empty box: just the origin.
    pub fn new() -> (r: BoundingBox)
        ensures
            r@ == spec_bbox_zero(),
    {
        BoundingBox { min_x: 0, max_x: 0, min_y: 0, max_y: 0 }
    }

    /// Widens the box to include one point.
    pub fn update(&mut self, x: i64, y: i64)
        requires
            -POS_LIMIT <= x <= POS_LIMIT,
            -POS_LIMIT <= y <= POS_LIMIT,
        ensures
            final(self)@ == spec_bbox_update(old(self)@, x as int, y as int),
    {
        if x < self.min_x {
            self.min_x = x;
        }
        if x > self.max_x {
            self.max_x = x;
        }
        if y < self.min_y {
            self.min_y = y;
        }
        if y > self.max_y {
            self.max_y = y;
        }
    }

    /// The center of the box, rounded toward zero.
    pub fn center(&self) -> (c: (i64, i64))
        requires
            wf_bbox(self@),
        ensures
            c.0 == spec_tdiv(self@.min_x + self@.max_x, 2),
            c.1 == spec_tdiv(self@.min_y + self@.max_y, 2),
            -POS_LIMIT <= c.0 <= POS_LIMIT,
            -POS_LIMIT <= c.1 <= POS_LIMIT,
    {
        let sx = self.min_x + self.max_x;
        let sy = self.min_y + self.max_y;
        let cx = if sx >= 0 {
            sx / 2
        } else {
            -((-sx) / 2)
        };
        let cy = if sy >= 0 {
            sy / 2
        } else {
            -((-sy) / 2)
        };
        (cx, cy)
    }
}

/// The measurement pass: interprets the symbols without drawing, widening
/// the bounding box with the end point of every forward step. The turtle and
/// the box end exactly as [`spec_interp`] says.
pub fn measure_recursive(
    turtle: &mut Turtle,
    bounds: &mut BoundingBox,
    syms: &[u8],
    rules: &[Rule],
    depth: u16,
)
    requires
        old(turtle).wf(),
        wf_bbox(old(bounds)@),
    ensures
        final(turtle).wf(),
        final(turtle).step_spec() == old(turtle).step_spec(),
        final(turtle).angle_spec() == old(turtle).angle_spec(),
        wf_bbox(final(bounds)@),
        ({
            let r = spec_interp(
                old(turtle).step_spec() as int,
                old(turtle).angle_spec() as int,
                rules_model(rules@),
                old(turtle).interp_state(),
                syms@,
                depth as nat,
            );
            &&& final(turtle).interp_state() == r.s
            &&& final(bounds)@ == spec_bbox_of_segs(old(bounds)@, r.segs)
        }),
    decreases depth,
{
    let ghost step = turtle.step_spec() as int;
    let ghost angle = turtle.angle_spec() as int;
    let ghost rm = rules_model(rules@);
    let ghost s0 = turtle.interp_state();
    let ghost b0 = bounds@;
    let ghost full = spec_interp(step, angle, rm, s0, syms@, depth as nat);
    let ghost mut segs_done: Seq<SegmentModel> = Seq::empty();
    proof {
        assert(syms@.skip(0) =~= syms@);
        assert(segs_done + full.segs =~= full.segs);
    }
    let mut k: usize = 0;
    while k < syms.len()
        invariant
            k <= syms@.len(),
            turtle.wf(),
            turtle.step_spec() as int == step,
            turtle.angle_spec() as int == angle,
            rm == rules_model(rules@),
            wf_bbox(bounds@),
            full == spec_interp(step, angle, rm, s0, syms@, depth as nat),
            full.s == spec_interp(
                step,
                angle,
                rm,
                turtle.interp_state(),
                syms@.skip(k as int),
                depth as nat,
            ).s,
            full.segs == segs_done + spec_interp(
                step,
                angle,
                rm,
                turtle.interp_state(),
                syms@.skip(k as int),
                depth as nat,
            ).segs,
            bounds@ == spec_bbox_of_segs(b0, segs_done),
        decreases syms@.len() - k,
    {
        let c = syms[k];
        let ghost rem = syms@.skip(k as int);
        let ghost cur_state = turtle.interp_state();
        proof {
            assert(rem[0] == c);
            assert(rem.drop_first() =~= syms@.skip(k as int + 1));
        }
        let expansion: Option<usize> = if depth > 0 {
            find_rule(rules, c)
        } else {
            None
        };
        match expansion {
            Some(i) => {
                let ghost segs_before = segs_done;
                measure_recursive(turtle, bounds, rules[i].replacement.as_slice(), rules, depth - 1);
                proof {
                    let sub = spec_interp(
                        step,
                        angle,
                        rm,
                        cur_state,
                        rules@[i as int].replacement@,
                        (depth - 1) as nat,
                    );
                    segs_done = segs_done + sub.segs;
                    lemma_bbox_of_segs_concat(b0, segs_before, sub.segs);
                    lemma_seq_concat_assoc(
                        segs_before,
                        sub.segs,
                        spec_interp(
                            step,
                            angle,
                            rm,
                            turtle.interp_state(),
                            syms@.skip(k as int + 1),
                            depth as nat,
                        ).segs,
                    );
                }
            },
            None => {
                let ghost pre_b = bounds@;
                let ghost segs_before = segs_done;
                let seg = turtle.apply_command(c);
                match seg {
                    Some(q) => {
                        bounds.update(q.2, q.3);
                        proof {
                            let sm = SegmentModel {
                                x0: q.0 as int,
                                y0: q.1 as int,
                                x1: q.2 as int,
                                y1: q.3 as int,
                            };
                            reveal_with_fuel(spec_bbox_of_segs, 2);
                            assert(seq![sm].drop_first() =~= Seq::<SegmentModel>::empty());
                            assert(spec_bbox_of_segs(pre_b, seq![sm]) == spec_bbox_update(
                                pre_b,
                                sm.x1,
                                sm.y1,
                            ));
                            segs_done = segs_done + seq![sm];
                            lemma_bbox_of_segs_concat(b0, segs_before, seq![sm]);
                            lemma_seq_concat_assoc(
                                segs_before,
                                seq![sm],
                                spec_interp(
                                    step,
                                    angle,
                                    rm,
                                    turtle.interp_state(),
                                    syms@.skip(k as int + 1),
                                    depth as nat,
                                ).segs,
                            );
                        }
                    },
                    None => {
                        proof {
                            assert(segs_before + Seq::<SegmentModel>::empty() =~= segs_before);
                        }
                    },
                }
            },
        }
        k = k + 1;
    }
    proof {
        assert(syms@.skip(syms@.len() as int) =~= Seq::<u8>::empty());
        assert(segs_done + Seq::<SegmentModel>::empty() =~= segs_done);
    }
}

/// The absolute value of an integer.
pub open spec fn spec_iabs(v: int) -> int {
    if v >= 0 {
        v
    } else {
        -v
    }
}

/// How many unit steps a rasterized line takes: the larger of the two
/// coordinate spans.
pub open spec fn spec_line_len(x0: int, y0: int, x1: int, y1: int) -> int {
    if spec_iabs(x1 - x0) >= spec_iabs(y1 - y0) {
        spec_iabs(x1 - x0)
    } else {
        spec_iabs(y1 - y0)
    }
}

/// The `i`-th pixel of the line from `(x0, y0)` to `(x1, y1)`: both
/// coordinates advance in proportion `i / n`, rounded toward zero, so
/// consecutive pixels differ by at most one in each coordinate and pixel `0`
/// and pixel `n` are the end points.
pub open spec fn spec_line_point(x0: int, y0: int, x1: int, y1: int, i: int) -> (int, int) {
    let n = spec_line_len(x0, y0, x1, y1);
    if n == 0 {
        (x0, y0)
    } else {
        (x0 + spec_tdiv((x1 - x0) * i, n), y0 + spec_tdiv((y1 - y0) * i, n))
    }
}

/// A fixed-point coordinate converted to whole pixels, rounded toward zero.
pub open spec fn spec_px(v: int) -> int {
    spec_tdiv(v, trig::SIN_SCALE as int)
}

/// The frame after painting the first `k` pixels of a line.
pub open spec fn spec_paint_upto(
    bytes: Seq<u8>,
    rotate: bool,
    x0: int,
    y0: int,
    x1: int,
    y1: int,
    idx: u8,
    k: int,
) -> Seq<u8>
    decreases k,
{
    if k <= 0 {
        bytes
    } else {
        let p = spec_line_point(x0, y0, x1, y1, k - 1);
        spec_set_pixel(spec_paint_upto(bytes, rotate, x0, y0, x1, y1, idx, k - 1), rotate, p.0, p.1, idx)
    }
}

/// The frame after drawing one fixed-point segment: its end points are
/// converted to pixels and every pixel of the connecting line is written.
pub open spec fn spec_draw_segment(bytes: Seq<u8>, rotate: bool, seg: SegmentModel, idx: u8) -> Seq<u8> {
    let x0 = spec_px(seg.x0);
    let y0 = spec_px(seg.y0);
    let x1 = spec_px(seg.x1);
    let y1 = spec_px(seg.y1);
    spec_paint_upto(bytes, rotate, x0, y0, x1, y1, idx, spec_line_len(x0, y0, x1, y1) + 1)
}

/// The frame after drawing a sequence of segments in order.
pub open spec fn spec_apply_segs(bytes: Seq<u8>, rotate: bool, segs: Seq<SegmentModel>, idx: u8) -> Seq<u8>
    decreases segs.len(),
{
    if segs.len() == 0 {
        bytes
    } else {
        spec_apply_segs(spec_draw_segment(bytes, rotate, segs[0], idx), rotate, segs.drop_first(), idx)
    }
}

/// Drawing concatenated segment sequences equals drawing the parts in order.
pub proof fn lemma_apply_segs_concat(
    bytes: Seq<u8>,
    rotate: bool,
    s1: Seq<SegmentModel>,
    s2: Seq<SegmentModel>,
    idx: u8,
)
    ensures
        spec_apply_segs(bytes, rotate, s1 + s2, idx) == spec_apply_segs(
            spec_apply_segs(bytes, rotate, s1, idx),
            rotate,
            s2,
            idx,
        ),
    decreases s1.len(),
{
    if s1.len() == 0 {
        assert(s1 + s2 =~= s2);
    } else {
        assert((s1 + s2).drop_first() =~= s1.drop_first() + s2);
        lemma_apply_segs_concat(
            spec_draw_segment(bytes, rotate, s1[0], idx),
            rotate,
            s1.drop_first(),
            s2,
            idx,
        );
    }
}

/// The absolute value of a pixel difference.
fn iabs_i64(v: i64) -> (r: i64)
    requires
        -0x4000_0000_0000_0000 < v < 0x4000_0000_0000_0000,
    ensures
        r == spec_iabs(v as int),
{
    if v >= 0 {
        v
    } else {
        -v
    }
}

/// Truncating division of a pixel product by a positive line length.
fn tdiv_i64(a: i64, b: i64) -> (r: i64)
    requires
        b > 0,
        -0x4000_0000_0000_0000 < a < 0x4000_0000_0000_0000,
    ensures
        r == spec_tdiv(a as int, b as int),
{
    if a >= 0 {
        a / b
    } else {
        -((-a) / b)
    }
}

/// Converts a fixed-point coordinate to whole pixels.
fn fp_to_px(v: i64) -> (r: i64)
    requires
        -POS_LIMIT <= v <= POS_LIMIT,
    ensures
        r == spec_px(v as int),
        -524288 <= r <= 524288,
{
    let r = if v >= 0 {
        v / 4096
    } else {
        -((-v) / 4096)
    };
    proof {
        assert(v >= 0 ==> v / 4096 <= 524288 && v / 4096 >= 0);
        assert(v < 0 ==> (-v) / 4096 <= 524288 && (-v) / 4096 >= 0);
    }
    r
}

/// Writes one pixel at a signed pixel coordinate, discarding anything off
/// the panel.
fn plot(display: &mut DisplayBuffer, x: i64, y: i64, color: Color)
    requires
        old(display).wf(),
    ensures
        final(display).wf(),
        final(display).rotated() == old(display).rotated(),
        final(display).bytes() == spec_set_pixel(
            old(display).bytes(),
            old(display).rotated(),
            x as int,
            y as int,
            color.spec_index(),
        ),
{
    if x >= 0 && y >= 0 && x < 800 && y < 480 {
        display.set_pixel(x as usize, y as usize, color);
    }
}

/// Draws the line of one fixed-point segment into the frame, pixel by pixel.
fn draw_segment(display: &mut DisplayBuffer, color: Color, x0: i64, y0: i64, x1: i64, y1: i64)
    requires
        old(display).wf(),
        -POS_LIMIT <= x0 <= POS_LIMIT,
        -POS_LIMIT <= y0 <= POS_LIMIT,
        -POS_LIMIT <= x1 <= POS_LIMIT,
        -POS_LIMIT <= y1 <= POS_LIMIT,
    ensures
        final(display).wf(),
        final(display).rotated() == old(display).rotated(),
        final(display).bytes() == spec_draw_segment(
            old(display).bytes(),
            old(display).rotated(),
            SegmentModel { x0: x0 as int, y0: y0 as int, x1: x1 as int, y1: y1 as int },
            color.spec_index(),
        ),
{
    let ghost bytes0 = display.bytes();
    let ghost rot = display.rotated();
    let px0 = fp_to_px(x0);
    let py0 = fp_to_px(y0);
    let px1 = fp_to_px(x1);
    let py1 = fp_to_px(y1);
    let dx = px1 - px0;
    let dy = py1 - py0;
    let adx = iabs_i64(dx);
    let ady = iabs_i64(dy);
    let n = if adx >= ady {
        adx
    } else {
        ady
    };
    assert(n == spec_line_len(px0 as int, py0 as int, px1 as int, py1 as int));
    let mut i: i64 = 0;
    while i <= n
        invariant
            0 <= i <= n + 1,
            0 <= n <= 1048576,
            n == spec_line_len(px0 as int, py0 as int, px1 as int, py1 as int),
            -524288 <= px0 <= 524288,
            -524288 <= py0 <= 524288,
            -524288 <= px1 <= 524288,
            -524288 <= py1 <= 524288,
            dx == px1 - px0,
            dy == py1 - py0,
            display.wf(),
            display.rotated() == rot,
            display.bytes() == spec_paint_upto(
                bytes0,
                rot,
                px0 as int,
                py0 as int,
                px1 as int,
                py1 as int,
                color.spec_index(),
                i as int,
            ),
        decreases n + 1 - i,
    {
        let (xi, yi) = if n == 0 {
            (px0, py0)
        } else {
            proof {
                assert(-(1048576i64 * 1048576) <= dx * i <= 1048576i64 * 1048576)
                    by (nonlinear_arith)
                    requires
                        -1048576 <= dx <= 1048576,
                        0 <= i <= 1048576,
                ;
                assert(-(1048576i64 * 1048576) <= dy * i <= 1048576i64 * 1048576)
                    by (nonlinear_arith)
                    requires
                        -1048576 <= dy <= 1048576,
                        0 <= i <= 1048576,
                ;
            }
            (px0 + tdiv_i64(dx * i, n), py0 + tdiv_i64(dy * i, n))
        };
        assert((xi as int, yi as int) == spec_line_point(
            px0 as int,
            py0 as int,
            px1 as int,
            py1 as int,
            i as int,
        ));
        plot(display, xi, yi, color);
        i = i + 1;
    }
}


/// The drawing pass: interprets the symbols exactly as the measurement pass
/// does, but every forward step also draws its line segment into the frame.
pub fn draw_recursive(
    display: &mut DisplayBuffer,
    color: Color,
    turtle: &mut Turtle,
    syms: &[u8],
    rules: &[Rule],
    depth: u16,
)
    requires
        old(display).wf(),
        old(turtle).wf(),
    ensures
        final(display).wf(),
        final(display).rotated() == old(display).rotated(),
        final(turtle).wf(),
        final(turtle).step_spec() == old(turtle).step_spec(),
        final(turtle).angle_spec() == old(turtle).angle_spec(),
        ({
            let r = spec_interp(
                old(turtle).step_spec() as int,
                old(turtle).angle_spec() as int,
                rules_model(rules@),
                old(turtle).interp_state(),
                syms@,
                depth as nat,
            );
            &&& final(turtle).interp_state() == r.s
            &&& final(display).bytes() == spec_apply_segs(
                old(display).bytes(),
                old(display).rotated(),
                r.segs,
                color.spec_index(),
            )
        }),
    decreases depth,
{
    let ghost step = turtle.step_spec() as int;
    let ghost angle = turtle.angle_spec() as int;
    let ghost rm = rules_model(rules@);
    let ghost s0 = turtle.interp_state();
    let ghost bytes0 = display.bytes();
    let ghost rot = display.rotated();
    let ghost idx = color.spec_index();
    let ghost full = spec_interp(step, angle, rm, s0, syms@, depth as nat);
    let ghost mut segs_done: Seq<SegmentModel> = Seq::empty();
    proof {
        assert(syms@.skip(0) =~= syms@);
        assert(segs_done + full.segs =~= full.segs);
    }
    let mut k: usize = 0;
    while k < syms.len()
        invariant
            k <= syms@.len(),
            turtle.wf(),
            turtle.step_spec() as int == step,
            turtle.angle_spec() as int == angle,
            rm == rules_model(rules@),
            display.wf(),
            display.rotated() == rot,
            idx == color.spec_index(),
            full == spec_interp(step, angle, rm, s0, syms@, depth as nat),
            full.s == spec_interp(
                step,
                angle,
                rm,
                turtle.interp_state(),
                syms@.skip(k as int),
                depth as nat,
            ).s,
            full.segs == segs_done + spec_interp(
                step,
                angle,
                rm,
                turtle.interp_state(),
                syms@.skip(k as int),
                depth as nat,
            ).segs,
            display.bytes() == spec_apply_segs(bytes0, rot, segs_done, idx),
        decreases syms@.len() - k,
    {
        let c = syms[k];
        let ghost rem = syms@.skip(k as int);
        let ghost cur_state = turtle.interp_state();
        proof {
            assert(rem[0] == c);
            assert(rem.drop_first() =~= syms@.skip(k as int + 1));
        }
        let expansion: Option<usize> = if depth > 0 {
            find_rule(rules, c)
        } else {
            None
        };
        match expansion {
            Some(i) => {
                let ghost segs_before = segs_done;
                draw_recursive(display, color, turtle, rules[i].replacement.as_slice(), rules, depth - 1);
                proof {
                    let sub = spec_interp(
                        step,
                        angle,
                        rm,
                        cur_state,
                        rules@[i as int].replacement@,
                        (depth - 1) as nat,
                    );
                    segs_done = segs_done + sub.segs;
                    lemma_apply_segs_concat(bytes0, rot, segs_before, sub.segs, idx);
                    lemma_seq_concat_assoc(
                        segs_before,
                        sub.segs,
                        spec_interp(
                            step,
                            angle,
                            rm,
                            turtle.interp_state(),
                            syms@.skip(k as int + 1),
                            depth as nat,
                        ).segs,
                    );
                }
            },
            None => {
                let ghost pre_bytes = display.bytes();
                let ghost segs_before = segs_done;
                let seg = turtle.apply_command(c);
                match seg {
                    Some(q) => {
                        draw_segment(display, color, q.0, q.1, q.2, q.3);
                        proof {
                            let sm = SegmentModel {
                                x0: q.0 as int,
                                y0: q.1 as int,
                                x1: q.2 as int,
                                y1: q.3 as int,
                            };
                            reveal_with_fuel(spec_apply_segs, 2);
                            assert(seq![sm].drop_first() =~= Seq::<SegmentModel>::empty());
                            assert(spec_apply_segs(pre_bytes, rot, seq![sm], idx)
                                == spec_draw_segment(pre_bytes, rot, sm, idx));
                            segs_done = segs_done + seq![sm];
                            lemma_apply_segs_concat(bytes0, rot, segs_before, seq![sm], idx);
                            lemma_seq_concat_assoc(
                                segs_before,
                                seq![sm],
                                spec_interp(
                                    step,
                                    angle,
                                    rm,
                                    turtle.interp_state(),
                                    syms@.skip(k as int + 1),
                                    depth as nat,
                                ).segs,
                            );
                        }
                    },
                    None => {
                        proof {
                            assert(segs_before + Seq::<SegmentModel>::empty() =~= segs_before);
                        }
                    },
                }
            },
        }
        k = k + 1;
    }
    proof {
        assert(syms@.skip(syms@.len() as int) =~= Seq::<u8>::empty());
        assert(segs_done + Seq::<SegmentModel>::empty() =~= segs_done);
    }
}

/// The frame after rendering a pattern centered at the anchor `(cx, cy)`:
/// the pattern is first interpreted from the origin to find its bounding box,
/// and then interpreted again — the identical walk — from the anchor minus
/// the box's center, so that the drawn geometry is the measured geometry
/// translated to sit centered on the anchor.
pub open spec fn spec_ltree_render(
    bytes: Seq<u8>,
    rotate: bool,
    step: int,
    angle: int,
    rules: Seq<(u8, Seq<u8>)>,
    start_syms: Seq<u8>,
    depth: nat,
    cx: int,
    cy: int,
    idx: u8,
) -> Seq<u8> {
    let measured = spec_interp(step, angle, rules, spec_initial_state(0, 0), start_syms, depth);
    let bb = spec_bbox_of_segs(spec_bbox_zero(), measured.segs);
    let sx = spec_clamp_pos(cx * 4096 - spec_tdiv(bb.min_x + bb.max_x, 2));
    let sy = spec_clamp_pos(cy * 4096 - spec_tdiv(bb.min_y + bb.max_y, 2));
    let drawn = spec_interp(step, angle, rules, spec_initial_state(sx, sy), start_syms, depth);
    spec_apply_segs(bytes, rotate, drawn.segs, idx)
}

/// Renders an L-system pattern at the given iteration depth (clamped to the
/// safety ceiling), centered at the anchor point. Pass one interprets the
/// pattern from the origin and measures its bounding box; pass two re-runs
/// the identical interpretation starting at the anchor minus the box center,
/// drawing every forward step in the given stroke color.
pub fn draw_ltree_with_depth(
    display: &mut DisplayBuffer,
    color: Rgb888,
    center_x: i32,
    center_y: i32,
    pattern: &LSystemPattern,
    depth: u16,
)
    requires
        old(display).wf(),
        pattern.wf(),
    ensures
        final(display).wf(),
        final(display).rotated() == old(display).rotated(),
        final(display).bytes() == spec_ltree_render(
            old(display).bytes(),
            old(display).rotated(),
            pattern.step_length as int,
            pattern.angle_tenths as int,
            rules_model(pattern.rules@),
            pattern.start@,
            spec_clamp_depth(depth as int) as nat,
            center_x as int,
            center_y as int,
            spec_from_rgb888(color).spec_index(),
        ),
{
    let stroke = Color::from_rgb888(color);
    let d = clamp_depth(depth);

    let mut measure_turtle = Turtle::new(pattern.step_length, pattern.angle_tenths, 0, 0);
    let mut bounds = BoundingBox::new();
    measure_recursive(
        &mut measure_turtle,
        &mut bounds,
        pattern.start.as_slice(),
        pattern.rules.as_slice(),
        d,
    );

    let (bb_center_x, bb_center_y) = bounds.center();
    let anchor_x = (center_x as i64) * 4096;
    let anchor_y = (center_y as i64) * 4096;
    let sx = clamp_pos(anchor_x - bb_center_x);
    let sy = clamp_pos(anchor_y - bb_center_y);

    let mut draw_turtle = Turtle::new(pattern.step_length, pattern.angle_tenths, sx, sy);
    draw_recursive(
        display,
        stroke,
        &mut draw_turtle,
        pattern.start.as_slice(),
        pattern.rules.as_slice(),
        d,
    );
}

#[verifier::external_type_specification]
#[verifier::external_body]
pub struct ExSmallRng(rand::rngs::SmallRng);

/// Relies on rand's `Rng::gen_range` over the inclusive range `lo..=hi`: the
/// sample lies within the range's bounds. The range must be non-empty, since
/// `gen_range` panics on an empty range.
#[verifier::external_body]
fn rng_pick_inclusive(rng: &mut rand::rngs::SmallRng, lo: u16, hi: u16) -> (r: u16)
    requires
        lo <= hi,
    ensures
        lo <= r <= hi,
{
    rand::Rng::gen_range(rng, lo..=hi)
}

/// Resolves a pattern's iteration range to one depth for this invocation:
/// the minimum when the range is empty or a single value, otherwise a draw
/// from the externally seeded random source within the range.
pub fn resolve_iterations(pattern: &LSystemPattern, rng: &mut rand::rngs::SmallRng) -> (d: u16)
    ensures
        pattern.min_iterations >= pattern.max_iterations ==> d == pattern.min_iterations,
        pattern.min_iterations < pattern.max_iterations ==> pattern.min_iterations <= d
            <= pattern.max_iterations,
{
    if pattern.min_iterations >= pattern.max_iterations {
        pattern.min_iterations
    } else {
        rng_pick_inclusive(rng, pattern.min_iterations, pattern.max_iterations)
    }
}

/// Renders an L-system pattern centered at the anchor point, resolving the
/// iteration depth once from the pattern's inclusive range using the given
/// random source; both passes use the one resolved depth. Returns the depth
/// used, before clamping to the safety ceiling.
pub fn draw_ltree(
    display: &mut DisplayBuffer,
    color: Rgb888,
    center_x: i32,
    center_y: i32,
    pattern: &LSystemPattern,
    rng: &mut rand::rngs::SmallRng,
) -> (used: u16)
    requires
        old(display).wf(),
        pattern.wf(),
    ensures
        pattern.min_iterations >= pattern.max_iterations ==> used == pattern.min_iterations,
        pattern.min_iterations < pattern.max_iterations ==> pattern.min_iterations <= used
            <= pattern.max_iterations,
        final(display).wf(),
        final(display).rotated() == old(display).rotated(),
        final(display).bytes() == spec_ltree_render(
            old(display).bytes(),
            old(display).rotated(),
            pattern.step_length as int,
            pattern.angle_tenths as int,
            rules_model(pattern.rules@),
            pattern.start@,
            spec_clamp_depth(used as int) as nat,
            center_x as int,
            center_y as int,
            spec_from_rgb888(color).spec_index(),
        ),
{
    let used = resolve_iterations(pattern, rng);
    draw_ltree_with_depth(display, color, center_x, center_y, pattern, used);
    used
}

/// A closed Gosper-curve flower: six copies of the base sequence joined by turns.
/// Start string `"XF-XF-XF-XF-XF-XF"`, rule `X` to `"X+YF++YF-FX--FXFX-YF+"`; rule `Y` to `"-FX+YFYF++YF+FX--FX+Y"`; turn angle 60 degrees; 3 iterations; step length 2.
pub fn pattern_peony() -> (p: LSystemPattern)
    ensures
        p.start@ == seq![88u8, 70u8, 45u8, 88u8, 70u8, 45u8, 88u8, 70u8, 45u8, 88u8, 70u8, 45u8, 88u8, 70u8, 45u8, 88u8, 70u8],
        rules_model(p.rules@) == seq![(88u8, seq![88u8, 43u8, 89u8, 70u8, 43u8, 43u8, 89u8, 70u8, 45u8, 70u8, 88u8, 45u8, 45u8, 70u8, 88u8, 70u8, 88u8, 45u8, 89u8, 70u8, 43u8]), (89u8, seq![45u8, 70u8, 88u8, 43u8, 89u8, 70u8, 89u8, 70u8, 43u8, 43u8, 89u8, 70u8, 43u8, 70u8, 88u8, 45u8, 45u8, 70u8, 88u8, 43u8, 89u8])],
        p.angle_tenths == 600,
        p.min_iterations == 3,
        p.max_iterations == 3,
        p.step_length == 2,
        p.wf(),
{
    let start = vec![88u8, 70u8, 45u8, 88u8, 70u8, 45u8, 88u8, 70u8, 45u8, 88u8, 70u8, 45u8, 88u8, 70u8, 45u8, 88u8, 70u8];
    proof {
        assert(start@ =~= seq![88u8, 70u8, 45u8, 88u8, 70u8, 45u8, 88u8, 70u8, 45u8, 88u8, 70u8, 45u8, 88u8, 70u8, 45u8, 88u8, 70u8]);
    }
    let mut rules: Vec<Rule> = Vec::new();
    let replacement = vec![88u8, 43u8, 89u8, 70u8, 43u8, 43u8, 89u8, 70u8, 45u8, 70u8, 88u8, 45u8, 45u8, 70u8, 88u8, 70u8, 88u8, 45u8, 89u8, 70u8, 43u8];
    proof {
        assert(replacement@ =~= seq![88u8, 43u8, 89u8, 70u8, 43u8, 43u8, 89u8, 70u8, 45u8, 70u8, 88u8, 45u8, 45u8, 70u8, 88u8, 70u8, 88u8, 45u8, 89u8, 70u8, 43u8]);
    }
    rules.push(Rule { symbol: 88, replacement });
    let replacement = vec![45u8, 70u8, 88u8, 43u8, 89u8, 70u8, 89u8, 70u8, 43u8, 43u8, 89u8, 70u8, 43u8, 70u8, 88u8, 45u8, 45u8, 70u8, 88u8, 43u8, 89u8];
    proof {
        assert(replacement@ =~= seq![45u8, 70u8, 88u8, 43u8, 89u8, 70u8, 89u8, 70u8, 43u8, 43u8, 89u8, 70u8, 43u8, 70u8, 88u8, 45u8, 45u8, 70u8, 88u8, 43u8, 89u8]);
    }
    rules.push(Rule { symbol: 89, replacement });
    proof {
        assert(rules_model(rules@) =~= seq![(88u8, seq![88u8, 43u8, 89u8, 70u8, 43u8, 43u8, 89u8, 70u8, 45u8, 70u8, 88u8, 45u8, 45u8, 70u8, 88u8, 70u8, 88u8, 45u8, 89u8, 70u8, 43u8]), (89u8, seq![45u8, 70u8, 88u8, 43u8, 89u8, 70u8, 89u8, 70u8, 43u8, 43u8, 89u8, 70u8, 43u8, 70u8, 88u8, 45u8, 45u8, 70u8, 88u8, 43u8, 89u8])]);
    }
    LSystemPattern {
        start,
        rules,
        angle_tenths: 600,
        min_iterations: 3,
        max_iterations: 3,
        step_length: 2,
    }
}

/// The classic branching L-system tree.
/// Start string `"X"`, rule `X` to `"F-[[X]+X]+F[+FX]-X"`; rule `F` to `"FF"`; turn angle 22.5 degrees; 5 iterations; step length 2.
pub fn pattern_tree() -> (p: LSystemPattern)
    ensures
        p.start@ == seq![88u8],
        rules_model(p.rules@) == seq![(88u8, seq![70u8, 45u8, 91u8, 91u8, 88u8, 93u8, 43u8, 88u8, 93u8, 43u8, 70u8, 91u8, 43u8, 70u8, 88u8, 93u8, 45u8, 88u8]), (70u8, seq![70u8, 70u8])],
        p.angle_tenths == 225,
        p.min_iterations == 5,
        p.max_iterations == 5,
        p.step_length == 2,
        p.wf(),
{
    let start = vec![88u8];
    proof {
        assert(start@ =~= seq![88u8]);
    }
    let mut rules: Vec<Rule> = Vec::new();
    let replacement = vec![70u8, 45u8, 91u8, 91u8, 88u8, 93u8, 43u8, 88u8, 93u8, 43u8, 70u8, 91u8, 43u8, 70u8, 88u8, 93u8, 45u8, 88u8];
    proof {
        assert(replacement@ =~= seq![70u8, 45u8, 91u8, 91u8, 88u8, 93u8, 43u8, 88u8, 93u8, 43u8, 70u8, 91u8, 43u8, 70u8, 88u8, 93u8, 45u8, 88u8]);
    }
    rules.push(Rule { symbol: 88, replacement });
    let replacement = vec![70u8, 70u8];
    proof {
        assert(replacement@ =~= seq![70u8, 70u8]);
    }
    rules.push(Rule { symbol: 70, replacement });
    proof {
        assert(rules_model(rules@) =~= seq![(88u8, seq![70u8, 45u8, 91u8, 91u8, 88u8, 93u8, 43u8, 88u8, 93u8, 43u8, 70u8, 91u8, 43u8, 70u8, 88u8, 93u8, 45u8, 88u8]), (70u8, seq![70u8, 70u8])]);
    }
    LSystemPattern {
        start,
        rules,
        angle_tenths: 225,
        min_iterations: 5,
        max_iterations: 5,
        step_length: 2,
    }
}

/// A Koch snowflake variant with six-fold symmetry.
/// Start string `"F++F++F++F++F++F"`, rule `F` to `"F-F++F-F"`; turn angle 60 degrees; 3 iterations; step length 3.
pub fn pattern_snowflake() -> (p: LSystemPattern)
    ensures
        p.start@ == seq![70u8, 43u8, 43u8, 70u8, 43u8, 43u8, 70u8, 43u8, 43u8, 70u8, 43u8, 43u8, 70u8, 43u8, 43u8, 70u8],
        rules_model(p.rules@) == seq![(70u8, seq![70u8, 45u8, 70u8, 43u8, 43u8, 70u8, 45u8, 70u8])],
        p.angle_tenths == 600,
        p.min_iterations == 3,
        p.max_iterations == 3,
        p.step_length == 3,
        p.wf(),
{
    let start = vec![70u8, 43u8, 43u8, 70u8, 43u8, 43u8, 70u8, 43u8, 43u8, 70u8, 43u8, 43u8, 70u8, 43u8, 43u8, 70u8];
    proof {
        assert(start@ =~= seq![70u8, 43u8, 43u8, 70u8, 43u8, 43u8, 70u8, 43u8, 43u8, 70u8, 43u8, 43u8, 70u8, 43u8, 43u8, 70u8]);
    }
    let mut rules: Vec<Rule> = Vec::new();
    let replacement = vec![70u8, 45u8, 70u8, 43u8, 43u8, 70u8, 45u8, 70u8];
    proof {
        assert(replacement@ =~= seq![70u8, 45u8, 70u8, 43u8, 43u8, 70u8, 45u8, 70u8]);
    }
    rules.push(Rule { symbol: 70, replacement });
    proof {
        assert(rules_model(rules@) =~= seq![(70u8, seq![70u8, 45u8, 70u8, 43u8, 43u8, 70u8, 45u8, 70u8])]);
    }
    LSystemPattern {
        start,
        rules,
        angle_tenths: 600,
        min_iterations: 3,
        max_iterations: 3,
        step_length: 3,
    }
}


/// Draws a straight line between two pixel coordinates in the given stroke
/// color: the drawing-target primitive content generators use for simple
/// shapes. Coordinates far off the panel are clamped; every pixel outside
/// the panel is discarded.
pub fn draw_line(
    display: &mut DisplayBuffer,
    color: Rgb888,
    x0: i32,
    y0: i32,
    x1: i32,
    y1: i32,
)
    requires
        old(display).wf(),
    ensures
        final(display).wf(),
        final(display).rotated() == old(display).rotated(),
        final(display).bytes() == spec_draw_segment(
            old(display).bytes(),
            old(display).rotated(),
            SegmentModel {
                x0: spec_clamp_pos(x0 as int * 4096),
                y0: spec_clamp_pos(y0 as int * 4096),
                x1: spec_clamp_pos(x1 as int * 4096),
                y1: spec_clamp_pos(y1 as int * 4096),
            },
            spec_from_rgb888(color).spec_index(),
        ),
{
    let stroke = Color::from_rgb888(color);
    let fx0 = clamp_pos((x0 as i64) * 4096);
    let fy0 = clamp_pos((y0 as i64) * 4096);
    let fx1 = clamp_pos((x1 as i64) * 4096);
    let fy1 = clamp_pos((y1 as i64) * 4096);
    draw_segment(display, stroke, fx0, fy0, fx1, fy1);
}


/// A turtle moved by a fixed offset, heading unchanged.
pub open spec fn spec_translate_turtle(t: TurtleModel, dx: int, dy: int) -> TurtleModel {
    TurtleModel { x: t.x + dx, y: t.y + dy, heading: t.heading }
}

/// An interpreter state moved by a fixed offset: the turtle and every saved
/// branch point.
pub open spec fn spec_translate_state(s: InterpState, dx: int, dy: int) -> InterpState {
    InterpState {
        t: spec_translate_turtle(s.t, dx, dy),
        stack: s.stack.map_values(|t: TurtleModel| spec_translate_turtle(t, dx, dy)),
    }
}

/// A segment moved by a fixed offset.
pub open spec fn spec_translate_seg(g: SegmentModel, dx: int, dy: int) -> SegmentModel {
    SegmentModel { x0: g.x0 + dx, y0: g.y0 + dy, x1: g.x1 + dx, y1: g.y1 + dy }
}

/// A segment sequence moved by a fixed offset.
pub open spec fn spec_translate_segs(segs: Seq<SegmentModel>, dx: int, dy: int) -> Seq<
    SegmentModel,
> {
    segs.map_values(|g: SegmentModel| spec_translate_seg(g, dx, dy))
}

/// Whether one command keeps the turtle strictly inside the position range,
/// so that the saturating clamp is the identity. Only a forward step can
/// saturate.
pub open spec fn spec_command_unclamped(step: int, angle: int, s: InterpState, c: u8) -> bool {
    c == 70 ==> {
        &&& -POS_LIMIT <= s.t.x + step * trig::spec_cos_fp(s.t.heading) <= POS_LIMIT
        &&& -POS_LIMIT <= s.t.y + step * trig::spec_sin_fp(s.t.heading) <= POS_LIMIT
    }
}

/// Whether a whole interpretation run never saturates a coordinate: every
/// executed command, at the state it actually runs in, stays inside the
/// position range.
pub open spec fn spec_run_unclamped(
    step: int,
    angle: int,
    rules: Seq<(u8, Seq<u8>)>,
    s: InterpState,
    syms: Seq<u8>,
    depth: nat,
) -> bool
    decreases depth, syms.len(),
{
    if syms.len() == 0 {
        true
    } else {
        let c = syms[0];
        if depth > 0 && spec_find_rule(rules, c) is Some {
            let rep = spec_find_rule(rules, c).unwrap();
            &&& spec_run_unclamped(step, angle, rules, s, rep, (depth - 1) as nat)
            &&& spec_run_unclamped(
                step,
                angle,
                rules,
                spec_interp(step, angle, rules, s, rep, (depth - 1) as nat).s,
                syms.drop_first(),
                depth,
            )
        } else {
            &&& spec_command_unclamped(step, angle, s, c)
            &&& spec_run_unclamped(
                step,
                angle,
                rules,
                spec_command(step, angle, s, c).0,
                syms.drop_first(),
                depth,
            )
        }
    }
}

/// One unclamped command commutes with translation: running it from the
/// moved state moves its result and its segment by the same offset.
proof fn lemma_command_translates(step: int, angle: int, s: InterpState, c: u8, dx: int, dy: int)
    requires
        spec_command_unclamped(step, angle, s, c),
        spec_command_unclamped(step, angle, spec_translate_state(s, dx, dy), c),
    ensures
        spec_command(step, angle, spec_translate_state(s, dx, dy), c).0 == spec_translate_state(
            spec_command(step, angle, s, c).0,
            dx,
            dy,
        ),
        spec_command(step, angle, spec_translate_state(s, dx, dy), c).1 == spec_translate_segs(
            spec_command(step, angle, s, c).1,
            dx,
            dy,
        ),
{
    let ts = spec_translate_state(s, dx, dy);
    if c == 70 {
        assert(spec_translate_segs(spec_command(step, angle, s, c).1, dx, dy) =~= spec_command(
            step,
            angle,
            ts,
            c,
        ).1);
    } else if c == 91 {
        if s.stack.len() < TURTLE_STACK_SIZE {
            assert(ts.stack.push(ts.t) =~= s.stack.push(s.t).map_values(
                |t: TurtleModel| spec_translate_turtle(t, dx, dy),
            ));
        }
        assert(spec_translate_segs(Seq::empty(), dx, dy) =~= Seq::<SegmentModel>::empty());
    } else if c == 93 {
        if s.stack.len() > 0 {
            assert(ts.stack.last() == spec_translate_turtle(s.stack.last(), dx, dy));
            assert(ts.stack.drop_last() =~= s.stack.drop_last().map_values(
                |t: TurtleModel| spec_translate_turtle(t, dx, dy),
            ));
        }
        assert(spec_translate_segs(Seq::empty(), dx, dy) =~= Seq::<SegmentModel>::empty());
    } else {
        assert(spec_translate_segs(Seq::empty(), dx, dy) =~= Seq::<SegmentModel>::empty());
    }
}

/// Translation distributes over segment concatenation.
proof fn lemma_translate_segs_concat(a: Seq<SegmentModel>, b: Seq<SegmentModel>, dx: int, dy: int)
    ensures
        spec_translate_segs(a + b, dx, dy) == spec_translate_segs(a, dx, dy) + spec_translate_segs(
            b,
            dx,
            dy,
        ),
{
    assert(spec_translate_segs(a + b, dx, dy) =~= spec_translate_segs(a, dx, dy)
        + spec_translate_segs(b, dx, dy));
}

/// An unclamped interpretation commutes with translation: running the whole
/// walk from a moved start state moves the final state and every traced
/// segment by the same offset.
proof fn lemma_interp_translates(
    step: int,
    angle: int,
    rules: Seq<(u8, Seq<u8>)>,
    s: InterpState,
    syms: Seq<u8>,
    depth: nat,
    dx: int,
    dy: int,
)
    requires
        spec_run_unclamped(step, angle, rules, s, syms, depth),
        spec_run_unclamped(step, angle, rules, spec_translate_state(s, dx, dy), syms, depth),
    ensures
        spec_interp(step, angle, rules, spec_translate_state(s, dx, dy), syms, depth).s
            == spec_translate_state(spec_interp(step, angle, rules, s, syms, depth).s, dx, dy),
        spec_interp(step, angle, rules, spec_translate_state(s, dx, dy), syms, depth).segs
            == spec_translate_segs(spec_interp(step, angle, rules, s, syms, depth).segs, dx, dy),
    decreases depth, syms.len(),
{
    let ts = spec_translate_state(s, dx, dy);
    if syms.len() == 0 {
        assert(spec_translate_segs(Seq::empty(), dx, dy) =~= Seq::<SegmentModel>::empty());
    } else {
        let c = syms[0];
        if depth > 0 && spec_find_rule(rules, c) is Some {
            let rep = spec_find_rule(rules, c).unwrap();
            lemma_interp_translates(step, angle, rules, s, rep, (depth - 1) as nat, dx, dy);
            let first = spec_interp(step, angle, rules, s, rep, (depth - 1) as nat);
            lemma_interp_translates(
                step,
                angle,
                rules,
                first.s,
                syms.drop_first(),
                depth,
                dx,
                dy,
            );
            let rest = spec_interp(step, angle, rules, first.s, syms.drop_first(), depth);
            lemma_translate_segs_concat(first.segs, rest.segs, dx, dy);
        } else {
            lemma_command_translates(step, angle, s, c, dx, dy);
            let first = spec_command(step, angle, s, c);
            lemma_interp_translates(
                step,
                angle,
                rules,
                first.0,
                syms.drop_first(),
                depth,
                dx,
                dy,
            );
            let rest = spec_interp(step, angle, rules, first.0, syms.drop_first(), depth);
            lemma_translate_segs_concat(first.1, rest.segs, dx, dy);
        }
    }
}

/// Fractal centering: the drawing pass re-runs the measurement pass's walk
/// from the anchor minus the measured center, so as long as no coordinate
/// saturates in either pass, every drawn segment is the corresponding
/// measured segment moved by exactly that start offset — the measured
/// geometry appears centered on the anchor, bit for bit.
pub proof fn lemma_fractal_centering(
    step: int,
    angle: int,
    rules: Seq<(u8, Seq<u8>)>,
    start_syms: Seq<u8>,
    depth: nat,
    sx: int,
    sy: int,
)
    requires
        spec_run_unclamped(step, angle, rules, spec_initial_state(0, 0), start_syms, depth),
        spec_run_unclamped(step, angle, rules, spec_initial_state(sx, sy), start_syms, depth),
    ensures
        spec_interp(step, angle, rules, spec_initial_state(sx, sy), start_syms, depth).segs
            == spec_translate_segs(
            spec_interp(step, angle, rules, spec_initial_state(0, 0), start_syms, depth).segs,
            sx,
            sy,
        ),
{
    assert(spec_translate_state(spec_initial_state(0, 0), sx, sy).stack =~= spec_initial_state(
        sx,
        sy,
    ).stack);
    assert(spec_translate_state(spec_initial_state(0, 0), sx, sy) == spec_initial_state(sx, sy));
    lemma_interp_translates(
        step,
        angle,
        rules,
        spec_initial_state(0, 0),
        start_syms,
        depth,
        sx,
        sy,
    );
}

} // verus!
