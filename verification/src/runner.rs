//! The resumable execution engine: per-instance state walked one frame
//! at a time over a shared read-only document, with explicit repeat and
//! reference-expansion stacks, linear motion ramps, and a grouping
//! runner that drives several instances against one host capability.

use vstd::prelude::*;
use vstd::utf8::encode_utf8;

use crate::errors::RunError;
use crate::expr::{count_rand_uses, eval_expr, spec_eval, BulletMLExpression};
use crate::num::{abs_of, clamp_i64, spec_norm, spec_sat_add, spec_sat_sub, trunc_div};
use crate::num::{count_of, from_mag, mag_of, norm_deg, sat_add, sat_add_u32, sat_sub, turns_of};
use crate::num::{lemma_mag_product, lemma_sign_product, FULL_CIRCLE, SCALE};
use crate::tree::{chain_measure, expr_ref_wf, spec_chain, spec_children, spec_is_top_label, spec_lookup};
use crate::tree::{BulletML, BulletMLNode, BulletMLType, DirectionType, HVType, SpeedType};

verus! {

/// A cell holding a value together with a flag saying whether the value
/// has been set since it was last invalidated.  The engine keeps the
/// last resolved speed and direction in such cells so that
/// `sequence`-typed values can build on the previous resolution.
#[derive(Debug, Clone, Copy)]
pub struct Validatable<T> {
    pub value: T,
    pub valid: bool,
}

impl<T: Copy> Validatable<T> {
    /// A cell holding `value` but marked not yet set.
    pub fn unset(value: T) -> (r: Self)
        ensures
            r.value == value,
            !r.valid,
    {
        Validatable { value, valid: false }
    }

    /// The held value, whether or not it is marked valid.
    pub fn get(&self) -> (r: T)
        ensures
            r == self.value,
    {
        self.value
    }

    /// Whether the cell has been set since the last invalidation.
    pub fn is_valid(&self) -> (r: bool)
        ensures
            r == self.valid,
    {
        self.valid
    }

    /// Stores a value and marks the cell valid.
    pub fn set(&mut self, value: T)
        ensures
            final(self).value == value,
            final(self).valid,
    {
        self.value = value;
        self.valid = true;
    }

    /// Marks the cell not set, keeping the stale value around.
    pub fn invalidate(&mut self)
        ensures
            final(self).value == old(self).value,
            !final(self).valid,
    {
        self.valid = false;
    }
}

/// The per-turn slope of a ramp: the total change divided by the number
/// of turns, truncated toward zero (zero when the ramp spans no turn).
pub open spec fn spec_gradient(first_x: u32, last_x: u32, first_y: i64, last_y: i64) -> int {
    if last_x <= first_x {
        0
    } else {
        trunc_div(spec_sat_sub(last_y as int, first_y as int), last_x - first_x)
    }
}

/// A linear interpolation over whole turns, driving one gradual motion
/// change: defined by its first and last turn and its first and last
/// value, with the per-turn gradient precomputed.
#[derive(Debug, Clone, Copy)]
pub struct LinearFunc {
    pub first_x: u32,
    pub last_x: u32,
    pub first_y: i64,
    pub last_y: i64,
    pub gradient: i64,
}

/// The interpolated value of a ramp at turn `x` (for `x` between the
/// first and last turn).
pub open spec fn spec_value_at(f: LinearFunc, x: u32) -> int {
    clamp_i64(f.first_y + clamp_i64(f.gradient * (x - f.first_x)))
}

/// What a live ramp reports to the host at turn `x`: the exact final
/// value at and after the last turn — never the extrapolated formula —
/// and the interpolation before it (a turn before the ramp's first turn
/// reports the first value).
pub open spec fn spec_ramp_output(f: LinearFunc, x: u32) -> int {
    if x >= f.last_x {
        f.last_y as int
    } else if x <= f.first_x {
        spec_value_at(f, f.first_x)
    } else {
        spec_value_at(f, x)
    }
}

/// A ramp function's output exactly equals its final value at and after
/// its last turn, with no residual interpolation error.
pub proof fn lemma_ramp_final_value(f: LinearFunc, x: u32)
    requires
        x >= f.last_x,
    ensures
        spec_ramp_output(f, x) == f.last_y as int,
{
}

impl LinearFunc {
    /// A ramp from `(first_x, first_y)` to `(last_x, last_y)`.
    pub fn new(first_x: u32, last_x: u32, first_y: i64, last_y: i64) -> (r: Self)
        requires
            first_x <= last_x,
        ensures
            r == (LinearFunc {
                first_x,
                last_x,
                first_y,
                last_y,
                gradient: spec_gradient(first_x, last_x, first_y, last_y) as i64,
            }),
    {
        let gradient: i64 = if last_x <= first_x {
            0
        } else {
            let dy = sat_sub(last_y, first_y);
            div_trunc_by(dy, last_x - first_x)
        };
        LinearFunc { first_x, last_x, first_y, last_y, gradient }
    }

    /// The interpolated value at turn `x`.
    pub fn get_value(&self, x: u32) -> (r: i64)
        requires
            x >= self.first_x,
        ensures
            r as int == spec_value_at(*self, x),
    {
        sat_add(self.first_y, sat_mul_by(self.gradient, x - self.first_x))
    }

    /// Whether turn `x` lies at or past the ramp's last turn, in which
    /// case the exact final value must be used instead of the formula.
    pub fn is_last(&self, x: u32) -> (r: bool)
        ensures
            r == (x >= self.last_x),
    {
        x >= self.last_x
    }

    /// The ramp's exact final value.
    pub fn get_last(&self) -> (r: i64)
        ensures
            r == self.last_y,
    {
        self.last_y
    }

    /// What this ramp reports to the host at turn `x`.
    pub fn output_at(&self, x: u32) -> (r: i64)
        ensures
            r as int == spec_ramp_output(*self, x),
    {
        if x >= self.last_x {
            self.last_y
        } else if x <= self.first_x {
            self.get_value(self.first_x)
        } else {
            self.get_value(x)
        }
    }
}

/// Truncated division of a scalar by a positive turn count.
fn div_trunc_by(a: i64, b: u32) -> (r: i64)
    requires
        b > 0,
    ensures
        r as int == trunc_div(a as int, b as int),
{
    let m: u64 = mag_of(a);
    let q: u64 = m / (b as u64);
    if a < 0 {
        if q >= 9223372036854775808u64 {
            i64::MIN
        } else {
            -(q as i64)
        }
    } else {
        q as i64
    }
}

/// Saturating product of a scalar and a turn count.
fn sat_mul_by(a: i64, k: u32) -> (r: i64)
    ensures
        r as int == clamp_i64((a as int) * (k as int)),
{
    let m: u64 = mag_of(a);
    proof {
        assert((m as int) * (k as int) <= (u64::MAX as int) * (u64::MAX as int))
            by (nonlinear_arith)
            requires m <= u64::MAX, k <= u64::MAX;
    }
    let p: u128 = (m as u128) * (k as u128);
    proof {
        lemma_mag_product(a as int, k as int);
        lemma_sign_product(a as int, k as int);
        assert(crate::num::abs_of(k as int) == k as int);
    }
    from_mag(a < 0 && k > 0, p)
}

/// A snapshot from which a spawned pattern instance starts: the
/// coordinate-system tag, the root cursors the new instance will walk in
/// order, and a copy of the parameter list active at the spawn.
#[derive(Debug)]
pub struct State {
    pub bml_type: Option<BulletMLType>,
    pub nodes: Vec<u32>,
    pub parameters: Vec<i64>,
}

impl State {
    /// Every root cursor of this snapshot lies inside the document, and
    /// there is at least one.
    pub open spec fn wf_for(self, bml: BulletML) -> bool {
        &&& self.nodes@.len() >= 1
        &&& forall|i: int| 0 <= i < self.nodes@.len() ==> #[trigger] self.nodes@[i] < bml.spec_len()
    }
}

/// One live repetition: how many passes of the body have finished, how
/// many are wanted in all, and the handle of the body to jump back to.
#[derive(Debug, Clone, Copy)]
pub struct RepeatElem {
    pub iter: usize,
    pub end: usize,
    pub act: u32,
}

/// One live reference expansion: the handle the expansion jumped to, the
/// reference node to resume after it, and the parameter list to restore
/// when the expansion's subtree is exhausted.
#[derive(Debug, Clone)]
pub struct StackedRef {
    pub ref_id: u32,
    pub prev: u32,
    pub prev_parameters: Vec<i64>,
}

/// One resumable pattern instance: a set of root cursors walked strictly
/// in order, the active node, the turn bookkeeping, up to four live
/// ramps, the `sequence` resolution cells, and the repeat and
/// reference-expansion stacks that reify the suspended walk.  The whole
/// resume point is plain data, so an instance can be snapshotted between
/// frames and the snapshot resumed elsewhere.
#[derive(Debug, Clone)]
pub struct RunnerImpl {
    pub bml_type: Option<BulletMLType>,
    pub nodes: Vec<u32>,
    pub root_nodes: Vec<u32>,
    pub change_dir: Option<LinearFunc>,
    pub change_spd: Option<LinearFunc>,
    pub accel_x: Option<LinearFunc>,
    pub accel_y: Option<LinearFunc>,
    pub spd: Validatable<i64>,
    pub prev_spd: Validatable<i64>,
    pub dir: Validatable<i64>,
    pub prev_dir: Validatable<i64>,
    pub act: Option<u32>,
    pub act_turn: Option<u32>,
    pub end_turn: u32,
    pub act_iter: usize,
    pub end: bool,
    pub parameters: Vec<i64>,
    pub repeat_stack: Vec<RepeatElem>,
    pub ref_stack: Vec<StackedRef>,
}

impl RunnerImpl {
    /// Every handle this instance holds lies inside the document, the
    /// active cursor index stays in range while a cursor is active, and
    /// every live repetition still has passes left.
    pub open spec fn wf_for(self, bml: BulletML) -> bool {
        &&& self.nodes@.len() >= 1
        &&& forall|i: int| 0 <= i < self.nodes@.len() ==> #[trigger] self.nodes@[i] < bml.spec_len()
        &&& forall|i: int|
            0 <= i < self.root_nodes@.len() ==> #[trigger] self.root_nodes@[i] < bml.spec_len()
        &&& match self.act {
            Some(a) => a < bml.spec_len() && self.act_iter < self.nodes@.len(),
            None => self.act_iter <= self.nodes@.len(),
        }
        &&& forall|i: int|
            0 <= i < self.repeat_stack@.len() ==> (#[trigger] self.repeat_stack@[i]).act
                < bml.spec_len() && self.repeat_stack@[i].iter < self.repeat_stack@[i].end
        &&& forall|i: int|
            0 <= i < self.ref_stack@.len() ==> (#[trigger] self.ref_stack@[i]).ref_id
                < bml.spec_len() && self.ref_stack@[i].prev < bml.spec_len()
    }

    /// A fresh instance resuming from a snapshot: the first root cursor
    /// becomes the active node and all bookkeeping starts cleared.
    pub fn new(state: State) -> (r: Self)
        requires
            state.nodes@.len() >= 1,
        ensures
            r.bml_type == state.bml_type,
            r.nodes@ == state.nodes@,
            r.root_nodes@ == state.nodes@,
            r.change_dir is None,
            r.change_spd is None,
            r.accel_x is None,
            r.accel_y is None,
            r.spd == (Validatable { value: 0i64, valid: false }),
            r.prev_spd == (Validatable { value: 0i64, valid: false }),
            r.dir == (Validatable { value: 0i64, valid: false }),
            r.prev_dir == (Validatable { value: 0i64, valid: false }),
            r.act == Some(state.nodes@[0]),
            r.act_turn is None,
            r.end_turn == 0,
            r.act_iter == 0,
            !r.end,
            r.parameters@ == state.parameters@,
            r.repeat_stack@.len() == 0,
            r.ref_stack@.len() == 0,
            forall|b: BulletML| #[trigger] state.wf_for(b) ==> r.wf_for(b),
    {
        let act = Some(state.nodes[0]);
        let root_nodes = state.nodes.clone();
        proof {
            assert(root_nodes@ =~= state.nodes@);
        }
        RunnerImpl {
            bml_type: state.bml_type,
            nodes: state.nodes,
            root_nodes,
            change_dir: None,
            change_spd: None,
            accel_x: None,
            accel_y: None,
            spd: Validatable::unset(0),
            prev_spd: Validatable::unset(0),
            dir: Validatable::unset(0),
            prev_dir: Validatable::unset(0),
            act,
            act_turn: None,
            end_turn: 0,
            act_iter: 0,
            end: false,
            parameters: state.parameters,
            repeat_stack: Vec::new(),
            ref_stack: Vec::new(),
        }
    }

    /// Whether this instance has reached its terminal condition.
    pub fn is_end(&self) -> (r: bool)
        ensures
            r == self.end,
    {
        self.end
    }

    /// Whether this instance has nothing more to do during the current
    /// frame: it has ended, or its next scheduled turn lies in the
    /// future.
    pub fn is_turn_end(&self) -> (r: bool)
        ensures
            r == self.spec_turn_end(),
    {
        self.is_end() || match self.act_turn {
            Some(t) => t > self.end_turn,
            None => false,
        }
    }

    /// The suspension condition: ended, or scheduled past the frame.
    pub open spec fn spec_turn_end(self) -> bool {
        self.end || match self.act_turn {
            Some(t) => t > self.end_turn,
            None => false,
        }
    }

    /// Pushes the resume turn forward by a whole number of ticks.
    fn do_wait(&mut self, frame: u32)
        requires
            old(self).act_turn is Some,
        ensures
            *final(self) == (RunnerImpl { act_turn: final(self).act_turn, ..*old(self) }),
            final(self).act_turn == (if frame > 0 {
                match old(self).act_turn {
                    Some(t) => Some(crate::num::spec_sat_add_u32(t as int, frame as int) as u32),
                    None => old(self).act_turn,
                }
            } else {
                old(self).act_turn
            }),
    {
        if frame > 0 {
            let t = match self.act_turn {
                Some(t) => t,
                None => 0,
            };
            self.act_turn = Some(crate::num::sat_add_u32(t, frame));
        }
    }

    /// Forgets the resolved speed and direction before a fire resolves
    /// its own.
    fn shot_init(&mut self)
        ensures
            *final(self) == (RunnerImpl { spd: final(self).spd, dir: final(self).dir, ..*old(self) }),
            final(self).spd == (Validatable { value: old(self).spd.value, valid: false }),
            final(self).dir == (Validatable { value: old(self).dir.value, valid: false }),
    {
        self.spd.invalidate();
        self.dir.invalidate();
    }
}

/// Which child kind a scan of a node's children looks for.
#[derive(Debug, Clone, Copy, PartialEq, Eq, Structural)]
pub enum ChildKind {
    Direction,
    Speed,
    Horizontal,
    Vertical,
    Term,
    Times,
    Param,
    AnyBullet,
    AnyAction,
}

/// Whether a syntax node is of the scanned-for kind.
pub open spec fn kind_matches(k: ChildKind, n: BulletMLNode) -> bool {
    match k {
        ChildKind::Direction => n matches BulletMLNode::Direction { .. },
        ChildKind::Speed => n matches BulletMLNode::Speed { .. },
        ChildKind::Horizontal => n matches BulletMLNode::Horizontal { .. },
        ChildKind::Vertical => n matches BulletMLNode::Vertical { .. },
        ChildKind::Term => n matches BulletMLNode::Term(_),
        ChildKind::Times => n matches BulletMLNode::Times(_),
        ChildKind::Param => n matches BulletMLNode::Param(_),
        ChildKind::AnyBullet => n matches BulletMLNode::Bullet(_) || n
            matches BulletMLNode::BulletRef(_),
        ChildKind::AnyAction => n matches BulletMLNode::Action(_) || n
            matches BulletMLNode::ActionRef(_),
    }
}

/// The first handle of the chain whose node is of kind `k`.
pub open spec fn spec_first_match(bml: BulletML, chain: Seq<u32>, k: ChildKind) -> Option<u32>
    decreases chain.len(),
{
    if chain.len() == 0 {
        None
    } else if chain[0] < bml.spec_len() && kind_matches(k, bml.nodes@[chain[0] as int]) {
        Some(chain[0])
    } else {
        spec_first_match(bml, chain.drop_first(), k)
    }
}

/// All handles of the chain whose nodes are of kind `k`, in order.
pub open spec fn spec_all_matches(bml: BulletML, chain: Seq<u32>, k: ChildKind) -> Seq<u32>
    decreases chain.len(),
{
    if chain.len() == 0 {
        Seq::empty()
    } else {
        let rest = spec_all_matches(bml, chain.drop_first(), k);
        if chain[0] < bml.spec_len() && kind_matches(k, bml.nodes@[chain[0] as int]) {
            seq![chain[0]] + rest
        } else {
            rest
        }
    }
}

/// Executable twin of `kind_matches`.
fn kind_check(k: ChildKind, n: &BulletMLNode) -> (r: bool)
    ensures
        r == kind_matches(k, *n),
{
    match k {
        ChildKind::Direction => matches!(n, BulletMLNode::Direction { .. }),
        ChildKind::Speed => matches!(n, BulletMLNode::Speed { .. }),
        ChildKind::Horizontal => matches!(n, BulletMLNode::Horizontal { .. }),
        ChildKind::Vertical => matches!(n, BulletMLNode::Vertical { .. }),
        ChildKind::Term => matches!(n, BulletMLNode::Term(_)),
        ChildKind::Times => matches!(n, BulletMLNode::Times(_)),
        ChildKind::Param => matches!(n, BulletMLNode::Param(_)),
        ChildKind::AnyBullet => matches!(n, BulletMLNode::Bullet(_) | BulletMLNode::BulletRef(_)),
        ChildKind::AnyAction => matches!(n, BulletMLNode::Action(_) | BulletMLNode::ActionRef(_)),
    }
}

/// The first child of `parent` whose node is of kind `k`.
fn first_child_of_kind(bml: &BulletML, parent: u32, k: ChildKind) -> (r: Option<u32>)
    requires
        bml.wf(),
        parent < bml.spec_len(),
    ensures
        r == spec_first_match(*bml, spec_children(*bml, parent), k),
        r matches Some(c) ==> c < bml.spec_len() && kind_matches(k, bml.nodes@[c as int]),
{
    let mut cur = bml.first_child_of(parent);
    while cur.is_some()
        invariant
            bml.wf(),
            match cur {
                Some(c) => c < bml.spec_len(),
                None => true,
            },
            spec_first_match(*bml, spec_children(*bml, parent), k) == spec_first_match(
                *bml,
                spec_chain(*bml, cur),
                k,
            ),
        decreases chain_measure(*bml, cur),
    {
        let c = cur.unwrap();
        let n = bml.node(c);
        proof {
            let chain = spec_chain(*bml, cur);
            assert(chain == match bml.next_siblings@[c as int] {
                Some(nx) => seq![c] + spec_chain(*bml, Some(nx)),
                None => seq![c],
            });
            assert(chain[0] == c);
            assert(chain.drop_first() =~= spec_chain(*bml, bml.next_siblings@[c as int]));
        }
        if kind_check(k, n) {
            return Some(c);
        }
        cur = bml.next_sibling_of(c);
    }
    None
}

/// All children of `parent` whose nodes are of kind `k`, in order.
fn children_of_kind(bml: &BulletML, parent: u32, k: ChildKind) -> (r: Vec<u32>)
    requires
        bml.wf(),
        parent < bml.spec_len(),
    ensures
        r@ == spec_all_matches(*bml, spec_children(*bml, parent), k),
        forall|i: int| 0 <= i < r@.len() ==> #[trigger] r@[i] < bml.spec_len(),
{
    let mut out: Vec<u32> = Vec::new();
    let mut cur = bml.first_child_of(parent);
    while cur.is_some()
        invariant
            bml.wf(),
            match cur {
                Some(c) => c < bml.spec_len(),
                None => true,
            },
            spec_all_matches(*bml, spec_children(*bml, parent), k) == out@ + spec_all_matches(
                *bml,
                spec_chain(*bml, cur),
                k,
            ),
            forall|i: int| 0 <= i < out@.len() ==> #[trigger] out@[i] < bml.spec_len(),
        decreases chain_measure(*bml, cur),
    {
        let c = cur.unwrap();
        let n = bml.node(c);
        proof {
            let chain = spec_chain(*bml, cur);
            assert(chain == match bml.next_siblings@[c as int] {
                Some(nx) => seq![c] + spec_chain(*bml, Some(nx)),
                None => seq![c],
            });
            assert(chain[0] == c);
            assert(chain.drop_first() =~= spec_chain(*bml, bml.next_siblings@[c as int]));
        }
        if kind_check(k, n) {
            proof {
                let rest = spec_all_matches(
                    *bml,
                    spec_chain(*bml, bml.next_siblings@[c as int]),
                    k,
                );
                assert(out@.push(c) =~= out@ + seq![c]);
                assert((out@ + seq![c]) + rest =~= out@ + (seq![c] + rest));
            }
            out.push(c);
        }
        cur = bml.next_sibling_of(c);
    }
    proof {
        assert(spec_chain(*bml, None::<u32>) =~= Seq::<u32>::empty());
        assert(out@ + Seq::<u32>::empty() =~= out@);
    }
    out
}

/// The capability set a host implements so that engines can read the
/// current motion state of a bullet and command spawning, mutation and
/// vanishing.  `D` is the host's own per-frame application data, passed
/// through every call.
pub trait AppRunner<D> {
    /// Called when a grouping runner is created over or re-pointed at a
    /// document.
    fn init(&mut self) {
    }

    /// The current direction of this bullet.
    fn get_bullet_direction(&self, data: &D) -> i64;

    /// The direction from this bullet toward the host's aim target.
    fn get_aim_direction(&self, data: &D) -> i64;

    /// The current speed of this bullet.
    fn get_bullet_speed(&self, data: &D) -> i64;

    /// The default speed for spawned bullets without an explicit one.
    fn get_default_speed(&self) -> i64;

    /// The difficulty scalar, expected in `[0, SCALE]`, read by `$rank`.
    fn get_rank(&self, data: &D) -> i64;

    /// Commands a plain bullet with a fixed direction and speed.
    fn create_simple_bullet(&mut self, data: &mut D, direction: i64, speed: i64);

    /// Commands a scripted bullet resuming from the given snapshot.
    fn create_bullet(&mut self, data: &mut D, state: State, direction: i64, speed: i64);

    /// The current frame number.
    fn get_turn(&self, data: &D) -> u32;

    /// Commands this bullet to vanish.
    fn do_vanish(&mut self, data: &mut D);

    /// Commands a direction change, called on every turn a direction
    /// ramp is live.
    fn do_change_direction(&mut self, _data: &mut D, _direction: i64) {
    }

    /// Commands a speed change, called on every turn a speed ramp is
    /// live.
    fn do_change_speed(&mut self, _data: &mut D, _speed: i64) {
    }

    /// Commands a horizontal acceleration change.
    fn do_accel_x(&mut self, _sx: i64) {
    }

    /// Commands a vertical acceleration change.
    fn do_accel_y(&mut self, _sy: i64) {
    }

    /// The current horizontal speed component.
    fn get_bullet_speed_x(&self) -> i64 {
        0
    }

    /// The current vertical speed component.
    fn get_bullet_speed_y(&self) -> i64 {
        0
    }

    /// One fresh draw from the host's random source.
    fn get_rand(&self, data: &mut D) -> i64;

    /// Reports that this instance failed and is ending; the engine calls
    /// this once, right before marking itself ended.
    fn report_failure(&mut self, _data: &mut D, _error: &RunError) {
    }

    /// Observes every node the walker executes; meant for tracing.
    fn log(&mut self, _data: &mut D, _node: &BulletMLNode) {
    }
}

/// Draws `count` random values from the host, in order.
fn draw_rands<D, R: AppRunner<D>>(count: u32, data: &mut D, app: &mut R) -> (r: Vec<i64>)
    ensures
        r@.len() == count,
{
    let mut out: Vec<i64> = Vec::new();
    let mut i: u32 = 0;
    while i < count
        invariant
            out@.len() == i,
            i <= count,
        decreases count - i,
    {
        out.push(app.get_rand(data));
        i = i + 1;
    }
    out
}

/// Some host rank and some sequence of random draws make expression `e`
/// evaluate to `v` under parameter list `ps`.
pub open spec fn spec_expr_value(
    bml: BulletML,
    e: BulletMLExpression,
    ps: Seq<i64>,
    v: i64,
) -> bool {
    match e {
        BulletMLExpression::Const(c) => v == c,
        BulletMLExpression::Expr(h) => exists|rank: i64, rands: Seq<i64>|
            spec_eval(bml.exprs@, h as int, ps, rank, rands, 0) == Ok::<i64, u32>(v),
    }
}

/// Some host rank and draws make expression `e` fail with the one-based
/// parameter index `n` under parameter list `ps`.  A literal never
/// fails, and `spec_eval`'s failure does not depend on the rank or the
/// draws, so this ties the fault to the pool and the list alone.
pub open spec fn spec_expr_fault(
    bml: BulletML,
    e: BulletMLExpression,
    ps: Seq<i64>,
    n: u32,
) -> bool {
    match e {
        BulletMLExpression::Const(_) => false,
        BulletMLExpression::Expr(h) => exists|rank: i64, rands: Seq<i64>|
            spec_eval(bml.exprs@, h as int, ps, rank, rands, 0) == Err::<i64, u32>(n),
    }
}

/// The unnormalized direction the direction-type rule produces from the
/// raw expression value `raw`.  `host` stands for the one host reading
/// the rule may take: the aim direction for an aim-typed (or untyped)
/// resolution and for a sequence resolution without a base, the current
/// bullet direction for a relative one; an absolute resolution and a
/// sequence resolution with a base read nothing from the host.
pub open spec fn spec_dir_mix(
    s: RunnerImpl,
    dir_type: Option<DirectionType>,
    raw: i64,
    host: i64,
) -> int {
    match dir_type {
        None => spec_sat_add(raw as int, host as int),
        Some(DirectionType::Aim) => spec_sat_add(raw as int, host as int),
        Some(DirectionType::Absolute) => if s.bml_type == Some(BulletMLType::Horizontal) {
            spec_sat_sub(raw as int, 90 * SCALE as int)
        } else {
            raw as int
        },
        Some(DirectionType::Relative) => spec_sat_add(raw as int, host as int),
        Some(DirectionType::Sequence) => if !s.prev_dir.valid {
            host as int
        } else {
            spec_sat_add(raw as int, s.prev_dir.value as int)
        },
    }
}

/// The speed the speed-type rule produces from the raw expression value
/// `raw`.  `host` stands for the current bullet speed, read only by a
/// relative resolution; a sequence resolution without a base yields one
/// unit, and one with a base adds to the previous resolution.
pub open spec fn spec_spd_mix(
    s: RunnerImpl,
    spd_type: Option<SpeedType>,
    raw: i64,
    host: i64,
) -> int {
    match spd_type {
        None => raw as int,
        Some(SpeedType::Absolute) => raw as int,
        Some(SpeedType::Relative) => spec_sat_add(raw as int, host as int),
        Some(SpeedType::Sequence) => if !s.prev_spd.valid {
            SCALE as int
        } else {
            spec_sat_add(raw as int, s.prev_spd.value as int)
        },
    }
}

/// The payload of the first times child of `h`, if any.
pub open spec fn spec_times_of(bml: BulletML, h: u32) -> Option<BulletMLExpression> {
    match spec_first_match(bml, spec_children(bml, h), ChildKind::Times) {
        Some(t) => match bml.nodes@[t as int] {
            BulletMLNode::Times(e) => Some(e),
            _ => None,
        },
        None => None,
    }
}

/// The payload of the first term child of `h`, if any.
pub open spec fn spec_term_of(bml: BulletML, h: u32) -> Option<BulletMLExpression> {
    match spec_first_match(bml, spec_children(bml, h), ChildKind::Term) {
        Some(t) => match bml.nodes@[t as int] {
            BulletMLNode::Term(e) => Some(e),
            _ => None,
        },
        None => None,
    }
}

/// The payload of the first direction child of `h`, if any.
pub open spec fn spec_direction_of(bml: BulletML, h: u32) -> Option<
    (Option<DirectionType>, BulletMLExpression),
> {
    match spec_first_match(bml, spec_children(bml, h), ChildKind::Direction) {
        Some(d) => match bml.nodes@[d as int] {
            BulletMLNode::Direction { dir_type, dir } => Some((dir_type, dir)),
            _ => None,
        },
        None => None,
    }
}

/// The payload of the first speed child of `h`, if any.
pub open spec fn spec_speed_of(bml: BulletML, h: u32) -> Option<
    (Option<SpeedType>, BulletMLExpression),
> {
    match spec_first_match(bml, spec_children(bml, h), ChildKind::Speed) {
        Some(d) => match bml.nodes@[d as int] {
            BulletMLNode::Speed { spd_type, spd } => Some((spd_type, spd)),
            _ => None,
        },
        None => None,
    }
}

/// The expression a param node carries (a non-param node counts as a
/// zero literal; the scans below only apply this to param handles).
pub open spec fn spec_param_expr(bml: BulletML, h: u32) -> BulletMLExpression {
    match bml.nodes@[h as int] {
        BulletMLNode::Param(e) => e,
        _ => BulletMLExpression::Const(0),
    }
}

/// The payload of the first horizontal child of `h`, if any.
pub open spec fn spec_horizontal_of(bml: BulletML, h: u32) -> Option<(HVType, BulletMLExpression)> {
    match spec_first_match(bml, spec_children(bml, h), ChildKind::Horizontal) {
        Some(d) => match bml.nodes@[d as int] {
            BulletMLNode::Horizontal { h_type, h } => Some((h_type, h)),
            _ => None,
        },
        None => None,
    }
}

/// The payload of the first vertical child of `h`, if any.
pub open spec fn spec_vertical_of(bml: BulletML, h: u32) -> Option<(HVType, BulletMLExpression)> {
    match spec_first_match(bml, spec_children(bml, h), ChildKind::Vertical) {
        Some(d) => match bml.nodes@[d as int] {
            BulletMLNode::Vertical { v_type, v } => Some((v_type, v)),
            _ => None,
        },
        None => None,
    }
}

/// The first action or action-reference child of `h`, if any.
pub open spec fn spec_action_child_of(bml: BulletML, h: u32) -> Option<u32> {
    spec_first_match(bml, spec_children(bml, h), ChildKind::AnyAction)
}

/// The first bullet or bullet-reference child of `h`, if any.
pub open spec fn spec_bullet_child_of(bml: BulletML, h: u32) -> Option<u32> {
    spec_first_match(bml, spec_children(bml, h), ChildKind::AnyBullet)
}

impl RunnerImpl {
    /// The value of an expression under the current parameter list: a
    /// literal is returned as is, and a compiled expression is evaluated
    /// against the host's rank and freshly drawn randoms.
    fn get_number_contents<D, R: AppRunner<D>>(
        &self,
        bml: &BulletML,
        expr: BulletMLExpression,
        data: &mut D,
        app: &mut R,
    ) -> (r: Result<i64, RunError>)
        requires
            bml.wf(),
            expr_ref_wf(expr, bml.exprs@.len()),
        ensures
            expr matches BulletMLExpression::Const(c) ==> r == Ok::<i64, RunError>(c),
            match r {
                Ok(v) => spec_expr_value(*bml, expr, self.parameters@, v),
                Err(e) => e matches RunError::ParameterOutOfRange(n) && spec_expr_fault(
                    *bml,
                    expr,
                    self.parameters@,
                    n,
                ),
            },
    {
        match expr {
            BulletMLExpression::Const(v) => Ok(v),
            BulletMLExpression::Expr(h) => {
                let rank = app.get_rank(data);
                let n = count_rand_uses(&bml.exprs, h);
                let rands = draw_rands(n, data, app);
                let mut pos: usize = 0;
                let r = eval_expr(&bml.exprs, h, &self.parameters, rank, &rands, &mut pos);
                proof {
                    match r {
                        Ok(v) => {
                            assert(spec_eval(
                                bml.exprs@,
                                h as int,
                                self.parameters@,
                                rank,
                                rands@,
                                0,
                            ) == Ok::<i64, u32>(v));
                        },
                        Err(ref e) => {},
                    }
                }
                r
            },
        }
    }

    /// Resolves a direction child into an absolute direction, applying
    /// the direction-type rule, adding the aim direction where the type
    /// asks for it, and normalizing the result into `[0, FULL_CIRCLE)`;
    /// the result also becomes the new `sequence` base.
    fn get_direction<D, R: AppRunner<D>>(
        &mut self,
        bml: &BulletML,
        dir_type: Option<DirectionType>,
        expr: BulletMLExpression,
        data: &mut D,
        app: &mut R,
    ) -> (r: Result<i64, RunError>)
        requires
            bml.wf(),
            expr_ref_wf(expr, bml.exprs@.len()),
        ensures
            match r {
                Ok(v) => {
                    &&& 0 <= v < FULL_CIRCLE
                    &&& *final(self) == (RunnerImpl {
                        prev_dir: (Validatable { value: v, valid: true }),
                        ..*old(self)
                    })
                    &&& exists|raw: i64, host: i64|
                        #![trigger spec_dir_mix(*old(self), dir_type, raw, host)]
                        spec_expr_value(*bml, expr, old(self).parameters@, raw) && v as int
                            == spec_norm(spec_dir_mix(*old(self), dir_type, raw, host))
                },
                Err(e) => *final(self) == *old(self) && (e
                    matches RunError::ParameterOutOfRange(n) && spec_expr_fault(
                    *bml,
                    expr,
                    old(self).parameters@,
                    n,
                )),
            },
            expr matches BulletMLExpression::Const(_) ==> r is Ok,
            match expr {
                BulletMLExpression::Const(c) => dir_type == Some(DirectionType::Absolute) ==> r
                    == Ok::<i64, RunError>(
                    spec_norm(
                        if old(self).bml_type == Some(BulletMLType::Horizontal) {
                            spec_sat_sub(c as int, 90 * SCALE as int)
                        } else {
                            c as int
                        },
                    ) as i64,
                ),
                _ => true,
            },
    {
        let direction = match self.get_number_contents(bml, expr, data, app) {
            Ok(v) => v,
            Err(e) => {
                return Err(e);
            },
        };
        let mut dir: i64;
        let mut aim: bool;
        let mut host: i64 = 0;
        match dir_type {
            None => {
                dir = direction;
                aim = true;
            },
            Some(DirectionType::Aim) => {
                dir = direction;
                aim = true;
            },
            Some(DirectionType::Absolute) => {
                dir = if matches!(self.bml_type, Some(BulletMLType::Horizontal)) {
                    sat_sub(direction, 90 * SCALE)
                } else {
                    direction
                };
                aim = false;
            },
            Some(DirectionType::Relative) => {
                host = app.get_bullet_direction(data);
                dir = sat_add(direction, host);
                aim = false;
            },
            Some(DirectionType::Sequence) => {
                if !self.prev_dir.is_valid() {
                    dir = 0;
                    aim = true;
                } else {
                    dir = sat_add(direction, self.prev_dir.get());
                    aim = false;
                }
            },
        }
        if aim {
            host = app.get_aim_direction(data);
            dir = sat_add(dir, host);
        }
        proof {
            assert(dir as int == spec_dir_mix(*old(self), dir_type, direction, host));
        }
        let dir = norm_deg(dir);
        self.prev_dir.set(dir);
        Ok(dir)
    }

    /// Resolves a speed child into an absolute speed, applying the
    /// speed-type rule; the result also becomes the new `sequence` base.
    fn get_speed<D, R: AppRunner<D>>(
        &mut self,
        bml: &BulletML,
        spd_type: Option<SpeedType>,
        expr: BulletMLExpression,
        data: &mut D,
        app: &mut R,
    ) -> (r: Result<i64, RunError>)
        requires
            bml.wf(),
            expr_ref_wf(expr, bml.exprs@.len()),
        ensures
            match r {
                Ok(v) => {
                    &&& *final(self) == (RunnerImpl {
                        prev_spd: (Validatable { value: v, valid: true }),
                        ..*old(self)
                    })
                    &&& exists|raw: i64, host: i64|
                        #![trigger spec_spd_mix(*old(self), spd_type, raw, host)]
                        spec_expr_value(*bml, expr, old(self).parameters@, raw) && v as int
                            == spec_spd_mix(*old(self), spd_type, raw, host)
                },
                Err(e) => *final(self) == *old(self) && (e
                    matches RunError::ParameterOutOfRange(n) && spec_expr_fault(
                    *bml,
                    expr,
                    old(self).parameters@,
                    n,
                )),
            },
            expr matches BulletMLExpression::Const(_) ==> r is Ok,
            match expr {
                BulletMLExpression::Const(c) => (spd_type is None || spd_type == Some(
                    SpeedType::Absolute,
                )) ==> r == Ok::<i64, RunError>(c),
                _ => true,
            },
    {
        let raw = match self.get_number_contents(bml, expr, data, app) {
            Ok(v) => v,
            Err(e) => {
                return Err(e);
            },
        };
        let mut host: i64 = 0;
        let speed = match spd_type {
            None => raw,
            Some(SpeedType::Absolute) => raw,
            Some(SpeedType::Relative) => {
                host = app.get_bullet_speed(data);
                sat_add(raw, host)
            },
            Some(SpeedType::Sequence) => {
                if !self.prev_spd.is_valid() {
                    SCALE
                } else {
                    sat_add(raw, self.prev_spd.get())
                }
            },
        };
        proof {
            assert(speed as int == spec_spd_mix(*old(self), spd_type, raw, host));
        }
        self.prev_spd.set(speed);
        Ok(speed)
    }

    /// Resolves the active node's direction child, if any, into the
    /// engine's direction cell.
    fn set_direction<D, R: AppRunner<D>>(
        &mut self,
        bml: &BulletML,
        data: &mut D,
        app: &mut R,
    ) -> (r: Result<(), RunError>)
        requires
            bml.wf(),
            match old(self).act {
                Some(a) => a < bml.spec_len(),
                None => true,
            },
        ensures
            *final(self) == (RunnerImpl {
                dir: final(self).dir,
                prev_dir: final(self).prev_dir,
                ..*old(self)
            }),
            match old(self).act {
                None => *final(self) == *old(self) && r is Ok,
                Some(a) => match spec_first_match(
                    *bml,
                    spec_children(*bml, a),
                    ChildKind::Direction,
                ) {
                    None => *final(self) == *old(self) && r is Ok,
                    Some(c) => match bml.nodes@[c as int] {
                        BulletMLNode::Direction { dir_type, dir } => {
                            &&& (dir matches BulletMLExpression::Const(_) ==> r is Ok)
                            &&& match r {
                                Ok(_) => {
                                    &&& final(self).dir.valid
                                    &&& 0 <= final(self).dir.value < FULL_CIRCLE
                                    &&& final(self).prev_dir == (Validatable {
                                        value: final(self).dir.value,
                                        valid: true,
                                    })
                                    &&& exists|raw: i64, host: i64|
                                        #![trigger spec_dir_mix(*old(self), dir_type, raw, host)]
                                        spec_expr_value(*bml, dir, old(self).parameters@, raw)
                                            && final(self).dir.value as int == spec_norm(
                                            spec_dir_mix(*old(self), dir_type, raw, host),
                                        )
                                },
                                Err(e) => *final(self) == *old(self) && (e
                                    matches RunError::ParameterOutOfRange(n) && spec_expr_fault(
                                    *bml,
                                    dir,
                                    old(self).parameters@,
                                    n,
                                )),
                            }
                        },
                        _ => false,
                    },
                },
            },
    {
        let act = match self.act {
            Some(a) => a,
            None => {
                return Ok(());
            },
        };
        let child = first_child_of_kind(bml, act, ChildKind::Direction);
        match child {
            Some(c) => {
                match bml.node(c).match_direction() {
                    Some((dir_type, dir)) => {
                        let v = match self.get_direction(bml, dir_type, dir, data, app) {
                            Ok(v) => v,
                            Err(e) => {
                                return Err(e);
                            },
                        };
                        self.dir.set(v);
                        Ok(())
                    },
                    None => Ok(()),
                }
            },
            None => Ok(()),
        }
    }

    /// Resolves the active node's speed child, if any, into the engine's
    /// speed cell.
    fn set_speed<D, R: AppRunner<D>>(&mut self, bml: &BulletML, data: &mut D, app: &mut R) -> (r:
        Result<(), RunError>)
        requires
            bml.wf(),
            match old(self).act {
                Some(a) => a < bml.spec_len(),
                None => true,
            },
        ensures
            *final(self) == (RunnerImpl {
                spd: final(self).spd,
                prev_spd: final(self).prev_spd,
                ..*old(self)
            }),
            match old(self).act {
                None => *final(self) == *old(self) && r is Ok,
                Some(a) => match spec_first_match(*bml, spec_children(*bml, a), ChildKind::Speed) {
                    None => *final(self) == *old(self) && r is Ok,
                    Some(c) => match bml.nodes@[c as int] {
                        BulletMLNode::Speed { spd_type, spd } => {
                            &&& (spd matches BulletMLExpression::Const(_) ==> r is Ok)
                            &&& match r {
                                Ok(_) => {
                                    &&& final(self).spd.valid
                                    &&& final(self).prev_spd == (Validatable {
                                        value: final(self).spd.value,
                                        valid: true,
                                    })
                                    &&& exists|raw: i64, host: i64|
                                        #![trigger spec_spd_mix(*old(self), spd_type, raw, host)]
                                        spec_expr_value(*bml, spd, old(self).parameters@, raw)
                                            && final(self).spd.value as int == spec_spd_mix(
                                            *old(self),
                                            spd_type,
                                            raw,
                                            host,
                                        )
                                },
                                Err(e) => *final(self) == *old(self) && (e
                                    matches RunError::ParameterOutOfRange(n) && spec_expr_fault(
                                    *bml,
                                    spd,
                                    old(self).parameters@,
                                    n,
                                )),
                            }
                        },
                        _ => false,
                    },
                },
            },
    {
        let act = match self.act {
            Some(a) => a,
            None => {
                return Ok(());
            },
        };
        let child = first_child_of_kind(bml, act, ChildKind::Speed);
        match child {
            Some(c) => {
                match bml.node(c).match_speed() {
                    Some((spd_type, spd)) => {
                        let v = match self.get_speed(bml, spd_type, spd, data, app) {
                            Ok(v) => v,
                            Err(e) => {
                                return Err(e);
                            },
                        };
                        self.spd.set(v);
                        Ok(())
                    },
                    None => Ok(()),
                }
            },
            None => Ok(()),
        }
    }

    /// Evaluates the active node's `param` children, in order, into a
    /// fresh parameter list for a reference expansion.
    fn get_parameters<D, R: AppRunner<D>>(
        &self,
        bml: &BulletML,
        data: &mut D,
        app: &mut R,
    ) -> (r: Result<Vec<i64>, RunError>)
        requires
            bml.wf(),
            self.act matches Some(a) && a < bml.spec_len(),
        ensures
            match self.act {
                Some(a) => {
                    let ms = spec_all_matches(*bml, spec_children(*bml, a), ChildKind::Param);
                    &&& match r {
                        Ok(ps) => ps@.len() == ms.len() && forall|i: int|
                            0 <= i < ms.len() ==> spec_expr_value(
                                *bml,
                                spec_param_expr(*bml, ms[i]),
                                self.parameters@,
                                #[trigger] ps@[i],
                            ),
                        Err(e) => e matches RunError::ParameterOutOfRange(n) && exists|i: int|
                            0 <= i < ms.len() && spec_expr_fault(
                                *bml,
                                spec_param_expr(*bml, #[trigger] ms[i]),
                                self.parameters@,
                                n,
                            ),
                    }
                    &&& (forall|i: int|
                        0 <= i < ms.len() ==> (#[trigger] spec_param_expr(*bml, ms[i]))
                            matches BulletMLExpression::Const(_)) ==> r is Ok
                },
                None => true,
            },
    {
        let act = match self.act {
            Some(a) => a,
            None => {
                return Ok(Vec::new());
            },
        };
        let ghost ms = spec_all_matches(*bml, spec_children(*bml, act), ChildKind::Param);
        let ghost mut done_snap: Seq<u32> = Seq::empty();
        let mut out: Vec<i64> = Vec::new();
        let mut cur = bml.first_child_of(act);
        proof {
            assert(done_snap + spec_all_matches(*bml, spec_chain(*bml, cur), ChildKind::Param)
                =~= ms);
        }
        while cur.is_some()
            invariant
                bml.wf(),
                act < bml.spec_len(),
                self.act == Some(act),
                match cur {
                    Some(c) => c < bml.spec_len(),
                    None => true,
                },
                ms == spec_all_matches(*bml, spec_children(*bml, act), ChildKind::Param),
                ms == done_snap + spec_all_matches(*bml, spec_chain(*bml, cur), ChildKind::Param),
                out@.len() == done_snap.len(),
                forall|j: int|
                    0 <= j < done_snap.len() ==> spec_expr_value(
                        *bml,
                        spec_param_expr(*bml, done_snap[j]),
                        self.parameters@,
                        #[trigger] out@[j],
                    ),
            decreases chain_measure(*bml, cur),
        {
            let c = cur.unwrap();
            proof {
                let chain = spec_chain(*bml, cur);
                assert(chain == match bml.next_siblings@[c as int] {
                    Some(nx) => seq![c] + spec_chain(*bml, Some(nx)),
                    None => seq![c],
                });
                assert(chain[0] == c);
                assert(chain.drop_first() =~= spec_chain(*bml, bml.next_siblings@[c as int]));
            }
            let node = bml.node(c);
            if let BulletMLNode::Param(e) = node {
                proof {
                    let rest = spec_all_matches(
                        *bml,
                        spec_chain(*bml, bml.next_siblings@[c as int]),
                        ChildKind::Param,
                    );
                    assert(spec_all_matches(*bml, spec_chain(*bml, cur), ChildKind::Param)
                        == seq![c] + rest);
                    assert((done_snap + seq![c]) + rest =~= done_snap + (seq![c] + rest));
                    assert(done_snap.push(c) =~= done_snap + seq![c]);
                    assert(ms[done_snap.len() as int] == c);
                    assert(spec_param_expr(*bml, c) == *e);
                }
                let v = match self.get_number_contents(bml, *e, data, app) {
                    Ok(v) => v,
                    Err(err) => {
                        proof {
                            let idx = done_snap.len() as int;
                            assert(0 <= idx < ms.len() && ms[idx] == c);
                            assert(spec_param_expr(*bml, ms[idx]) == *e);
                            match &err {
                                RunError::ParameterOutOfRange(n) => {
                                    assert(spec_expr_fault(*bml, *e, self.parameters@, *n));
                                },
                                _ => {},
                            }
                        }
                        return Err(err);
                    },
                };
                out.push(v);
                proof {
                    done_snap = done_snap.push(c);
                }
            }
            cur = bml.next_sibling_of(c);
        }
        proof {
            assert(spec_chain(*bml, None::<u32>) =~= Seq::<u32>::empty());
            assert(done_snap + Seq::<u32>::empty() =~= done_snap);
        }
        Ok(out)
    }
}

/// Copies a parameter list.
fn clone_params(v: &Vec<i64>) -> (r: Vec<i64>)
    ensures
        r@ == v@,
{
    let r = v.clone();
    proof {
        assert(r@ =~= v@);
    }
    r
}

impl RunnerImpl {
    /// Executes a bullet node: resolves its speed and direction (falling
    /// back to the host's default speed and aim direction), then
    /// commands a simple spawn, or a scripted spawn carrying a snapshot
    /// when the bullet has action children.  Ends this step.
    fn run_bullet<D, R: AppRunner<D>>(&mut self, bml: &BulletML, data: &mut D, app: &mut R) -> (r:
        Result<(), RunError>)
        requires
            bml.wf(),
            old(self).act matches Some(a) && a < bml.spec_len(),
        ensures
            *final(self) == (RunnerImpl {
                spd: final(self).spd,
                prev_spd: final(self).prev_spd,
                dir: final(self).dir,
                prev_dir: final(self).prev_dir,
                act: final(self).act,
                ..*old(self)
            }),
            old(self).wf_for(*bml) ==> final(self).wf_for(*bml),
            r is Ok ==> final(self).act is None && final(self).spd.valid && final(self).dir.valid,
            (r is Ok && (!old(self).dir.valid || 0 <= old(self).dir.value < FULL_CIRCLE)) ==> 0
                <= final(self).dir.value < FULL_CIRCLE,
            match old(self).act {
                Some(a) => {
                    &&& (((match spec_speed_of(*bml, a) {
                        Some((_, e)) => e matches BulletMLExpression::Const(_),
                        None => true,
                    }) && (match spec_direction_of(*bml, a) {
                        Some((_, e)) => e matches BulletMLExpression::Const(_),
                        None => true,
                    })) ==> r is Ok)
                    &&& match r {
                        Ok(_) => true,
                        Err(e) => e matches RunError::ParameterOutOfRange(n) && ((
                        match spec_speed_of(*bml, a) {
                            Some((_, se)) => spec_expr_fault(*bml, se, old(self).parameters@, n),
                            None => false,
                        }) || (match spec_direction_of(*bml, a) {
                            Some((_, de)) => spec_expr_fault(*bml, de, old(self).parameters@, n),
                            None => false,
                        })),
                    }
                },
                None => true,
            },
            r is Err ==> final(self).act == old(self).act,
    {
        self.set_speed(bml, data, app)?;
        self.set_direction(bml, data, app)?;
        if !self.spd.is_valid() {
            let d = app.get_default_speed();
            self.spd.set(d);
            self.prev_spd.set(d);
        }
        if !self.dir.is_valid() {
            let d = norm_deg(app.get_aim_direction(data));
            self.dir.set(d);
            self.prev_dir.set(d);
        }
        let act = match self.act {
            Some(a) => a,
            None => {
                return Ok(());
            },
        };
        let all_actions = children_of_kind(bml, act, ChildKind::AnyAction);
        if all_actions.len() == 0 {
            app.create_simple_bullet(data, self.dir.get(), self.spd.get());
        } else {
            let state = State {
                bml_type: self.bml_type,
                nodes: all_actions,
                parameters: clone_params(&self.parameters),
            };
            app.create_bullet(data, state, self.dir.get(), self.spd.get());
        }
        self.act = None;
        Ok(())
    }

    /// Executes a fire node: forgets the previously resolved speed and
    /// direction, resolves the fire's own, then descends into its bullet
    /// or bullet-reference child; a fire without one cannot act.
    fn run_fire<D, R: AppRunner<D>>(&mut self, bml: &BulletML, data: &mut D, app: &mut R) -> (r:
        Result<(), RunError>)
        requires
            bml.wf(),
            old(self).act matches Some(a) && a < bml.spec_len(),
        ensures
            *final(self) == (RunnerImpl {
                spd: final(self).spd,
                prev_spd: final(self).prev_spd,
                dir: final(self).dir,
                prev_dir: final(self).prev_dir,
                act: final(self).act,
                ..*old(self)
            }),
            old(self).wf_for(*bml) ==> final(self).wf_for(*bml),
            match old(self).act {
                Some(a) => {
                    &&& (r is Ok ==> (final(self).act is Some) && final(self).act
                        == spec_bullet_child_of(*bml, a))
                    &&& ((spec_bullet_child_of(*bml, a) is Some && (match spec_speed_of(*bml, a) {
                        Some((_, e)) => e matches BulletMLExpression::Const(_),
                        None => true,
                    }) && (match spec_direction_of(*bml, a) {
                        Some((_, e)) => e matches BulletMLExpression::Const(_),
                        None => true,
                    })) ==> r is Ok)
                    &&& match r {
                        Ok(_) => true,
                        Err(e) => (e matches RunError::MalformedSubtree(h) && h == a
                            && spec_bullet_child_of(*bml, a) is None) || (e
                            matches RunError::ParameterOutOfRange(n) && ((match spec_speed_of(
                            *bml,
                            a,
                        ) {
                            Some((_, se)) => spec_expr_fault(*bml, se, old(self).parameters@, n),
                            None => false,
                        }) || (match spec_direction_of(*bml, a) {
                            Some((_, de)) => spec_expr_fault(*bml, de, old(self).parameters@, n),
                            None => false,
                        }))),
                    }
                },
                None => true,
            },
    {
        self.shot_init();
        self.set_speed(bml, data, app)?;
        self.set_direction(bml, data, app)?;
        let act = match self.act {
            Some(a) => a,
            None => {
                return Ok(());
            },
        };
        match first_child_of_kind(bml, act, ChildKind::AnyBullet) {
            Some(b) => {
                self.act = Some(b);
                Ok(())
            },
            None => Err(RunError::MalformedSubtree(act)),
        }
    }

    /// Executes an action node: descends to its first child.
    fn run_action(&mut self, bml: &BulletML)
        requires
            bml.wf(),
            old(self).act matches Some(a) && a < bml.spec_len(),
        ensures
            *final(self) == (RunnerImpl { act: final(self).act, ..*old(self) }),
            old(self).wf_for(*bml) ==> final(self).wf_for(*bml),
            match old(self).act {
                Some(a) => final(self).act == bml.first_children@[a as int],
                None => false,
            },
            match final(self).act {
                Some(c) => c < bml.spec_len(),
                None => true,
            },
    {
        let act = match self.act {
            Some(a) => a,
            None => {
                return ;
            },
        };
        self.act = bml.first_child_of(act);
    }

    /// Executes a wait node: pushes the resume turn forward by the
    /// evaluated tick count.  Ends this step.
    fn run_wait<D, R: AppRunner<D>>(
        &mut self,
        bml: &BulletML,
        expr: BulletMLExpression,
        data: &mut D,
        app: &mut R,
    ) -> (r: Result<(), RunError>)
        requires
            bml.wf(),
            expr_ref_wf(expr, bml.exprs@.len()),
            old(self).act_turn is Some,
        ensures
            *final(self) == (RunnerImpl {
                act: final(self).act,
                act_turn: final(self).act_turn,
                ..*old(self)
            }),
            forall|b: BulletML| #[trigger] old(self).wf_for(b) ==> final(self).wf_for(b),
            final(self).act_turn is Some,
            spec_act_turn(*final(self)) >= spec_act_turn(*old(self)),
            r is Ok ==> final(self).act is None,
            r is Ok ==> exists|v: i64|
                #![trigger crate::num::spec_turns(v as int)]
                spec_expr_value(*bml, expr, old(self).parameters@, v) && final(self).act_turn == (
                if crate::num::spec_turns(v as int) > 0 {
                    match old(self).act_turn {
                        Some(t) => Some(
                            crate::num::spec_sat_add_u32(
                                t as int,
                                crate::num::spec_turns(v as int),
                            ) as u32,
                        ),
                        None => None::<u32>,
                    }
                } else {
                    old(self).act_turn
                }),
            r is Err ==> (match r {
                Err(e) => e matches RunError::ParameterOutOfRange(n) && spec_expr_fault(
                    *bml,
                    expr,
                    old(self).parameters@,
                    n,
                ),
                Ok(_) => false,
            }),
            expr matches BulletMLExpression::Const(c) ==> r is Ok && final(self).act_turn == (
            if crate::num::spec_turns(c as int) > 0 {
                match old(self).act_turn {
                    Some(t) => Some(
                        crate::num::spec_sat_add_u32(
                            t as int,
                            crate::num::spec_turns(c as int),
                        ) as u32,
                    ),
                    None => None::<u32>,
                }
            } else {
                old(self).act_turn
            }),
            r is Err ==> *final(self) == *old(self),
    {
        let v = match self.get_number_contents(bml, expr, data, app) {
            Ok(v) => v,
            Err(e) => {
                return Err(e);
            },
        };
        let frame = turns_of(v);
        self.do_wait(frame);
        self.act = None;
        Ok(())
    }

    /// Executes a repeat node: evaluates its times child once, truncated
    /// toward zero, and — for a positive count — pushes a repetition
    /// frame and descends into the loop body.  A count of zero skips the
    /// body entirely, so that a repeat always runs its body exactly as
    /// many times as the count says.  A repeat without a times child or
    /// without a body cannot act.
    fn run_repeat<D, R: AppRunner<D>>(
        &mut self,
        bml: &BulletML,
        act: u32,
        data: &mut D,
        app: &mut R,
    ) -> (r: Result<(), RunError>)
        requires
            bml.wf(),
            old(self).act == Some(act),
            act < bml.spec_len(),
        ensures
            *final(self) == (RunnerImpl {
                act: final(self).act,
                repeat_stack: final(self).repeat_stack,
                ..*old(self)
            }),
            old(self).wf_for(*bml) ==> final(self).wf_for(*bml),
            (spec_times_of(*bml, act) matches Some(te) && te matches BulletMLExpression::Const(_)
                && spec_action_child_of(*bml, act) is Some) ==> r is Ok,
            match r {
                Ok(_) => match spec_times_of(*bml, act) {
                    Some(te) => exists|v: i64|
                        #![trigger crate::num::spec_count(v as int)]
                        spec_expr_value(*bml, te, old(self).parameters@, v) && (
                        if crate::num::spec_count(v as int) == 0 {
                            final(self).act is None && final(self).repeat_stack@ == old(
                                self,
                            ).repeat_stack@
                        } else {
                            match spec_action_child_of(*bml, act) {
                                Some(body) => {
                                    &&& final(self).repeat_stack@.len() == old(
                                        self,
                                    ).repeat_stack@.len() + 1
                                    &&& final(self).repeat_stack@.drop_last() =~= old(
                                        self,
                                    ).repeat_stack@
                                    &&& final(self).repeat_stack@.last() == (RepeatElem {
                                        iter: 0,
                                        end: crate::num::spec_count(v as int) as usize,
                                        act: body,
                                    })
                                    &&& final(self).act == Some(body)
                                },
                                None => false,
                            }
                        }),
                    None => false,
                },
                Err(e) => (e matches RunError::MalformedSubtree(h) && h == act && (spec_times_of(
                    *bml,
                    act,
                ) is None || spec_action_child_of(*bml, act) is None)) || (e
                    matches RunError::ParameterOutOfRange(n) && match spec_times_of(*bml, act) {
                    Some(te) => spec_expr_fault(*bml, te, old(self).parameters@, n),
                    None => false,
                }),
            },
    {
        let times_expr = match first_child_of_kind(bml, act, ChildKind::Times) {
            Some(t) => match bml.node(t).match_times() {
                Some(e) => e,
                None => {
                    return Err(RunError::MalformedSubtree(act));
                },
            },
            None => {
                return Err(RunError::MalformedSubtree(act));
            },
        };
        proof {
            assert(spec_times_of(*bml, act) == Some(times_expr));
        }
        let v = match self.get_number_contents(bml, times_expr, data, app) {
            Ok(v) => v,
            Err(e) => {
                return Err(e);
            },
        };
        let times = count_of(v);
        let action = match first_child_of_kind(bml, act, ChildKind::AnyAction) {
            Some(a) => a,
            None => {
                return Err(RunError::MalformedSubtree(act));
            },
        };
        if times == 0 {
            self.act = None;
            return Ok(());
        }
        let ghost rs = self.repeat_stack@;
        self.repeat_stack.push(RepeatElem { iter: 0, end: times, act: action });
        proof {
            if old(self).wf_for(*bml) {
                assert forall|i: int|
                    0 <= i < self.repeat_stack@.len() implies ((
                #[trigger] self.repeat_stack@[i]).act < bml.spec_len()
                    && self.repeat_stack@[i].iter < self.repeat_stack@[i].end) by {
                    if i < rs.len() {
                        assert(self.repeat_stack@[i] == rs[i]);
                    }
                }
            }
            assert(self.repeat_stack@.drop_last() =~= rs);
        }
        self.act = Some(action);
        Ok(())
    }

    /// Executes a reference node: evaluates its `param` children into a
    /// fresh parameter list, pushes an expansion frame saving the active
    /// list and the node to resume after the expansion, swaps the fresh
    /// list in, and jumps to the referenced definition.
    fn run_ref<D, R: AppRunner<D>>(
        &mut self,
        bml: &BulletML,
        act: u32,
        ref_id: u32,
        data: &mut D,
        app: &mut R,
    ) -> (r: Result<(), RunError>)
        requires
            bml.wf(),
            old(self).act == Some(act),
            act < bml.spec_len(),
            ref_id < bml.spec_len(),
        ensures
            *final(self) == (RunnerImpl {
                act: final(self).act,
                parameters: final(self).parameters,
                ref_stack: final(self).ref_stack,
                ..*old(self)
            }),
            old(self).wf_for(*bml) ==> final(self).wf_for(*bml),
            r is Ok ==> {
                let ms = spec_all_matches(*bml, spec_children(*bml, act), ChildKind::Param);
                &&& final(self).ref_stack@.len() == old(self).ref_stack@.len() + 1
                &&& final(self).ref_stack@.drop_last() =~= old(self).ref_stack@
                &&& final(self).ref_stack@.last().ref_id == ref_id
                &&& final(self).ref_stack@.last().prev == act
                &&& final(self).ref_stack@.last().prev_parameters@ == old(self).parameters@
                &&& final(self).act == Some(ref_id)
                &&& final(self).parameters@.len() == ms.len()
                &&& forall|i: int|
                    0 <= i < ms.len() ==> spec_expr_value(
                        *bml,
                        spec_param_expr(*bml, ms[i]),
                        old(self).parameters@,
                        #[trigger] final(self).parameters@[i],
                    )
            },
            r is Err ==> (match r {
                Err(e) => e matches RunError::ParameterOutOfRange(n) && exists|i: int|
                    0 <= i < spec_all_matches(
                        *bml,
                        spec_children(*bml, act),
                        ChildKind::Param,
                    ).len() && spec_expr_fault(
                        *bml,
                        spec_param_expr(
                            *bml,
                            #[trigger] spec_all_matches(
                                *bml,
                                spec_children(*bml, act),
                                ChildKind::Param,
                            )[i],
                        ),
                        old(self).parameters@,
                        n,
                    ),
                Ok(_) => false,
            }) && *final(self) == *old(self),
            (forall|i: int|
                0 <= i < spec_all_matches(*bml, spec_children(*bml, act), ChildKind::Param).len()
                    ==> (#[trigger] spec_param_expr(
                    *bml,
                    spec_all_matches(*bml, spec_children(*bml, act), ChildKind::Param)[i],
                )) matches BulletMLExpression::Const(_)) ==> r is Ok,
    {
        let new_params = match self.get_parameters(bml, data, app) {
            Ok(ps) => ps,
            Err(e) => {
                return Err(e);
            },
        };
        let mut prev_parameters = new_params;
        core::mem::swap(&mut self.parameters, &mut prev_parameters);
        let ghost rs = self.ref_stack@;
        self.ref_stack.push(StackedRef { ref_id, prev: act, prev_parameters });
        proof {
            if old(self).wf_for(*bml) {
                assert forall|i: int|
                    0 <= i < self.ref_stack@.len() implies ((
                #[trigger] self.ref_stack@[i]).ref_id < bml.spec_len()
                    && self.ref_stack@[i].prev < bml.spec_len()) by {
                    if i < rs.len() {
                        assert(self.ref_stack@[i] == rs[i]);
                    }
                }
            }
            assert(self.ref_stack@.drop_last() =~= rs);
        }
        self.act = Some(ref_id);
        Ok(())
    }

    /// Executes a vanish node: commands the host to remove this bullet.
    /// Ends this step.
    fn run_vanish<D, R: AppRunner<D>>(&mut self, data: &mut D, app: &mut R)
        ensures
            *final(self) == (RunnerImpl { act: None, ..*old(self) }),
            forall|b: BulletML| #[trigger] old(self).wf_for(b) ==> final(self).wf_for(b),
    {
        app.do_vanish(data);
        self.act = None;
    }
}

/// A ramp with its gradient derived from its corners.
pub open spec fn spec_linear(first_x: u32, last_x: u32, first_y: i64, last_y: i64) -> LinearFunc {
    LinearFunc {
        first_x,
        last_x,
        first_y,
        last_y,
        gradient: spec_gradient(first_x, last_x, first_y, last_y) as i64,
    }
}

/// The direction ramp a change-direction node installs: an additive
/// delta over the term for a `sequence` change, and the shorter angular
/// path (the raw difference or its full-circle complement, whichever is
/// smaller in magnitude) otherwise.
pub open spec fn spec_dir_ramp(
    act_turn: u32,
    term: u32,
    dir_first: i64,
    direction: i64,
    seq: bool,
) -> LinearFunc {
    let final_turn = crate::num::spec_sat_add_u32(act_turn as int, term as int) as u32;
    if seq {
        spec_linear(
            act_turn,
            final_turn,
            dir_first,
            spec_sat_add(dir_first as int, clamp_i64((direction as int) * (term as int))) as i64,
        )
    } else {
        let s1 = spec_sat_sub(direction as int, dir_first as int);
        let s2 = if s1 > 0 {
            spec_sat_sub(s1, FULL_CIRCLE as int)
        } else {
            spec_sat_add(s1, FULL_CIRCLE as int)
        };
        let sp = if abs_of(s1) < abs_of(s2) {
            s1
        } else {
            s2
        };
        spec_linear(act_turn, final_turn, dir_first, spec_sat_add(dir_first as int, sp) as i64)
    }
}

/// The acceleration ramp an accelerate node installs for one axis.
pub open spec fn spec_accel_ramp(
    act_turn: u32,
    term: u32,
    first_spd: i64,
    value: i64,
    hv_type: HVType,
) -> LinearFunc {
    let final_turn = crate::num::spec_sat_add_u32(act_turn as int, term as int) as u32;
    let final_spd = match hv_type {
        HVType::Sequence => spec_sat_add(
            first_spd as int,
            clamp_i64((value as int) * (term as int)),
        ) as i64,
        HVType::Relative => spec_sat_add(first_spd as int, value as int) as i64,
        HVType::Absolute => value,
    };
    spec_linear(act_turn, final_turn, first_spd, final_spd)
}

/// The direction ramp a change-direction step installs in state `s`
/// when the term expression evaluates to `tv`, the host's current
/// direction reads `d0` and the direction value resolves to `dv`.
pub open spec fn spec_dir_ramp_at(s: RunnerImpl, tv: i64, d0: i64, dv: i64, seq_type: bool) -> LinearFunc {
    spec_dir_ramp(
        spec_act_turn(s),
        crate::num::spec_turns(tv as int) as u32,
        d0,
        dv,
        seq_type,
    )
}

/// The speed ramp a change-speed step installs in state `s` when the
/// term expression evaluates to `tv`, the host's current speed reads
/// `s0` and the target resolves to `sv`.
pub open spec fn spec_spd_ramp_at(s: RunnerImpl, tv: i64, s0: i64, sv: i64) -> LinearFunc {
    spec_linear(
        spec_act_turn(s),
        crate::num::spec_sat_add_u32(
            spec_act_turn(s) as int,
            crate::num::spec_turns(tv as int),
        ) as u32,
        s0,
        sv,
    )
}

/// The target of a sequence-typed speed change: the per-turn delta
/// times the term, added to the host's current speed.
pub open spec fn spec_seq_speed_target(raw: i64, turns: int, base: i64) -> int {
    spec_sat_add(clamp_i64((raw as int) * turns), base as int)
}

/// A handle the walker can legitimately give up on: a node of a kind
/// the walker never executes (a payload child or the document root), a
/// construct missing a child it needs in order to act, a repeat
/// boundary (whose repetition frame may be missing when a reference
/// jumped straight into a loop body), or a node with no parent to
/// climb to.  Bullets, actions, references, waits and vanishes are
/// never blamed.
pub open spec fn spec_walk_fault(bml: BulletML, h: u32) -> bool {
    h < bml.spec_len() && ((bml.parents@[h as int] is None) || match bml.nodes@[h as int] {
        BulletMLNode::Repeat => true,
        BulletMLNode::Fire(_) => spec_bullet_child_of(bml, h) is None,
        BulletMLNode::ChangeDirection => spec_term_of(bml, h) is None || spec_direction_of(
            bml,
            h,
        ) is None,
        BulletMLNode::ChangeSpeed => spec_term_of(bml, h) is None || spec_speed_of(bml, h) is None,
        BulletMLNode::Accel => spec_term_of(bml, h) is None,
        BulletMLNode::BulletML { .. } => true,
        BulletMLNode::Direction { .. } => true,
        BulletMLNode::Speed { .. } => true,
        BulletMLNode::Horizontal { .. } => true,
        BulletMLNode::Vertical { .. } => true,
        BulletMLNode::Term(_) => true,
        BulletMLNode::Times(_) => true,
        BulletMLNode::Param(_) => true,
        _ => false,
    })
}

/// What one frame step may do to an instance's own state, whatever the
/// host answered: an ended instance stays untouched; otherwise the root
/// cursor array keeps its length, the identity fields are preserved,
/// the resume turn never moves backwards, and the cursor index either
/// stays or advances by one — advancing exactly onto the next root
/// cursor, which enforces that sibling root cursors run strictly in
/// order, never interleaved.
pub open spec fn spec_frame_rel(pre: RunnerImpl, post: RunnerImpl) -> bool {
    &&& (pre.end ==> post == pre)
    &&& post.nodes@.len() == pre.nodes@.len()
    &&& post.root_nodes@ == pre.root_nodes@
    &&& post.bml_type == pre.bml_type
    &&& spec_act_turn(post) >= spec_act_turn(pre)
    &&& (post.act_iter == pre.act_iter || post.act_iter == pre.act_iter + 1)
    &&& (post.act_iter == pre.act_iter + 1 ==> post.act == (if post.act_iter
        < post.nodes@.len() {
        Some(post.nodes@[post.act_iter as int])
    } else {
        None::<u32>
    }))
}

/// One admissible outcome of a change-direction step at node `a`: the
/// term evaluated to `tv`, the host's direction read `d0`, the
/// direction value resolved to `dv` (an additive per-turn delta for a
/// sequence-typed change, the normalized resolution otherwise), and the
/// matching ramp was installed.
pub open spec fn spec_dir_witness(
    bml: BulletML,
    pre: RunnerImpl,
    post: RunnerImpl,
    a: u32,
    tv: i64,
    dv: i64,
    d0: i64,
) -> bool {
    match (spec_term_of(bml, a), spec_direction_of(bml, a)) {
        (Some(te), Some((dt, de))) => {
            let seq_type = dt == Some(DirectionType::Sequence);
            &&& spec_expr_value(bml, te, pre.parameters@, tv)
            &&& if seq_type {
                spec_expr_value(bml, de, pre.parameters@, dv)
            } else {
                exists|raw: i64, host: i64|
                    #![trigger spec_dir_mix(pre, dt, raw, host)]
                    spec_expr_value(bml, de, pre.parameters@, raw) && dv as int == spec_norm(
                        spec_dir_mix(pre, dt, raw, host),
                    )
            }
            &&& post.change_dir == Some(spec_dir_ramp_at(pre, tv, d0, dv, seq_type))
        },
        _ => false,
    }
}

/// One admissible outcome of a change-speed step at node `a`: the term
/// evaluated to `tv`, the host's speed read `s0` for the ramp base, the
/// target resolved to `sv` (over one more host speed reading for a
/// sequence-typed change), and the matching ramp was installed.
pub open spec fn spec_spd_witness(
    bml: BulletML,
    pre: RunnerImpl,
    post: RunnerImpl,
    a: u32,
    tv: i64,
    sv: i64,
    s0: i64,
) -> bool {
    match (spec_term_of(bml, a), spec_speed_of(bml, a)) {
        (Some(te), Some((st, se))) => {
            let seq_type = st == Some(SpeedType::Sequence);
            &&& spec_expr_value(bml, te, pre.parameters@, tv)
            &&& if seq_type {
                exists|raw: i64, base: i64|
                    #![trigger spec_seq_speed_target(raw, crate::num::spec_turns(tv as int), base)]
                    spec_expr_value(bml, se, pre.parameters@, raw) && sv as int
                        == spec_seq_speed_target(raw, crate::num::spec_turns(tv as int), base)
            } else {
                exists|raw: i64, host: i64|
                    #![trigger spec_spd_mix(pre, st, raw, host)]
                    spec_expr_value(bml, se, pre.parameters@, raw) && sv as int == spec_spd_mix(
                        pre,
                        st,
                        raw,
                        host,
                    )
            }
            &&& post.change_spd == Some(spec_spd_ramp_at(pre, tv, s0, sv))
        },
        _ => false,
    }
}

/// One admissible outcome for a single acceleration axis: with no
/// child feeding the axis its ramp slot is untouched; otherwise the
/// child's expression evaluated to some `raw` and, over some host
/// axis-speed reading, the matching ramp was installed.
pub open spec fn spec_axis_witness(
    bml: BulletML,
    pre: RunnerImpl,
    src: Option<(HVType, BulletMLExpression)>,
    tv: i64,
    pre_slot: Option<LinearFunc>,
    post_slot: Option<LinearFunc>,
) -> bool {
    match src {
        None => post_slot == pre_slot,
        Some((t, e)) => exists|raw: i64, s0: i64|
            #![trigger spec_accel_ramp(spec_act_turn(pre), crate::num::spec_turns(tv as int) as u32, s0, raw, t)]
            spec_expr_value(bml, e, pre.parameters@, raw) && post_slot == Some(
                spec_accel_ramp(
                    spec_act_turn(pre),
                    crate::num::spec_turns(tv as int) as u32,
                    s0,
                    raw,
                    t,
                ),
            ),
    }
}

/// One admissible outcome of an accelerate step at node `a`: the term
/// evaluated to `tv` and each axis fared as `spec_axis_witness` says —
/// under the horizontal coordinate system the vertical child feeds the
/// horizontal slot and the horizontal child the vertical one.
pub open spec fn spec_accel_witness(
    bml: BulletML,
    pre: RunnerImpl,
    post: RunnerImpl,
    a: u32,
    tv: i64,
) -> bool {
    &&& match spec_term_of(bml, a) {
        Some(te) => spec_expr_value(bml, te, pre.parameters@, tv),
        None => false,
    }
    &&& spec_axis_witness(
        bml,
        pre,
        if pre.bml_type == Some(BulletMLType::Horizontal) {
            spec_vertical_of(bml, a)
        } else {
            spec_horizontal_of(bml, a)
        },
        tv,
        pre.accel_x,
        post.accel_x,
    )
    &&& spec_axis_witness(
        bml,
        pre,
        if pre.bml_type == Some(BulletMLType::Horizontal) {
            spec_horizontal_of(bml, a)
        } else {
            spec_vertical_of(bml, a)
        },
        tv,
        pre.accel_y,
        post.accel_y,
    )
}

/// A live ramp survives the frame at `now` exactly when its last turn
/// still lies ahead.
pub open spec fn spec_ramp_step(o: Option<LinearFunc>, now: u32) -> Option<LinearFunc> {
    match o {
        Some(f) => if now >= f.last_x {
            None
        } else {
            o
        },
        None => None,
    }
}

/// The resume turn of an instance, zero while none is recorded yet.
pub open spec fn spec_act_turn(s: RunnerImpl) -> u32 {
    match s.act_turn {
        Some(t) => t,
        None => 0,
    }
}

impl RunnerImpl {
    /// Installs the direction ramp for a change-direction node,
    /// anchored at the current resume turn, toward `direction` (or by
    /// `direction` per turn for a `sequence` change) from the host's
    /// current direction `dir_first`.
    fn calc_change_direction(&mut self, direction: i64, term: u32, seq: bool, dir_first: i64)
        ensures
            *final(self) == (RunnerImpl {
                change_dir: Some(
                    spec_dir_ramp(spec_act_turn(*old(self)), term, dir_first, direction, seq),
                ),
                ..*old(self)
            }),
    {
        let act_turn = match self.act_turn {
            Some(t) => t,
            None => 0,
        };
        let final_turn = sat_add_u32(act_turn, term);
        if seq {
            self.change_dir = Some(
                LinearFunc::new(
                    act_turn,
                    final_turn,
                    dir_first,
                    sat_add(dir_first, sat_mul_by(direction, term)),
                ),
            );
        } else {
            let dir_space1 = sat_sub(direction, dir_first);
            let dir_space2 = if dir_space1 > 0 {
                sat_sub(dir_space1, FULL_CIRCLE)
            } else {
                sat_add(dir_space1, FULL_CIRCLE)
            };
            let dir_space = if mag_of(dir_space1) < mag_of(dir_space2) {
                dir_space1
            } else {
                dir_space2
            };
            self.change_dir = Some(
                LinearFunc::new(act_turn, final_turn, dir_first, sat_add(dir_first, dir_space)),
            );
        }
    }

    /// Installs the speed ramp for a change-speed node, anchored at the
    /// current resume turn, from the host's current speed toward
    /// `speed`.
    fn calc_change_speed(&mut self, speed: i64, term: u32, spd_first: i64)
        ensures
            *final(self) == (RunnerImpl {
                change_spd: Some(
                    spec_linear(
                        spec_act_turn(*old(self)),
                        crate::num::spec_sat_add_u32(
                            spec_act_turn(*old(self)) as int,
                            term as int,
                        ) as u32,
                        spd_first,
                        speed,
                    ),
                ),
                ..*old(self)
            }),
    {
        let act_turn = match self.act_turn {
            Some(t) => t,
            None => 0,
        };
        let final_turn = sat_add_u32(act_turn, term);
        self.change_spd = Some(LinearFunc::new(act_turn, final_turn, spd_first, speed));
    }

    /// The acceleration ramp for one axis, anchored at the current
    /// resume turn.
    fn calc_accel_xy(&self, first_spd: i64, value: i64, term: u32, hv_type: HVType) -> (r: Option<
        LinearFunc,
    >)
        ensures
            r == Some(spec_accel_ramp(spec_act_turn(*self), term, first_spd, value, hv_type)),
    {
        let act_turn = match self.act_turn {
            Some(t) => t,
            None => 0,
        };
        let final_turn = sat_add_u32(act_turn, term);
        let final_spd = match hv_type {
            HVType::Sequence => sat_add(first_spd, sat_mul_by(value, term)),
            HVType::Relative => sat_add(first_spd, value),
            HVType::Absolute => value,
        };
        Some(LinearFunc::new(act_turn, final_turn, first_spd, final_spd))
    }

    /// Executes a change-direction node: reads its term and direction
    /// children, computes the ramp and installs it.  Ends this step.
    fn run_change_direction<D, R: AppRunner<D>>(
        &mut self,
        bml: &BulletML,
        data: &mut D,
        app: &mut R,
    ) -> (r: Result<(), RunError>)
        requires
            bml.wf(),
            old(self).act matches Some(a) && a < bml.spec_len(),
        ensures
            *final(self) == (RunnerImpl {
                act: final(self).act,
                change_dir: final(self).change_dir,
                prev_dir: final(self).prev_dir,
                ..*old(self)
            }),
            forall|b: BulletML| #[trigger] old(self).wf_for(b) ==> final(self).wf_for(b),
            r is Ok ==> final(self).act is None,
            r is Err ==> final(self).change_dir == old(self).change_dir,
            old(self).act matches Some(a) ==> (r is Ok ==> exists|tv: i64, dv: i64, d0: i64|
                #[trigger] spec_dir_witness(*bml, *old(self), *final(self), a, tv, dv, d0)),
            old(self).act matches Some(a) ==> (r is Ok ==> match spec_direction_of(*bml, a) {
                Some((dt, _)) => dt == Some(DirectionType::Sequence) ==> final(self).prev_dir
                    == old(self).prev_dir,
                None => true,
            }),
            old(self).act matches Some(a) ==> (match r {
                Err(e) => (e matches RunError::MalformedSubtree(h) && h == a && (spec_term_of(
                    *bml,
                    a,
                ) is None || spec_direction_of(*bml, a) is None)) || (e
                    matches RunError::ParameterOutOfRange(n) && ((match spec_term_of(*bml, a) {
                    Some(te) => spec_expr_fault(*bml, te, old(self).parameters@, n),
                    None => false,
                }) || (match spec_direction_of(*bml, a) {
                    Some((_, de)) => spec_expr_fault(*bml, de, old(self).parameters@, n),
                    None => false,
                }))),
                Ok(_) => true,
            }),
            old(self).act matches Some(a) ==> ((match (
                spec_term_of(*bml, a),
                spec_direction_of(*bml, a),
            ) {
                (Some(te), Some((_, de))) => (te matches BulletMLExpression::Const(_)) && (de
                    matches BulletMLExpression::Const(_)),
                _ => false,
            }) ==> r is Ok),
    {
        let act = self.act.unwrap();
        let term_expr = match first_child_of_kind(bml, act, ChildKind::Term) {
            Some(t) => match bml.node(t).match_term() {
                Some(e) => e,
                None => {
                    return Err(RunError::MalformedSubtree(act));
                },
            },
            None => {
                return Err(RunError::MalformedSubtree(act));
            },
        };
        let (dir_type, dir_expr) = match first_child_of_kind(bml, act, ChildKind::Direction) {
            Some(d) => match bml.node(d).match_direction() {
                Some(p) => p,
                None => {
                    return Err(RunError::MalformedSubtree(act));
                },
            },
            None => {
                return Err(RunError::MalformedSubtree(act));
            },
        };
        proof {
            assert(spec_term_of(*bml, act) == Some(term_expr));
            assert(spec_direction_of(*bml, act) == Some((dir_type, dir_expr)));
        }
        let term_v = match self.get_number_contents(bml, term_expr, data, app) {
            Ok(v) => v,
            Err(e) => {
                return Err(e);
            },
        };
        let term = turns_of(term_v);
        let seq = matches!(dir_type, Some(DirectionType::Sequence));
        let dirv = if seq {
            match self.get_number_contents(bml, dir_expr, data, app) {
                Ok(v) => v,
                Err(e) => {
                    return Err(e);
                },
            }
        } else {
            match self.get_direction(bml, dir_type, dir_expr, data, app) {
                Ok(v) => v,
                Err(e) => {
                    return Err(e);
                },
            }
        };
        let dir_first = app.get_bullet_direction(data);
        self.calc_change_direction(dirv, term, seq, dir_first);
        self.act = None;
        proof {
            assert(spec_dir_witness(*bml, *old(self), *self, act, term_v, dirv, dir_first));
        }
        Ok(())
    }

    /// Executes a change-speed node: reads its term and speed children,
    /// computes the ramp and installs it.  Ends this step.
    fn run_change_speed<D, R: AppRunner<D>>(
        &mut self,
        bml: &BulletML,
        data: &mut D,
        app: &mut R,
    ) -> (r: Result<(), RunError>)
        requires
            bml.wf(),
            old(self).act matches Some(a) && a < bml.spec_len(),
        ensures
            *final(self) == (RunnerImpl {
                act: final(self).act,
                change_spd: final(self).change_spd,
                prev_spd: final(self).prev_spd,
                ..*old(self)
            }),
            forall|b: BulletML| #[trigger] old(self).wf_for(b) ==> final(self).wf_for(b),
            r is Ok ==> final(self).act is None,
            r is Err ==> final(self).change_spd == old(self).change_spd,
            old(self).act matches Some(a) ==> (r is Ok ==> exists|tv: i64, sv: i64, s0: i64|
                #[trigger] spec_spd_witness(*bml, *old(self), *final(self), a, tv, sv, s0)),
            old(self).act matches Some(a) ==> (r is Ok ==> match spec_speed_of(*bml, a) {
                Some((st, _)) => st == Some(SpeedType::Sequence) ==> final(self).prev_spd == old(
                    self,
                ).prev_spd,
                None => true,
            }),
            old(self).act matches Some(a) ==> (match r {
                Err(e) => (e matches RunError::MalformedSubtree(h) && h == a && (spec_term_of(
                    *bml,
                    a,
                ) is None || spec_speed_of(*bml, a) is None)) || (e
                    matches RunError::ParameterOutOfRange(n) && ((match spec_term_of(*bml, a) {
                    Some(te) => spec_expr_fault(*bml, te, old(self).parameters@, n),
                    None => false,
                }) || (match spec_speed_of(*bml, a) {
                    Some((_, se)) => spec_expr_fault(*bml, se, old(self).parameters@, n),
                    None => false,
                }))),
                Ok(_) => true,
            }),
            old(self).act matches Some(a) ==> ((match (
                spec_term_of(*bml, a),
                spec_speed_of(*bml, a),
            ) {
                (Some(te), Some((_, se))) => (te matches BulletMLExpression::Const(_)) && (se
                    matches BulletMLExpression::Const(_)),
                _ => false,
            }) ==> r is Ok),
    {
        let act = self.act.unwrap();
        let term_expr = match first_child_of_kind(bml, act, ChildKind::Term) {
            Some(t) => match bml.node(t).match_term() {
                Some(e) => e,
                None => {
                    return Err(RunError::MalformedSubtree(act));
                },
            },
            None => {
                return Err(RunError::MalformedSubtree(act));
            },
        };
        let (spd_type, spd_expr) = match first_child_of_kind(bml, act, ChildKind::Speed) {
            Some(d) => match bml.node(d).match_speed() {
                Some(p) => p,
                None => {
                    return Err(RunError::MalformedSubtree(act));
                },
            },
            None => {
                return Err(RunError::MalformedSubtree(act));
            },
        };
        proof {
            assert(spec_term_of(*bml, act) == Some(term_expr));
            assert(spec_speed_of(*bml, act) == Some((spd_type, spd_expr)));
        }
        let term_v = match self.get_number_contents(bml, term_expr, data, app) {
            Ok(v) => v,
            Err(e) => {
                return Err(e);
            },
        };
        let term = turns_of(term_v);
        let spd = if matches!(spd_type, Some(SpeedType::Sequence)) {
            let v = match self.get_number_contents(bml, spd_expr, data, app) {
                Ok(v) => v,
                Err(e) => {
                    return Err(e);
                },
            };
            let base = app.get_bullet_speed(data);
            let sv = sat_add(sat_mul_by(v, term), base);
            proof {
                assert(sv as int == spec_seq_speed_target(
                    v,
                    crate::num::spec_turns(term_v as int),
                    base,
                ));
            }
            sv
        } else {
            match self.get_speed(bml, spd_type, spd_expr, data, app) {
                Ok(v) => v,
                Err(e) => {
                    return Err(e);
                },
            }
        };
        let spd_first = app.get_bullet_speed(data);
        self.calc_change_speed(spd, term, spd_first);
        self.act = None;
        proof {
            assert(spec_spd_witness(*bml, *old(self), *self, act, term_v, spd, spd_first));
        }
        Ok(())
    }

    /// Executes an accelerate node: reads its term and its optional
    /// horizontal and vertical children, and installs the axis ramps —
    /// swapped when the document uses the horizontal coordinate system.
    /// Ends this step.
    fn run_accel<D, R: AppRunner<D>>(&mut self, bml: &BulletML, data: &mut D, app: &mut R) -> (r:
        Result<(), RunError>)
        requires
            bml.wf(),
            old(self).act matches Some(a) && a < bml.spec_len(),
        ensures
            *final(self) == (RunnerImpl {
                act: final(self).act,
                accel_x: final(self).accel_x,
                accel_y: final(self).accel_y,
                ..*old(self)
            }),
            forall|b: BulletML| #[trigger] old(self).wf_for(b) ==> final(self).wf_for(b),
            r is Ok ==> final(self).act is None,
            r is Err ==> (final(self).accel_x == old(self).accel_x || (final(self).accel_x
                is Some)) && (final(self).accel_y == old(self).accel_y || (final(self).accel_y
                is Some)),
            old(self).act matches Some(a) ==> (r is Ok ==> exists|tv: i64|
                #[trigger] spec_accel_witness(*bml, *old(self), *final(self), a, tv)),
            old(self).act matches Some(a) ==> (match r {
                Err(e) => (e matches RunError::MalformedSubtree(h) && h == a && spec_term_of(
                    *bml,
                    a,
                ) is None) || (e matches RunError::ParameterOutOfRange(n) && ((match spec_term_of(
                    *bml,
                    a,
                ) {
                    Some(te) => spec_expr_fault(*bml, te, old(self).parameters@, n),
                    None => false,
                }) || (match spec_horizontal_of(*bml, a) {
                    Some((_, he)) => spec_expr_fault(*bml, he, old(self).parameters@, n),
                    None => false,
                }) || (match spec_vertical_of(*bml, a) {
                    Some((_, ve)) => spec_expr_fault(*bml, ve, old(self).parameters@, n),
                    None => false,
                }))),
                Ok(_) => true,
            }),
            old(self).act matches Some(a) ==> (((match spec_term_of(*bml, a) {
                Some(te) => te matches BulletMLExpression::Const(_),
                None => false,
            }) && (match spec_horizontal_of(*bml, a) {
                Some((_, he)) => he matches BulletMLExpression::Const(_),
                None => true,
            }) && (match spec_vertical_of(*bml, a) {
                Some((_, ve)) => ve matches BulletMLExpression::Const(_),
                None => true,
            })) ==> r is Ok),
    {
        let act = self.act.unwrap();
        let term_expr = match first_child_of_kind(bml, act, ChildKind::Term) {
            Some(t) => match bml.node(t).match_term() {
                Some(e) => e,
                None => {
                    return Err(RunError::MalformedSubtree(act));
                },
            },
            None => {
                return Err(RunError::MalformedSubtree(act));
            },
        };
        proof {
            assert(spec_term_of(*bml, act) == Some(term_expr));
        }
        let term_v = match self.get_number_contents(bml, term_expr, data, app) {
            Ok(v) => v,
            Err(e) => {
                return Err(e);
            },
        };
        let term = turns_of(term_v);
        let horizontal = match first_child_of_kind(bml, act, ChildKind::Horizontal) {
            Some(h) => bml.node(h).match_horizontal(),
            None => None,
        };
        let vertical = match first_child_of_kind(bml, act, ChildKind::Vertical) {
            Some(v) => bml.node(v).match_vertical(),
            None => None,
        };
        proof {
            assert(spec_horizontal_of(*bml, act) == horizontal);
            assert(spec_vertical_of(*bml, act) == vertical);
        }
        if matches!(self.bml_type, Some(BulletMLType::Horizontal)) {
            if let Some((v_type, v)) = vertical {
                let sx = app.get_bullet_speed_x();
                let val = match self.get_number_contents(bml, v, data, app) {
                    Ok(x) => x,
                    Err(e) => {
                        return Err(e);
                    },
                };
                self.accel_x = self.calc_accel_xy(sx, val, term, v_type);
                proof {
                    assert(self.accel_x == Some(
                        spec_accel_ramp(
                            spec_act_turn(*old(self)),
                            crate::num::spec_turns(term_v as int) as u32,
                            sx,
                            val,
                            v_type,
                        ),
                    ));
                }
            }
            if let Some((h_type, h)) = horizontal {
                let sy = app.get_bullet_speed_y();
                let val = match self.get_number_contents(bml, h, data, app) {
                    Ok(x) => x,
                    Err(e) => {
                        return Err(e);
                    },
                };
                self.accel_y = self.calc_accel_xy(sy, val, term, h_type);
                proof {
                    assert(self.accel_y == Some(
                        spec_accel_ramp(
                            spec_act_turn(*old(self)),
                            crate::num::spec_turns(term_v as int) as u32,
                            sy,
                            val,
                            h_type,
                        ),
                    ));
                }
            }
        } else {
            if let Some((h_type, h)) = horizontal {
                let sx = app.get_bullet_speed_x();
                let val = match self.get_number_contents(bml, h, data, app) {
                    Ok(x) => x,
                    Err(e) => {
                        return Err(e);
                    },
                };
                self.accel_x = self.calc_accel_xy(sx, val, term, h_type);
                proof {
                    assert(self.accel_x == Some(
                        spec_accel_ramp(
                            spec_act_turn(*old(self)),
                            crate::num::spec_turns(term_v as int) as u32,
                            sx,
                            val,
                            h_type,
                        ),
                    ));
                }
            }
            if let Some((v_type, v)) = vertical {
                let sy = app.get_bullet_speed_y();
                let val = match self.get_number_contents(bml, v, data, app) {
                    Ok(x) => x,
                    Err(e) => {
                        return Err(e);
                    },
                };
                self.accel_y = self.calc_accel_xy(sy, val, term, v_type);
                proof {
                    assert(self.accel_y == Some(
                        spec_accel_ramp(
                            spec_act_turn(*old(self)),
                            crate::num::spec_turns(term_v as int) as u32,
                            sy,
                            val,
                            v_type,
                        ),
                    ));
                }
            }
        }
        self.act = None;
        proof {
            assert(spec_accel_witness(*bml, *old(self), *self, act, term_v));
        }
        Ok(())
    }

    /// Advances every live ramp at turn `now`: reports each ramp's value
    /// for this turn to the host — the exact final value once `now`
    /// reaches the ramp's last turn — and clears every ramp that has
    /// finished.  A direction report is normalized into
    /// `[0, FULL_CIRCLE)` before it reaches the host; speed and
    /// acceleration reports are handed over as they are.
    fn changes<D, R: AppRunner<D>>(&mut self, now: u32, data: &mut D, app: &mut R)
        ensures
            *final(self) == (RunnerImpl {
                change_dir: spec_ramp_step(old(self).change_dir, now),
                change_spd: spec_ramp_step(old(self).change_spd, now),
                accel_x: spec_ramp_step(old(self).accel_x, now),
                accel_y: spec_ramp_step(old(self).accel_y, now),
                ..*old(self)
            }),
    {
        if let Some(f) = self.change_dir {
            if f.is_last(now) {
                app.do_change_direction(data, norm_deg(f.get_last()));
                self.change_dir = None;
            } else {
                app.do_change_direction(data, norm_deg(f.output_at(now)));
            }
        }
        if let Some(f) = self.change_spd {
            if f.is_last(now) {
                app.do_change_speed(data, f.get_last());
                self.change_spd = None;
            } else {
                app.do_change_speed(data, f.output_at(now));
            }
        }
        if let Some(f) = self.accel_x {
            if f.is_last(now) {
                app.do_accel_x(f.get_last());
                self.accel_x = None;
            } else {
                app.do_accel_x(f.output_at(now));
            }
        }
        if let Some(f) = self.accel_y {
            if f.is_last(now) {
                app.do_accel_y(f.get_last());
                self.accel_y = None;
            } else {
                app.do_accel_y(f.output_at(now));
            }
        }
    }
}

/// Whether a handle is one of the instance's root cursors.
fn contains_handle(v: &Vec<u32>, h: u32) -> (r: bool)
    ensures
        r == v@.contains(h),
{
    let mut i: usize = 0;
    while i < v.len()
        invariant
            i <= v@.len(),
            forall|j: int| 0 <= j < i ==> v@[j] != h,
        decreases v@.len() - i,
    {
        if v[i] == h {
            return true;
        }
        i = i + 1;
    }
    false
}

impl RunnerImpl {
    /// Walks the document from the active node, executing nodes in
    /// sequence, until the subtree under the current root cursor is
    /// exhausted, a wait pushes the resume turn past the current frame,
    /// or the per-frame step budget runs out — in that last case the
    /// walk simply resumes where it stopped on a later call.
    ///
    /// After a node finishes without descending, the walker pops a
    /// finished reference expansion (restoring the saved parameter
    /// list), moves to the next sibling, or climbs to the parent —
    /// jumping back to the loop body instead when the parent is a
    /// repeat with passes left.  Climbing stops at a root cursor.
    ///
    /// `Ok(true)` says the walk stopped properly — no active node is
    /// left, or the resume turn lies past the current frame; `Ok(false)`
    /// says only the step budget ran out.
    fn run_sub<D, R: AppRunner<D>>(&mut self, bml: &BulletML, data: &mut D, app: &mut R) -> (r:
        Result<bool, RunError>)
        requires
            bml.wf(),
            old(self).wf_for(*bml),
            old(self).act_turn is Some,
        ensures
            match r {
                Ok(done) => (done ==> (final(self).act is None || final(self).spec_turn_end())) && (
                !done ==> (final(self).act is Some) && !final(self).spec_turn_end()),
                Err(e) => match e {
                    RunError::DanglingReference(l) => spec_lookup(bml.bullet_refs@, l@) is None
                        || spec_lookup(bml.action_refs@, l@) is None || spec_lookup(
                        bml.fire_refs@,
                        l@,
                    ) is None,
                    RunError::MalformedSubtree(h) => spec_walk_fault(*bml, h),
                    RunError::ParameterOutOfRange(_) => true,
                },
            },
            final(self).wf_for(*bml),
            final(self).act_turn is Some,
            final(self).nodes@ == old(self).nodes@,
            final(self).root_nodes@ == old(self).root_nodes@,
            final(self).act_iter == old(self).act_iter,
            final(self).end == old(self).end,
            final(self).end_turn == old(self).end_turn,
            final(self).bml_type == old(self).bml_type,
            spec_act_turn(*final(self)) >= spec_act_turn(*old(self)),
            final(self).change_dir == old(self).change_dir || final(self).change_dir is Some,
            final(self).change_spd == old(self).change_spd || final(self).change_spd is Some,
            final(self).accel_x == old(self).accel_x || final(self).accel_x is Some,
            final(self).accel_y == old(self).accel_y || final(self).accel_y is Some,
            old(self).act matches Some(w) ==> ((r is Ok && !old(self).spec_turn_end())
                ==> (match bml.nodes@[w as int] {
                BulletMLNode::Wait(BulletMLExpression::Const(c)) => spec_act_turn(*final(self))
                    as int >= crate::num::spec_sat_add_u32(
                    spec_act_turn(*old(self)) as int,
                    crate::num::spec_turns(c as int),
                ),
                _ => true,
            })),
    {
        let mut fuel: u32 = u32::MAX;
        let mut cont: bool = match self.act {
            Some(_) => !self.is_turn_end(),
            None => false,
        };
        while cont && fuel > 0
            invariant
                bml.wf(),
                self.wf_for(*bml),
                self.act_turn is Some,
                cont == (self.act is Some && !self.spec_turn_end()),
                self.nodes@ == old(self).nodes@,
                self.root_nodes@ == old(self).root_nodes@,
                self.act_iter == old(self).act_iter,
                self.end == old(self).end,
                self.end_turn == old(self).end_turn,
                self.bml_type == old(self).bml_type,
                spec_act_turn(*self) >= spec_act_turn(*old(self)),
                self.change_dir == old(self).change_dir || self.change_dir is Some,
                self.change_spd == old(self).change_spd || self.change_spd is Some,
                self.accel_x == old(self).accel_x || self.accel_x is Some,
                self.accel_y == old(self).accel_y || self.accel_y is Some,
                fuel == u32::MAX ==> self.act == old(self).act && spec_act_turn(*self)
                    == spec_act_turn(*old(self)),
                old(self).act matches Some(w) ==> ((!old(self).spec_turn_end() && fuel
                    < u32::MAX) ==> (match bml.nodes@[w as int] {
                    BulletMLNode::Wait(BulletMLExpression::Const(c)) => spec_act_turn(*self)
                        as int >= crate::num::spec_sat_add_u32(
                        spec_act_turn(*old(self)) as int,
                        crate::num::spec_turns(c as int),
                    ),
                    _ => true,
                })),
            decreases fuel,
        {
            let act = self.act.unwrap();
            app.log(data, bml.node(act));
            let res: Result<(), RunError> = match bml.node(act) {
                BulletMLNode::Bullet(_) => self.run_bullet(bml, data, app),
                BulletMLNode::Action(_) => {
                    self.run_action(bml);
                    Ok(())
                },
                BulletMLNode::Fire(_) => self.run_fire(bml, data, app),
                BulletMLNode::ChangeDirection => self.run_change_direction(bml, data, app),
                BulletMLNode::ChangeSpeed => self.run_change_speed(bml, data, app),
                BulletMLNode::Accel => self.run_accel(bml, data, app),
                BulletMLNode::Wait(e) => self.run_wait(bml, *e, data, app),
                BulletMLNode::Repeat => self.run_repeat(bml, act, data, app),
                BulletMLNode::BulletRef(label) => match bml.find_bullet(label) {
                    Some(t) => self.run_ref(bml, act, t, data, app),
                    None => Err(RunError::DanglingReference(label.clone())),
                },
                BulletMLNode::ActionRef(label) => match bml.find_action(label) {
                    Some(t) => self.run_ref(bml, act, t, data, app),
                    None => Err(RunError::DanglingReference(label.clone())),
                },
                BulletMLNode::FireRef(label) => match bml.find_fire(label) {
                    Some(t) => self.run_ref(bml, act, t, data, app),
                    None => Err(RunError::DanglingReference(label.clone())),
                },
                BulletMLNode::Vanish => {
                    self.run_vanish(data, app);
                    Ok(())
                },
                _ => Err(RunError::MalformedSubtree(act)),
            };
            match res {
                Ok(()) => {},
                Err(e) => {
                    return Err(e);
                },
            }
            let mut prev = act;
            loop
                invariant
                    bml.wf(),
                    self.wf_for(*bml),
                    self.act_turn is Some,
                    prev < bml.spec_len(),
                    self.act_iter < self.nodes@.len(),
                    self.nodes@ == old(self).nodes@,
                    self.root_nodes@ == old(self).root_nodes@,
                    self.act_iter == old(self).act_iter,
                    self.end == old(self).end,
                    self.end_turn == old(self).end_turn,
                    self.bml_type == old(self).bml_type,
                    spec_act_turn(*self) >= spec_act_turn(*old(self)),
                    self.change_dir == old(self).change_dir || self.change_dir is Some,
                    self.change_spd == old(self).change_spd || self.change_spd is Some,
                    self.accel_x == old(self).accel_x || self.accel_x is Some,
                    self.accel_y == old(self).accel_y || self.accel_y is Some,
                    old(self).act matches Some(w) ==> (!old(self).spec_turn_end()
                        ==> (match bml.nodes@[w as int] {
                        BulletMLNode::Wait(BulletMLExpression::Const(c)) => spec_act_turn(*self)
                            as int >= crate::num::spec_sat_add_u32(
                            spec_act_turn(*old(self)) as int,
                            crate::num::spec_turns(c as int),
                        ),
                        _ => true,
                    })),
                ensures
                    bml.wf(),
                    self.wf_for(*bml),
                    self.act_turn is Some,
                    self.act_iter < self.nodes@.len(),
                    self.nodes@ == old(self).nodes@,
                    self.root_nodes@ == old(self).root_nodes@,
                    self.act_iter == old(self).act_iter,
                    self.end == old(self).end,
                    self.end_turn == old(self).end_turn,
                    self.bml_type == old(self).bml_type,
                    spec_act_turn(*self) >= spec_act_turn(*old(self)),
                    self.change_dir == old(self).change_dir || self.change_dir is Some,
                    self.change_spd == old(self).change_spd || self.change_spd is Some,
                    self.accel_x == old(self).accel_x || self.accel_x is Some,
                    self.accel_y == old(self).accel_y || self.accel_y is Some,
                    old(self).act matches Some(w) ==> (!old(self).spec_turn_end()
                        ==> (match bml.nodes@[w as int] {
                        BulletMLNode::Wait(BulletMLExpression::Const(c)) => spec_act_turn(*self)
                            as int >= crate::num::spec_sat_add_u32(
                            spec_act_turn(*old(self)) as int,
                            crate::num::spec_turns(c as int),
                        ),
                        _ => true,
                    })),
                decreases self.ref_stack@.len(), prev,
            {
                if self.act.is_none() {
                    let rlen = self.ref_stack.len();
                    if rlen > 0 && self.ref_stack[rlen - 1].ref_id == prev {
                        let top = self.ref_stack.pop().unwrap();
                        prev = top.prev;
                        self.parameters = top.prev_parameters;
                    }
                    if !contains_handle(&self.root_nodes, prev) {
                        self.act = bml.next_sibling_of(prev);
                    }
                }
                if self.act.is_some() || contains_handle(&self.root_nodes, prev) {
                    break;
                }
                match bml.parent_of(prev) {
                    Some(parent) => {
                        if matches!(bml.node(parent), BulletMLNode::Repeat) {
                            let rl = self.repeat_stack.len();
                            if rl == 0 {
                                return Err(RunError::MalformedSubtree(parent));
                            }
                            let mut rep = self.repeat_stack[rl - 1];
                            let ghost rs = self.repeat_stack@;
                            rep.iter = rep.iter + 1;
                            proof {
                                assert(spec_backedge(rs.last()) == (if rep.iter < rep.end {
                                    Some(rep)
                                } else {
                                    None::<RepeatElem>
                                }));
                            }
                            if rep.iter < rep.end {
                                self.repeat_stack[rl - 1] = rep;
                                proof {
                                    assert forall|i: int|
                                        0 <= i < self.repeat_stack@.len() implies ((
                                    #[trigger] self.repeat_stack@[i]).act < bml.spec_len()
                                        && self.repeat_stack@[i].iter
                                        < self.repeat_stack@[i].end) by {
                                        if i < rl - 1 {
                                            assert(self.repeat_stack@[i] == rs[i]);
                                        } else {
                                            assert(self.repeat_stack@[i] == rep);
                                        }
                                    }
                                }
                                self.act = Some(rep.act);
                                break;
                            }
                            self.repeat_stack.pop();
                        }
                        prev = parent;
                    },
                    None => {
                        return Err(RunError::MalformedSubtree(prev));
                    },
                }
            }
            fuel = fuel - 1;
            cont = match self.act {
                Some(_) => !self.is_turn_end(),
                None => false,
            };
        }
        Ok(!cont)
    }

    /// Advances this instance by one frame: first every live ramp
    /// reports its value for this turn, then — unless the instance is
    /// idle — the walker resumes at the active node.  An instance with
    /// no active node, no live ramp and no scheduled wake-up marks
    /// itself ended.  A walk failure marks the instance ended after
    /// reporting the failure to the host; the failure is also handed
    /// back, though a grouping caller is free to ignore it.
    pub fn run<D, R: AppRunner<D>>(&mut self, bml: &BulletML, data: &mut D, app: &mut R) -> (r:
        Result<(), RunError>)
        requires
            bml.wf(),
            old(self).wf_for(*bml),
        ensures
            final(self).wf_for(*bml),
            spec_frame_rel(*old(self), *final(self)),
            old(self).end ==> *final(self) == *old(self) && *final(data) == *old(data)
                && *final(app) == *old(app) && r is Ok,
            r is Err ==> final(self).end,
            (r is Ok && !old(self).end && old(self).act is Some) ==> final(self).end == old(
                self,
            ).end && (final(self).act_turn is Some),
            match r {
                Ok(_) => true,
                Err(e) => match e {
                    RunError::DanglingReference(l) => spec_lookup(bml.bullet_refs@, l@) is None
                        || spec_lookup(bml.action_refs@, l@) is None || spec_lookup(
                        bml.fire_refs@,
                        l@,
                    ) is None,
                    RunError::MalformedSubtree(h) => spec_walk_fault(*bml, h),
                    RunError::ParameterOutOfRange(_) => true,
                },
            },
            final(self).nodes@.len() == old(self).nodes@.len(),
            final(self).root_nodes@ == old(self).root_nodes@,
            final(self).bml_type == old(self).bml_type,
            !old(self).end ==> exists|now: u32|
                #![trigger spec_ramp_step(old(self).change_dir, now)]
                {
                    &&& final(self).change_dir == spec_ramp_step(old(self).change_dir, now)
                        || (final(self).change_dir is Some)
                    &&& final(self).change_spd == spec_ramp_step(old(self).change_spd, now)
                        || (final(self).change_spd is Some)
                    &&& final(self).accel_x == spec_ramp_step(old(self).accel_x, now)
                        || (final(self).accel_x is Some)
                    &&& final(self).accel_y == spec_ramp_step(old(self).accel_y, now)
                        || (final(self).accel_y is Some)
                },
            (!old(self).end && old(self).act is None) ==> exists|now: u32|
                #![trigger spec_ramp_step(old(self).change_dir, now)]
                *final(self) == (RunnerImpl {
                    change_dir: spec_ramp_step(old(self).change_dir, now),
                    change_spd: spec_ramp_step(old(self).change_spd, now),
                    accel_x: spec_ramp_step(old(self).accel_x, now),
                    accel_y: spec_ramp_step(old(self).accel_y, now),
                    end_turn: final(self).end_turn,
                    end: final(self).end,
                    ..*old(self)
                }),
            (!old(self).end && old(self).act is None) ==> final(self).end == ({
                &&& match old(self).act_turn {
                    Some(t) => t <= final(self).end_turn,
                    None => true,
                }
                &&& final(self).change_dir is None
                &&& final(self).change_spd is None
                &&& final(self).accel_x is None
                &&& final(self).accel_y is None
            }),
    {
        if self.is_end() {
            return Ok(());
        }
        let now = app.get_turn(data);
        self.changes(now, data, app);
        self.end_turn = app.get_turn(data);
        if self.act.is_none() {
            if !self.is_turn_end() && self.change_dir.is_none() && self.change_spd.is_none()
                && self.accel_x.is_none() && self.accel_y.is_none() {
                self.end = true;
            }
            proof {
                assert(*self == (RunnerImpl {
                    change_dir: spec_ramp_step(old(self).change_dir, now),
                    change_spd: spec_ramp_step(old(self).change_spd, now),
                    accel_x: spec_ramp_step(old(self).accel_x, now),
                    accel_y: spec_ramp_step(old(self).accel_y, now),
                    end_turn: self.end_turn,
                    end: self.end,
                    ..*old(self)
                }));
            }
            return Ok(());
        }
        self.act = Some(self.nodes[self.act_iter]);
        if self.act_turn.is_none() {
            self.act_turn = Some(app.get_turn(data));
        }
        match self.run_sub(bml, data, app) {
            Ok(_) => {
                match self.act {
                    None => {
                        let n = self.nodes.len();
                        proof {
                            assert(self.act_iter < self.nodes@.len());
                        }
                        self.act_iter = self.act_iter + 1;
                        if self.act_iter < n {
                            self.act = Some(self.nodes[self.act_iter]);
                        }
                    },
                    Some(a) => {
                        let ghost ns = self.nodes@;
                        self.nodes[self.act_iter] = a;
                        proof {
                            assert forall|i: int|
                                0 <= i < self.nodes@.len() implies #[trigger] self.nodes@[i]
                                < bml.spec_len() by {
                                if i != self.act_iter {
                                    assert(self.nodes@[i] == ns[i]);
                                }
                            }
                        }
                    },
                }
            },
            Err(e) => {
                app.report_failure(data, &e);
                self.end = true;
                return Err(e);
            },
        }
        Ok(())
    }
}

/// Whether a node is an action labeled as a top-level entry point.
pub open spec fn spec_is_top(n: BulletMLNode) -> bool {
    match n {
        BulletMLNode::Action(Some(l)) => spec_is_top_label(encode_utf8(l@)),
        _ => false,
    }
}

/// All handles of the chain whose nodes are top-level entry actions.
pub open spec fn spec_top_actions(bml: BulletML, chain: Seq<u32>) -> Seq<u32>
    decreases chain.len(),
{
    if chain.len() == 0 {
        Seq::empty()
    } else {
        let rest = spec_top_actions(bml, chain.drop_first());
        if chain[0] < bml.spec_len() && spec_is_top(bml.nodes@[chain[0] as int]) {
            seq![chain[0]] + rest
        } else {
            rest
        }
    }
}

/// Collects the top-level entry actions among the root's children.
fn top_action_children(bml: &BulletML) -> (r: Vec<u32>)
    requires
        bml.wf(),
    ensures
        r@ == spec_top_actions(*bml, spec_children(*bml, 0)),
        forall|i: int| 0 <= i < r@.len() ==> #[trigger] r@[i] < bml.spec_len(),
{
    let mut out: Vec<u32> = Vec::new();
    let mut cur = bml.first_child_of(0);
    while cur.is_some()
        invariant
            bml.wf(),
            match cur {
                Some(c) => c < bml.spec_len(),
                None => true,
            },
            spec_top_actions(*bml, spec_children(*bml, 0)) == out@ + spec_top_actions(
                *bml,
                spec_chain(*bml, cur),
            ),
            forall|i: int| 0 <= i < out@.len() ==> #[trigger] out@[i] < bml.spec_len(),
        decreases chain_measure(*bml, cur),
    {
        let c = cur.unwrap();
        let n = bml.node(c);
        proof {
            let chain = spec_chain(*bml, cur);
            assert(chain == match bml.next_siblings@[c as int] {
                Some(nx) => seq![c] + spec_chain(*bml, Some(nx)),
                None => seq![c],
            });
            assert(chain[0] == c);
            assert(chain.drop_first() =~= spec_chain(*bml, bml.next_siblings@[c as int]));
        }
        if n.is_top_action() {
            proof {
                let rest = spec_top_actions(
                    *bml,
                    spec_chain(*bml, bml.next_siblings@[c as int]),
                );
                assert(out@.push(c) =~= out@ + seq![c]);
                assert((out@ + seq![c]) + rest =~= out@ + (seq![c] + rest));
            }
            out.push(c);
        }
        cur = bml.next_sibling_of(c);
    }
    proof {
        assert(spec_chain(*bml, None::<u32>) =~= Seq::<u32>::empty());
        assert(out@ + Seq::<u32>::empty() =~= out@);
    }
    out
}

/// A freshly initialized instance whose single root state came from a
/// top-level action, or more generally from a snapshot: every piece of
/// bookkeeping cleared and the first cursor active.
pub open spec fn spec_fresh_engine(e: RunnerImpl, t: Option<BulletMLType>, root: u32) -> bool {
    &&& e.bml_type == t
    &&& e.nodes@ == seq![root]
    &&& e.root_nodes@ == e.nodes@
    &&& e.change_dir is None
    &&& e.change_spd is None
    &&& e.accel_x is None
    &&& e.accel_y is None
    &&& e.spd == (Validatable { value: 0i64, valid: false })
    &&& e.prev_spd == (Validatable { value: 0i64, valid: false })
    &&& e.dir == (Validatable { value: 0i64, valid: false })
    &&& e.prev_dir == (Validatable { value: 0i64, valid: false })
    &&& e.act == Some(root)
    &&& e.act_turn is None
    &&& e.end_turn == 0
    &&& e.act_iter == 0
    &&& !e.end
    &&& e.parameters@.len() == 0
    &&& e.repeat_stack@.len() == 0
    &&& e.ref_stack@.len() == 0
}

/// A group of pattern instances sharing one host capability: either all
/// top-level entry actions of a document, or one spawned sub-pattern
/// resuming from a snapshot.
pub struct Runner<R> {
    pub runners: Vec<RunnerImpl>,
    pub app_runner: R,
}

impl<R> Runner<R> {
    /// Every contained instance holds only handles of this document.
    pub open spec fn wf_for(self, bml: BulletML) -> bool {
        forall|i: int|
            0 <= i < self.runners@.len() ==> (#[trigger] self.runners@[i]).wf_for(bml)
    }

    /// One fresh instance per top-level entry action of the document,
    /// in document order, all sharing `app_runner`.
    pub fn new(app_runner: R, bml: &BulletML) -> (r: Self)
        requires
            bml.wf(),
        ensures
            r.wf_for(*bml),
            r.runners@.len() == spec_top_actions(*bml, spec_children(*bml, 0)).len(),
            forall|i: int|
                0 <= i < r.runners@.len() ==> spec_fresh_engine(
                    #[trigger] r.runners@[i],
                    match bml.nodes@[0] {
                        BulletMLNode::BulletML { bml_type } => bml_type,
                        _ => None,
                    },
                    spec_top_actions(*bml, spec_children(*bml, 0))[i],
                ),
    {
        let bml_type = bml.get_type();
        let tops = top_action_children(bml);
        let mut runners: Vec<RunnerImpl> = Vec::new();
        let mut i: usize = 0;
        while i < tops.len()
            invariant
                bml.wf(),
                i <= tops@.len(),
                runners@.len() == i,
                tops@ == spec_top_actions(*bml, spec_children(*bml, 0)),
                forall|j: int| 0 <= j < tops@.len() ==> #[trigger] tops@[j] < bml.spec_len(),
                bml_type == match bml.nodes@[0] {
                    BulletMLNode::BulletML { bml_type } => bml_type,
                    _ => None::<BulletMLType>,
                },
                forall|j: int|
                    0 <= j < i ==> spec_fresh_engine(
                        #[trigger] runners@[j],
                        bml_type,
                        tops@[j],
                    ) && runners@[j].wf_for(*bml),
            decreases tops@.len() - i,
        {
            let top = tops[i];
            let state = State { bml_type, nodes: vec![top], parameters: Vec::new() };
            proof {
                assert(state.nodes@ =~= seq![top]);
            }
            let engine = RunnerImpl::new(state);
            runners.push(engine);
            i = i + 1;
        }
        Runner { runners, app_runner }
    }

    /// Re-points this group at a document, exactly as `new` would, and
    /// lets the host capability reinitialize itself.
    pub fn init<D>(&mut self, bml: &BulletML) where R: AppRunner<D>
        requires
            bml.wf(),
        ensures
            final(self).wf_for(*bml),
            final(self).runners@.len() == spec_top_actions(*bml, spec_children(*bml, 0)).len(),
            forall|i: int|
                0 <= i < final(self).runners@.len() ==> spec_fresh_engine(
                    #[trigger] final(self).runners@[i],
                    match bml.nodes@[0] {
                        BulletMLNode::BulletML { bml_type } => bml_type,
                        _ => None,
                    },
                    spec_top_actions(*bml, spec_children(*bml, 0))[i],
                ),
    {
        let bml_type = bml.get_type();
        let tops = top_action_children(bml);
        self.runners.clear();
        let mut i: usize = 0;
        while i < tops.len()
            invariant
                bml.wf(),
                i <= tops@.len(),
                self.runners@.len() == i,
                tops@ == spec_top_actions(*bml, spec_children(*bml, 0)),
                forall|j: int| 0 <= j < tops@.len() ==> #[trigger] tops@[j] < bml.spec_len(),
                bml_type == match bml.nodes@[0] {
                    BulletMLNode::BulletML { bml_type } => bml_type,
                    _ => None::<BulletMLType>,
                },
                forall|j: int|
                    0 <= j < i ==> spec_fresh_engine(
                        #[trigger] self.runners@[j],
                        bml_type,
                        tops@[j],
                    ) && self.runners@[j].wf_for(*bml),
            decreases tops@.len() - i,
        {
            let top = tops[i];
            let state = State { bml_type, nodes: vec![top], parameters: Vec::new() };
            proof {
                assert(state.nodes@ =~= seq![top]);
            }
            let engine = RunnerImpl::new(state);
            self.runners.push(engine);
            i = i + 1;
        }
        self.app_runner.init();
    }

    /// One fresh instance resuming from a snapshot.
    pub fn new_from_state(app_runner: R, state: State) -> (r: Self)
        requires
            state.nodes@.len() >= 1,
        ensures
            r.runners@.len() == 1,
            r.runners@[0].act == Some(state.nodes@[0]),
            r.runners@[0].nodes@ == state.nodes@,
            r.runners@[0].parameters@ == state.parameters@,
            r.runners@[0].bml_type == state.bml_type,
            !r.runners@[0].end,
            forall|b: BulletML| #[trigger] state.wf_for(b) ==> r.wf_for(b),
    {
        let mut runners: Vec<RunnerImpl> = Vec::new();
        runners.push(RunnerImpl::new(state));
        Runner { runners, app_runner }
    }

    /// Replaces this group's instances by one resuming from a snapshot,
    /// and lets the host capability reinitialize itself.
    pub fn init_from_state<D>(&mut self, state: State) where R: AppRunner<D>
        requires
            state.nodes@.len() >= 1,
        ensures
            final(self).runners@.len() == 1,
            final(self).runners@[0].act == Some(state.nodes@[0]),
            final(self).runners@[0].nodes@ == state.nodes@,
            final(self).runners@[0].parameters@ == state.parameters@,
            final(self).runners@[0].bml_type == state.bml_type,
            !final(self).runners@[0].end,
            forall|b: BulletML| #[trigger] state.wf_for(b) ==> final(self).wf_for(b),
    {
        self.runners.clear();
        self.runners.push(RunnerImpl::new(state));
        self.app_runner.init();
    }

    /// Advances every contained instance by one frame, in storage
    /// order, all sharing this group's one host capability.  An ended
    /// instance is left untouched (its own step returns at once), and a
    /// per-instance failure ends only that instance — the host has
    /// already been told through its failure callback.
    pub fn run<D>(&mut self, bml: &BulletML, data: &mut D) where R: AppRunner<D>
        requires
            bml.wf(),
            old(self).wf_for(*bml),
        ensures
            final(self).wf_for(*bml),
            final(self).runners@.len() == old(self).runners@.len(),
            forall|i: int|
                0 <= i < old(self).runners@.len() ==> spec_frame_rel(
                    #[trigger] old(self).runners@[i],
                    final(self).runners@[i],
                ),
            forall|i: int|
                0 <= i < old(self).runners@.len() && (#[trigger] old(self).runners@[i]).end
                    ==> final(self).runners@[i] == old(self).runners@[i],
            (forall|i: int|
                0 <= i < old(self).runners@.len() ==> (#[trigger] old(self).runners@[i]).end)
                ==> (*final(data) == *old(data) && final(self).app_runner == old(self).app_runner),
    {
        let n = self.runners.len();
        let mut i: usize = 0;
        while i < n
            invariant
                bml.wf(),
                i <= n,
                self.runners@.len() == n,
                n == old(self).runners@.len(),
                self.wf_for(*bml),
                forall|j: int|
                    0 <= j < i ==> spec_frame_rel(
                        #[trigger] old(self).runners@[j],
                        self.runners@[j],
                    ),
                forall|j: int|
                    0 <= j < i && (#[trigger] old(self).runners@[j]).end ==> self.runners@[j]
                        == old(self).runners@[j],
                forall|j: int|
                    i <= j < n ==> #[trigger] self.runners@[j] == old(self).runners@[j],
                (forall|j: int|
                    0 <= j < n ==> (#[trigger] old(self).runners@[j]).end) ==> (*data == *old(
                    data,
                ) && self.app_runner == old(self).app_runner),
            decreases n - i,
        {
            let ghost before = self.runners@;
            let mut one = self.runners.remove(i);
            let _ = one.run(bml, data, &mut self.app_runner);
            self.runners.insert(i, one);
            proof {
                assert forall|j: int|
                    0 <= j < self.runners@.len() implies (#[trigger] self.runners@[j]).wf_for(
                    *bml,
                ) by {
                    if j < i {
                        assert(self.runners@[j] == before[j]);
                    } else if j > i {
                        assert(self.runners@[j] == before[j]);
                    }
                }
                assert forall|j: int| i + 1 <= j < n implies #[trigger] self.runners@[j] == old(
                    self,
                ).runners@[j] by {
                    assert(self.runners@[j] == before[j]);
                }
            }
            i = i + 1;
        }
    }

    /// Whether this group counts as ended: true as soon as any one of
    /// its instances has ended (deliberately not "all of them").
    pub fn is_end(&self) -> (r: bool)
        ensures
            r == exists|i: int| 0 <= i < self.runners@.len() && (#[trigger] self.runners@[i]).end,
    {
        let n = self.runners.len();
        let mut i: usize = 0;
        while i < n
            invariant
                i <= n,
                self.runners@.len() == n,
                forall|j: int| 0 <= j < i ==> !(#[trigger] self.runners@[j]).end,
            decreases n - i,
        {
            if self.runners[i].is_end() {
                return true;
            }
            i = i + 1;
        }
        false
    }
}

/// One crossing of a repeat boundary: the pass counter steps up, and
/// the walker jumps back into the body exactly when passes remain.
pub open spec fn spec_backedge(f: RepeatElem) -> Option<RepeatElem> {
    if f.iter + 1 < f.end {
        Some(RepeatElem { iter: (f.iter + 1) as usize, ..f })
    } else {
        None
    }
}

/// The repeat frame after `k` back-edge jumps, if that many happen.
pub open spec fn spec_backedges_taken(f: RepeatElem, k: nat) -> Option<RepeatElem>
    decreases k,
{
    if k == 0 {
        Some(f)
    } else {
        match spec_backedges_taken(f, (k - 1) as nat) {
            Some(g) => spec_backedge(g),
            None => None,
        }
    }
}

/// A repeat whose frame was pushed with target count `n` jumps back
/// into its body on exactly the first `n - 1` boundary crossings and
/// pops on the `n`-th; together with the descent at entry the body
/// therefore runs exactly `n` times, never `n - 1` or `n + 1`.
pub proof fn lemma_repeat_exact_count(f: RepeatElem, k: nat)
    requires
        f.iter == 0,
        f.end >= 1,
    ensures
        spec_backedges_taken(f, k) is Some <==> k < f.end,
        match spec_backedges_taken(f, k) {
            Some(g) => g.iter == k && g.end == f.end && g.act == f.act,
            None => true,
        },
    decreases k,
{
    if k > 0 {
        lemma_repeat_exact_count(f, (k - 1) as nat);
    }
}

/// After a reference expansion completes, the active parameter list is
/// exactly the one saved when the expansion began: the frame a push
/// leaves on top carries that list bit for bit, and popping it exposes
/// the stack from before the push — at any nesting depth, since the
/// stack below the frame is arbitrary here.
pub proof fn lemma_expansion_restores_parameters(
    stack: Seq<StackedRef>,
    frame: StackedRef,
    params_before: Seq<i64>,
)
    requires
        frame.prev_parameters@ == params_before,
    ensures
        stack.push(frame).last().prev_parameters@ == params_before,
        stack.push(frame).drop_last() =~= stack,
{
}

} // verus!
