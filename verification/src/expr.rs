//! The expression pool and its evaluator: compiled arithmetic over
//! literals, positional parameters, the difficulty rank and random
//! draws, evaluated against a pre-drawn random sequence so that the
//! result is pinned exactly by `spec_eval`.

use vstd::prelude::*;

use crate::num::{scaled_div, scaled_mul, sat_add, sat_sub};
use crate::num::{spec_sat_add, spec_sat_sub, spec_scaled_div, spec_scaled_mul};
use crate::errors::RunError;

verus! {

/// One entry of the compiled expression pool.  Operand fields are indexes
/// of earlier pool entries, so the pool as a whole is an append-only
/// forest: every operand of an entry lies strictly below that entry.
#[derive(Clone, Copy, Debug)]
pub enum ExprNode {
    /// A literal scalar.
    Lit(i64),
    /// The positional parameter with this one-based index.
    Param(u32),
    /// The host-supplied difficulty scalar.
    Rank,
    /// One fresh draw from the host's random source.
    Rand,
    /// Arithmetic negation of an earlier entry.
    Neg(u32),
    /// Saturating sum of two earlier entries.
    Plus(u32, u32),
    /// Saturating difference of two earlier entries.
    Minus(u32, u32),
    /// Fixed-point product of two earlier entries.
    Times(u32, u32),
    /// Fixed-point quotient of two earlier entries.
    Over(u32, u32),
}

/// Either a literal constant (the fast path that never enters the
/// evaluator) or a handle of a compiled expression pool entry.
#[derive(Clone, Copy, Debug)]
pub enum BulletMLExpression {
    Const(i64),
    Expr(u32),
}

/// Every operand index of this entry lies strictly below `i`.
pub open spec fn expr_node_wf(n: ExprNode, i: int) -> bool {
    match n {
        ExprNode::Lit(_) => true,
        ExprNode::Param(_) => true,
        ExprNode::Rank => true,
        ExprNode::Rand => true,
        ExprNode::Neg(e) => e < i,
        ExprNode::Plus(l, r) => l < i && r < i,
        ExprNode::Minus(l, r) => l < i && r < i,
        ExprNode::Times(l, r) => l < i && r < i,
        ExprNode::Over(l, r) => l < i && r < i,
    }
}

/// The whole pool is well formed.
pub open spec fn pool_wf(pool: Seq<ExprNode>) -> bool {
    forall|i: int| 0 <= i < pool.len() ==> expr_node_wf(#[trigger] pool[i], i)
}

/// How many random draws evaluating entry `i` consumes.  Every entry of a
/// pure arithmetic pool is evaluated exactly once, so this is the number
/// of `Rand` occurrences reached from `i`.
pub open spec fn rand_uses(pool: Seq<ExprNode>, i: int) -> nat
    decreases i,
{
    if 0 <= i < pool.len() {
        match pool[i] {
            ExprNode::Rand => 1,
            ExprNode::Neg(e) => if e < i {
                rand_uses(pool, e as int)
            } else {
                0
            },
            ExprNode::Plus(l, r) => if l < i && r < i {
                rand_uses(pool, l as int) + rand_uses(pool, r as int)
            } else {
                0
            },
            ExprNode::Minus(l, r) => if l < i && r < i {
                rand_uses(pool, l as int) + rand_uses(pool, r as int)
            } else {
                0
            },
            ExprNode::Times(l, r) => if l < i && r < i {
                rand_uses(pool, l as int) + rand_uses(pool, r as int)
            } else {
                0
            },
            ExprNode::Over(l, r) => if l < i && r < i {
                rand_uses(pool, l as int) + rand_uses(pool, r as int)
            } else {
                0
            },
            _ => 0,
        }
    } else {
        0
    }
}

/// Combines two operand outcomes under a binary operator, propagating the
/// leftmost failure.
pub open spec fn spec_eval_bin(l: Result<i64, u32>, r: Result<i64, u32>, op: ExprNode) -> Result<
    i64,
    u32,
> {
    match l {
        Err(n) => Err(n),
        Ok(a) => match r {
            Err(n) => Err(n),
            Ok(b) => Ok(
                match op {
                    ExprNode::Plus(_, _) => spec_sat_add(a as int, b as int) as i64,
                    ExprNode::Minus(_, _) => spec_sat_sub(a as int, b as int) as i64,
                    ExprNode::Times(_, _) => spec_scaled_mul(a as int, b as int) as i64,
                    ExprNode::Over(_, _) => spec_scaled_div(a as int, b as int) as i64,
                    _ => 0,
                },
            ),
        },
    }
}

/// The value of entry `i` under a parameter list, a rank and a pre-drawn
/// random sequence whose draws are consumed left to right starting at
/// offset `k` (a draw past the end of the sequence yields zero).  `Err`
/// carries the one-based index of the leftmost positional parameter
/// reference that lies outside the list.
pub open spec fn spec_eval(
    pool: Seq<ExprNode>,
    i: int,
    params: Seq<i64>,
    rank: i64,
    rands: Seq<i64>,
    k: nat,
) -> Result<i64, u32>
    decreases i,
{
    if 0 <= i < pool.len() {
        match pool[i] {
            ExprNode::Lit(v) => Ok(v),
            ExprNode::Param(n) => if 1 <= n <= params.len() {
                Ok(params[n - 1])
            } else {
                Err(n)
            },
            ExprNode::Rank => Ok(rank),
            ExprNode::Rand => if k < rands.len() {
                Ok(rands[k as int])
            } else {
                Ok(0)
            },
            ExprNode::Neg(e) => if e < i {
                match spec_eval(pool, e as int, params, rank, rands, k) {
                    Ok(v) => Ok(spec_sat_sub(0, v as int) as i64),
                    Err(n) => Err(n),
                }
            } else {
                Ok(0)
            },
            ExprNode::Plus(l, r) => if l < i && r < i {
                spec_eval_bin(
                    spec_eval(pool, l as int, params, rank, rands, k),
                    spec_eval(pool, r as int, params, rank, rands, k + rand_uses(pool, l as int)),
                    pool[i],
                )
            } else {
                Ok(0)
            },
            ExprNode::Minus(l, r) => if l < i && r < i {
                spec_eval_bin(
                    spec_eval(pool, l as int, params, rank, rands, k),
                    spec_eval(pool, r as int, params, rank, rands, k + rand_uses(pool, l as int)),
                    pool[i],
                )
            } else {
                Ok(0)
            },
            ExprNode::Times(l, r) => if l < i && r < i {
                spec_eval_bin(
                    spec_eval(pool, l as int, params, rank, rands, k),
                    spec_eval(pool, r as int, params, rank, rands, k + rand_uses(pool, l as int)),
                    pool[i],
                )
            } else {
                Ok(0)
            },
            ExprNode::Over(l, r) => if l < i && r < i {
                spec_eval_bin(
                    spec_eval(pool, l as int, params, rank, rands, k),
                    spec_eval(pool, r as int, params, rank, rands, k + rand_uses(pool, l as int)),
                    pool[i],
                )
            } else {
                Ok(0)
            },
        }
    } else {
        Ok(0)
    }
}

/// Once the draw offset has passed the end of the random sequence, its
/// exact value no longer matters: every remaining draw yields zero.
pub proof fn lemma_eval_past_end(
    pool: Seq<ExprNode>,
    i: int,
    params: Seq<i64>,
    rank: i64,
    rands: Seq<i64>,
    k1: nat,
    k2: nat,
)
    requires
        k1 >= rands.len(),
        k2 >= rands.len(),
    ensures
        spec_eval(pool, i, params, rank, rands, k1) == spec_eval(pool, i, params, rank, rands, k2),
    decreases i,
{
    if 0 <= i < pool.len() {
        match pool[i] {
            ExprNode::Neg(e) => {
                if e < i {
                    lemma_eval_past_end(pool, e as int, params, rank, rands, k1, k2);
                }
            },
            ExprNode::Plus(l, r) => {
                if l < i && r < i {
                    lemma_eval_past_end(pool, l as int, params, rank, rands, k1, k2);
                    lemma_eval_past_end(
                        pool,
                        r as int,
                        params,
                        rank,
                        rands,
                        k1 + rand_uses(pool, l as int),
                        k2 + rand_uses(pool, l as int),
                    );
                }
            },
            ExprNode::Minus(l, r) => {
                if l < i && r < i {
                    lemma_eval_past_end(pool, l as int, params, rank, rands, k1, k2);
                    lemma_eval_past_end(
                        pool,
                        r as int,
                        params,
                        rank,
                        rands,
                        k1 + rand_uses(pool, l as int),
                        k2 + rand_uses(pool, l as int),
                    );
                }
            },
            ExprNode::Times(l, r) => {
                if l < i && r < i {
                    lemma_eval_past_end(pool, l as int, params, rank, rands, k1, k2);
                    lemma_eval_past_end(
                        pool,
                        r as int,
                        params,
                        rank,
                        rands,
                        k1 + rand_uses(pool, l as int),
                        k2 + rand_uses(pool, l as int),
                    );
                }
            },
            ExprNode::Over(l, r) => {
                if l < i && r < i {
                    lemma_eval_past_end(pool, l as int, params, rank, rands, k1, k2);
                    lemma_eval_past_end(
                        pool,
                        r as int,
                        params,
                        rank,
                        rands,
                        k1 + rand_uses(pool, l as int),
                        k2 + rand_uses(pool, l as int),
                    );
                }
            },
            _ => {},
        }
    }
}

/// Evaluates pool entry `handle` against a parameter list, a rank and a
/// pre-drawn random sequence, consuming draws left to right from offset
/// `*rand_pos` (the offset is capped at the end of the sequence; a draw
/// past the end yields zero).
pub fn eval_expr(
    pool: &Vec<ExprNode>,
    handle: u32,
    params: &Vec<i64>,
    rank: i64,
    rands: &Vec<i64>,
    rand_pos: &mut usize,
) -> (r: Result<i64, RunError>)
    requires
        pool_wf(pool@),
        handle < pool@.len(),
        *old(rand_pos) <= rands@.len(),
    ensures
        *final(rand_pos) <= rands@.len(),
        r is Ok ==> *final(rand_pos) == if *old(rand_pos) + rand_uses(pool@, handle as int)
            <= rands@.len() {
            *old(rand_pos) + rand_uses(pool@, handle as int)
        } else {
            rands@.len() as int
        },
        match r {
            Ok(v) => spec_eval(pool@, handle as int, params@, rank, rands@, *old(rand_pos) as nat)
                == Ok::<i64, u32>(v),
            Err(e) => e matches RunError::ParameterOutOfRange(n) && spec_eval(
                pool@,
                handle as int,
                params@,
                rank,
                rands@,
                *old(rand_pos) as nat,
            ) == Err::<i64, u32>(n),
        },
    decreases handle,
{
    let node = pool[handle as usize];
    match node {
        ExprNode::Lit(v) => Ok(v),
        ExprNode::Param(n) => {
            if 1 <= n && n as usize <= params.len() {
                Ok(params[(n - 1) as usize])
            } else {
                Err(RunError::ParameterOutOfRange(n))
            }
        },
        ExprNode::Rank => Ok(rank),
        ExprNode::Rand => {
            if *rand_pos < rands.len() {
                let v = rands[*rand_pos];
                *rand_pos = *rand_pos + 1;
                Ok(v)
            } else {
                Ok(0)
            }
        },
        ExprNode::Neg(e) => {
            match eval_expr(pool, e, params, rank, rands, rand_pos) {
                Ok(v) => Ok(sat_sub(0, v)),
                Err(err) => Err(err),
            }
        },
        ExprNode::Plus(l, r) => {
            let a = eval_expr(pool, l, params, rank, rands, rand_pos)?;
            proof {
                right_offset_ok(pool@, handle as int, l, r, params@, rank, rands@, *old(
                    rand_pos,
                ) as nat, *rand_pos as nat);
            }
            let b = eval_expr(pool, r, params, rank, rands, rand_pos)?;
            Ok(sat_add(a, b))
        },
        ExprNode::Minus(l, r) => {
            let a = eval_expr(pool, l, params, rank, rands, rand_pos)?;
            proof {
                right_offset_ok(pool@, handle as int, l, r, params@, rank, rands@, *old(
                    rand_pos,
                ) as nat, *rand_pos as nat);
            }
            let b = eval_expr(pool, r, params, rank, rands, rand_pos)?;
            Ok(sat_sub(a, b))
        },
        ExprNode::Times(l, r) => {
            let a = eval_expr(pool, l, params, rank, rands, rand_pos)?;
            proof {
                right_offset_ok(pool@, handle as int, l, r, params@, rank, rands@, *old(
                    rand_pos,
                ) as nat, *rand_pos as nat);
            }
            let b = eval_expr(pool, r, params, rank, rands, rand_pos)?;
            Ok(scaled_mul(a, b))
        },
        ExprNode::Over(l, r) => {
            let a = eval_expr(pool, l, params, rank, rands, rand_pos)?;
            proof {
                right_offset_ok(pool@, handle as int, l, r, params@, rank, rands@, *old(
                    rand_pos,
                ) as nat, *rand_pos as nat);
            }
            let b = eval_expr(pool, r, params, rank, rands, rand_pos)?;
            Ok(scaled_div(a, b))
        },
    }
}

/// After the left operand of a binary entry has consumed its draws, the
/// capped executable offset and the ideal specification offset agree on
/// what the right operand evaluates to.
proof fn right_offset_ok(
    pool: Seq<ExprNode>,
    i: int,
    l: u32,
    r: u32,
    params: Seq<i64>,
    rank: i64,
    rands: Seq<i64>,
    k: nat,
    pos: nat,
)
    requires
        0 <= i < pool.len(),
        l < i,
        r < i,
        pos == if k + rand_uses(pool, l as int) <= rands.len() {
            k + rand_uses(pool, l as int)
        } else {
            rands.len()
        },
    ensures
        spec_eval(pool, r as int, params, rank, rands, pos) == spec_eval(
            pool,
            r as int,
            params,
            rank,
            rands,
            k + rand_uses(pool, l as int),
        ),
        pos <= rands.len(),
{
    if pos != k + rand_uses(pool, l as int) {
        lemma_eval_past_end(
            pool,
            r as int,
            params,
            rank,
            rands,
            pos,
            k + rand_uses(pool, l as int),
        );
    }
}

/// How many random draws evaluating pool entry `handle` will consume,
/// saturating at `u32::MAX`.
pub fn count_rand_uses(pool: &Vec<ExprNode>, handle: u32) -> (r: u32)
    requires
        pool_wf(pool@),
        handle < pool@.len(),
    ensures
        r == rand_uses(pool@, handle as int) || (r == u32::MAX && rand_uses(
            pool@,
            handle as int,
        ) >= u32::MAX),
    decreases handle,
{
    let node = pool[handle as usize];
    match node {
        ExprNode::Lit(_) => 0,
        ExprNode::Param(_) => 0,
        ExprNode::Rank => 0,
        ExprNode::Rand => 1,
        ExprNode::Neg(e) => count_rand_uses(pool, e),
        ExprNode::Plus(l, r) => {
            let a = count_rand_uses(pool, l);
            let b = count_rand_uses(pool, r);
            if a <= u32::MAX - b {
                a + b
            } else {
                u32::MAX
            }
        },
        ExprNode::Minus(l, r) => {
            let a = count_rand_uses(pool, l);
            let b = count_rand_uses(pool, r);
            if a <= u32::MAX - b {
                a + b
            } else {
                u32::MAX
            }
        },
        ExprNode::Times(l, r) => {
            let a = count_rand_uses(pool, l);
            let b = count_rand_uses(pool, r);
            if a <= u32::MAX - b {
                a + b
            } else {
                u32::MAX
            }
        },
        ExprNode::Over(l, r) => {
            let a = count_rand_uses(pool, l);
            let b = count_rand_uses(pool, r);
            if a <= u32::MAX - b {
                a + b
            } else {
                u32::MAX
            }
        },
    }
}

} // verus!
