//! The mathematical semantics of the language: values, the scoped
//! environment, and the fuel-bounded big-step evaluation that the machine
//! in `vm` is verified against.

use vstd::prelude::*;

use crate::error::ErrKind;
use crate::expression::{expr_size, exprs_size, SpecExpr};
use crate::number::{num_in_range, trunc_div};
use crate::statement::{spec_stmt, stmt_size, stmts_size, SpecStmt};
use crate::token::SpecToken;

verus! {

// ---------------------------------------------------------------------------
// Values
// ---------------------------------------------------------------------------
/// The mathematical shape of a runtime value.
pub enum SpecValue {
    Nil,
    Bool(bool),
    Num(int),
    Str(Seq<char>),
    Fun(Seq<Seq<char>>, Box<SpecStmt>),
}

/// Truthiness: only booleans and nil may stand where a condition is needed;
/// nil counts as false.
pub open spec fn truthiness(v: SpecValue) -> Option<bool> {
    match v {
        SpecValue::Bool(b) => Some(b),
        SpecValue::Nil => Some(false),
        _ => None,
    }
}

// ---------------------------------------------------------------------------
// Decimal formatting
// ---------------------------------------------------------------------------
pub open spec fn digit_char(d: int) -> char {
    if d == 0 {
        '0'
    } else if d == 1 {
        '1'
    } else if d == 2 {
        '2'
    } else if d == 3 {
        '3'
    } else if d == 4 {
        '4'
    } else if d == 5 {
        '5'
    } else if d == 6 {
        '6'
    } else if d == 7 {
        '7'
    } else if d == 8 {
        '8'
    } else {
        '9'
    }
}

/// The decimal digits of a nonnegative integer, most significant first,
/// without leading zeroes (a single `0` for zero).
pub open spec fn dec_nat(n: int) -> Seq<char>
    decreases n,
    when n >= 0
{
    if n < 10 {
        seq![digit_char(n)]
    } else {
        dec_nat(n / 10).push(digit_char(n % 10))
    }
}

/// The decimal text of an integer: a minus sign first when negative.
pub open spec fn dec_int(n: int) -> Seq<char> {
    if n < 0 {
        seq!['-'] + dec_nat(-n)
    } else {
        dec_nat(n)
    }
}

/// How a value prints: what one `print` statement emits, before the newline.
pub open spec fn fmt_value(v: SpecValue) -> Seq<char> {
    match v {
        SpecValue::Nil => "(Nil)"@,
        SpecValue::Bool(b) => if b {
            "true"@
        } else {
            "false"@
        },
        SpecValue::Num(n) => dec_int(n),
        SpecValue::Str(s) => s,
        SpecValue::Fun(_, _) => "(Fun)"@,
    }
}

// ---------------------------------------------------------------------------
// Value operations
// ---------------------------------------------------------------------------
/// `!v`: boolean negation; nil negates to false.
pub open spec fn spec_not(v: SpecValue) -> Result<SpecValue, ErrKind> {
    match v {
        SpecValue::Bool(b) => Ok(SpecValue::Bool(!b)),
        SpecValue::Nil => Ok(SpecValue::Bool(false)),
        _ => Err(ErrKind::Type),
    }
}

/// `-v`: numeric negation; an exact result out of range is an error.
pub open spec fn spec_neg(v: SpecValue) -> Result<SpecValue, ErrKind> {
    match v {
        SpecValue::Num(n) => if num_in_range(-n) {
            Ok(SpecValue::Num(-n))
        } else {
            Err(ErrKind::Arithmetic)
        },
        _ => Err(ErrKind::Type),
    }
}

/// `a + b`: numeric addition, string concatenation, and number/string
/// concatenation where the number is formatted as text.
pub open spec fn spec_add(a: SpecValue, b: SpecValue) -> Result<SpecValue, ErrKind> {
    match (a, b) {
        (SpecValue::Num(x), SpecValue::Num(y)) => if num_in_range(x + y) {
            Ok(SpecValue::Num(x + y))
        } else {
            Err(ErrKind::Arithmetic)
        },
        (SpecValue::Str(s), SpecValue::Str(t)) => Ok(SpecValue::Str(s + t)),
        (SpecValue::Num(x), SpecValue::Str(t)) => Ok(SpecValue::Str(dec_int(x) + t)),
        (SpecValue::Str(s), SpecValue::Num(y)) => Ok(SpecValue::Str(s + dec_int(y))),
        _ => Err(ErrKind::Type),
    }
}

pub open spec fn spec_sub(a: SpecValue, b: SpecValue) -> Result<SpecValue, ErrKind> {
    match (a, b) {
        (SpecValue::Num(x), SpecValue::Num(y)) => if num_in_range(x - y) {
            Ok(SpecValue::Num(x - y))
        } else {
            Err(ErrKind::Arithmetic)
        },
        _ => Err(ErrKind::Type),
    }
}

pub open spec fn spec_mul(a: SpecValue, b: SpecValue) -> Result<SpecValue, ErrKind> {
    match (a, b) {
        (SpecValue::Num(x), SpecValue::Num(y)) => if num_in_range(x * y) {
            Ok(SpecValue::Num(x * y))
        } else {
            Err(ErrKind::Arithmetic)
        },
        _ => Err(ErrKind::Type),
    }
}

/// `a / b`: division truncated toward zero; dividing by zero, or an exact
/// result out of range, is an arithmetic error.
pub open spec fn spec_div(a: SpecValue, b: SpecValue) -> Result<SpecValue, ErrKind> {
    match (a, b) {
        (SpecValue::Num(x), SpecValue::Num(y)) => if y == 0 {
            Err(ErrKind::Arithmetic)
        } else if num_in_range(trunc_div(x, y)) {
            Ok(SpecValue::Num(trunc_div(x, y)))
        } else {
            Err(ErrKind::Arithmetic)
        },
        _ => Err(ErrKind::Type),
    }
}

/// Equality across any two values: nil equals nil, same-shape values compare
/// by payload, everything else (functions included) compares unequal.
pub open spec fn spec_eq_vals(a: SpecValue, b: SpecValue) -> bool {
    match (a, b) {
        (SpecValue::Nil, SpecValue::Nil) => true,
        (SpecValue::Bool(x), SpecValue::Bool(y)) => x == y,
        (SpecValue::Num(x), SpecValue::Num(y)) => x == y,
        (SpecValue::Str(s), SpecValue::Str(t)) => s == t,
        _ => false,
    }
}

/// The numeric comparisons; defined on two numbers only.
pub open spec fn spec_lt(a: SpecValue, b: SpecValue) -> Result<SpecValue, ErrKind> {
    match (a, b) {
        (SpecValue::Num(x), SpecValue::Num(y)) => Ok(SpecValue::Bool(x < y)),
        _ => Err(ErrKind::Type),
    }
}

pub open spec fn spec_le(a: SpecValue, b: SpecValue) -> Result<SpecValue, ErrKind> {
    match (a, b) {
        (SpecValue::Num(x), SpecValue::Num(y)) => Ok(SpecValue::Bool(x <= y)),
        _ => Err(ErrKind::Type),
    }
}

pub open spec fn spec_gt(a: SpecValue, b: SpecValue) -> Result<SpecValue, ErrKind> {
    match (a, b) {
        (SpecValue::Num(x), SpecValue::Num(y)) => Ok(SpecValue::Bool(x > y)),
        _ => Err(ErrKind::Type),
    }
}

pub open spec fn spec_ge(a: SpecValue, b: SpecValue) -> Result<SpecValue, ErrKind> {
    match (a, b) {
        (SpecValue::Num(x), SpecValue::Num(y)) => Ok(SpecValue::Bool(x >= y)),
        _ => Err(ErrKind::Type),
    }
}

/// `a and b` / `a or b`: both operands are evaluated and both must be
/// truth-typed; the result combines their truthiness.
pub open spec fn spec_logic_and(a: SpecValue, b: SpecValue) -> Result<SpecValue, ErrKind> {
    match (truthiness(a), truthiness(b)) {
        (Some(x), Some(y)) => Ok(SpecValue::Bool(x && y)),
        _ => Err(ErrKind::Type),
    }
}

pub open spec fn spec_logic_or(a: SpecValue, b: SpecValue) -> Result<SpecValue, ErrKind> {
    match (truthiness(a), truthiness(b)) {
        (Some(x), Some(y)) => Ok(SpecValue::Bool(x || y)),
        _ => Err(ErrKind::Type),
    }
}

// ---------------------------------------------------------------------------
// The environment: a global frame and a stack of call frames, each frame a
// stack of scopes, each scope a mapping from names to values. The innermost
// scope and the current frame are the last elements of their sequences.
// ---------------------------------------------------------------------------
pub type SpecScope = Map<Seq<char>, SpecValue>;

pub struct SpecEnv {
    pub global: Seq<SpecScope>,
    pub frames: Seq<Seq<SpecScope>>,
}

/// Lookup within one frame, from the innermost scope outward.
pub open spec fn frame_find(f: Seq<SpecScope>, n: Seq<char>) -> Option<SpecValue>
    decreases f.len(),
{
    if f.len() == 0 {
        None
    } else if f.last().contains_key(n) {
        Some(f.last()[n])
    } else {
        frame_find(f.drop_last(), n)
    }
}

pub open spec fn frame_contains(f: Seq<SpecScope>, n: Seq<char>) -> bool {
    frame_find(f, n) is Some
}

/// Declaration binds in the innermost scope, shadowing an outer binding and
/// overwriting one in the same scope.
pub open spec fn frame_declare(f: Seq<SpecScope>, n: Seq<char>, v: SpecValue) -> Seq<SpecScope>
    recommends
        f.len() >= 1,
{
    f.update(f.len() - 1, f.last().insert(n, v))
}

/// Assignment updates the innermost scope that already binds the name;
/// `None` when no scope of the frame does.
pub open spec fn frame_assign(f: Seq<SpecScope>, n: Seq<char>, v: SpecValue) -> Option<
    Seq<SpecScope>,
>
    decreases f.len(),
{
    if f.len() == 0 {
        None
    } else if f.last().contains_key(n) {
        Some(f.update(f.len() - 1, f.last().insert(n, v)))
    } else {
        match frame_assign(f.drop_last(), n, v) {
            Some(g) => Some(g.push(f.last())),
            None => None,
        }
    }
}

/// The frame that declarations and lookups start from.
pub open spec fn cur_frame(e: SpecEnv) -> Seq<SpecScope> {
    if e.frames.len() > 0 {
        e.frames.last()
    } else {
        e.global
    }
}

/// Every frame always keeps at least one scope.
pub open spec fn env_wf(e: SpecEnv) -> bool {
    e.global.len() >= 1 && (forall|i: int| 0 <= i < e.frames.len() ==> e.frames[i].len() >= 1)
}

/// Reading a name: the current frame from the innermost scope outward, then,
/// when the current frame is not the global one, the global frame.
pub open spec fn env_get(e: SpecEnv, n: Seq<char>) -> Option<SpecValue> {
    if e.frames.len() > 0 {
        match frame_find(e.frames.last(), n) {
            Some(v) => Some(v),
            None => frame_find(e.global, n),
        }
    } else {
        frame_find(e.global, n)
    }
}

/// Declaring a name: always into the innermost scope of the current frame.
pub open spec fn env_declare(e: SpecEnv, n: Seq<char>, v: SpecValue) -> SpecEnv {
    if e.frames.len() > 0 {
        SpecEnv {
            global: e.global,
            frames: e.frames.update(
                e.frames.len() - 1,
                frame_declare(e.frames.last(), n, v),
            ),
        }
    } else {
        SpecEnv { global: frame_declare(e.global, n, v), frames: e.frames }
    }
}

/// Assigning a name: the innermost binding scope of the current frame, then
/// the global frame; `None` (a name error) when the name is nowhere bound.
pub open spec fn env_assign(e: SpecEnv, n: Seq<char>, v: SpecValue) -> Option<SpecEnv> {
    if e.frames.len() > 0 {
        match frame_assign(e.frames.last(), n, v) {
            Some(f2) => Some(
                SpecEnv { global: e.global, frames: e.frames.update(e.frames.len() - 1, f2) },
            ),
            None => match frame_assign(e.global, n, v) {
                Some(g2) => Some(SpecEnv { global: g2, frames: e.frames }),
                None => None,
            },
        }
    } else {
        match frame_assign(e.global, n, v) {
            Some(g2) => Some(SpecEnv { global: g2, frames: e.frames }),
            None => None,
        }
    }
}

/// Block entry: a fresh scope on the current frame.
pub open spec fn env_push_scope(e: SpecEnv) -> SpecEnv {
    if e.frames.len() > 0 {
        SpecEnv {
            global: e.global,
            frames: e.frames.update(
                e.frames.len() - 1,
                e.frames.last().push(Map::empty()),
            ),
        }
    } else {
        SpecEnv { global: e.global.push(Map::empty()), frames: e.frames }
    }
}

/// Block exit: the innermost scope of the current frame is discarded.
pub open spec fn env_pop_scope(e: SpecEnv) -> SpecEnv {
    if e.frames.len() > 0 {
        SpecEnv {
            global: e.global,
            frames: e.frames.update(e.frames.len() - 1, e.frames.last().drop_last()),
        }
    } else {
        SpecEnv { global: e.global.drop_last(), frames: e.frames }
    }
}

/// Call entry: a fresh frame with one empty scope.
pub open spec fn env_push_frame(e: SpecEnv) -> SpecEnv {
    SpecEnv { global: e.global, frames: e.frames.push(seq![Map::empty()]) }
}

/// Call exit: the current frame is discarded.
pub open spec fn env_pop_frame(e: SpecEnv) -> SpecEnv {
    SpecEnv { global: e.global, frames: e.frames.drop_last() }
}

/// The environment of a freshly started interpreter.
pub open spec fn initial_env() -> SpecEnv {
    SpecEnv { global: seq![Map::empty()], frames: seq![] }
}

// ---------------------------------------------------------------------------
// The big-step semantics, bounded by fuel
// ---------------------------------------------------------------------------
/// The observable state of the interpreter: the environment and everything
/// printed so far.
pub struct SpecState {
    pub env: SpecEnv,
    pub out: Seq<char>,
}

/// The outcome of evaluating an expression: a value, or an error kind; the
/// state after it either way (effects before a failure persist, scopes and
/// frames entered during it are unwound).
pub type EvalOutcome = Result<(SpecValue, SpecState), (ErrKind, SpecState)>;

/// The outcome of executing a statement.
pub type ExecOutcome = Result<SpecState, (ErrKind, SpecState)>;

/// The outcome of evaluating an argument list left to right.
pub type ArgsOutcome = Result<(Seq<SpecValue>, SpecState), (ErrKind, SpecState)>;

/// The number of loop iterations and calls one statement may take before
/// the evaluator gives up with an out-of-fuel error.
pub const DEFAULT_FUEL: u64 = 1000000;

/// What one binary operator token does to two values.
pub open spec fn spec_binop(op: SpecToken, a: SpecValue, b: SpecValue) -> Result<
    SpecValue,
    ErrKind,
> {
    match op {
        SpecToken::Plus => spec_add(a, b),
        SpecToken::Minus => spec_sub(a, b),
        SpecToken::Star => spec_mul(a, b),
        SpecToken::Slash => spec_div(a, b),
        SpecToken::Greater => spec_gt(a, b),
        SpecToken::GreaterEqual => spec_ge(a, b),
        SpecToken::Less => spec_lt(a, b),
        SpecToken::LessEqual => spec_le(a, b),
        SpecToken::EqualEqual => Ok(SpecValue::Bool(spec_eq_vals(a, b))),
        SpecToken::BangEqual => Ok(SpecValue::Bool(!spec_eq_vals(a, b))),
        SpecToken::And => spec_logic_and(a, b),
        SpecToken::Or => spec_logic_or(a, b),
        _ => Err(ErrKind::Internal),
    }
}

/// Binds the parameters to the argument values, in order, in the innermost
/// scope of the current frame.
pub open spec fn declare_params(
    e: SpecEnv,
    params: Seq<Seq<char>>,
    vals: Seq<SpecValue>,
) -> SpecEnv
    decreases params.len(),
{
    if params.len() == 0 || vals.len() == 0 {
        e
    } else {
        declare_params(env_declare(e, params[0], vals[0]), params.skip(1), vals.skip(1))
    }
}

pub open spec fn st_push_scope(st: SpecState) -> SpecState {
    SpecState { env: env_push_scope(st.env), out: st.out }
}

pub open spec fn st_pop_scope(st: SpecState) -> SpecState {
    SpecState { env: env_pop_scope(st.env), out: st.out }
}

/// Evaluates an expression. Fuel is spent on calls and on loop iterations;
/// an expression without them needs none.
pub open spec fn eval_spec(st: SpecState, e: SpecExpr, fuel: nat) -> EvalOutcome
    decreases fuel, expr_size(e), 0int,
{
    match e {
        SpecExpr::Literal(tok) => match tok {
            SpecToken::Nil => Ok((SpecValue::Nil, st)),
            SpecToken::True => Ok((SpecValue::Bool(true), st)),
            SpecToken::False => Ok((SpecValue::Bool(false), st)),
            SpecToken::StringLit(s) => Ok((SpecValue::Str(s), st)),
            SpecToken::Number(n) => Ok((SpecValue::Num(n), st)),
            SpecToken::Identifier(nm) => match env_get(st.env, nm) {
                Some(v) => Ok((v, st)),
                None => Err((ErrKind::Name, st)),
            },
            _ => Err((ErrKind::Internal, st)),
        },
        SpecExpr::Group(sub) => eval_spec(st, *sub, fuel),
        SpecExpr::Unary(op, sub) => match eval_spec(st, *sub, fuel) {
            Ok((v, st1)) => {
                let applied = if op == SpecToken::Bang {
                    spec_not(v)
                } else if op == SpecToken::Minus {
                    spec_neg(v)
                } else {
                    Err(ErrKind::Internal)
                };
                match applied {
                    Ok(v2) => Ok((v2, st1)),
                    Err(k) => Err((k, st1)),
                }
            },
            Err(e1) => Err(e1),
        },
        SpecExpr::Binary(l, op, r) => match eval_spec(st, *l, fuel) {
            Ok((lv, st1)) => match eval_spec(st1, *r, fuel) {
                Ok((rv, st2)) => match spec_binop(op, lv, rv) {
                    Ok(v) => Ok((v, st2)),
                    Err(k) => Err((k, st2)),
                },
                Err(e2) => Err(e2),
            },
            Err(e1) => Err(e1),
        },
        SpecExpr::Assign(tok, sub) => match tok {
            SpecToken::Identifier(nm) => match eval_spec(st, *sub, fuel) {
                Ok((v, st1)) => match env_assign(st1.env, nm, v) {
                    Some(env2) => Ok((v, SpecState { env: env2, out: st1.out })),
                    None => Err((ErrKind::Name, st1)),
                },
                Err(e1) => Err(e1),
            },
            _ => Err((ErrKind::Internal, st)),
        },
        SpecExpr::FnCall(name, args) => match env_get(st.env, name) {
            None => Err((ErrKind::Name, st)),
            Some(fv) => match fv {
                SpecValue::Fun(params, body) => {
                    if params.len() != args.len() {
                        Err((ErrKind::Arity, st))
                    } else {
                        match eval_args_spec(st, args, seq![], fuel) {
                            Ok((vals, st1)) => {
                                if fuel == 0 {
                                    Err((ErrKind::OutOfFuel, st1))
                                } else {
                                    let env2 = declare_params(
                                        env_push_frame(st1.env),
                                        params,
                                        vals,
                                    );
                                    let st2 = SpecState { env: env2, out: st1.out };
                                    match exec_spec(st2, *body, (fuel - 1) as nat) {
                                        Ok(st3) => Ok(
                                            (
                                                SpecValue::Nil,
                                                SpecState {
                                                    env: env_pop_frame(st3.env),
                                                    out: st3.out,
                                                },
                                            ),
                                        ),
                                        Err((k, st3)) => Err(
                                            (
                                                k,
                                                SpecState {
                                                    env: env_pop_frame(st3.env),
                                                    out: st3.out,
                                                },
                                            ),
                                        ),
                                    }
                                }
                            },
                            Err(e1) => Err(e1),
                        }
                    }
                },
                _ => Err((ErrKind::Type, st)),
            },
        },
    }
}

/// Evaluates argument expressions left to right, accumulating their values.
pub open spec fn eval_args_spec(
    st: SpecState,
    args: Seq<SpecExpr>,
    acc: Seq<SpecValue>,
    fuel: nat,
) -> ArgsOutcome
    decreases fuel, exprs_size(args), 0int,
{
    if args.len() == 0 {
        Ok((acc, st))
    } else {
        match eval_spec(st, args[0], fuel) {
            Ok((v, st1)) => eval_args_spec(st1, args.skip(1), acc.push(v), fuel),
            Err(e1) => Err(e1),
        }
    }
}

/// Executes one statement.
pub open spec fn exec_spec(st: SpecState, s: SpecStmt, fuel: nat) -> ExecOutcome
    decreases fuel, stmt_size(s), 1int,
{
    match s {
        SpecStmt::Expr(e) => match eval_spec(st, e, fuel) {
            Ok((_, st1)) => Ok(st1),
            Err(e1) => Err(e1),
        },
        SpecStmt::Print(e) => match eval_spec(st, e, fuel) {
            Ok((v, st1)) => Ok(SpecState { env: st1.env, out: st1.out + fmt_value(v) + "\n"@ }),
            Err(e1) => Err(e1),
        },
        SpecStmt::Block(ss) => match exec_seq_spec(st_push_scope(st), ss, fuel) {
            Ok(st1) => Ok(st_pop_scope(st1)),
            Err((k, st1)) => Err((k, st_pop_scope(st1))),
        },
        SpecStmt::If(c, then, els) => match eval_spec(st, c, fuel) {
            Ok((v, st1)) => match truthiness(v) {
                Some(b) => if b {
                    exec_spec(st1, *then, fuel)
                } else {
                    match els {
                        Some(fb) => exec_spec(st1, *fb, fuel),
                        None => Ok(st1),
                    }
                },
                None => Err((ErrKind::Type, st1)),
            },
            Err(e1) => Err(e1),
        },
        SpecStmt::Decl(tok, init) => match tok {
            SpecToken::Identifier(nm) => match init {
                Some(e) => match eval_spec(st, e, fuel) {
                    Ok((v, st1)) => Ok(
                        SpecState { env: env_declare(st1.env, nm, v), out: st1.out },
                    ),
                    Err(e1) => Err(e1),
                },
                None => Ok(SpecState { env: env_declare(st.env, nm, SpecValue::Nil), out: st.out }),
            },
            _ => Err((ErrKind::Internal, st)),
        },
        SpecStmt::FunDecl(nm, params, body) => Ok(
            SpecState {
                env: env_declare(st.env, nm, SpecValue::Fun(params, body)),
                out: st.out,
            },
        ),
        SpecStmt::While(c, body) => {
            if fuel == 0 {
                Err((ErrKind::OutOfFuel, st))
            } else {
                match eval_spec(st, c, fuel) {
                    Ok((v, st1)) => match truthiness(v) {
                        Some(b) => if !b {
                            Ok(st1)
                        } else {
                            match exec_spec(st1, *body, fuel) {
                                Ok(st2) => exec_spec(
                                    st2,
                                    SpecStmt::While(c, body),
                                    (fuel - 1) as nat,
                                ),
                                Err(e2) => Err(e2),
                            }
                        },
                        None => Err((ErrKind::Type, st1)),
                    },
                    Err(e1) => Err(e1),
                }
            }
        },
        SpecStmt::For(init, _, _, _) => {
            let st1 = st_push_scope(st);
            let after_init: ExecOutcome = match init {
                Some(i) => exec_spec(st1, *i, fuel),
                None => Ok(st1),
            };
            match after_init {
                Ok(st2) => match for_loop_spec(st2, s, fuel) {
                    Ok(st3) => Ok(st_pop_scope(st3)),
                    Err((k, st3)) => Err((k, st_pop_scope(st3))),
                },
                Err((k, st2)) => Err((k, st_pop_scope(st2))),
            }
        },
    }
}

/// Executes the statements of a block in order.
pub open spec fn exec_seq_spec(st: SpecState, ss: Seq<SpecStmt>, fuel: nat) -> ExecOutcome
    decreases fuel, stmts_size(ss), 0int,
{
    if ss.len() == 0 {
        Ok(st)
    } else {
        match exec_spec(st, ss[0], fuel) {
            Ok(st1) => exec_seq_spec(st1, ss.skip(1), fuel),
            Err(e1) => Err(e1),
        }
    }
}

/// The loop phase of a `for` statement (after its initializer): condition,
/// body, step, once per unit of fuel.
pub open spec fn for_loop_spec(st: SpecState, s: SpecStmt, fuel: nat) -> ExecOutcome
    decreases fuel, stmt_size(s), 0int,
{
    match s {
        SpecStmt::For(_, cond, step, body) => {
            if fuel == 0 {
                Err((ErrKind::OutOfFuel, st))
            } else {
                let cond_out: Result<(bool, SpecState), (ErrKind, SpecState)> = match cond {
                    Some(c) => match eval_spec(st, c, fuel) {
                        Ok((v, st1)) => match truthiness(v) {
                            Some(b) => Ok((b, st1)),
                            None => Err((ErrKind::Type, st1)),
                        },
                        Err(e1) => Err(e1),
                    },
                    None => Ok((true, st)),
                };
                match cond_out {
                    Ok((b, st1)) => if !b {
                        Ok(st1)
                    } else {
                        match exec_spec(st1, *body, fuel) {
                            Ok(st2) => {
                                let after_step: ExecOutcome = match step {
                                    Some(sx) => match eval_spec(st2, sx, fuel) {
                                        Ok((_, st3)) => Ok(st3),
                                        Err(e3) => Err(e3),
                                    },
                                    None => Ok(st2),
                                };
                                match after_step {
                                    Ok(st3) => for_loop_spec(st3, s, (fuel - 1) as nat),
                                    Err(e3) => Err(e3),
                                }
                            },
                            Err(e2) => Err(e2),
                        }
                    },
                    Err(e1) => Err(e1),
                }
            }
        },
        _ => Err((ErrKind::Internal, st)),
    }
}

// ---------------------------------------------------------------------------
// Shape preservation and agreement between the machine and the semantics
// ---------------------------------------------------------------------------
/// Two environments with the same frame and scope counts. Evaluation never
/// changes the shape: scopes and frames it enters are left again, even on an
/// error.
pub open spec fn same_shape(a: SpecEnv, b: SpecEnv) -> bool {
    &&& a.global.len() == b.global.len()
    &&& a.frames.len() == b.frames.len()
    &&& forall|i: int| 0 <= i < a.frames.len() ==> a.frames[i].len() == b.frames[i].len()
}

/// The state an eval outcome carries, whether value or error.
pub open spec fn outcome_state_eval(o: EvalOutcome) -> SpecState {
    match o {
        Ok((_, st)) => st,
        Err((_, st)) => st,
    }
}

pub open spec fn outcome_state_exec(o: ExecOutcome) -> SpecState {
    match o {
        Ok(st) => st,
        Err((_, st)) => st,
    }
}

/// The executable evaluator returned `r` and left the machine in state `st`:
/// this agrees with the mathematical outcome `sr`.
pub open spec fn eval_matches(
    sr: EvalOutcome,
    r: Result<crate::object::Object, crate::error::LoxError>,
    st: SpecState,
) -> bool {
    match (sr, r) {
        (Ok((v, st2)), Ok(o)) => o@ == v && st == st2,
        (Err((k, st2)), Err(e)) => e.kind == k && st == st2,
        _ => false,
    }
}

/// As `eval_matches`, for statements: success carries the nil value.
pub open spec fn exec_matches(
    sr: ExecOutcome,
    r: Result<crate::object::Object, crate::error::LoxError>,
    st: SpecState,
) -> bool {
    match (sr, r) {
        (Ok(st2), Ok(o)) => o@ == SpecValue::Nil && st == st2,
        (Err((k, st2)), Err(e)) => e.kind == k && st == st2,
        _ => false,
    }
}

// ---------------------------------------------------------------------------
// The driver: parse one statement at a time from the front of the token
// buffer and execute it, until the buffer is empty or something fails.
// ---------------------------------------------------------------------------
/// Runs the token buffer. Yields the final state, the error if one stopped
/// the run, and the tokens still in the buffer afterward: on a parse error
/// the tokens stay, on an execution error the failed statement is consumed.
pub open spec fn run_tokens_spec(st: SpecState, toks: Seq<SpecToken>) -> (
    Result<SpecState, (ErrKind, SpecState)>,
    Seq<SpecToken>,
)
    decreases toks.len(),
{
    if toks.len() == 0 {
        (Ok(st), toks)
    } else {
        match spec_stmt(toks, 0) {
            None => (Err((ErrKind::Parse, st)), toks),
            Some((s, used)) => {
                if 1 <= used <= toks.len() {
                    let rest = toks.skip(used);
                    match exec_spec(st, s, DEFAULT_FUEL as nat) {
                        Ok(st1) => run_tokens_spec(st1, rest),
                        Err((k, st1)) => (Err((k, st1)), rest),
                    }
                } else {
                    (Err((ErrKind::Internal, st)), toks)
                }
            },
        }
    }
}


/// Assignment into a frame succeeds exactly when some scope binds the name.
pub proof fn lemma_frame_assign_some_iff(f: Seq<SpecScope>, n: Seq<char>, v: SpecValue)
    ensures
        (frame_assign(f, n, v) is Some) <==> frame_contains(f, n),
    decreases f.len(),
{
    if f.len() > 0 && !f.last().contains_key(n) {
        lemma_frame_assign_some_iff(f.drop_last(), n, v);
    }
}

/// Assignment leaves the number of scopes of a frame unchanged.
pub proof fn lemma_frame_assign_len(f: Seq<SpecScope>, n: Seq<char>, v: SpecValue)
    ensures
        frame_assign(f, n, v) matches Some(g) ==> g.len() == f.len(),
    decreases f.len(),
{
    if f.len() > 0 && !f.last().contains_key(n) {
        lemma_frame_assign_len(f.drop_last(), n, v);
    }
}

/// Assignment leaves the shape of the environment unchanged.
pub proof fn lemma_env_assign_shape(e: SpecEnv, n: Seq<char>, v: SpecValue)
    ensures
        env_assign(e, n, v) matches Some(e2) ==> same_shape(e, e2),
{
    if e.frames.len() > 0 {
        lemma_frame_assign_len(e.frames.last(), n, v);
    }
    lemma_frame_assign_len(e.global, n, v);
}

/// Declaration leaves the shape of the environment unchanged.
pub proof fn lemma_env_declare_shape(e: SpecEnv, n: Seq<char>, v: SpecValue)
    requires
        env_wf(e),
    ensures
        same_shape(e, env_declare(e, n, v)),
        env_wf(env_declare(e, n, v)),
{
}

/// Binding a parameter list leaves the shape unchanged.
pub proof fn lemma_declare_params_shape(e: SpecEnv, params: Seq<Seq<char>>, vals: Seq<SpecValue>)
    requires
        env_wf(e),
    ensures
        same_shape(e, declare_params(e, params, vals)),
        env_wf(declare_params(e, params, vals)),
    decreases params.len(),
{
    if params.len() > 0 && vals.len() > 0 {
        lemma_env_declare_shape(e, params[0], vals[0]);
        lemma_declare_params_shape(env_declare(e, params[0], vals[0]), params.skip(1), vals.skip(1));
    }
}

/// Environments of the same shape agree on well-formedness.
pub proof fn lemma_same_shape_wf(a: SpecEnv, b: SpecEnv)
    requires
        env_wf(a),
        same_shape(a, b),
    ensures
        env_wf(b),
{
}

/// The shape relation is transitive.
pub proof fn lemma_same_shape_trans(a: SpecEnv, b: SpecEnv, c: SpecEnv)
    requires
        same_shape(a, b),
        same_shape(b, c),
    ensures
        same_shape(a, c),
{
}


/// Opening a scope keeps the environment well-formed and deepens the
/// current frame by one.
pub proof fn lemma_env_push_scope_props(e: SpecEnv)
    requires
        env_wf(e),
    ensures
        env_wf(env_push_scope(e)),
        same_shape_but_top(e, env_push_scope(e)),
        cur_frame(env_push_scope(e)).len() == cur_frame(e).len() + 1,
{
}

/// Whatever ran inside a scope kept the shape; closing the scope restores
/// the shape from before it opened.
pub proof fn lemma_pop_after_push(e: SpecEnv, x: SpecEnv)
    requires
        env_wf(e),
        same_shape(env_push_scope(e), x),
    ensures
        cur_frame(x).len() >= 1,
        same_shape(e, env_pop_scope(x)),
        env_wf(env_pop_scope(x)),
{
    assert(same_shape(e, env_pop_scope(x))) by {
        if e.frames.len() > 0 {
            assert(forall|i: int|
                0 <= i < e.frames.len() ==> e.frames[i].len() == env_pop_scope(x).frames[i].len());
        }
    }
}

/// The same shape, except that the current frame of the second is one scope
/// deeper.
pub open spec fn same_shape_but_top(a: SpecEnv, b: SpecEnv) -> bool {
    if a.frames.len() > 0 {
        &&& a.global.len() == b.global.len()
        &&& a.frames.len() == b.frames.len()
        &&& forall|i: int|
            0 <= i < a.frames.len() - 1 ==> a.frames[i].len() == b.frames[i].len()
        &&& b.frames.last().len() == a.frames.last().len() + 1
    } else {
        &&& a.global.len() + 1 == b.global.len()
        &&& b.frames.len() == 0
    }
}


/// Scanning, then running: what one call of the interpreter on one source
/// string does. A lexical fault leaves the state untouched, with the tokens
/// scanned before the fault in the buffer.
pub open spec fn exec_line_spec(st: SpecState, line: Seq<char>) -> (
    Result<SpecState, (ErrKind, SpecState)>,
    Seq<SpecToken>,
) {
    let scanned = scan_spec_of(line);
    if scanned.1 {
        run_tokens_spec(st, scanned.0)
    } else {
        (Err((ErrKind::Lex, st)), scanned.0)
    }
}

/// The scan of a whole line, from its start.
pub open spec fn scan_spec_of(line: Seq<char>) -> (Seq<SpecToken>, bool) {
    crate::scanner::scan_spec(line, 0)
}

/// The state of a freshly started interpreter.
pub open spec fn initial_state() -> SpecState {
    SpecState { env: initial_env(), out: Seq::empty() }
}

} // verus!
