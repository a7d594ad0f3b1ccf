//! The laws of the interpreter: scanner round-trips, operator precedence,
//! block scoping, assignment discipline, arity checking, and by-value
//! parameter binding, each proved from the semantics.

use vstd::prelude::*;

use crate::error::ErrKind;
use crate::expression::{
    spec_assign, spec_binary, spec_binary_rest, spec_expression, spec_primary, spec_unary,
    SpecExpr,
};
use crate::number::num_in_range;
use crate::scanner::{ident_end, is_alpha_ch, is_ident_ch, is_keyword, scan_spec};
use crate::token::SpecToken;
use crate::semantics::{
    env_assign, env_declare, env_get, env_pop_scope, env_push_scope, env_wf, eval_spec,
    frame_assign, frame_contains, lemma_frame_assign_some_iff, spec_binop, SpecEnv, SpecState,
    SpecValue,
};
use crate::statement::SpecStmt;

verus! {

// ---------------------------------------------------------------------------
// The scanner
// ---------------------------------------------------------------------------
/// The text of a valid identifier: a letter or underscore, then letters,
/// digits and underscores.
pub open spec fn is_identifier_text(s: Seq<char>) -> bool {
    &&& s.len() >= 1
    &&& is_alpha_ch(s[0])
    &&& forall|k: int| 0 <= k < s.len() ==> is_ident_ch(s[k])
}

proof fn lemma_ident_end_all(s: Seq<char>, i: int)
    requires
        0 <= i <= s.len(),
        forall|k: int| i <= k < s.len() ==> is_ident_ch(s[k]),
    ensures
        ident_end(s, i) == s.len(),
    decreases s.len() - i,
{
    if i < s.len() {
        lemma_ident_end_all(s, i + 1);
    }
}

/// Scanning any valid identifier that is not a keyword yields exactly that
/// one identifier token.
pub proof fn lemma_scan_identifier_round_trip(s: Seq<char>)
    requires
        is_identifier_text(s),
        !is_keyword(s),
    ensures
        scan_spec(s, 0) == (seq![SpecToken::Identifier(s)], true),
{
    lemma_ident_end_all(s, 0);
    assert(s.subrange(0, s.len() as int) =~= s);
    assert(scan_spec(s, s.len() as int) == (Seq::<SpecToken>::empty(), true));
    assert(seq![SpecToken::Identifier(s)] + Seq::<SpecToken>::empty() =~= seq![
        SpecToken::Identifier(s),
    ]);
}

// ---------------------------------------------------------------------------
// Block scoping
// ---------------------------------------------------------------------------
/// A declaration made inside a block leaves no trace once the block closes:
/// opening a scope, declaring, and closing the scope is no change at all.
pub proof fn lemma_block_declaration_is_scoped(e: SpecEnv, n: Seq<char>, v: SpecValue)
    requires
        env_wf(e),
    ensures
        env_pop_scope(env_declare(env_push_scope(e), n, v)) == e,
{
    if e.frames.len() > 0 {
        let f = e.frames.last();
        let f2 = f.push(Map::empty());
        let f3 = f2.update(f2.len() - 1, f2.last().insert(n, v));
        assert(f3.drop_last() =~= f);
        let r = env_pop_scope(env_declare(env_push_scope(e), n, v));
        assert(r.frames =~= e.frames);
    } else {
        let g = e.global;
        let g2 = g.push(Map::empty());
        let g3 = g2.update(g2.len() - 1, g2.last().insert(n, v));
        assert(g3.drop_last() =~= g);
        let r = env_pop_scope(env_declare(env_push_scope(e), n, v));
        assert(r.global =~= e.global);
    }
}

/// An assignment made inside a block to a name declared outside it persists
/// after the block closes: the block contributes nothing but its own scope.
pub proof fn lemma_block_assignment_persists(e: SpecEnv, n: Seq<char>, v: SpecValue)
    requires
        env_wf(e),
        env_assign(e, n, v) is Some,
    ensures
        env_assign(env_push_scope(e), n, v) matches Some(e2) && env_pop_scope(e2) == env_assign(
            e,
            n,
            v,
        )->0,
{
    if e.frames.len() > 0 {
        let f = e.frames.last();
        let f2 = f.push(Map::<Seq<char>, SpecValue>::empty());
        assert(f2.last() == Map::<Seq<char>, SpecValue>::empty());
        assert(!f2.last().contains_key(n));
        assert(f2.drop_last() =~= f);
        match frame_assign(f, n, v) {
            Some(g) => {
                // the assignment lands in the same scope, below the new one
                let e2 = env_assign(env_push_scope(e), n, v)->0;
                let done = env_assign(e, n, v)->0;
                assert(g.push(f2.last()).drop_last() =~= g);
                assert(env_pop_scope(e2).frames =~= done.frames);
            },
            None => {
                // the assignment lands in the global frame, untouched by the scope
                let e2 = env_assign(env_push_scope(e), n, v)->0;
                let done = env_assign(e, n, v)->0;
                assert(env_pop_scope(e2).frames =~= done.frames);
            },
        }
    } else {
        let g = e.global;
        let g2 = g.push(Map::<Seq<char>, SpecValue>::empty());
        assert(!g2.last().contains_key(n));
        assert(g2.drop_last() =~= g);
        let gr = frame_assign(g, n, v)->0;
        assert(gr.push(g2.last()).drop_last() =~= gr);
        let e2 = env_assign(env_push_scope(e), n, v)->0;
        let done = env_assign(e, n, v)->0;
        assert(env_pop_scope(e2).frames =~= done.frames);
        assert(env_pop_scope(e2).global =~= done.global);
    }
}

// ---------------------------------------------------------------------------
// Assignment does not declare
// ---------------------------------------------------------------------------
/// Assigning succeeds exactly where reading does: an assignment never
/// creates a binding.
pub proof fn lemma_assign_iff_visible(e: SpecEnv, n: Seq<char>, v: SpecValue)
    ensures
        (env_assign(e, n, v) is Some) <==> (env_get(e, n) is Some),
{
    if e.frames.len() > 0 {
        lemma_frame_assign_some_iff(e.frames.last(), n, v);
        lemma_frame_find_some_iff(e.frames.last(), n, v);
    }
    lemma_frame_assign_some_iff(e.global, n, v);
    lemma_frame_find_some_iff(e.global, n, v);
}

proof fn lemma_frame_find_some_iff(
    f: Seq<crate::semantics::SpecScope>,
    n: Seq<char>,
    v: SpecValue,
)
    ensures
        frame_contains(f, n) == (crate::semantics::frame_find(f, n) is Some),
{
}

/// Assigning to a name that was never declared is a name error, even when
/// the right-hand side evaluates cleanly; the state keeps the side effects
/// of the right-hand side and nothing more.
pub proof fn lemma_assignment_does_not_declare(
    st: SpecState,
    n: Seq<char>,
    rhs: SpecExpr,
    fuel: nat,
    v: SpecValue,
    st1: SpecState,
)
    requires
        eval_spec(st, rhs, fuel) == Ok::<(SpecValue, SpecState), (ErrKind, SpecState)>((v, st1)),
        env_get(st1.env, n) is None,
    ensures
        eval_spec(st, SpecExpr::Assign(SpecToken::Identifier(n), Box::new(rhs)), fuel)
            == Err::<(SpecValue, SpecState), (ErrKind, SpecState)>((ErrKind::Name, st1)),
{
    lemma_assign_iff_visible(st1.env, n, v);
}

// ---------------------------------------------------------------------------
// Arity checking
// ---------------------------------------------------------------------------
/// Calling a function with the wrong number of arguments fails with an
/// arity error before anything runs: neither the arguments nor the body are
/// evaluated, so the state is exactly the state before the call.
pub proof fn lemma_arity_mismatch_has_no_effect(
    st: SpecState,
    f: Seq<char>,
    args: Seq<SpecExpr>,
    params: Seq<Seq<char>>,
    body: Box<SpecStmt>,
    fuel: nat,
)
    requires
        env_get(st.env, f) == Some(SpecValue::Fun(params, body)),
        params.len() != args.len(),
    ensures
        eval_spec(st, SpecExpr::FnCall(f, args), fuel) == Err::<
            (SpecValue, SpecState),
            (ErrKind, SpecState),
        >((ErrKind::Arity, st)),
{
}

// ---------------------------------------------------------------------------
// Function binding is by value
// ---------------------------------------------------------------------------
/// Assigning to a name bound in the current call frame (a parameter, or a
/// local of the call) touches neither the global frame nor any outer call
/// frame: a parameter is the callee's own copy.
pub proof fn lemma_parameter_assignment_is_local(e: SpecEnv, n: Seq<char>, v: SpecValue)
    requires
        e.frames.len() >= 1,
        frame_contains(e.frames.last(), n),
    ensures
        env_assign(e, n, v) matches Some(e2) && e2.global == e.global && e2.frames.drop_last()
            == e.frames.drop_last(),
{
    lemma_frame_assign_some_iff(e.frames.last(), n, v);
    let e2 = env_assign(e, n, v)->0;
    assert(e2.frames.drop_last() =~= e.frames.drop_last());
}

// ---------------------------------------------------------------------------
// Operator precedence
// ---------------------------------------------------------------------------
pub open spec fn lit_num(n: int) -> SpecExpr {
    SpecExpr::Literal(SpecToken::Number(n))
}

/// `x op y` as a tree.
pub open spec fn bin(x: SpecExpr, op: SpecToken, y: SpecExpr) -> SpecExpr {
    SpecExpr::Binary(Box::new(x), op, Box::new(y))
}

/// In `a + b * c` the product binds tighter: the tokens parse to
/// `a + (b * c)`, and that tree evaluates to the number `a + b * c`.
pub proof fn lemma_precedence_add_mul(st: SpecState, a: int, b: int, c: int, fuel: nat)
    requires
        num_in_range(b * c),
        num_in_range(a + b * c),
    ensures
        ({
            let toks = seq![
                SpecToken::Number(a),
                SpecToken::Plus,
                SpecToken::Number(b),
                SpecToken::Star,
                SpecToken::Number(c),
            ];
            let tree = bin(lit_num(a), SpecToken::Plus, bin(lit_num(b), SpecToken::Star, lit_num(c)));
            spec_expression(toks, 0) == Some((tree, 5int)) && eval_spec(st, tree, fuel) == Ok::<
                (SpecValue, SpecState),
                (ErrKind, SpecState),
            >((SpecValue::Num(a + b * c), st))
        }),
{
    let toks = seq![
        SpecToken::Number(a),
        SpecToken::Plus,
        SpecToken::Number(b),
        SpecToken::Star,
        SpecToken::Number(c),
    ];
    let bc = bin(lit_num(b), SpecToken::Star, lit_num(c));
    let tree = bin(lit_num(a), SpecToken::Plus, bc);
    assert(spec_primary(toks, 0) == Some((lit_num(a), 1int)));
    assert(spec_primary(toks, 2) == Some((lit_num(b), 1int)));
    assert(spec_primary(toks, 4) == Some((lit_num(c), 1int)));
    assert(spec_unary(toks, 0) == Some((lit_num(a), 1int)));
    assert(spec_binary_rest(toks, 1, 7, lit_num(a)) == (lit_num(a), 0int));
    assert(spec_binary(toks, 0, 7) == Some((lit_num(a), 1int)));
    assert(spec_unary(toks, 2) == Some((lit_num(b), 1int)));
    assert(spec_unary(toks, 4) == Some((lit_num(c), 1int)));
    assert(spec_binary_rest(toks, 5, 7, bc) == (bc, 0int));
    assert(spec_binary_rest(toks, 3, 7, lit_num(b)) == (bc, 2int));
    assert(spec_binary(toks, 2, 7) == Some((bc, 3int)));
    assert(spec_binary_rest(toks, 5, 6, tree) == (tree, 0int));
    assert(spec_binary_rest(toks, 1, 6, lit_num(a)) == (tree, 4int));
    assert(spec_binary(toks, 0, 6) == Some((tree, 5int)));
    assert(spec_binary_rest(toks, 5, 5, tree) == (tree, 0int));
    assert(spec_binary(toks, 0, 5) == Some((tree, 5int)));
    assert(spec_binary_rest(toks, 5, 4, tree) == (tree, 0int));
    assert(spec_binary(toks, 0, 4) == Some((tree, 5int)));
    assert(spec_binary_rest(toks, 5, 3, tree) == (tree, 0int));
    assert(spec_binary(toks, 0, 3) == Some((tree, 5int)));
    assert(spec_binary_rest(toks, 5, 2, tree) == (tree, 0int));
    assert(spec_binary(toks, 0, 2) == Some((tree, 5int)));
    assert(spec_assign(toks, 0) is None);
    assert(spec_expression(toks, 0) == Some((tree, 5int)));
    assert(eval_spec(st, lit_num(a), fuel) == Ok::<(SpecValue, SpecState), (ErrKind, SpecState)>(
        (SpecValue::Num(a), st),
    ));
    assert(eval_spec(st, lit_num(b), fuel) == Ok::<(SpecValue, SpecState), (ErrKind, SpecState)>(
        (SpecValue::Num(b), st),
    ));
    assert(eval_spec(st, lit_num(c), fuel) == Ok::<(SpecValue, SpecState), (ErrKind, SpecState)>(
        (SpecValue::Num(c), st),
    ));
    assert(spec_binop(SpecToken::Star, SpecValue::Num(b), SpecValue::Num(c)) == Ok::<
        SpecValue,
        ErrKind,
    >(SpecValue::Num(b * c)));
    assert(spec_binop(SpecToken::Plus, SpecValue::Num(a), SpecValue::Num(b * c)) == Ok::<
        SpecValue,
        ErrKind,
    >(SpecValue::Num(a + b * c)));
    assert(eval_spec(st, bc, fuel) == Ok::<(SpecValue, SpecState), (ErrKind, SpecState)>(
        (SpecValue::Num(b * c), st),
    ));
    assert(eval_spec(st, tree, fuel) == Ok::<(SpecValue, SpecState), (ErrKind, SpecState)>(
        (SpecValue::Num(a + b * c), st),
    ));
}

/// In `a * b + c` the product binds tighter: the tokens parse to
/// `(a * b) + c`, and that tree evaluates to the number `a * b + c`.
pub proof fn lemma_precedence_mul_add(st: SpecState, a: int, b: int, c: int, fuel: nat)
    requires
        num_in_range(a * b),
        num_in_range(a * b + c),
    ensures
        ({
            let toks = seq![
                SpecToken::Number(a),
                SpecToken::Star,
                SpecToken::Number(b),
                SpecToken::Plus,
                SpecToken::Number(c),
            ];
            let tree = bin(bin(lit_num(a), SpecToken::Star, lit_num(b)), SpecToken::Plus, lit_num(c));
            spec_expression(toks, 0) == Some((tree, 5int)) && eval_spec(st, tree, fuel) == Ok::<
                (SpecValue, SpecState),
                (ErrKind, SpecState),
            >((SpecValue::Num(a * b + c), st))
        }),
{
    let toks = seq![
        SpecToken::Number(a),
        SpecToken::Star,
        SpecToken::Number(b),
        SpecToken::Plus,
        SpecToken::Number(c),
    ];
    let ab = bin(lit_num(a), SpecToken::Star, lit_num(b));
    let tree = bin(ab, SpecToken::Plus, lit_num(c));
    assert(spec_primary(toks, 0) == Some((lit_num(a), 1int)));
    assert(spec_primary(toks, 2) == Some((lit_num(b), 1int)));
    assert(spec_primary(toks, 4) == Some((lit_num(c), 1int)));
    assert(spec_unary(toks, 0) == Some((lit_num(a), 1int)));
    assert(spec_unary(toks, 2) == Some((lit_num(b), 1int)));
    assert(spec_unary(toks, 4) == Some((lit_num(c), 1int)));
    assert(spec_binary_rest(toks, 3, 7, ab) == (ab, 0int));
    assert(spec_binary_rest(toks, 1, 7, lit_num(a)) == (ab, 2int));
    assert(spec_binary(toks, 0, 7) == Some((ab, 3int)));
    assert(spec_binary_rest(toks, 5, 7, lit_num(c)) == (lit_num(c), 0int));
    assert(spec_binary(toks, 4, 7) == Some((lit_num(c), 1int)));
    assert(spec_binary_rest(toks, 5, 6, tree) == (tree, 0int));
    assert(spec_binary_rest(toks, 3, 6, ab) == (tree, 2int));
    assert(spec_binary(toks, 0, 6) == Some((tree, 5int)));
    assert(spec_binary_rest(toks, 5, 5, tree) == (tree, 0int));
    assert(spec_binary(toks, 0, 5) == Some((tree, 5int)));
    assert(spec_binary_rest(toks, 5, 4, tree) == (tree, 0int));
    assert(spec_binary(toks, 0, 4) == Some((tree, 5int)));
    assert(spec_binary_rest(toks, 5, 3, tree) == (tree, 0int));
    assert(spec_binary(toks, 0, 3) == Some((tree, 5int)));
    assert(spec_binary_rest(toks, 5, 2, tree) == (tree, 0int));
    assert(spec_binary(toks, 0, 2) == Some((tree, 5int)));
    assert(spec_assign(toks, 0) is None);
    assert(spec_expression(toks, 0) == Some((tree, 5int)));
    assert(eval_spec(st, lit_num(a), fuel) == Ok::<(SpecValue, SpecState), (ErrKind, SpecState)>(
        (SpecValue::Num(a), st),
    ));
    assert(eval_spec(st, lit_num(b), fuel) == Ok::<(SpecValue, SpecState), (ErrKind, SpecState)>(
        (SpecValue::Num(b), st),
    ));
    assert(eval_spec(st, lit_num(c), fuel) == Ok::<(SpecValue, SpecState), (ErrKind, SpecState)>(
        (SpecValue::Num(c), st),
    ));
    assert(spec_binop(SpecToken::Star, SpecValue::Num(a), SpecValue::Num(b)) == Ok::<
        SpecValue,
        ErrKind,
    >(SpecValue::Num(a * b)));
    assert(spec_binop(SpecToken::Plus, SpecValue::Num(a * b), SpecValue::Num(c)) == Ok::<
        SpecValue,
        ErrKind,
    >(SpecValue::Num(a * b + c)));
    assert(eval_spec(st, ab, fuel) == Ok::<(SpecValue, SpecState), (ErrKind, SpecState)>(
        (SpecValue::Num(a * b), st),
    ));
    assert(eval_spec(st, tree, fuel) == Ok::<(SpecValue, SpecState), (ErrKind, SpecState)>(
        (SpecValue::Num(a * b + c), st),
    ));
}

/// In `-a * b` the negation binds to `a` alone: the tokens parse to
/// `(-a) * b`, and that tree evaluates to the number `(-a) * b`.
pub proof fn lemma_precedence_neg_mul(st: SpecState, a: int, b: int, fuel: nat)
    requires
        num_in_range(-a),
        num_in_range(-a * b),
    ensures
        ({
            let toks = seq![
                SpecToken::Minus,
                SpecToken::Number(a),
                SpecToken::Star,
                SpecToken::Number(b),
            ];
            let tree = bin(
                SpecExpr::Unary(SpecToken::Minus, Box::new(lit_num(a))),
                SpecToken::Star,
                lit_num(b),
            );
            spec_expression(toks, 0) == Some((tree, 4int)) && eval_spec(st, tree, fuel) == Ok::<
                (SpecValue, SpecState),
                (ErrKind, SpecState),
            >((SpecValue::Num(-a * b), st))
        }),
{
    let toks = seq![
        SpecToken::Minus,
        SpecToken::Number(a),
        SpecToken::Star,
        SpecToken::Number(b),
    ];
    let na = SpecExpr::Unary(SpecToken::Minus, Box::new(lit_num(a)));
    let tree = bin(na, SpecToken::Star, lit_num(b));
    assert(spec_primary(toks, 1) == Some((lit_num(a), 1int)));
    assert(spec_primary(toks, 3) == Some((lit_num(b), 1int)));
    assert(spec_unary(toks, 1) == Some((lit_num(a), 1int)));
    assert(spec_unary(toks, 0) == Some((na, 2int)));
    assert(spec_unary(toks, 3) == Some((lit_num(b), 1int)));
    assert(spec_binary_rest(toks, 4, 7, tree) == (tree, 0int));
    assert(spec_binary_rest(toks, 2, 7, na) == (tree, 2int));
    assert(spec_binary(toks, 0, 7) == Some((tree, 4int)));
    assert(spec_binary_rest(toks, 4, 6, tree) == (tree, 0int));
    assert(spec_binary(toks, 0, 6) == Some((tree, 4int)));
    assert(spec_binary_rest(toks, 4, 5, tree) == (tree, 0int));
    assert(spec_binary(toks, 0, 5) == Some((tree, 4int)));
    assert(spec_binary_rest(toks, 4, 4, tree) == (tree, 0int));
    assert(spec_binary(toks, 0, 4) == Some((tree, 4int)));
    assert(spec_binary_rest(toks, 4, 3, tree) == (tree, 0int));
    assert(spec_binary(toks, 0, 3) == Some((tree, 4int)));
    assert(spec_binary_rest(toks, 4, 2, tree) == (tree, 0int));
    assert(spec_binary(toks, 0, 2) == Some((tree, 4int)));
    assert(spec_assign(toks, 0) is None);
    assert(spec_expression(toks, 0) == Some((tree, 4int)));
    assert(eval_spec(st, lit_num(a), fuel) == Ok::<(SpecValue, SpecState), (ErrKind, SpecState)>(
        (SpecValue::Num(a), st),
    ));
    assert(eval_spec(st, lit_num(b), fuel) == Ok::<(SpecValue, SpecState), (ErrKind, SpecState)>(
        (SpecValue::Num(b), st),
    ));
    assert(spec_binop(SpecToken::Star, SpecValue::Num(-a), SpecValue::Num(b)) == Ok::<
        SpecValue,
        ErrKind,
    >(SpecValue::Num(-a * b)));
    assert(eval_spec(st, na, fuel) == Ok::<(SpecValue, SpecState), (ErrKind, SpecState)>(
        (SpecValue::Num(-a), st),
    ));
    assert(eval_spec(st, tree, fuel) == Ok::<(SpecValue, SpecState), (ErrKind, SpecState)>(
        (SpecValue::Num(-a * b), st),
    ));
}

} // verus!
