//! Expressions: their abstract syntax, and the recursive-descent grammar
//! from tokens to expression trees. Each `spec_*` function is one grammar
//! rule; the methods of `Expr` implement them.

use vstd::prelude::*;

use crate::error::{ErrKind, LoxError};
use crate::token::{toks_view, SpecToken, Token};

verus! {

// ---------------------------------------------------------------------------
// Abstract syntax of expressions
// ---------------------------------------------------------------------------
pub enum Expr {
    /// `name = rhs`; the token is the identifier being assigned.
    Assign(Token, Box<Expr>),
    /// `lhs op rhs` for the binary and logical operators.
    Binary(Box<Expr>, Token, Box<Expr>),
    /// A parenthesized expression.
    Group(Box<Expr>),
    /// A literal or identifier token.
    Literal(Token),
    /// `!e` or `-e`.
    Unary(Token, Box<Expr>),
    /// `name(args...)`.
    FnCall(String, Vec<Expr>),
}

/// The mathematical shape of an expression.
pub enum SpecExpr {
    Assign(SpecToken, Box<SpecExpr>),
    Binary(Box<SpecExpr>, SpecToken, Box<SpecExpr>),
    Group(Box<SpecExpr>),
    Literal(SpecToken),
    Unary(SpecToken, Box<SpecExpr>),
    FnCall(Seq<char>, Seq<SpecExpr>),
}

pub open spec fn expr_view(e: Expr) -> SpecExpr
    decreases e,
{
    match e {
        Expr::Assign(t, rhs) => SpecExpr::Assign(t@, Box::new(expr_view(*rhs))),
        Expr::Binary(l, op, r) => SpecExpr::Binary(
            Box::new(expr_view(*l)),
            op@,
            Box::new(expr_view(*r)),
        ),
        Expr::Group(inner) => SpecExpr::Group(Box::new(expr_view(*inner))),
        Expr::Literal(t) => SpecExpr::Literal(t@),
        Expr::Unary(op, inner) => SpecExpr::Unary(op@, Box::new(expr_view(*inner))),
        Expr::FnCall(name, args) => SpecExpr::FnCall(name@, exprs_view(args@)),
    }
}

pub open spec fn exprs_view(s: Seq<Expr>) -> Seq<SpecExpr>
    decreases s,
{
    if s.len() == 0 {
        seq![]
    } else {
        exprs_view(s.drop_last()).push(expr_view(s.last()))
    }
}

impl View for Expr {
    type V = SpecExpr;

    open spec fn view(&self) -> SpecExpr {
        expr_view(*self)
    }
}

pub proof fn lemma_exprs_view(s: Seq<Expr>)
    ensures
        exprs_view(s).len() == s.len(),
        forall|i: int| 0 <= i < s.len() ==> exprs_view(s)[i] == expr_view(s[i]),
    decreases s.len(),
{
    if s.len() > 0 {
        lemma_exprs_view(s.drop_last());
    }
}

impl Clone for Expr {
    fn clone(&self) -> (res: Self)
        ensures
            res@ == self@,
        decreases self,
    {
        match self {
            Expr::Assign(t, rhs) => Expr::Assign(t.clone(), Box::new((**rhs).clone())),
            Expr::Binary(l, op, r) => Expr::Binary(
                Box::new((**l).clone()),
                op.clone(),
                Box::new((**r).clone()),
            ),
            Expr::Group(inner) => Expr::Group(Box::new((**inner).clone())),
            Expr::Literal(t) => Expr::Literal(t.clone()),
            Expr::Unary(op, inner) => Expr::Unary(op.clone(), Box::new((**inner).clone())),
            Expr::FnCall(name, args) => Expr::FnCall(name.clone(), clone_exprs(args)),
        }
    }
}

/// Clones a vector of expressions, element by element.
fn clone_exprs(args: &Vec<Expr>) -> (res: Vec<Expr>)
    ensures
        exprs_view(res@) == exprs_view(args@),
    decreases args@,
{
    let mut cloned: Vec<Expr> = Vec::new();
    let mut i: usize = 0;
    while i < args.len()
        invariant
            i <= args@.len(),
            cloned@.len() == i,
            forall|k: int| 0 <= k < i ==> cloned@[k]@ == args@[k]@,
        decreases args@.len() - i,
    {
        proof {
            assert(decreases_to!(args@ => args@[i as int]));
        }
        let item = args[i].clone();
        cloned.push(item);
        i = i + 1;
    }
    proof {
        lemma_exprs_view(cloned@);
        lemma_exprs_view(args@);
        assert(exprs_view(cloned@) =~= exprs_view(args@));
    }
    cloned
}

/// The size of an expression tree, the measure that evaluation recurses on.
pub open spec fn expr_size(e: SpecExpr) -> nat
    decreases e,
{
    match e {
        SpecExpr::Assign(_, rhs) => 1 + expr_size(*rhs),
        SpecExpr::Binary(l, _, r) => 1 + expr_size(*l) + expr_size(*r),
        SpecExpr::Group(g) => 1 + expr_size(*g),
        SpecExpr::Literal(_) => 1,
        SpecExpr::Unary(_, sub) => 1 + expr_size(*sub),
        SpecExpr::FnCall(_, args) => 1 + exprs_size(args),
    }
}

pub open spec fn exprs_size(s: Seq<SpecExpr>) -> nat
    decreases s,
{
    if s.len() == 0 {
        0
    } else {
        1 + expr_size(s[0]) + exprs_size(s.skip(1))
    }
}

/// Each member of a sequence is smaller than the whole.
pub proof fn lemma_exprs_size_member(s: Seq<SpecExpr>, i: int)
    requires
        0 <= i < s.len(),
    ensures
        expr_size(s[i]) < exprs_size(s),
    decreases s.len(),
{
    if i > 0 {
        lemma_exprs_size_member(s.skip(1), i - 1);
    }
}

// ---------------------------------------------------------------------------
// The grammar, as recursive descent over a token sequence. Each function
// yields the parsed node and the number of tokens consumed, or `None` when
// the tokens do not match its rule.
// ---------------------------------------------------------------------------
/// Which tokens are the operators of each precedence level. Levels run from
/// `or` (2, loosest) down to `* /` (7, tightest).
pub open spec fn level_op(lv: int, t: SpecToken) -> bool {
    if lv == 2 {
        t == SpecToken::Or
    } else if lv == 3 {
        t == SpecToken::And
    } else if lv == 4 {
        t == SpecToken::EqualEqual || t == SpecToken::BangEqual
    } else if lv == 5 {
        t == SpecToken::Greater || t == SpecToken::GreaterEqual || t == SpecToken::Less || t
            == SpecToken::LessEqual
    } else if lv == 6 {
        t == SpecToken::Minus || t == SpecToken::Plus
    } else {
        t == SpecToken::Slash || t == SpecToken::Star
    }
}

/// expression := assignment | logic_or
pub open spec fn spec_expression(tks: Seq<SpecToken>, start: int) -> Option<(SpecExpr, int)>
    decreases tks.len() - start, 12int, 0int,
    when 0 <= start <= tks.len()
{
    match spec_assign(tks, start) {
        Some(r) => Some(r),
        None => spec_binary(tks, start, 2),
    }
}

/// assignment := IDENT `=` expression, right-associative through the
/// recursion into `expression`.
pub open spec fn spec_assign(tks: Seq<SpecToken>, start: int) -> Option<(SpecExpr, int)>
    decreases tks.len() - start, 11int, 0int,
    when 0 <= start <= tks.len()
{
    if start + 1 < tks.len() && tks[start] is Identifier && tks[start + 1] == SpecToken::Equal {
        match spec_expression(tks, start + 2) {
            Some((rhs, used)) => Some((SpecExpr::Assign(tks[start], Box::new(rhs)), 2 + used)),
            None => None,
        }
    } else {
        None
    }
}

/// One left-associative binary level: its operand rule followed by any
/// number of (operator, operand) pairs, folded to the left.
pub open spec fn spec_binary(tks: Seq<SpecToken>, start: int, lv: int) -> Option<(SpecExpr, int)>
    decreases tks.len() - start, 10 - lv, 1int,
    when 0 <= start <= tks.len() && 2 <= lv <= 7
{
    let first = if lv == 7 {
        spec_unary(tks, start)
    } else {
        spec_binary(tks, start, lv + 1)
    };
    match first {
        Some((e, used)) => {
            if 1 <= used && start + used <= tks.len() {
                let rest = spec_binary_rest(tks, start + used, lv, e);
                Some((rest.0, used + rest.1))
            } else {
                None
            }
        },
        None => None,
    }
}

/// The left fold of one binary level: as long as an operator of the level
/// follows and its right operand parses, extend the accumulated tree.
pub open spec fn spec_binary_rest(tks: Seq<SpecToken>, pos: int, lv: int, acc: SpecExpr) -> (
    SpecExpr,
    int,
)
    decreases tks.len() - pos, 10 - lv, 0int,
    when 0 <= pos <= tks.len() && 2 <= lv <= 7
{
    if pos < tks.len() && level_op(lv, tks[pos]) {
        let sub = if lv == 7 {
            spec_unary(tks, pos + 1)
        } else {
            spec_binary(tks, pos + 1, lv + 1)
        };
        match sub {
            Some((rhs, used)) => {
                if 1 <= used && pos + 1 + used <= tks.len() {
                    let acc2 = SpecExpr::Binary(Box::new(acc), tks[pos], Box::new(rhs));
                    let rest = spec_binary_rest(tks, pos + 1 + used, lv, acc2);
                    (rest.0, 1 + used + rest.1)
                } else {
                    (acc, 0)
                }
            },
            None => (acc, 0),
        }
    } else {
        (acc, 0)
    }
}

/// unary := (`!` | `-`) unary | call | primary
pub open spec fn spec_unary(tks: Seq<SpecToken>, start: int) -> Option<(SpecExpr, int)>
    decreases tks.len() - start, 2int, 0int,
    when 0 <= start <= tks.len()
{
    if start < tks.len() && (tks[start] == SpecToken::Bang || tks[start] == SpecToken::Minus) {
        match spec_unary(tks, start + 1) {
            Some((e, used)) => Some((SpecExpr::Unary(tks[start], Box::new(e)), 1 + used)),
            None => None,
        }
    } else if start < tks.len() && tks[start] is Identifier {
        match spec_fn_call(tks, start) {
            Some(r) => Some(r),
            None => spec_primary(tks, start),
        }
    } else {
        spec_primary(tks, start)
    }
}

/// call := IDENT `(` arguments? `)`
pub open spec fn spec_fn_call(tks: Seq<SpecToken>, start: int) -> Option<(SpecExpr, int)>
    decreases tks.len() - start, 1int, 1int,
    when 0 <= start <= tks.len()
{
    if start < tks.len() && tks[start] is Identifier {
        match spec_fn_args(tks, start + 1) {
            Some((args, used)) => Some(
                (SpecExpr::FnCall(tks[start]->Identifier_0, args), 1 + used),
            ),
            None => None,
        }
    } else {
        None
    }
}

/// `(` ( expression (`,` expression)* )? `)`, counting both parentheses in
/// the tokens consumed.
pub open spec fn spec_fn_args(tks: Seq<SpecToken>, pos: int) -> Option<(Seq<SpecExpr>, int)>
    decreases tks.len() - pos, 1int, 0int,
    when 0 <= pos <= tks.len()
{
    if pos < tks.len() && tks[pos] == SpecToken::LeftParen {
        match spec_expression(tks, pos + 1) {
            None => {
                if pos + 1 < tks.len() && tks[pos + 1] == SpecToken::RightParen {
                    Some((seq![], 2))
                } else {
                    None
                }
            },
            Some((e, used)) => {
                if 1 <= used && pos + 1 + used <= tks.len() {
                    match spec_args_rest(tks, pos + 1 + used, seq![e]) {
                        Some((args, extra)) => {
                            let close = pos + 1 + used + extra;
                            if close < tks.len() && tks[close] == SpecToken::RightParen {
                                Some((args, close + 1 - pos))
                            } else {
                                None
                            }
                        },
                        None => None,
                    }
                } else {
                    None
                }
            },
        }
    } else {
        None
    }
}

/// The comma-separated tail of an argument list: at most 255 arguments in
/// all, and after a comma an argument must parse.
pub open spec fn spec_args_rest(tks: Seq<SpecToken>, pos: int, acc: Seq<SpecExpr>) -> Option<
    (Seq<SpecExpr>, int),
>
    decreases tks.len() - pos, 0int, 0int,
    when 0 <= pos <= tks.len()
{
    if pos < tks.len() && tks[pos] == SpecToken::Comma {
        if acc.len() >= 255 {
            None
        } else {
            match spec_expression(tks, pos + 1) {
                Some((e, used)) => {
                    if 1 <= used && pos + 1 + used <= tks.len() {
                        match spec_args_rest(tks, pos + 1 + used, acc.push(e)) {
                            Some((args, extra)) => Some((args, 1 + used + extra)),
                            None => None,
                        }
                    } else {
                        None
                    }
                },
                None => None,
            }
        }
    } else {
        Some((acc, 0))
    }
}

/// primary := `false` | `true` | `nil` | STRING | NUMBER | IDENT
///          | `(` expression `)`
pub open spec fn spec_primary(tks: Seq<SpecToken>, start: int) -> Option<(SpecExpr, int)>
    decreases tks.len() - start, 0int, 0int,
    when 0 <= start <= tks.len()
{
    if start < tks.len() {
        let t = tks[start];
        match t {
            SpecToken::False => Some((SpecExpr::Literal(t), 1)),
            SpecToken::True => Some((SpecExpr::Literal(t), 1)),
            SpecToken::Nil => Some((SpecExpr::Literal(t), 1)),
            SpecToken::StringLit(_) => Some((SpecExpr::Literal(t), 1)),
            SpecToken::Number(_) => Some((SpecExpr::Literal(t), 1)),
            SpecToken::Identifier(_) => Some((SpecExpr::Literal(t), 1)),
            SpecToken::LeftParen => match spec_expression(tks, start + 1) {
                Some((e, used)) => {
                    if start + used + 1 < tks.len() && tks[start + used + 1]
                        == SpecToken::RightParen {
                        Some((SpecExpr::Group(Box::new(e)), 2 + used))
                    } else {
                        None
                    }
                },
                None => None,
            },
            _ => None,
        }
    } else {
        None
    }
}

// ---------------------------------------------------------------------------
// The executable parser. Each function implements exactly the spec rule of
// the same name.
// ---------------------------------------------------------------------------
fn is_level_op(t: &Token, lv: u8) -> (r: bool)
    requires
        2 <= lv <= 7,
    ensures
        r == level_op(lv as int, t@),
{
    if lv == 2 {
        matches!(t, Token::Or)
    } else if lv == 3 {
        matches!(t, Token::And)
    } else if lv == 4 {
        matches!(t, Token::EqualEqual | Token::BangEqual)
    } else if lv == 5 {
        matches!(t, Token::Greater | Token::GreaterEqual | Token::Less | Token::LessEqual)
    } else if lv == 6 {
        matches!(t, Token::Minus | Token::Plus)
    } else {
        matches!(t, Token::Slash | Token::Star)
    }
}

impl Expr {
    /// Parses one expression starting at `start`; on success the consumed
    /// token count is at least one and stays within the sequence.
    pub fn expression(tks: &Vec<Token>, start: usize) -> (r: Result<(Expr, usize), LoxError>)
        requires
            start <= tks@.len(),
        ensures
            match r {
                Ok((e, used)) => spec_expression(toks_view(tks@), start as int) == Some(
                    (e@, used as int),
                ) && 1 <= used && start + used <= tks@.len(),
                Err(err) => spec_expression(toks_view(tks@), start as int) is None && err.kind
                    == ErrKind::Parse,
            },
        decreases tks@.len() - start, 12int, 0int,
    {
        match Self::assign(tks, start) {
            Ok(r) => Ok(r),
            Err(_) => Self::binary_level(tks, start, 2),
        }
    }

    pub fn assign(tks: &Vec<Token>, start: usize) -> (r: Result<(Expr, usize), LoxError>)
        requires
            start <= tks@.len(),
        ensures
            match r {
                Ok((e, used)) => spec_assign(toks_view(tks@), start as int) == Some(
                    (e@, used as int),
                ) && 1 <= used && start + used <= tks@.len(),
                Err(err) => spec_assign(toks_view(tks@), start as int) is None && err.kind
                    == ErrKind::Parse,
            },
        decreases tks@.len() - start, 11int, 0int,
    {
        if tks.len() - start >= 2 && matches!(&tks[start], Token::Identifier(_)) && matches!(
            &tks[start + 1],
            Token::Equal,
        ) {
            match Self::expression(tks, start + 2) {
                Ok((rhs, used)) => {
                    let target = tks[start].clone();
                    Ok((Expr::Assign(target, Box::new(rhs)), 2 + used))
                },
                Err(e) => Err(e),
            }
        } else {
            Err(LoxError::new(ErrKind::Parse, "not an assignment"))
        }
    }

    /// One precedence level of the left-associative binary operators.
    fn binary_level(tks: &Vec<Token>, start: usize, lv: u8) -> (r: Result<
        (Expr, usize),
        LoxError,
    >)
        requires
            start <= tks@.len(),
            2 <= lv <= 7,
        ensures
            match r {
                Ok((e, used)) => spec_binary(toks_view(tks@), start as int, lv as int) == Some(
                    (e@, used as int),
                ) && 1 <= used && start + used <= tks@.len(),
                Err(err) => spec_binary(toks_view(tks@), start as int, lv as int) is None
                    && err.kind == ErrKind::Parse,
            },
        decreases tks@.len() - start, 10 - lv as int, 1int,
    {
        let first = if lv == 7 {
            Self::unary(tks, start)
        } else {
            Self::binary_level(tks, start, lv + 1)
        };
        let (first_e, first_used) = match first {
            Ok(p) => p,
            Err(e) => {
                return Err(e);
            },
        };
        let ghost v = toks_view(tks@);
        let ghost pos0 = start + first_used;
        let ghost e0 = first_e@;
        let n = tks.len();
        let mut e = first_e;
        let mut pos = start + first_used;
        let mut done = false;
        while !done
            invariant
                start <= tks@.len(),
                2 <= lv <= 7,
                v == toks_view(tks@),
                n == tks@.len(),
                start + 1 <= pos0,
                pos0 <= pos <= n,
                (if lv == 7 {
                    spec_unary(v, start as int)
                } else {
                    spec_binary(v, start as int, lv as int + 1)
                }) == Some((e0, pos0 - start as int)),
                spec_binary_rest(v, pos0, lv as int, e0).0 == spec_binary_rest(
                    v,
                    pos as int,
                    lv as int,
                    e@,
                ).0,
                spec_binary_rest(v, pos0, lv as int, e0).1 == (pos - pos0) + spec_binary_rest(
                    v,
                    pos as int,
                    lv as int,
                    e@,
                ).1,
                done ==> spec_binary_rest(v, pos as int, lv as int, e@) == (e@, 0int),
            decreases n - pos, if done {
                0int
            } else {
                1int
            },
        {
            if pos >= n {
                done = true;
            } else if !is_level_op(&tks[pos], lv) {
                done = true;
            } else {
                let sub = if lv == 7 {
                    Self::unary(tks, pos + 1)
                } else {
                    Self::binary_level(tks, pos + 1, lv + 1)
                };
                match sub {
                    Err(_) => {
                        done = true;
                    },
                    Ok((rhs, used)) => {
                        let op = tks[pos].clone();
                        e = Expr::Binary(Box::new(e), op, Box::new(rhs));
                        pos = pos + 1 + used;
                    },
                }
            }
        }
        Ok((e, pos - start))
    }

    pub fn logic_or(tks: &Vec<Token>, start: usize) -> (r: Result<(Expr, usize), LoxError>)
        requires
            start <= tks@.len(),
        ensures
            match r {
                Ok((e, used)) => spec_binary(toks_view(tks@), start as int, 2) == Some(
                    (e@, used as int),
                ) && 1 <= used && start + used <= tks@.len(),
                Err(err) => spec_binary(toks_view(tks@), start as int, 2) is None && err.kind
                    == ErrKind::Parse,
            },
    {
        Self::binary_level(tks, start, 2)
    }

    pub fn logic_and(tks: &Vec<Token>, start: usize) -> (r: Result<(Expr, usize), LoxError>)
        requires
            start <= tks@.len(),
        ensures
            match r {
                Ok((e, used)) => spec_binary(toks_view(tks@), start as int, 3) == Some(
                    (e@, used as int),
                ) && 1 <= used && start + used <= tks@.len(),
                Err(err) => spec_binary(toks_view(tks@), start as int, 3) is None && err.kind
                    == ErrKind::Parse,
            },
    {
        Self::binary_level(tks, start, 3)
    }

    pub fn equality(tks: &Vec<Token>, start: usize) -> (r: Result<(Expr, usize), LoxError>)
        requires
            start <= tks@.len(),
        ensures
            match r {
                Ok((e, used)) => spec_binary(toks_view(tks@), start as int, 4) == Some(
                    (e@, used as int),
                ) && 1 <= used && start + used <= tks@.len(),
                Err(err) => spec_binary(toks_view(tks@), start as int, 4) is None && err.kind
                    == ErrKind::Parse,
            },
    {
        Self::binary_level(tks, start, 4)
    }

    pub fn comparison(tks: &Vec<Token>, start: usize) -> (r: Result<(Expr, usize), LoxError>)
        requires
            start <= tks@.len(),
        ensures
            match r {
                Ok((e, used)) => spec_binary(toks_view(tks@), start as int, 5) == Some(
                    (e@, used as int),
                ) && 1 <= used && start + used <= tks@.len(),
                Err(err) => spec_binary(toks_view(tks@), start as int, 5) is None && err.kind
                    == ErrKind::Parse,
            },
    {
        Self::binary_level(tks, start, 5)
    }

    pub fn term(tks: &Vec<Token>, start: usize) -> (r: Result<(Expr, usize), LoxError>)
        requires
            start <= tks@.len(),
        ensures
            match r {
                Ok((e, used)) => spec_binary(toks_view(tks@), start as int, 6) == Some(
                    (e@, used as int),
                ) && 1 <= used && start + used <= tks@.len(),
                Err(err) => spec_binary(toks_view(tks@), start as int, 6) is None && err.kind
                    == ErrKind::Parse,
            },
    {
        Self::binary_level(tks, start, 6)
    }

    pub fn factor(tks: &Vec<Token>, start: usize) -> (r: Result<(Expr, usize), LoxError>)
        requires
            start <= tks@.len(),
        ensures
            match r {
                Ok((e, used)) => spec_binary(toks_view(tks@), start as int, 7) == Some(
                    (e@, used as int),
                ) && 1 <= used && start + used <= tks@.len(),
                Err(err) => spec_binary(toks_view(tks@), start as int, 7) is None && err.kind
                    == ErrKind::Parse,
            },
    {
        Self::binary_level(tks, start, 7)
    }

    pub fn unary(tks: &Vec<Token>, start: usize) -> (r: Result<(Expr, usize), LoxError>)
        requires
            start <= tks@.len(),
        ensures
            match r {
                Ok((e, used)) => spec_unary(toks_view(tks@), start as int) == Some(
                    (e@, used as int),
                ) && 1 <= used && start + used <= tks@.len(),
                Err(err) => spec_unary(toks_view(tks@), start as int) is None && err.kind
                    == ErrKind::Parse,
            },
        decreases tks@.len() - start, 2int, 0int,
    {
        if start < tks.len() && matches!(&tks[start], Token::Bang | Token::Minus) {
            match Self::unary(tks, start + 1) {
                Ok((e, used)) => {
                    let op = tks[start].clone();
                    Ok((Expr::Unary(op, Box::new(e)), 1 + used))
                },
                Err(e) => Err(e),
            }
        } else if start < tks.len() && matches!(&tks[start], Token::Identifier(_)) {
            match Self::fn_call(tks, start) {
                Ok(r) => Ok(r),
                Err(_) => Self::primary(tks, start),
            }
        } else {
            Self::primary(tks, start)
        }
    }

    pub fn fn_call(tks: &Vec<Token>, start: usize) -> (r: Result<(Expr, usize), LoxError>)
        requires
            start <= tks@.len(),
        ensures
            match r {
                Ok((e, used)) => spec_fn_call(toks_view(tks@), start as int) == Some(
                    (e@, used as int),
                ) && 1 <= used && start + used <= tks@.len(),
                Err(err) => spec_fn_call(toks_view(tks@), start as int) is None && err.kind
                    == ErrKind::Parse,
            },
        decreases tks@.len() - start, 1int, 1int,
    {
        if start < tks.len() {
            let name = match &tks[start] {
                Token::Identifier(idnt) => idnt.clone(),
                _ => {
                    return Err(LoxError::new(ErrKind::Parse, "not a function call"));
                },
            };
            match Self::fn_args_parse(tks, start + 1) {
                Ok((args, used)) => {
                    proof {
                        lemma_exprs_view(args@);
                    }
                    Ok((Expr::FnCall(name, args), 1 + used))
                },
                Err(e) => Err(e),
            }
        } else {
            Err(LoxError::new(ErrKind::Parse, "no tokens for a function call"))
        }
    }

    fn fn_args_parse(tks: &Vec<Token>, pos: usize) -> (r: Result<(Vec<Expr>, usize), LoxError>)
        requires
            pos <= tks@.len(),
        ensures
            match r {
                Ok((args, used)) => spec_fn_args(toks_view(tks@), pos as int) == Some(
                    (exprs_view(args@), used as int),
                ) && 2 <= used && pos + used <= tks@.len(),
                Err(err) => spec_fn_args(toks_view(tks@), pos as int) is None && err.kind
                    == ErrKind::Parse,
            },
        decreases tks@.len() - pos, 1int, 0int,
    {
        let ghost v = toks_view(tks@);
        if !(pos < tks.len() && matches!(&tks[pos], Token::LeftParen)) {
            return Err(LoxError::new(ErrKind::Parse, "expected an opening parenthesis"));
        }
        let mut args: Vec<Expr> = Vec::new();
        let mut q: usize;
        match Self::expression(tks, pos + 1) {
            Err(_) => {
                // no arguments: the closing parenthesis must follow at once
                if pos + 1 < tks.len() && matches!(&tks[pos + 1], Token::RightParen) {
                    assert(exprs_view(args@) =~= Seq::<SpecExpr>::empty());
                    return Ok((args, 2));
                } else {
                    return Err(LoxError::new(ErrKind::Parse, "expected a closing parenthesis"));
                }
            },
            Ok((e, used)) => {
                let ghost evw = e@;
                args.push(e);
                q = pos + 1 + used;
                proof {
                    lemma_exprs_view(args@);
                    assert(exprs_view(args@) =~= seq![evw]);
                }
            },
        }
        // the (comma, argument) tail
        let ghost q0 = q as int;
        let ghost acc0 = exprs_view(args@);
        let n = tks.len();
        let mut done = false;
        while !done
            invariant
                v == toks_view(tks@),
                n == tks@.len(),
                pos < n,
                v[pos as int] == SpecToken::LeftParen,
                pos + 2 <= q0,
                q0 <= q <= n,
                spec_expression(v, pos as int + 1) == Some((acc0[0], q0 - pos - 1)),
                acc0.len() == 1,
                exprs_view(args@).len() == args@.len(),
                spec_args_rest(v, q0, acc0) == (match spec_args_rest(
                    v,
                    q as int,
                    exprs_view(args@),
                ) {
                    Some((a, extra)) => Some((a, (q - q0) + extra)),
                    None => None::<(Seq<SpecExpr>, int)>,
                }),
                done ==> spec_args_rest(v, q as int, exprs_view(args@)) == Some(
                    (exprs_view(args@), 0int),
                ),
            decreases n - q, if done {
                0int
            } else {
                1int
            },
        {
            if q >= n {
                done = true;
            } else if !matches!(&tks[q], Token::Comma) {
                done = true;
            } else {
                if args.len() >= 255 {
                    proof {
                        lemma_exprs_view(args@);
                        assert(acc0 =~= seq![acc0[0]]);
                        assert(spec_args_rest(v, q as int, exprs_view(args@)) is None);
                        assert(spec_args_rest(v, q0, acc0) is None);
                        assert(spec_fn_args(v, pos as int) is None);
                    }
                    return Err(LoxError::new(ErrKind::Parse, "more than 255 arguments"));
                }
                match Self::expression(tks, q + 1) {
                    Err(e) => {
                        proof {
                            lemma_exprs_view(args@);
                            assert(acc0 =~= seq![acc0[0]]);
                            assert(spec_args_rest(v, q as int, exprs_view(args@)) is None);
                            assert(spec_args_rest(v, q0, acc0) is None);
                            assert(spec_fn_args(v, pos as int) is None);
                        }
                        return Err(LoxError::new(ErrKind::Parse, "expected an argument"));
                    },
                    Ok((e, used)) => {
                        let ghost before = args@;
                        args.push(e);
                        proof {
                            lemma_exprs_push(before, e);
                            lemma_exprs_view(args@);
                        }
                        q = q + 1 + used;
                    },
                }
            }
        }
        // the closing parenthesis
        if q < n && matches!(&tks[q], Token::RightParen) {
            Ok((args, q + 1 - pos))
        } else {
            Err(LoxError::new(ErrKind::Parse, "expected a closing parenthesis"))
        }
    }

    pub fn primary(tks: &Vec<Token>, start: usize) -> (r: Result<(Expr, usize), LoxError>)
        requires
            start <= tks@.len(),
        ensures
            match r {
                Ok((e, used)) => spec_primary(toks_view(tks@), start as int) == Some(
                    (e@, used as int),
                ) && 1 <= used && start + used <= tks@.len(),
                Err(err) => spec_primary(toks_view(tks@), start as int) is None && err.kind
                    == ErrKind::Parse,
            },
        decreases tks@.len() - start, 0int, 0int,
    {
        if start >= tks.len() {
            return Err(LoxError::new(ErrKind::Parse, "no tokens for an expression"));
        }
        match &tks[start] {
            Token::False | Token::True | Token::Nil | Token::StringLit(_) | Token::Number(_)
                | Token::Identifier(_) => {
                let t = tks[start].clone();
                Ok((Expr::Literal(t), 1))
            },
            Token::LeftParen => {
                match Self::expression(tks, start + 1) {
                    Ok((e, used)) => {
                        if start + used + 1 < tks.len() && matches!(
                            &tks[start + used + 1],
                            Token::RightParen,
                        ) {
                            Ok((Expr::Group(Box::new(e)), 2 + used))
                        } else {
                            Err(LoxError::new(ErrKind::Parse, "expected a closing parenthesis"))
                        }
                    },
                    Err(e) => Err(e),
                }
            },
            _ => Err(LoxError::new(ErrKind::Parse, "unexpected token in an expression")),
        }
    }
}

/// Pushing an expression extends the sequence of views by its view.
pub proof fn lemma_exprs_push(s: Seq<Expr>, e: Expr)
    ensures
        exprs_view(s.push(e)) == exprs_view(s).push(expr_view(e)),
{
    assert(s.push(e).drop_last() =~= s);
    assert(s.push(e).last() == e);
}

} // verus!
