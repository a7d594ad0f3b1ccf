//! Statements: their abstract syntax, and the grammar from tokens to
//! statement trees. Each `spec_*` function is one grammar rule; the methods
//! of `Stmt` implement them.

use vstd::prelude::*;

use crate::error::{ErrKind, LoxError};
use crate::expression::{spec_expression, Expr, SpecExpr};
use crate::token::{toks_view, SpecToken, Token};

verus! {

// ---------------------------------------------------------------------------
// Abstract syntax of statements
// ---------------------------------------------------------------------------
pub enum Stmt {
    /// `{ ... }`
    Block(Vec<Stmt>),
    /// `var name;` or `var name = expr;`; the token is the identifier.
    Decl(Token, Option<Expr>),
    /// An expression evaluated for its effects, `expr;`.
    Expr(Expr),
    /// `print expr;`
    Print(Expr),
    /// `if (cond) then-branch` with an optional `else` branch.
    If(Expr, Box<Stmt>, Option<Box<Stmt>>),
    /// `while (cond) body`
    While(Expr, Box<Stmt>),
    /// `for (init?; cond?; step?) body`
    For(Option<Box<Stmt>>, Option<Expr>, Option<Expr>, Box<Stmt>),
    /// `fun name(params) { ... }`; the body is always a block.
    FunDecl(String, Vec<String>, Box<Stmt>),
}

/// The mathematical shape of a statement.
pub enum SpecStmt {
    Block(Seq<SpecStmt>),
    Decl(SpecToken, Option<SpecExpr>),
    Expr(SpecExpr),
    Print(SpecExpr),
    If(SpecExpr, Box<SpecStmt>, Option<Box<SpecStmt>>),
    While(SpecExpr, Box<SpecStmt>),
    For(Option<Box<SpecStmt>>, Option<SpecExpr>, Option<SpecExpr>, Box<SpecStmt>),
    FunDecl(Seq<char>, Seq<Seq<char>>, Box<SpecStmt>),
}

pub open spec fn strs_view(s: Seq<String>) -> Seq<Seq<char>> {
    s.map_values(|x: String| x@)
}

pub open spec fn stmt_view(s: Stmt) -> SpecStmt
    decreases s,
{
    match s {
        Stmt::Block(ss) => SpecStmt::Block(stmts_view(ss@)),
        Stmt::Decl(t, init) => SpecStmt::Decl(
            t@,
            match init {
                Some(e) => Some(e@),
                None => None,
            },
        ),
        Stmt::Expr(e) => SpecStmt::Expr(e@),
        Stmt::Print(e) => SpecStmt::Print(e@),
        Stmt::If(c, t, f) => SpecStmt::If(
            c@,
            Box::new(stmt_view(*t)),
            match f {
                Some(b) => Some(Box::new(stmt_view(*b))),
                None => None,
            },
        ),
        Stmt::While(c, b) => SpecStmt::While(c@, Box::new(stmt_view(*b))),
        Stmt::For(init, cond, step, body) => SpecStmt::For(
            match init {
                Some(b) => Some(Box::new(stmt_view(*b))),
                None => None,
            },
            match cond {
                Some(e) => Some(e@),
                None => None,
            },
            match step {
                Some(e) => Some(e@),
                None => None,
            },
            Box::new(stmt_view(*body)),
        ),
        Stmt::FunDecl(name, params, body) => SpecStmt::FunDecl(
            name@,
            strs_view(params@),
            Box::new(stmt_view(*body)),
        ),
    }
}

pub open spec fn stmts_view(s: Seq<Stmt>) -> Seq<SpecStmt>
    decreases s,
{
    if s.len() == 0 {
        seq![]
    } else {
        stmts_view(s.drop_last()).push(stmt_view(s.last()))
    }
}

impl View for Stmt {
    type V = SpecStmt;

    open spec fn view(&self) -> SpecStmt {
        stmt_view(*self)
    }
}

pub proof fn lemma_stmts_view(s: Seq<Stmt>)
    ensures
        stmts_view(s).len() == s.len(),
        forall|i: int| 0 <= i < s.len() ==> stmts_view(s)[i] == stmt_view(s[i]),
    decreases s.len(),
{
    if s.len() > 0 {
        lemma_stmts_view(s.drop_last());
    }
}

/// Pushing a statement extends the sequence of views by its view.
pub proof fn lemma_stmts_push(s: Seq<Stmt>, x: Stmt)
    ensures
        stmts_view(s.push(x)) == stmts_view(s).push(stmt_view(x)),
{
    assert(s.push(x).drop_last() =~= s);
    assert(s.push(x).last() == x);
}

impl Clone for Stmt {
    fn clone(&self) -> (res: Self)
        ensures
            res@ == self@,
        decreases self,
    {
        match self {
            Stmt::Block(ss) => Stmt::Block(clone_stmts(ss)),
            Stmt::Decl(t, init) => Stmt::Decl(
                t.clone(),
                match init {
                    Some(e) => Some(e.clone()),
                    None => None,
                },
            ),
            Stmt::Expr(e) => Stmt::Expr(e.clone()),
            Stmt::Print(e) => Stmt::Print(e.clone()),
            Stmt::If(c, t, f) => Stmt::If(
                c.clone(),
                Box::new((**t).clone()),
                match f {
                    Some(b) => Some(Box::new((**b).clone())),
                    None => None,
                },
            ),
            Stmt::While(c, b) => Stmt::While(c.clone(), Box::new((**b).clone())),
            Stmt::For(init, cond, step, body) => Stmt::For(
                match init {
                    Some(b) => Some(Box::new((**b).clone())),
                    None => None,
                },
                match cond {
                    Some(e) => Some(e.clone()),
                    None => None,
                },
                match step {
                    Some(e) => Some(e.clone()),
                    None => None,
                },
                Box::new((**body).clone()),
            ),
            Stmt::FunDecl(name, params, body) => Stmt::FunDecl(
                name.clone(),
                clone_strings(params),
                Box::new((**body).clone()),
            ),
        }
    }
}

/// Clones a vector of statements, element by element.
fn clone_stmts(ss: &Vec<Stmt>) -> (res: Vec<Stmt>)
    ensures
        stmts_view(res@) == stmts_view(ss@),
    decreases ss@,
{
    let mut cloned: Vec<Stmt> = Vec::new();
    let mut i: usize = 0;
    while i < ss.len()
        invariant
            i <= ss@.len(),
            cloned@.len() == i,
            forall|k: int| 0 <= k < i ==> cloned@[k]@ == ss@[k]@,
        decreases ss@.len() - i,
    {
        proof {
            assert(decreases_to!(ss@ => ss@[i as int]));
        }
        let item = ss[i].clone();
        cloned.push(item);
        i = i + 1;
    }
    proof {
        lemma_stmts_view(cloned@);
        lemma_stmts_view(ss@);
        assert(stmts_view(cloned@) =~= stmts_view(ss@));
    }
    cloned
}

pub(crate) fn clone_strings(ps: &Vec<String>) -> (res: Vec<String>)
    ensures
        res@ == ps@,
{
    let mut cloned: Vec<String> = Vec::new();
    let mut i: usize = 0;
    while i < ps.len()
        invariant
            i <= ps@.len(),
            cloned@.len() == i,
            forall|k: int| 0 <= k < i ==> cloned@[k] == ps@[k],
        decreases ps@.len() - i,
    {
        let item = ps[i].clone();
        cloned.push(item);
        i = i + 1;
    }
    assert(cloned@ =~= ps@);
    cloned
}

/// The size of a statement tree, the measure that execution recurses on.
pub open spec fn stmt_size(s: SpecStmt) -> nat
    decreases s,
{
    match s {
        SpecStmt::Block(ss) => 1 + stmts_size(ss),
        SpecStmt::Decl(_, init) => 1 + (match init {
            Some(e) => crate::expression::expr_size(e),
            None => 0,
        }),
        SpecStmt::Expr(e) => 1 + crate::expression::expr_size(e),
        SpecStmt::Print(e) => 1 + crate::expression::expr_size(e),
        SpecStmt::If(c, t, f) => 1 + crate::expression::expr_size(c) + stmt_size(*t) + (match f {
            Some(b) => stmt_size(*b),
            None => 0,
        }),
        SpecStmt::While(c, b) => 1 + crate::expression::expr_size(c) + stmt_size(*b),
        SpecStmt::For(init, cond, step, b) => 1 + (match init {
            Some(i) => stmt_size(*i),
            None => 0,
        }) + (match cond {
            Some(c) => crate::expression::expr_size(c),
            None => 0,
        }) + (match step {
            Some(sx) => crate::expression::expr_size(sx),
            None => 0,
        }) + stmt_size(*b),
        SpecStmt::FunDecl(_, _, b) => 1 + stmt_size(*b),
    }
}

pub open spec fn stmts_size(s: Seq<SpecStmt>) -> nat
    decreases s,
{
    if s.len() == 0 {
        0
    } else {
        1 + stmt_size(s[0]) + stmts_size(s.skip(1))
    }
}

/// Each member of a sequence is smaller than the whole.
pub proof fn lemma_stmts_size_member(s: Seq<SpecStmt>, i: int)
    requires
        0 <= i < s.len(),
    ensures
        stmt_size(s[i]) < stmts_size(s),
    decreases s.len(),
{
    if i > 0 {
        lemma_stmts_size_member(s.skip(1), i - 1);
    }
}

// ---------------------------------------------------------------------------
// The statement grammar
// ---------------------------------------------------------------------------
/// statement := print | declaration | if | while | for | block
///            | function declaration | expression-statement,
/// dispatched on the first token.
pub open spec fn spec_stmt(tks: Seq<SpecToken>, start: int) -> Option<(SpecStmt, int)>
    decreases tks.len() - start, 20int, 0int,
    when 0 <= start <= tks.len()
{
    if start < tks.len() {
        match tks[start] {
            SpecToken::Print => spec_print_stmt(tks, start),
            SpecToken::Var => spec_decl_stmt(tks, start),
            SpecToken::If => spec_if_stmt(tks, start),
            SpecToken::While => spec_while_stmt(tks, start),
            SpecToken::For => spec_for_stmt(tks, start),
            SpecToken::LeftBrace => spec_block_stmt(tks, start),
            SpecToken::Fun => spec_fun_decl_stmt(tks, start),
            _ => spec_expr_stmt(tks, start),
        }
    } else {
        None
    }
}

/// expression-statement := expression `;`
pub open spec fn spec_expr_stmt(tks: Seq<SpecToken>, start: int) -> Option<(SpecStmt, int)>
    decreases tks.len() - start, 19int, 0int,
    when 0 <= start <= tks.len()
{
    match spec_expression(tks, start) {
        Some((e, used)) => {
            if 1 <= used && start + used < tks.len() && tks[start + used] == SpecToken::Semicolon {
                Some((SpecStmt::Expr(e), used + 1))
            } else {
                None
            }
        },
        None => None,
    }
}

/// print-statement := `print` expression `;`
pub open spec fn spec_print_stmt(tks: Seq<SpecToken>, start: int) -> Option<(SpecStmt, int)>
    decreases tks.len() - start, 19int, 0int,
    when 0 <= start <= tks.len()
{
    if start < tks.len() && tks[start] == SpecToken::Print {
        match spec_expression(tks, start + 1) {
            Some((e, used)) => {
                if 1 <= used && start + 1 + used < tks.len() && tks[start + 1 + used]
                    == SpecToken::Semicolon {
                    Some((SpecStmt::Print(e), used + 2))
                } else {
                    None
                }
            },
            None => None,
        }
    } else {
        None
    }
}

/// declaration := `var` IDENT (`=` expression)? `;`
pub open spec fn spec_decl_stmt(tks: Seq<SpecToken>, start: int) -> Option<(SpecStmt, int)>
    decreases tks.len() - start, 19int, 0int,
    when 0 <= start <= tks.len()
{
    if start + 2 < tks.len() && tks[start] == SpecToken::Var && tks[start + 1] is Identifier {
        if tks[start + 2] == SpecToken::Semicolon {
            Some((SpecStmt::Decl(tks[start + 1], None), 3))
        } else if tks[start + 2] == SpecToken::Equal {
            match spec_expression(tks, start + 3) {
                Some((e, used)) => {
                    if 1 <= used && start + 3 + used < tks.len() && tks[start + 3 + used]
                        == SpecToken::Semicolon {
                        Some((SpecStmt::Decl(tks[start + 1], Some(e)), used + 4))
                    } else {
                        None
                    }
                },
                None => None,
            }
        } else {
            None
        }
    } else {
        None
    }
}

/// block := `{` statement* `}`
pub open spec fn spec_block_stmt(tks: Seq<SpecToken>, start: int) -> Option<(SpecStmt, int)>
    decreases tks.len() - start, 19int, 0int,
    when 0 <= start <= tks.len()
{
    if start < tks.len() && tks[start] == SpecToken::LeftBrace {
        match spec_block_rest(tks, start + 1) {
            Some((ss, extra)) => Some((SpecStmt::Block(ss), 1 + extra)),
            None => None,
        }
    } else {
        None
    }
}

/// The statements of a block up to and including the closing brace.
pub open spec fn spec_block_rest(tks: Seq<SpecToken>, pos: int) -> Option<(Seq<SpecStmt>, int)>
    decreases tks.len() - pos, 21int, 0int,
    when 0 <= pos <= tks.len()
{
    if pos < tks.len() {
        if tks[pos] == SpecToken::RightBrace {
            Some((seq![], 1))
        } else {
            match spec_stmt(tks, pos) {
                Some((s, used)) => {
                    if 1 <= used && pos + used <= tks.len() {
                        match spec_block_rest(tks, pos + used) {
                            Some((ss, extra)) => Some((seq![s] + ss, used + extra)),
                            None => None,
                        }
                    } else {
                        None
                    }
                },
                None => None,
            }
        }
    } else {
        None
    }
}

/// if-statement := `if` `(` expression `)` statement (`else` statement)?;
/// a dangling `else` binds to the nearest `if`.
pub open spec fn spec_if_stmt(tks: Seq<SpecToken>, start: int) -> Option<(SpecStmt, int)>
    decreases tks.len() - start, 19int, 0int,
    when 0 <= start <= tks.len()
{
    if start + 1 < tks.len() && tks[start] == SpecToken::If && tks[start + 1]
        == SpecToken::LeftParen {
        match spec_expression(tks, start + 2) {
            Some((cond, cu)) => {
                if 1 <= cu && start + 2 + cu < tks.len() && tks[start + 2 + cu]
                    == SpecToken::RightParen {
                    match spec_stmt(tks, start + 3 + cu) {
                        Some((then, tu)) => {
                            if 1 <= tu && start + 3 + cu + tu <= tks.len() {
                                let p = start + 3 + cu + tu;
                                if p < tks.len() && tks[p] == SpecToken::Else {
                                    match spec_stmt(tks, p + 1) {
                                        Some((els, eu)) => Some(
                                            (
                                                SpecStmt::If(
                                                    cond,
                                                    Box::new(then),
                                                    Some(Box::new(els)),
                                                ),
                                                3 + cu + tu + 1 + eu,
                                            ),
                                        ),
                                        None => None,
                                    }
                                } else {
                                    Some((SpecStmt::If(cond, Box::new(then), None), 3 + cu + tu))
                                }
                            } else {
                                None
                            }
                        },
                        None => None,
                    }
                } else {
                    None
                }
            },
            None => None,
        }
    } else {
        None
    }
}

/// while-statement := `while` `(` expression `)` statement
pub open spec fn spec_while_stmt(tks: Seq<SpecToken>, start: int) -> Option<(SpecStmt, int)>
    decreases tks.len() - start, 19int, 0int,
    when 0 <= start <= tks.len()
{
    if start + 1 < tks.len() && tks[start] == SpecToken::While && tks[start + 1]
        == SpecToken::LeftParen {
        match spec_expression(tks, start + 2) {
            Some((cond, cu)) => {
                if 1 <= cu && start + 2 + cu < tks.len() && tks[start + 2 + cu]
                    == SpecToken::RightParen {
                    match spec_stmt(tks, start + 3 + cu) {
                        Some((body, bu)) => Some(
                            (SpecStmt::While(cond, Box::new(body)), 3 + cu + bu),
                        ),
                        None => None,
                    }
                } else {
                    None
                }
            },
            None => None,
        }
    } else {
        None
    }
}

/// for-statement := `for` `(` (declaration | expression-statement | `;`)
/// expression? `;` expression? `)` statement. The initializer consumes its
/// own semicolon; an absent initializer still needs one.
pub open spec fn spec_for_stmt(tks: Seq<SpecToken>, start: int) -> Option<(SpecStmt, int)>
    decreases tks.len() - start, 19int, 0int,
    when 0 <= start <= tks.len()
{
    if start + 1 < tks.len() && tks[start] == SpecToken::For && tks[start + 1]
        == SpecToken::LeftParen {
        let p = start + 2;
        let init_parse: Option<(Option<Box<SpecStmt>>, int)> = if p < tks.len() && tks[p]
            == SpecToken::Semicolon {
            Some((None, 1))
        } else if p < tks.len() && tks[p] == SpecToken::Var {
            match spec_decl_stmt(tks, p) {
                Some((s, u)) => Some((Some(Box::new(s)), u)),
                None => None,
            }
        } else {
            match spec_expr_stmt(tks, p) {
                Some((s, u)) => Some((Some(Box::new(s)), u)),
                None => None,
            }
        };
        match init_parse {
            Some((init, iu)) => {
                if 1 <= iu && p + iu <= tks.len() {
                    let q = p + iu;
                    let cond_parse: (Option<SpecExpr>, int) = match spec_expression(tks, q) {
                        Some((c, cu)) => (Some(c), cu),
                        None => (None, 0),
                    };
                    let cond = cond_parse.0;
                    let cu = cond_parse.1;
                    if 0 <= cu && q + cu < tks.len() && tks[q + cu] == SpecToken::Semicolon {
                        let w = q + cu + 1;
                        let step_parse: (Option<SpecExpr>, int) = match spec_expression(tks, w) {
                            Some((st, su)) => (Some(st), su),
                            None => (None, 0),
                        };
                        let step = step_parse.0;
                        let su = step_parse.1;
                        if 0 <= su && w + su < tks.len() && tks[w + su] == SpecToken::RightParen {
                            match spec_stmt(tks, w + su + 1) {
                                Some((body, bu)) => Some(
                                    (
                                        SpecStmt::For(init, cond, step, Box::new(body)),
                                        (w + su + 1 + bu) - start,
                                    ),
                                ),
                                None => None,
                            }
                        } else {
                            None
                        }
                    } else {
                        None
                    }
                } else {
                    None
                }
            },
            None => None,
        }
    } else {
        None
    }
}

/// function declaration := `fun` IDENT `(` (IDENT (`,` IDENT)*)? `)` block
pub open spec fn spec_fun_decl_stmt(tks: Seq<SpecToken>, start: int) -> Option<(SpecStmt, int)>
    decreases tks.len() - start, 19int, 0int,
    when 0 <= start <= tks.len()
{
    if start + 2 < tks.len() && tks[start] == SpecToken::Fun && tks[start + 1] is Identifier
        && tks[start + 2] == SpecToken::LeftParen {
        let name = tks[start + 1]->Identifier_0;
        let p = start + 3;
        let params_parse: Option<(Seq<Seq<char>>, int)> = if p < tks.len()
            && tks[p] is Identifier {
            match spec_params_rest(tks, p + 1, seq![tks[p]->Identifier_0]) {
                Some((ps, extra)) => Some((ps, 1 + extra)),
                None => None,
            }
        } else {
            Some((seq![], 0))
        };
        match params_parse {
            Some((params, pu)) => {
                if 0 <= pu && p + pu < tks.len() && tks[p + pu] == SpecToken::RightParen {
                    match spec_block_stmt(tks, p + pu + 1) {
                        Some((body, bu)) => Some(
                            (
                                SpecStmt::FunDecl(name, params, Box::new(body)),
                                (p + pu + 1 + bu) - start,
                            ),
                        ),
                        None => None,
                    }
                } else {
                    None
                }
            },
            None => None,
        }
    } else {
        None
    }
}

/// The comma-separated tail of a parameter list.
pub open spec fn spec_params_rest(tks: Seq<SpecToken>, pos: int, acc: Seq<Seq<char>>) -> Option<
    (Seq<Seq<char>>, int),
>
    decreases tks.len() - pos,
    when 0 <= pos <= tks.len()
{
    if pos < tks.len() && tks[pos] == SpecToken::Comma {
        if pos + 1 < tks.len() && tks[pos + 1] is Identifier {
            match spec_params_rest(tks, pos + 2, acc.push(tks[pos + 1]->Identifier_0)) {
                Some((ps, extra)) => Some((ps, 2 + extra)),
                None => None,
            }
        } else {
            None
        }
    } else {
        Some((acc, 0))
    }
}

// ---------------------------------------------------------------------------
// The executable parser for statements
// ---------------------------------------------------------------------------
impl Stmt {
    /// Parses one statement starting at `start`.
    pub fn stmt(tks: &Vec<Token>, start: usize) -> (r: Result<(Stmt, usize), LoxError>)
        requires
            start <= tks@.len(),
        ensures
            match r {
                Ok((s, used)) => spec_stmt(toks_view(tks@), start as int) == Some(
                    (s@, used as int),
                ) && 1 <= used && start + used <= tks@.len(),
                Err(err) => spec_stmt(toks_view(tks@), start as int) is None && err.kind
                    == ErrKind::Parse,
            },
        decreases tks@.len() - start, 20int, 0int,
    {
        if start >= tks.len() {
            return Err(LoxError::new(ErrKind::Parse, "no tokens for a statement"));
        }
        match &tks[start] {
            Token::Print => Self::print(tks, start),
            Token::Var => Self::decl(tks, start),
            Token::If => Self::ctrl_if(tks, start),
            Token::While => Self::ctrl_while(tks, start),
            Token::For => Self::ctrl_for(tks, start),
            Token::LeftBrace => Self::block(tks, start),
            Token::Fun => Self::fun_decl(tks, start),
            _ => Self::expr(tks, start),
        }
    }

    /// expression-statement
    pub fn expr(tks: &Vec<Token>, start: usize) -> (r: Result<(Stmt, usize), LoxError>)
        requires
            start <= tks@.len(),
        ensures
            match r {
                Ok((s, used)) => spec_expr_stmt(toks_view(tks@), start as int) == Some(
                    (s@, used as int),
                ) && 1 <= used && start + used <= tks@.len(),
                Err(err) => spec_expr_stmt(toks_view(tks@), start as int) is None && err.kind
                    == ErrKind::Parse,
            },
        decreases tks@.len() - start, 19int, 0int,
    {
        let n = tks.len();
        let (e, used) = match Expr::expression(tks, start) {
            Ok(p) => p,
            Err(e) => {
                return Err(e);
            },
        };
        if start + used < n && matches!(&tks[start + used], Token::Semicolon) {
            Ok((Stmt::Expr(e), used + 1))
        } else {
            Err(LoxError::new(ErrKind::Parse, "expected a semicolon"))
        }
    }

    /// print-statement
    pub fn print(tks: &Vec<Token>, start: usize) -> (r: Result<(Stmt, usize), LoxError>)
        requires
            start <= tks@.len(),
        ensures
            match r {
                Ok((s, used)) => spec_print_stmt(toks_view(tks@), start as int) == Some(
                    (s@, used as int),
                ) && 1 <= used && start + used <= tks@.len(),
                Err(err) => spec_print_stmt(toks_view(tks@), start as int) is None && err.kind
                    == ErrKind::Parse,
            },
        decreases tks@.len() - start, 19int, 0int,
    {
        if !(start < tks.len() && matches!(&tks[start], Token::Print)) {
            return Err(LoxError::new(ErrKind::Parse, "expected the print keyword"));
        }
        let (e, used) = match Expr::expression(tks, start + 1) {
            Ok(p) => p,
            Err(e) => {
                return Err(e);
            },
        };
        if start + 1 + used < tks.len() && matches!(&tks[start + 1 + used], Token::Semicolon) {
            Ok((Stmt::Print(e), used + 2))
        } else {
            Err(LoxError::new(ErrKind::Parse, "expected a semicolon"))
        }
    }

    /// declaration
    pub fn decl(tks: &Vec<Token>, start: usize) -> (r: Result<(Stmt, usize), LoxError>)
        requires
            start <= tks@.len(),
        ensures
            match r {
                Ok((s, used)) => spec_decl_stmt(toks_view(tks@), start as int) == Some(
                    (s@, used as int),
                ) && 1 <= used && start + used <= tks@.len(),
                Err(err) => spec_decl_stmt(toks_view(tks@), start as int) is None && err.kind
                    == ErrKind::Parse,
            },
        decreases tks@.len() - start, 19int, 0int,
    {
        if !(tks.len() - start >= 3 && matches!(&tks[start], Token::Var) && matches!(
            &tks[start + 1],
            Token::Identifier(_),
        )) {
            return Err(LoxError::new(ErrKind::Parse, "expected a variable declaration"));
        }
        let name = tks[start + 1].clone();
        if matches!(&tks[start + 2], Token::Semicolon) {
            Ok((Stmt::Decl(name, None), 3))
        } else if matches!(&tks[start + 2], Token::Equal) {
            let (e, used) = match Expr::expression(tks, start + 3) {
                Ok(p) => p,
                Err(e) => {
                    return Err(e);
                },
            };
            if start + 3 + used < tks.len() && matches!(
                &tks[start + 3 + used],
                Token::Semicolon,
            ) {
                Ok((Stmt::Decl(name, Some(e)), used + 4))
            } else {
                Err(LoxError::new(ErrKind::Parse, "expected a semicolon"))
            }
        } else {
            Err(LoxError::new(ErrKind::Parse, "expected = or ; after the variable name"))
        }
    }

    /// block
    pub fn block(tks: &Vec<Token>, start: usize) -> (r: Result<(Stmt, usize), LoxError>)
        requires
            start <= tks@.len(),
        ensures
            match r {
                Ok((s, used)) => spec_block_stmt(toks_view(tks@), start as int) == Some(
                    (s@, used as int),
                ) && 1 <= used && start + used <= tks@.len(),
                Err(err) => spec_block_stmt(toks_view(tks@), start as int) is None && err.kind
                    == ErrKind::Parse,
            },
        decreases tks@.len() - start, 19int, 0int,
    {
        let ghost v = toks_view(tks@);
        if !(start < tks.len() && matches!(&tks[start], Token::LeftBrace)) {
            return Err(LoxError::new(ErrKind::Parse, "expected an opening brace"));
        }
        let n = tks.len();
        let mut stmts: Vec<Stmt> = Vec::new();
        let mut pos = start + 1;
        while pos < n
            invariant
                v == toks_view(tks@),
                n == tks@.len(),
                start < n,
                v[start as int] == SpecToken::LeftBrace,
                start + 1 <= pos <= n,
                spec_block_rest(v, start as int + 1) == (match spec_block_rest(v, pos as int) {
                    Some((ss, extra)) => Some(
                        (stmts_view(stmts@) + ss, (pos - start - 1) + extra),
                    ),
                    None => None::<(Seq<SpecStmt>, int)>,
                }),
            decreases n - pos,
        {
            if matches!(&tks[pos], Token::RightBrace) {
                proof {
                    assert(stmts_view(stmts@) + seq![] =~= stmts_view(stmts@));
                }
                return Ok((Stmt::Block(stmts), pos + 1 - start));
            }
            match Self::stmt(tks, pos) {
                Err(e) => {
                    return Err(e);
                },
                Ok((s, used)) => {
                    let ghost before = stmts@;
                    let ghost sv = s@;
                    let ghost restv = spec_block_rest(v, pos as int + used as int);
                    stmts.push(s);
                    proof {
                        lemma_stmts_push(before, s);
                        if restv is Some {
                            let tail = (restv->0).0;
                            assert(stmts_view(before) + (seq![sv] + tail) =~= stmts_view(
                                before,
                            ).push(sv) + tail);
                        }
                    }
                    pos = pos + used;
                },
            }
        }
        Err(LoxError::new(ErrKind::Parse, "block without a closing brace"))
    }

    /// if-statement
    pub fn ctrl_if(tks: &Vec<Token>, start: usize) -> (r: Result<(Stmt, usize), LoxError>)
        requires
            start <= tks@.len(),
        ensures
            match r {
                Ok((s, used)) => spec_if_stmt(toks_view(tks@), start as int) == Some(
                    (s@, used as int),
                ) && 1 <= used && start + used <= tks@.len(),
                Err(err) => spec_if_stmt(toks_view(tks@), start as int) is None && err.kind
                    == ErrKind::Parse,
            },
        decreases tks@.len() - start, 19int, 0int,
    {
        if !(tks.len() - start >= 2 && matches!(&tks[start], Token::If) && matches!(
            &tks[start + 1],
            Token::LeftParen,
        )) {
            return Err(LoxError::new(ErrKind::Parse, "expected if ("));
        }
        let (cond, cu) = match Expr::expression(tks, start + 2) {
            Ok(p) => p,
            Err(e) => {
                return Err(e);
            },
        };
        if !(start + 2 + cu < tks.len() && matches!(&tks[start + 2 + cu], Token::RightParen)) {
            return Err(LoxError::new(ErrKind::Parse, "expected a closing parenthesis"));
        }
        let (then, tu) = match Self::stmt(tks, start + 3 + cu) {
            Ok(p) => p,
            Err(e) => {
                return Err(e);
            },
        };
        let p = start + 3 + cu + tu;
        if p < tks.len() && matches!(&tks[p], Token::Else) {
            let (els, eu) = match Self::stmt(tks, p + 1) {
                Ok(q) => q,
                Err(e) => {
                    return Err(e);
                },
            };
            Ok((Stmt::If(cond, Box::new(then), Some(Box::new(els))), 3 + cu + tu + 1 + eu))
        } else {
            Ok((Stmt::If(cond, Box::new(then), None), 3 + cu + tu))
        }
    }

    /// while-statement
    pub fn ctrl_while(tks: &Vec<Token>, start: usize) -> (r: Result<(Stmt, usize), LoxError>)
        requires
            start <= tks@.len(),
        ensures
            match r {
                Ok((s, used)) => spec_while_stmt(toks_view(tks@), start as int) == Some(
                    (s@, used as int),
                ) && 1 <= used && start + used <= tks@.len(),
                Err(err) => spec_while_stmt(toks_view(tks@), start as int) is None && err.kind
                    == ErrKind::Parse,
            },
        decreases tks@.len() - start, 19int, 0int,
    {
        if !(tks.len() - start >= 2 && matches!(&tks[start], Token::While) && matches!(
            &tks[start + 1],
            Token::LeftParen,
        )) {
            return Err(LoxError::new(ErrKind::Parse, "expected while ("));
        }
        let (cond, cu) = match Expr::expression(tks, start + 2) {
            Ok(p) => p,
            Err(e) => {
                return Err(e);
            },
        };
        if !(start + 2 + cu < tks.len() && matches!(&tks[start + 2 + cu], Token::RightParen)) {
            return Err(LoxError::new(ErrKind::Parse, "expected a closing parenthesis"));
        }
        let (body, bu) = match Self::stmt(tks, start + 3 + cu) {
            Ok(p) => p,
            Err(e) => {
                return Err(e);
            },
        };
        Ok((Stmt::While(cond, Box::new(body)), 3 + cu + bu))
    }

    /// for-statement
    #[verifier::rlimit(60)]
    pub fn ctrl_for(tks: &Vec<Token>, start: usize) -> (r: Result<(Stmt, usize), LoxError>)
        requires
            start <= tks@.len(),
        ensures
            match r {
                Ok((s, used)) => spec_for_stmt(toks_view(tks@), start as int) == Some(
                    (s@, used as int),
                ) && 1 <= used && start + used <= tks@.len(),
                Err(err) => spec_for_stmt(toks_view(tks@), start as int) is None && err.kind
                    == ErrKind::Parse,
            },
        decreases tks@.len() - start, 19int, 0int,
    {
        if !(tks.len() - start >= 2 && matches!(&tks[start], Token::For) && matches!(
            &tks[start + 1],
            Token::LeftParen,
        )) {
            return Err(LoxError::new(ErrKind::Parse, "expected for ("));
        }
        let p = start + 2;
        let init: Option<Box<Stmt>>;
        let iu: usize;
        if p < tks.len() && matches!(&tks[p], Token::Semicolon) {
            init = None;
            iu = 1;
        } else if p < tks.len() && matches!(&tks[p], Token::Var) {
            match Self::decl(tks, p) {
                Ok((s, u)) => {
                    init = Some(Box::new(s));
                    iu = u;
                },
                Err(e) => {
                    return Err(e);
                },
            }
        } else {
            match Self::expr(tks, p) {
                Ok((s, u)) => {
                    init = Some(Box::new(s));
                    iu = u;
                },
                Err(e) => {
                    return Err(e);
                },
            }
        }
        let q = p + iu;
        let cond: Option<Expr>;
        let cu: usize;
        match Expr::expression(tks, q) {
            Ok((c, u)) => {
                cond = Some(c);
                cu = u;
            },
            Err(_) => {
                cond = None;
                cu = 0;
            },
        }
        if !(q + cu < tks.len() && matches!(&tks[q + cu], Token::Semicolon)) {
            return Err(LoxError::new(ErrKind::Parse, "expected a semicolon"));
        }
        let w = q + cu + 1;
        let step: Option<Expr>;
        let su: usize;
        match Expr::expression(tks, w) {
            Ok((st, u)) => {
                step = Some(st);
                su = u;
            },
            Err(_) => {
                step = None;
                su = 0;
            },
        }
        if !(w + su < tks.len() && matches!(&tks[w + su], Token::RightParen)) {
            return Err(LoxError::new(ErrKind::Parse, "expected a closing parenthesis"));
        }
        let (body, bu) = match Self::stmt(tks, w + su + 1) {
            Ok(b) => b,
            Err(e) => {
                return Err(e);
            },
        };
        Ok((Stmt::For(init, cond, step, Box::new(body)), (w + su + 1 + bu) - start))
    }

    /// function declaration
    pub fn fun_decl(tks: &Vec<Token>, start: usize) -> (r: Result<(Stmt, usize), LoxError>)
        requires
            start <= tks@.len(),
        ensures
            match r {
                Ok((s, used)) => spec_fun_decl_stmt(toks_view(tks@), start as int) == Some(
                    (s@, used as int),
                ) && 1 <= used && start + used <= tks@.len(),
                Err(err) => spec_fun_decl_stmt(toks_view(tks@), start as int) is None && err.kind
                    == ErrKind::Parse,
            },
        decreases tks@.len() - start, 19int, 0int,
    {
        let ghost v = toks_view(tks@);
        if !(tks.len() - start >= 3 && matches!(&tks[start], Token::Fun) && matches!(
            &tks[start + 2],
            Token::LeftParen,
        )) {
            return Err(LoxError::new(ErrKind::Parse, "expected fun NAME ("));
        }
        let name = match &tks[start + 1] {
            Token::Identifier(idnt) => idnt.clone(),
            _ => {
                return Err(LoxError::new(ErrKind::Parse, "expected a function name"));
            },
        };
        let p = start + 3;
        let mut params: Vec<String> = Vec::new();
        let mut pu: usize = 0;
        let first = if p < tks.len() {
            match &tks[p] {
                Token::Identifier(idnt) => Some(idnt.clone()),
                _ => None,
            }
        } else {
            None
        };
        match first {
            Some(first_name) => {
                params.push(first_name);
                proof {
                    assert(strs_view(params@) =~= seq![v[p as int]->Identifier_0]);
                }
                let ghost acc0 = strs_view(params@);
                let n = tks.len();
                let mut q = p + 1;
                let ghost q0 = q as int;
                let mut done = false;
                while !done
                    invariant
                        v == toks_view(tks@),
                        n == tks@.len(),
                        p + 1 <= q <= n,
                        q0 == p as int + 1,
                        p < n,
                        p == start + 3,
                        start + 2 < n,
                        v[start as int] == SpecToken::Fun,
                        v[start as int + 1] is Identifier,
                        v[start as int + 2] == SpecToken::LeftParen,
                        v[p as int] is Identifier,
                        acc0 == seq![v[p as int]->Identifier_0],
                        spec_params_rest(v, q0, acc0) == (match spec_params_rest(
                            v,
                            q as int,
                            strs_view(params@),
                        ) {
                            Some((ps, extra)) => Some((ps, (q - q0) + extra)),
                            None => None::<(Seq<Seq<char>>, int)>,
                        }),
                        done ==> spec_params_rest(v, q as int, strs_view(params@)) == Some(
                            (strs_view(params@), 0int),
                        ),
                    decreases n - q, if done {
                        0int
                    } else {
                        1int
                    },
                {
                    if q >= n {
                        done = true;
                    } else if !matches!(&tks[q], Token::Comma) {
                        done = true;
                    } else {
                        if q + 1 < n {
                            let pname = match &tks[q + 1] {
                                Token::Identifier(idnt) => Some(idnt.clone()),
                                _ => None,
                            };
                            match pname {
                                Some(pn) => {
                                    let ghost before = params@;
                                    params.push(pn);
                                    proof {
                                        assert(strs_view(params@) =~= strs_view(before).push(
                                            v[q as int + 1]->Identifier_0,
                                        ));
                                    }
                                    q = q + 2;
                                },
                                None => {
                                    proof {
                                        assert(spec_params_rest(v, q as int, strs_view(params@))
                                            is None);
                                        assert(spec_params_rest(v, q0, acc0) is None);
                                        assert(spec_fun_decl_stmt(v, start as int) is None);
                                    }
                                    return Err(
                                        LoxError::new(
                                            ErrKind::Parse,
                                            "expected an identifier in the parameter list",
                                        ),
                                    );
                                },
                            }
                        } else {
                            proof {
                                assert(spec_params_rest(v, q as int, strs_view(params@)) is None);
                                assert(spec_params_rest(v, q0, acc0) is None);
                                assert(spec_fun_decl_stmt(v, start as int) is None);
                            }
                            return Err(
                                LoxError::new(
                                    ErrKind::Parse,
                                    "expected an identifier in the parameter list",
                                ),
                            );
                        }
                    }
                }
                pu = q - p;
            },
            None => {
                proof {
                    assert(strs_view(params@) =~= Seq::<Seq<char>>::empty());
                }
            },
        }
        if !(p + pu < tks.len() && matches!(&tks[p + pu], Token::RightParen)) {
            return Err(LoxError::new(ErrKind::Parse, "expected a closing parenthesis"));
        }
        let (body, bu) = match Self::block(tks, p + pu + 1) {
            Ok(b) => b,
            Err(e) => {
                return Err(e);
            },
        };
        Ok((Stmt::FunDecl(name, params, Box::new(body)), (p + pu + 1 + bu) - start))
    }
}

} // verus!
