//! The machine: the environment of frames and scopes, and the evaluator
//! proper. Every operation is proved to agree with the semantics in
//! `semantics`.

use vstd::prelude::*;

use crate::console::LoxPrinter;
use crate::error::{ErrKind, LoxError};
use crate::expression::{expr_size, exprs_size, exprs_view, lemma_exprs_size_member,
    lemma_exprs_view, Expr, SpecExpr};
use crate::object::{objs_view, Object};
use crate::semantics::{
    cur_frame, declare_params, env_assign, env_declare, env_get, env_pop_frame, env_pop_scope,
    env_push_frame, env_push_scope, env_wf, eval_args_spec, eval_matches, eval_spec, exec_matches,
    exec_seq_spec, exec_spec, for_loop_spec, frame_assign, frame_contains, frame_find, initial_env,
    lemma_declare_params_shape, lemma_env_assign_shape, lemma_env_declare_shape,
    lemma_env_push_scope_props, lemma_frame_assign_some_iff, lemma_pop_after_push,
    lemma_same_shape_trans, lemma_same_shape_wf,
    same_shape, spec_binop, st_pop_scope, st_push_scope, truthiness, SpecEnv, SpecState, SpecValue,
};
use crate::stack::VmStack;
use crate::statement::{lemma_stmts_size_member, lemma_stmts_view, stmt_size, stmts_size,
    stmts_view, SpecStmt, Stmt};
use crate::token::Token;

verus! {

/// The virtual machine: the global frame, the stack of call frames
/// (innermost last), and the print sink.
pub struct LoxVM {
    global: VmStack,
    stacks: Vec<VmStack>,
    printer: LoxPrinter,
}

impl LoxVM {
    /// The whole observable state.
    pub closed spec fn st(&self) -> SpecState {
        SpecState {
            env: SpecEnv {
                global: self.global@,
                frames: self.stacks@.map_values(|s: VmStack| s@),
            },
            out: self.printer@,
        }
    }

    /// The environment the machine holds.
    pub open spec fn env(&self) -> SpecEnv {
        self.st().env
    }

    /// Everything printed so far.
    pub open spec fn out(&self) -> Seq<char> {
        self.st().out
    }

    /// Whether printed output is meant for the console.
    pub closed spec fn console_on(&self) -> bool {
        self.printer.console_on()
    }

    pub fn new() -> (r: LoxVM)
        ensures
            r.env() == initial_env(),
            r.out() == Seq::<char>::empty(),
            r.console_on(),
    {
        let vm = LoxVM {
            global: VmStack::new("(global)".to_owned()),
            stacks: Vec::new(),
            printer: LoxPrinter::new(),
        };
        proof {
            assert(vm.env().frames =~= initial_env().frames);
            assert(vm.env().global =~= initial_env().global);
        }
        vm
    }

    /// Empties the environment back to a single empty global scope. The
    /// output buffer is not touched.
    pub fn clear(&mut self)
        ensures
            final(self).env() == initial_env(),
            final(self).out() == old(self).out(),
            final(self).console_on() == old(self).console_on(),
    {
        self.global.clear();
        self.stacks.clear();
        proof {
            assert(self.env().frames =~= initial_env().frames);
            assert(self.env().global =~= initial_env().global);
        }
    }

    /// Routes or buffers printed output for the embedding shell.
    pub fn set_console(&mut self, to_console: bool)
        ensures
            final(self).console_on() == to_console,
            final(self).st() == old(self).st(),
    {
        self.printer.auto_to_console(to_console);
    }

    /// Whether the embedding shell should drain the printer to its console.
    pub fn console_enabled(&self) -> (r: bool)
        ensures
            r == self.console_on(),
    {
        self.printer.console_enabled()
    }

    /// Empties the output buffer.
    pub fn printer_clear(&mut self)
        ensures
            final(self).out() == Seq::<char>::empty(),
            final(self).env() == old(self).env(),
            final(self).console_on() == old(self).console_on(),
    {
        self.printer.clear();
    }

    /// Hands over everything printed so far and empties the buffer.
    pub fn printer_take(&mut self) -> (r: String)
        ensures
            r@ == old(self).out(),
            final(self).out() == Seq::<char>::empty(),
            final(self).env() == old(self).env(),
            final(self).console_on() == old(self).console_on(),
    {
        self.printer.take()
    }

    /// Opens a call frame named after the callee.
    pub fn stack_new(&mut self, name: String)
        ensures
            final(self).env() == env_push_frame(old(self).env()),
            final(self).out() == old(self).out(),
            final(self).console_on() == old(self).console_on(),
    {
        self.stacks.push(VmStack::new(name));
        proof {
            assert(self.env().frames =~~= env_push_frame(old(self).env()).frames);
        }
    }

    /// Retires the current call frame.
    pub fn stack_del(&mut self)
        requires
            old(self).env().frames.len() >= 1,
        ensures
            final(self).env() == env_pop_frame(old(self).env()),
            final(self).out() == old(self).out(),
            final(self).console_on() == old(self).console_on(),
    {
        let _ = self.stacks.pop();
        proof {
            assert(self.env().frames =~~= env_pop_frame(old(self).env()).frames);
        }
    }

    /// Opens a scope on the current frame.
    pub fn block_enter(&mut self)
        ensures
            final(self).env() == env_push_scope(old(self).env()),
            final(self).out() == old(self).out(),
            final(self).console_on() == old(self).console_on(),
    {
        let n = self.stacks.len();
        if n == 0 {
            self.global.scope_enter();
            proof {
                assert(self.env().frames =~~= env_push_scope(old(self).env()).frames);
            }
        } else {
            let mut top = match self.stacks.pop() {
                Some(t) => t,
                None => VmStack::new(String::new()),  // unreachable: the stack is nonempty
            };
            top.scope_enter();
            self.stacks.push(top);
            proof {
                assert(self.env().frames =~~= env_push_scope(old(self).env()).frames);
            }
        }
    }

    /// Closes the innermost scope of the current frame.
    pub fn block_exit(&mut self)
        requires
            cur_frame(old(self).env()).len() >= 1,
        ensures
            final(self).env() == env_pop_scope(old(self).env()),
            final(self).out() == old(self).out(),
            final(self).console_on() == old(self).console_on(),
    {
        let n = self.stacks.len();
        if n == 0 {
            self.global.scope_exit();
            proof {
                assert(self.env().frames =~~= env_pop_scope(old(self).env()).frames);
            }
        } else {
            let mut top = match self.stacks.pop() {
                Some(t) => t,
                None => VmStack::new(String::new()),  // unreachable: the stack is nonempty
            };
            top.scope_exit();
            self.stacks.push(top);
            proof {
                assert(self.env().frames =~~= env_pop_scope(old(self).env()).frames);
            }
        }
    }

    /// Declares the name in the innermost scope of the current frame.
    pub fn var_add(&mut self, name: String, obj: Object)
        requires
            env_wf(old(self).env()),
        ensures
            final(self).env() == env_declare(old(self).env(), name@, obj@),
            final(self).out() == old(self).out(),
            final(self).console_on() == old(self).console_on(),
    {
        let n = self.stacks.len();
        if n == 0 {
            self.global.var_add(name, obj);
            proof {
                assert(self.env().frames =~~= env_declare(old(self).env(), name@, obj@).frames);
            }
        } else {
            let mut top = match self.stacks.pop() {
                Some(t) => t,
                None => VmStack::new(String::new()),  // unreachable: the stack is nonempty
            };
            proof {
                assert(top@ == old(self).env().frames[n as int - 1]);
                assert(old(self).env().frames[n as int - 1].len() >= 1);
            }
            top.var_add(name, obj);
            self.stacks.push(top);
            proof {
                assert(self.env().frames =~~= env_declare(old(self).env(), name@, obj@).frames);
            }
        }
    }

    /// Rebinds a name that is already declared, in the current frame first
    /// and in the global frame second; a name error otherwise.
    pub fn var_set(&mut self, name: String, obj: Object) -> (r: Result<Object, LoxError>)
        ensures
            match env_assign(old(self).env(), name@, obj@) {
                Some(env2) => r matches Ok(o) && o@ == obj@ && final(self).env() == env2,
                None => r matches Err(e) && e.kind == ErrKind::Name && final(self).env() == old(
                    self,
                ).env(),
            },
            final(self).out() == old(self).out(),
            final(self).console_on() == old(self).console_on(),
    {
        let n = self.stacks.len();
        if n == 0 {
            let r = self.global.var_set(name, obj);
            proof {
                if frame_assign(old(self).global@, name@, obj@) is Some {
                    assert(self.env().frames =~~= old(self).env().frames);
                } else {
                    assert(self.env().frames =~~= old(self).env().frames);
                    assert(self.env() == old(self).env());
                }
            }
            r
        } else {
            proof {
                lemma_frame_assign_some_iff(self.stacks@[n - 1]@, name@, obj@);
            }
            if self.stacks[n - 1].var_exist(&name) {
                let mut top = match self.stacks.pop() {
                    Some(t) => t,
                    None => VmStack::new(String::new()),  // unreachable
                };
                let r = top.var_set(name, obj);
                self.stacks.push(top);
                proof {
                    let env2 = env_assign(old(self).env(), name@, obj@)->0;
                    assert(self.env().frames =~~= env2.frames);
                }
                r
            } else {
                proof {
                    lemma_frame_assign_some_iff(old(self).global@, name@, obj@);
                }
                let r = self.global.var_set(name, obj);
                proof {
                    assert(self.env().frames =~~= old(self).env().frames);
                    if frame_assign(old(self).global@, name@, obj@) is None {
                        assert(self.env() == old(self).env());
                    }
                }
                r
            }
        }
    }

    /// Reads a name: the current frame from the innermost scope outward,
    /// then the global frame; a name error when neither knows it.
    pub fn var_get(&self, name: &String) -> (r: Result<Object, LoxError>)
        ensures
            match env_get(self.env(), name@) {
                Some(v) => r matches Ok(o) && o@ == v,
                None => r matches Err(e) && e.kind == ErrKind::Name,
            },
    {
        let n = self.stacks.len();
        if n == 0 {
            self.global.var_get(name)
        } else {
            match self.stacks[n - 1].var_get(name) {
                Ok(o) => Ok(o),
                Err(_) => self.global.var_get(name),
            }
        }
    }

    /// Whether the name is visible: in the current frame or the global one.
    pub fn var_exist(&self, name: &String) -> (r: bool)
        ensures
            r == (env_get(self.env(), name@) is Some),
    {
        let n = self.stacks.len();
        if n == 0 {
            self.global.var_exist(name)
        } else {
            if self.stacks[n - 1].var_exist(name) {
                true
            } else {
                self.global.var_exist(name)
            }
        }
    }
}

// ---------------------------------------------------------------------------
// Evaluation and execution
// ---------------------------------------------------------------------------
impl LoxVM {
    /// Evaluates an expression: the returned value, the environment after,
    /// and everything printed agree with the mathematical semantics.
    pub fn eval(&mut self, expr: &Expr, fuel: u64) -> (r: Result<Object, LoxError>)
        requires
            env_wf(old(self).env()),
        ensures
            eval_matches(eval_spec(old(self).st(), expr@, fuel as nat), r, final(self).st()),
            same_shape(old(self).env(), final(self).env()),
            final(self).console_on() == old(self).console_on(),
        decreases fuel, expr_size(expr@), 0int,
    {
        let ghost st0 = self.st();
        match expr {
            Expr::Literal(tok) => match tok {
                Token::Nil => Ok(Object::Nil),
                Token::True => Ok(Object::Boolean(true)),
                Token::False => Ok(Object::Boolean(false)),
                Token::StringLit(s) => Ok(Object::Str(s.clone())),
                Token::Number(n) => Ok(Object::Number(n.clone())),
                Token::Identifier(nm) => self.var_get(nm),
                _ => Err(LoxError::new(ErrKind::Internal, "token is not a literal")),
            },
            Expr::Group(sub) => self.eval(sub, fuel),
            Expr::Unary(op, sub) => {
                let v = match self.eval(sub, fuel) {
                    Ok(v) => v,
                    Err(e) => {
                        return Err(e);
                    },
                };
                match op {
                    Token::Bang => v.not(),
                    Token::Minus => v.neg(),
                    _ => Err(LoxError::new(ErrKind::Internal, "not a unary operator")),
                }
            },
            Expr::Binary(l, op, r) => {
                let lv = match self.eval(l, fuel) {
                    Ok(v) => v,
                    Err(e) => {
                        return Err(e);
                    },
                };
                proof {
                    lemma_same_shape_wf(old(self).env(), self.env());
                }
                let rv = match self.eval(r, fuel) {
                    Ok(v) => v,
                    Err(e) => {
                        return Err(e);
                    },
                };
                match op {
                    Token::Plus => lv.add(&rv),
                    Token::Minus => lv.sub(&rv),
                    Token::Star => lv.mul(&rv),
                    Token::Slash => lv.div(&rv),
                    Token::Greater => lv.gt(&rv),
                    Token::GreaterEqual => lv.ge(&rv),
                    Token::Less => lv.lt(&rv),
                    Token::LessEqual => lv.le(&rv),
                    Token::EqualEqual => lv.eq(&rv),
                    Token::BangEqual => lv.ne(&rv),
                    Token::And => lv.logic_and(&rv),
                    Token::Or => lv.logic_or(&rv),
                    _ => Err(LoxError::new(ErrKind::Internal, "not a binary operator")),
                }
            },
            Expr::Assign(tok, sub) => {
                let nm = match tok {
                    Token::Identifier(s) => s,
                    _ => {
                        return Err(LoxError::new(ErrKind::Internal, "assignment to a non-name"));
                    },
                };
                let v = match self.eval(sub, fuel) {
                    Ok(v) => v,
                    Err(e) => {
                        return Err(e);
                    },
                };
                proof {
                    lemma_env_assign_shape(self.env(), nm@, v@);
                }
                self.var_set(nm.clone(), v)
            },
            Expr::FnCall(name, args) => {
                let fobj = match self.var_get(name) {
                    Ok(o) => o,
                    Err(e) => {
                        return Err(e);
                    },
                };
                let (params, body) = match fobj {
                    Object::Function(ps, b) => (ps, b),
                    _ => {
                        return Err(LoxError::new(ErrKind::Type, "not a function"));
                    },
                };
                let ghost argsv = exprs_view(args@);
                proof {
                    lemma_exprs_view(args@);
                    assert(expr@ == SpecExpr::FnCall(name@, argsv));
                }
                if params.len() != args.len() {
                    return Err(LoxError::new(ErrKind::Arity, "wrong number of arguments"));
                }
                // arguments, left to right, in the caller's environment
                let mut vals: Vec<Object> = Vec::new();
                proof {
                    assert(argsv.skip(0) =~= argsv);
                    assert(objs_view(vals@) =~= Seq::<SpecValue>::empty());
                }
                let mut i: usize = 0;
                while i < args.len()
                    invariant
                        env_wf(old(self).env()),
                        env_wf(self.env()),
                        same_shape(old(self).env(), self.env()),
                        self.console_on() == old(self).console_on(),
                        i <= args@.len(),
                        vals@.len() == i,
                        argsv == exprs_view(args@),
                        argsv.len() == args@.len(),
                        forall|k: int| 0 <= k < args@.len() ==> argsv[k] == args@[k]@,
                        st0 == old(self).st(),
                        expr@ == SpecExpr::FnCall(name@, argsv),
                        env_get(st0.env, name@) == Some(
                            SpecValue::Fun(crate::statement::strs_view(params@), Box::new(body@)),
                        ),
                        crate::statement::strs_view(params@).len() == argsv.len(),
                        vals@.len() <= args@.len(),
                        params@.len() == args@.len(),
                        exprs_size(argsv) < expr_size(expr@),
                        eval_args_spec(st0, argsv, seq![], fuel as nat) == eval_args_spec(
                            self.st(),
                            argsv.skip(i as int),
                            objs_view(vals@),
                            fuel as nat,
                        ),
                    decreases args@.len() - i,
                {
                    proof {
                        lemma_exprs_size_member(argsv, i as int);
                    }
                    let ghost st_before = self.st();
                    let ghost vals_before = objs_view(vals@);
                    let v = match self.eval(&args[i], fuel) {
                        Ok(v) => v,
                        Err(e) => {
                            proof {
                                assert(argsv.skip(i as int)[0] == argsv[i as int]);
                                assert(eval_args_spec(st0, argsv, seq![], fuel as nat) == eval_args_spec(st_before, argsv.skip(i as int), vals_before, fuel as nat));
                            }
                            return Err(e);
                        },
                    };
                    let ghost vv = v@;
                    vals.push(v);
                    proof {
                        assert(argsv.skip(i as int)[0] == argsv[i as int]);
                        assert(objs_view(vals@) =~= vals_before.push(vv));
                        assert(argsv.skip(i as int).skip(1) =~= argsv.skip(i as int + 1));
                        lemma_same_shape_trans(old(self).env(), st_before.env, self.env());
                        lemma_same_shape_wf(old(self).env(), self.env());
                    }
                    i = i + 1;
                }
                proof {
                    assert(argsv.skip(i as int) =~= Seq::<SpecExpr>::empty());
                }
                if fuel == 0 {
                    return Err(LoxError::new(ErrKind::OutOfFuel, "the step bound is exhausted"));
                }
                let ghost st1 = self.st();
                self.stack_new(name.clone());
                // bind the parameters in the fresh frame
                let ghost env_pushed = self.env();
                let ghost paramsv = crate::statement::strs_view(params@);
                let ghost valsv = objs_view(vals@);
                proof {
                    lemma_same_shape_wf(old(self).env(), st1.env);
                    assert(env_wf(self.env()));
                }
                proof {
                    assert(paramsv.skip(0) =~= paramsv);
                    assert(valsv.skip(0) =~= valsv);
                }
                let mut j: usize = 0;
                while j < params.len()
                    invariant
                        j <= params@.len(),
                        vals@.len() == params@.len(),
                        paramsv == crate::statement::strs_view(params@),
                        valsv == objs_view(vals@),
                        paramsv.len() == params@.len(),
                        valsv.len() == vals@.len(),
                        env_wf(self.env()),
                        same_shape(env_pushed, self.env()),
                        self.out() == st1.out,
                        self.console_on() == old(self).console_on(),
                        declare_params(env_pushed, paramsv, valsv) == declare_params(
                            self.env(),
                            paramsv.skip(j as int),
                            valsv.skip(j as int),
                        ),
                    decreases params@.len() - j,
                {
                    let ghost env_before = self.env();
                    let pname = params[j].clone();
                    let pval = vals[j].clone();
                    self.var_add(pname, pval);
                    proof {
                        assert(paramsv.skip(j as int)[0] == paramsv[j as int]);
                        assert(valsv.skip(j as int)[0] == valsv[j as int]);
                        assert(paramsv.skip(j as int).skip(1) =~= paramsv.skip(j as int + 1));
                        assert(valsv.skip(j as int).skip(1) =~= valsv.skip(j as int + 1));
                        lemma_env_declare_shape(env_before, paramsv[j as int], valsv[j as int]);
                        lemma_same_shape_trans(env_pushed, env_before, self.env());
                    }
                    j = j + 1;
                }
                proof {
                    assert(paramsv.skip(j as int) =~= Seq::<Seq<char>>::empty());
                    assert(self.env() == declare_params(env_pushed, paramsv, valsv));
                }
                // run the body in the new frame, then retire the frame
                let ghost env_bound = self.env();
                let r = self.exec(&body, fuel - 1);
                proof {
                    assert(same_shape(env_bound, self.env()));
                    assert(self.env().frames.len() >= 1);
                }
                self.stack_del();
                match r {
                    Ok(_) => Ok(Object::Nil),
                    Err(e) => Err(e),
                }
            },
        }
    }
}

impl LoxVM {
    /// Executes one statement: the environment after it and everything
    /// printed agree with the mathematical semantics; on success the yielded
    /// value is nil.
    pub fn exec(&mut self, stmt: &Stmt, fuel: u64) -> (r: Result<Object, LoxError>)
        requires
            env_wf(old(self).env()),
        ensures
            exec_matches(exec_spec(old(self).st(), stmt@, fuel as nat), r, final(self).st()),
            same_shape(old(self).env(), final(self).env()),
            final(self).console_on() == old(self).console_on(),
        decreases fuel, stmt_size(stmt@), 1int,
    {
        let ghost st0 = self.st();
        match stmt {
            Stmt::Expr(e) => match self.eval(e, fuel) {
                Ok(_) => Ok(Object::Nil),
                Err(er) => Err(er),
            },
            Stmt::Print(e) => {
                let v = match self.eval(e, fuel) {
                    Ok(v) => v,
                    Err(er) => {
                        return Err(er);
                    },
                };
                let text = v.to_text();
                self.printer.println(text.as_str());
                Ok(Object::Nil)
            },
            Stmt::Decl(tok, init) => {
                let nm = match tok {
                    Token::Identifier(s) => s,
                    _ => {
                        return Err(LoxError::new(ErrKind::Internal, "declaration of a non-name"));
                    },
                };
                let v = match init {
                    Some(e) => match self.eval(e, fuel) {
                        Ok(v) => v,
                        Err(er) => {
                            return Err(er);
                        },
                    },
                    None => Object::Nil,
                };
                proof {
                    lemma_same_shape_wf(old(self).env(), self.env());
                    lemma_env_declare_shape(self.env(), nm@, v@);
                    lemma_same_shape_trans(
                        old(self).env(),
                        self.env(),
                        env_declare(self.env(), nm@, v@),
                    );
                }
                self.var_add(nm.clone(), v);
                Ok(Object::Nil)
            },
            Stmt::FunDecl(name, params, body) => {
                let f = Object::Function(
                    crate::statement::clone_strings(params),
                    (**body).clone(),
                );
                proof {
                    lemma_env_declare_shape(self.env(), name@, f@);
                }
                self.var_add(name.clone(), f);
                Ok(Object::Nil)
            },
            Stmt::If(c, then, els) => {
                let v = match self.eval(c, fuel) {
                    Ok(v) => v,
                    Err(er) => {
                        return Err(er);
                    },
                };
                let b = match v.is_true() {
                    Ok(b) => b,
                    Err(er) => {
                        return Err(er);
                    },
                };
                proof {
                    lemma_same_shape_wf(old(self).env(), self.env());
                }
                let ghost mid = self.env();
                let r = if b {
                    self.exec(then, fuel)
                } else {
                    match els {
                        Some(fb) => self.exec(fb, fuel),
                        None => Ok(Object::Nil),
                    }
                };
                proof {
                    lemma_same_shape_trans(old(self).env(), mid, self.env());
                }
                r
            },
            Stmt::While(c, body) => {
                let ghost sv = stmt@;
                proof {
                    assert(sv == SpecStmt::While(c@, Box::new((**body)@)));
                }
                let mut fuel_left = fuel;
                while fuel_left > 0
                    invariant
                        env_wf(old(self).env()),
                        env_wf(self.env()),
                        same_shape(old(self).env(), self.env()),
                        self.console_on() == old(self).console_on(),
                        fuel_left <= fuel,
                        sv == stmt@,
                        sv == SpecStmt::While(c@, Box::new((**body)@)),
                        expr_size(c@) < stmt_size(sv),
                        stmt_size((**body)@) < stmt_size(sv),
                        st0 == old(self).st(),
                        exec_spec(st0, sv, fuel as nat) == exec_spec(
                            self.st(),
                            sv,
                            fuel_left as nat,
                        ),
                    decreases fuel_left,
                {
                    let ghost st_iter = self.st();
                    let cv = match self.eval(c, fuel_left) {
                        Ok(v) => v,
                        Err(er) => {
                            return Err(er);
                        },
                    };
                    let b = match cv.is_true() {
                        Ok(b) => b,
                        Err(er) => {
                            return Err(er);
                        },
                    };
                    if !b {
                        return Ok(Object::Nil);
                    }
                    proof {
                        lemma_same_shape_wf(old(self).env(), self.env());
                    }
                    let ghost mid = self.env();
                    match self.exec(body, fuel_left) {
                        Ok(_) => {},
                        Err(er) => {
                            proof {
                                lemma_same_shape_trans(old(self).env(), mid, self.env());
                            }
                            return Err(er);
                        },
                    }
                    proof {
                        lemma_same_shape_trans(old(self).env(), mid, self.env());
                        lemma_same_shape_wf(old(self).env(), self.env());
                    }
                    fuel_left = fuel_left - 1;
                }
                Err(LoxError::new(ErrKind::OutOfFuel, "the step bound is exhausted"))
            },
            Stmt::Block(stmts) => {
                let ghost ssv = stmts_view(stmts@);
                proof {
                    lemma_stmts_view(stmts@);
                }
                self.block_enter();
                let ghost st_in = self.st();
                proof {
                    lemma_env_push_scope_props(st0.env);
                    assert(st_in == st_push_scope(st0));
                }
                proof {
                    assert(ssv.skip(0) =~= ssv);
                }
                let mut i: usize = 0;
                while i < stmts.len()
                    invariant
                        env_wf(st0.env),
                        env_wf(st_in.env),
                        env_wf(self.env()),
                        same_shape(st_in.env, self.env()),
                        st_in.env == env_push_scope(st0.env),
                        self.console_on() == old(self).console_on(),
                        i <= stmts@.len(),
                        ssv == stmts_view(stmts@),
                        ssv.len() == stmts@.len(),
                        forall|k: int| 0 <= k < stmts@.len() ==> ssv[k] == stmts@[k]@,
                        st0 == old(self).st(),
                        st_in == st_push_scope(st0),
                        exec_seq_spec(st_in, ssv, fuel as nat) == exec_seq_spec(
                            self.st(),
                            ssv.skip(i as int),
                            fuel as nat,
                        ),
                        stmt@ == SpecStmt::Block(ssv),
                    decreases stmts@.len() - i,
                {
                    proof {
                        lemma_stmts_size_member(ssv, i as int);
                    }
                    let ghost mid = self.env();
                    match self.exec(&stmts[i], fuel) {
                        Ok(_) => {
                            proof {
                                assert(ssv.skip(i as int)[0] == ssv[i as int]);
                                assert(ssv.skip(i as int).skip(1) =~= ssv.skip(i as int + 1));
                                lemma_same_shape_trans(st_in.env, mid, self.env());
                                lemma_same_shape_wf(st_in.env, self.env());
                            }
                            i = i + 1;
                        },
                        Err(er) => {
                            proof {
                                assert(ssv.skip(i as int)[0] == ssv[i as int]);
                                lemma_same_shape_trans(st_in.env, mid, self.env());
                                lemma_pop_after_push(st0.env, self.env());
                            }
                            let ghost before_pop = self.st();
                            self.block_exit();
                            proof {
                                assert(self.st() == st_pop_scope(before_pop));
                            }
                            return Err(er);
                        },
                    }
                }
                proof {
                    assert(ssv.skip(i as int) =~= Seq::<SpecStmt>::empty());
                    lemma_pop_after_push(st0.env, self.env());
                }
                let ghost before_pop = self.st();
                self.block_exit();
                proof {
                    assert(self.st() == st_pop_scope(before_pop));
                }
                Ok(Object::Nil)
            },
            Stmt::For(init, cond, step, body) => {
                let ghost sv = stmt@;
                let ghost iv: Option<Box<SpecStmt>> = match init {
                    Some(b) => Some(Box::new((**b)@)),
                    None => None,
                };
                let ghost cv: Option<SpecExpr> = match cond {
                    Some(e) => Some(e@),
                    None => None,
                };
                let ghost wv: Option<SpecExpr> = match step {
                    Some(e) => Some(e@),
                    None => None,
                };
                proof {
                    assert(sv == SpecStmt::For(iv, cv, wv, Box::new((**body)@)));
                }
                self.block_enter();
                let ghost st_in = self.st();
                proof {
                    lemma_env_push_scope_props(st0.env);
                    assert(st_in == st_push_scope(st0));
                }
                match init {
                    Some(istmt) => {
                        let ghost mid = self.env();
                        match self.exec(istmt, fuel) {
                            Ok(_) => {
                                proof {
                                    lemma_same_shape_wf(st_in.env, self.env());
                                }
                            },
                            Err(er) => {
                                proof {
                                    lemma_pop_after_push(st0.env, self.env());
                                }
                                let ghost before_pop = self.st();
                                self.block_exit();
                                proof {
                                    assert(self.st() == st_pop_scope(before_pop));
                                }
                                return Err(er);
                            },
                        }
                    },
                    None => {},
                }
                let ghost st_loop0 = self.st();
                let mut fuel_left = fuel;
                while fuel_left > 0
                    invariant
                        env_wf(st0.env),
                        env_wf(st_in.env),
                        env_wf(self.env()),
                        same_shape(st_in.env, self.env()),
                        st_in.env == env_push_scope(st0.env),
                        self.console_on() == old(self).console_on(),
                        fuel_left <= fuel,
                        sv == stmt@,
                        sv == SpecStmt::For(iv, cv, wv, Box::new((**body)@)),
                        cv == (match cond {
                            Some(e) => Some(e@),
                            None => None::<SpecExpr>,
                        }),
                        wv == (match step {
                            Some(e) => Some(e@),
                            None => None::<SpecExpr>,
                        }),
                        (cond matches Some(cx) ==> expr_size(cx@) < stmt_size(sv)),
                        (step matches Some(sx) ==> expr_size(sx@) < stmt_size(sv)),
                        stmt_size((**body)@) < stmt_size(sv),
                        st0 == old(self).st(),
                        st_in == st_push_scope(st0),
                        exec_spec(st0, sv, fuel as nat) == (match for_loop_spec(
                            st_loop0,
                            sv,
                            fuel as nat,
                        ) {
                            Ok(st3) => Ok(st_pop_scope(st3)),
                            Err((k, st3)) => Err((k, st_pop_scope(st3))),
                        }),
                        for_loop_spec(st_loop0, sv, fuel as nat) == for_loop_spec(
                            self.st(),
                            sv,
                            fuel_left as nat,
                        ),
                    decreases fuel_left,
                {
                    let ghost st_iter = self.st();
                    let passed: bool;
                    match cond {
                        Some(cx) => {
                            let cv = match self.eval(cx, fuel_left) {
                                Ok(v) => v,
                                Err(er) => {
                                    proof {
                                        lemma_same_shape_trans(st_in.env, st_iter.env, self.env());
                                        lemma_pop_after_push(st0.env, self.env());
                                    }
                                    let ghost before_pop = self.st();
                                    self.block_exit();
                                    proof {
                                        assert(self.st() == st_pop_scope(before_pop));
                                    }
                                    return Err(er);
                                },
                            };
                            let b = match cv.is_true() {
                                Ok(b) => b,
                                Err(er) => {
                                    proof {
                                        lemma_same_shape_trans(st_in.env, st_iter.env, self.env());
                                        lemma_pop_after_push(st0.env, self.env());
                                    }
                                    let ghost before_pop = self.st();
                                    self.block_exit();
                                    proof {
                                        assert(self.st() == st_pop_scope(before_pop));
                                    }
                                    return Err(er);
                                },
                            };
                            passed = b;
                        },
                        None => {
                            passed = true;
                        },
                    }
                    if !passed {
                        proof {
                            lemma_same_shape_trans(st_in.env, st_iter.env, self.env());
                            lemma_pop_after_push(st0.env, self.env());
                        }
                        let ghost before_pop = self.st();
                        self.block_exit();
                        proof {
                            assert(self.st() == st_pop_scope(before_pop));
                        }
                        return Ok(Object::Nil);
                    }
                    proof {
                        lemma_same_shape_trans(st_in.env, st_iter.env, self.env());
                        lemma_same_shape_wf(st_in.env, self.env());
                    }
                    let ghost mid1 = self.env();
                    match self.exec(body, fuel_left) {
                        Ok(_) => {},
                        Err(er) => {
                            proof {
                                lemma_same_shape_trans(st_in.env, mid1, self.env());
                                lemma_pop_after_push(st0.env, self.env());
                            }
                            let ghost before_pop = self.st();
                            self.block_exit();
                            proof {
                                assert(self.st() == st_pop_scope(before_pop));
                            }
                            return Err(er);
                        },
                    }
                    proof {
                        lemma_same_shape_trans(st_in.env, mid1, self.env());
                        lemma_same_shape_wf(st_in.env, self.env());
                    }
                    match step {
                        Some(sx) => {
                            let ghost mid2 = self.env();
                            match self.eval(sx, fuel_left) {
                                Ok(_) => {
                                    proof {
                                        lemma_same_shape_trans(st_in.env, mid2, self.env());
                                        lemma_same_shape_wf(st_in.env, self.env());
                                    }
                                },
                                Err(er) => {
                                    proof {
                                        lemma_same_shape_trans(st_in.env, mid2, self.env());
                                        lemma_pop_after_push(st0.env, self.env());
                                    }
                                    let ghost before_pop = self.st();
                                    self.block_exit();
                                    proof {
                                        assert(self.st() == st_pop_scope(before_pop));
                                    }
                                    return Err(er);
                                },
                            }
                        },
                        None => {},
                    }
                    fuel_left = fuel_left - 1;
                }
                proof {
                    lemma_pop_after_push(st0.env, self.env());
                }
                let ghost before_pop = self.st();
                self.block_exit();
                proof {
                    assert(self.st() == st_pop_scope(before_pop));
                }
                Err(LoxError::new(ErrKind::OutOfFuel, "the step bound is exhausted"))
            },
        }
    }
}

} // verus!
