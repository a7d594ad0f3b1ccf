//! A tree-walking interpreter for a small dynamically typed scripting
//! language: a scanner, a recursive-descent parser, and an evaluator over a
//! lexically scoped environment, each verified against a mathematical
//! semantics of the language.

use vstd::prelude::*;

pub mod console;
pub mod error;
pub mod expression;
pub mod laws;
pub mod number;
pub mod object;
pub mod scanner;
pub mod semantics;
pub mod stack;
pub mod statement;
pub mod token;
pub mod var_pool;
pub mod vm;

use crate::error::{ErrKind, LoxError};
use crate::scanner::{is_ws, is_ws_char, scan_from_string};
use crate::semantics::{
    env_wf, exec_line_spec, exec_spec, initial_state, lemma_same_shape_wf,
    run_tokens_spec, SpecState, DEFAULT_FUEL,
};
use crate::statement::{spec_stmt, Stmt};
use crate::token::{toks_view, SpecToken, Token};
use crate::vm::LoxVM;

verus! {

/// The interpreter: a scanner feeding a token buffer, a parser that takes
/// one statement at a time from its front, and the machine that runs it.
pub struct LoxParser {
    prompt: String,
    vm: LoxVM,
    tokens: Vec<Token>,
}

impl LoxParser {
    /// The observable state: environment and printed output.
    pub closed spec fn st(&self) -> SpecState {
        self.vm.st()
    }

    /// The token buffer.
    pub closed spec fn toks(&self) -> Seq<SpecToken> {
        toks_view(self.tokens@)
    }

    /// The environment is well-formed; every operation keeps it so.
    pub closed spec fn wf(&self) -> bool {
        env_wf(self.vm.st().env)
    }

    /// Whether printed output is meant for the console (off in test mode).
    pub closed spec fn console_on(&self) -> bool {
        self.vm.console_on()
    }

    pub fn new() -> (r: LoxParser)
        ensures
            r.st() == initial_state(),
            r.toks() == Seq::<SpecToken>::empty(),
            r.wf(),
            r.console_on(),
            r.prompt_view() == ">> "@,
    {
        let r = LoxParser { prompt: ">> ".to_owned(), vm: LoxVM::new(), tokens: Vec::new() };
        proof {
            assert(r.toks() =~= Seq::<SpecToken>::empty());
        }
        r
    }

    /// As `new`, but output stays buffered for `console_take` instead of
    /// being meant for the console.
    pub fn new_test() -> (r: LoxParser)
        ensures
            r.st() == initial_state(),
            r.toks() == Seq::<SpecToken>::empty(),
            r.wf(),
            !r.console_on(),
            r.prompt_view() == ">> "@,
    {
        let mut r = LoxParser { prompt: ">> ".to_owned(), vm: LoxVM::new(), tokens: Vec::new() };
        r.vm.set_console(false);
        proof {
            assert(r.toks() =~= Seq::<SpecToken>::empty());
        }
        r
    }

    /// Forgets all variables, buffered output and pending tokens.
    pub fn clear(&mut self)
        ensures
            final(self).st() == initial_state(),
            final(self).toks() == Seq::<SpecToken>::empty(),
            final(self).wf(),
            final(self).console_on() == old(self).console_on(),
    {
        self.vm.clear();
        self.vm.printer_clear();
        self.tokens.clear();
        proof {
            assert(self.toks() =~= Seq::<SpecToken>::empty());
        }
    }

    /// Scans the source into a fresh token buffer.
    pub fn parse_token_clear(&mut self, code: &String) -> (r: Result<(), LoxError>)
        ensures
            final(self).toks() == crate::scanner::scan_spec(code@, 0).0,
            r is Ok <==> crate::scanner::scan_spec(code@, 0).1,
            r matches Err(e) ==> e.kind == ErrKind::Lex,
            final(self).st() == old(self).st(),
            final(self).wf() == old(self).wf(),
            final(self).console_on() == old(self).console_on(),
    {
        self.tokens.clear();
        let r = scan_from_string(code, &mut self.tokens);
        proof {
            assert(self.toks() =~= crate::scanner::scan_spec(code@, 0).0);
        }
        r
    }

    /// Scans the source onto the end of the token buffer.
    pub fn parse_token_append(&mut self, code: &String) -> (r: Result<(), LoxError>)
        ensures
            final(self).toks() == old(self).toks() + crate::scanner::scan_spec(code@, 0).0,
            r is Ok <==> crate::scanner::scan_spec(code@, 0).1,
            r matches Err(e) ==> e.kind == ErrKind::Lex,
            final(self).st() == old(self).st(),
            final(self).wf() == old(self).wf(),
            final(self).console_on() == old(self).console_on(),
    {
        scan_from_string(code, &mut self.tokens)
    }

    /// Parses one statement from the front of the buffer and removes its
    /// tokens; on a parse error the buffer is left as it was.
    pub fn parse_stmt(&mut self) -> (r: Result<Stmt, LoxError>)
        ensures
            match spec_stmt(old(self).toks(), 0) {
                Some((s, used)) => r matches Ok(stmt) && stmt@ == s && 1 <= used <= old(
                    self,
                ).toks().len() && final(self).toks() == old(self).toks().skip(used),
                None => r matches Err(e) && e.kind == ErrKind::Parse && final(self).toks() == old(
                    self,
                ).toks(),
            },
            final(self).st() == old(self).st(),
            final(self).wf() == old(self).wf(),
            final(self).console_on() == old(self).console_on(),
    {
        match Stmt::stmt(&self.tokens, 0) {
            Ok((stmt, used)) => {
                drain_front(&mut self.tokens, used);
                Ok(stmt)
            },
            Err(e) => Err(e),
        }
    }

    /// Runs one already-parsed statement on the machine.
    pub fn exec_stmt(&mut self, stmt: Stmt) -> (r: Result<(), LoxError>)
        requires
            old(self).wf(),
        ensures
            match exec_spec(old(self).st(), stmt@, DEFAULT_FUEL as nat) {
                Ok(st2) => r is Ok && final(self).st() == st2,
                Err((k, st2)) => r matches Err(e) && e.kind == k && final(self).st() == st2,
            },
            final(self).wf(),
            final(self).toks() == old(self).toks(),
            final(self).console_on() == old(self).console_on(),
    {
        let r = self.vm.exec(&stmt, DEFAULT_FUEL);
        proof {
            lemma_same_shape_wf(old(self).st().env, self.st().env);
        }
        match r {
            Ok(_) => Ok(()),
            Err(e) => Err(e),
        }
    }

    /// Parses and runs statements until the token buffer is empty or one of
    /// them fails.
    pub fn exec_stmt_all_available(&mut self) -> (r: Result<(), LoxError>)
        requires
            old(self).wf(),
        ensures
            match run_tokens_spec(old(self).st(), old(self).toks()) {
                (Ok(st2), rest) => r is Ok && final(self).st() == st2 && final(self).toks()
                    == rest,
                (Err((k, st2)), rest) => r matches Err(e) && e.kind == k && final(self).st() == st2
                    && final(self).toks() == rest,
            },
            final(self).wf(),
            final(self).console_on() == old(self).console_on(),
    {
        let ghost st0 = self.st();
        let ghost toks0 = self.toks();
        while self.tokens.len() > 0
            invariant
                self.wf(),
                self.console_on() == old(self).console_on(),
                st0 == old(self).st(),
                toks0 == old(self).toks(),
                run_tokens_spec(st0, toks0) == run_tokens_spec(self.st(), self.toks()),
            decreases self.tokens@.len(),
    {
            proof {
                assert(self.toks().len() == self.tokens@.len());
            }
            let ghost st_b = self.st();
            let ghost toks_b = self.toks();
            let stmt = match self.parse_stmt() {
                Ok(s) => s,
                Err(e) => {
                    proof {
                        assert(run_tokens_spec(st_b, toks_b).0 == Err::<SpecState, (ErrKind, SpecState)>(
                            (ErrKind::Parse, st_b),
                        ));
                        assert(run_tokens_spec(st_b, toks_b).1 == toks_b);
                    }
                    return Err(e);
                },
            };
            match self.exec_stmt(stmt) {
                Ok(_) => {},
                Err(e) => {
                    return Err(e);
                },
            }
            proof {
                assert(run_tokens_spec(st_b, toks_b) == run_tokens_spec(self.st(), self.toks()));
            }
        }
        proof {
            assert(self.toks() =~= Seq::<SpecToken>::empty());
        }
        Ok(())
    }

    /// Scans one source string into a fresh buffer and runs it.
    pub fn exec_line(&mut self, line: &String) -> (r: Result<(), LoxError>)
        requires
            old(self).wf(),
        ensures
            match exec_line_spec(old(self).st(), line@) {
                (Ok(st2), rest) => r is Ok && final(self).st() == st2 && final(self).toks()
                    == rest,
                (Err((k, st2)), rest) => r matches Err(e) && e.kind == k && final(self).st() == st2
                    && final(self).toks() == rest,
            },
            final(self).wf(),
            final(self).console_on() == old(self).console_on(),
    {
        match self.parse_token_clear(line) {
            Ok(_) => {},
            Err(e) => {
                return Err(e);
            },
        }
        self.exec_stmt_all_available()
    }

    /// As `exec_line`, with the error discarded.
    pub fn exec_code(&mut self, code: &String)
        requires
            old(self).wf(),
        ensures
            final(self).st() == (match exec_line_spec(old(self).st(), code@).0 {
                Ok(st2) => st2,
                Err((_, st2)) => st2,
            }),
            final(self).wf(),
            final(self).console_on() == old(self).console_on(),
    {
        let _ = self.exec_line(code);
    }

    /// The line that ends an interactive session: `.q` alone, up to
    /// surrounding whitespace.
    pub fn is_break_cmd(cmd: &String) -> (r: bool)
        ensures
            r == (trimmed(cmd@) == ".q"@),
    {
        let s = cmd.as_str();
        let n = s.unicode_len();
        let mut a: usize = 0;
        while a < n && is_ws_at(s, a)
            invariant
                a <= n,
                n == s@.len(),
                trim_start_idx(s@, 0) == trim_start_idx(s@, a as int),
            decreases n - a,
        {
            a = a + 1;
        }
        assert(a == trim_start_idx(s@, 0));
        if a >= n {
            proof {
                reveal_strlit(".q");
                lemma_trim_end_ge(s@, n as int);
                assert(trimmed(s@).len() == 0);
            }
            return false;
        }
        let mut b: usize = n;
        while b > 0 && is_ws_at(s, b - 1)
            invariant
                b <= n,
                n == s@.len(),
                trim_end_idx(s@, n as int) == trim_end_idx(s@, b as int),
            decreases b,
        {
            b = b - 1;
        }
        assert(b == trim_end_idx(s@, n as int));
        if b <= a {
            proof {
                reveal_strlit(".q");
                lemma_trim_start_le(s@, 0);
                lemma_trim_end_ge(s@, n as int);
                assert(trimmed(s@).len() == 0);
            }
            return false;
        }
        proof {
            assert(trimmed(s@) == s@.subrange(a as int, b as int));
        }
        let body = s.substring_char(a, b).to_owned();
        body == String::from_str(".q")
    }

    pub fn prompt_set(&mut self, prompt: String)
        ensures
            final(self).prompt_view() == prompt@,
            final(self).st() == old(self).st(),
            final(self).toks() == old(self).toks(),
            final(self).wf() == old(self).wf(),
            final(self).console_on() == old(self).console_on(),
    {
        self.prompt = prompt;
    }

    pub fn prompt_get(&self) -> (r: &String)
        ensures
            r@ == self.prompt_view(),
    {
        &self.prompt
    }

    pub closed spec fn prompt_view(&self) -> Seq<char> {
        self.prompt@
    }

    /// Stops routing output to the console; it stays in the buffer.
    pub fn console_disable(&mut self)
        ensures
            !final(self).console_on(),
            final(self).st() == old(self).st(),
            final(self).toks() == old(self).toks(),
            final(self).wf() == old(self).wf(),
    {
        self.vm.set_console(false);
    }

    /// Routes output to the console again.
    pub fn console_enable(&mut self)
        ensures
            final(self).console_on(),
            final(self).st() == old(self).st(),
            final(self).toks() == old(self).toks(),
            final(self).wf() == old(self).wf(),
    {
        self.vm.set_console(true);
    }

    /// Hands over everything printed so far and empties the buffer.
    pub fn console_take(&mut self) -> (r: String)
        ensures
            r@ == old(self).st().out,
            final(self).st().out == Seq::<char>::empty(),
            final(self).st().env == old(self).st().env,
            final(self).toks() == old(self).toks(),
            final(self).wf() == old(self).wf(),
            final(self).console_on() == old(self).console_on(),
    {
        self.vm.printer_take()
    }

    /// Whether the embedding shell should drain the printer to its console.
    pub fn console_enabled(&self) -> (r: bool)
        ensures
            r == self.console_on(),
    {
        self.vm.console_enabled()
    }
}

/// First position at or after `i` whose character is not whitespace.
pub open spec fn trim_start_idx(s: Seq<char>, i: int) -> int
    decreases s.len() - i,
    when 0 <= i <= s.len()
{
    if i < s.len() && is_ws(s[i]) {
        trim_start_idx(s, i + 1)
    } else {
        i
    }
}

/// Last position at or before `j` below which no trailing whitespace is left.
pub open spec fn trim_end_idx(s: Seq<char>, j: int) -> int
    decreases j,
    when 0 <= j <= s.len()
{
    if j > 0 && is_ws(s[j - 1]) {
        trim_end_idx(s, j - 1)
    } else {
        j
    }
}

/// The text with surrounding whitespace removed.
pub open spec fn trimmed(s: Seq<char>) -> Seq<char> {
    let a = trim_start_idx(s, 0);
    let b = trim_end_idx(s, s.len() as int);
    if a < b {
        s.subrange(a, b)
    } else {
        Seq::empty()
    }
}

/// The start of the trimmed text lies between `i` and the end.
proof fn lemma_trim_start_le(s: Seq<char>, i: int)
    requires
        0 <= i <= s.len(),
    ensures
        i <= trim_start_idx(s, i) <= s.len(),
    decreases s.len() - i,
{
    if i < s.len() && is_ws(s[i]) {
        lemma_trim_start_le(s, i + 1);
    }
}

/// The end of the trimmed text lies between the start and `j`.
proof fn lemma_trim_end_ge(s: Seq<char>, j: int)
    requires
        0 <= j <= s.len(),
    ensures
        0 <= trim_end_idx(s, j) <= j,
    decreases j,
{
    if j > 0 && is_ws(s[j - 1]) {
        lemma_trim_end_ge(s, j - 1);
    }
}

fn is_ws_at(s: &str, i: usize) -> (r: bool)
    requires
        i < s@.len(),
    ensures
        r == is_ws(s@[i as int]),
{
    is_ws_char(s.get_char(i))
}

/// Removes the first `n` tokens from the buffer.
fn drain_front(v: &mut Vec<Token>, n: usize)
    requires
        n <= old(v)@.len(),
    ensures
        toks_view(final(v)@) == toks_view(old(v)@).skip(n as int),
{
    let mut rest: Vec<Token> = Vec::new();
    let mut i = n;
    while i < v.len()
        invariant
            n <= i <= v@.len(),
            v@ == old(v)@,
            rest@.len() == i - n,
            forall|k: int| 0 <= k < rest@.len() ==> rest@[k]@ == v@[n + k]@,
        decreases v@.len() - i,
    {
        let t = v[i].clone();
        rest.push(t);
        i = i + 1;
    }
    proof {
        assert(toks_view(rest@) =~= toks_view(v@).skip(n as int));
    }
    *v = rest;
}

} // verus!
