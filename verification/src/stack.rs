//! One call frame: a stack of scopes.

use vstd::prelude::*;

use crate::error::{ErrKind, LoxError};
use crate::object::Object;
use crate::semantics::{
    frame_assign, frame_contains, frame_declare, frame_find, SpecScope,
};
use crate::var_pool::VmVarPool;

verus! {

/// One call frame: a stack of scopes, innermost last. The name records which
/// call introduced the frame and plays no part in the semantics.
pub struct VmStack {
    name: String,
    scopes: Vec<VmVarPool>,
}

impl View for VmStack {
    type V = Seq<SpecScope>;

    closed spec fn view(&self) -> Seq<SpecScope> {
        self.scopes@.map_values(|p: VmVarPool| p@)
    }
}

impl VmStack {
    /// A fresh frame with one empty scope.
    pub fn new(name: String) -> (r: VmStack)
        ensures
            r@ =~= seq![Map::<Seq<char>, crate::semantics::SpecValue>::empty()],
    {
        let mut scopes: Vec<VmVarPool> = Vec::new();
        scopes.push(VmVarPool::new());
        VmStack { name, scopes }
    }

    /// Empties the frame back to a single empty scope.
    pub fn clear(&mut self)
        ensures
            final(self)@ =~= seq![Map::<Seq<char>, crate::semantics::SpecValue>::empty()],
    {
        self.scopes.clear();
        self.scopes.push(VmVarPool::new());
    }

    pub fn scope_enter(&mut self)
        ensures
            final(self)@ =~= old(self)@.push(Map::empty()),
    {
        self.scopes.push(VmVarPool::new());
    }

    pub fn scope_exit(&mut self)
        requires
            old(self)@.len() >= 1,
        ensures
            final(self)@ =~= old(self)@.drop_last(),
    {
        let _ = self.scopes.pop();
    }

    /// Declares the name in the innermost scope.
    pub fn var_add(&mut self, name: String, obj: Object)
        requires
            old(self)@.len() >= 1,
        ensures
            final(self)@ =~= frame_declare(old(self)@, name@, obj@),
    {
        let mut top = match self.scopes.pop() {
            Some(t) => t,
            None => {
                // unreachable: the frame always has a scope
                VmVarPool::new()
            },
        };
        top.var_add(name, obj);
        self.scopes.push(top);
    }

    /// Rebinds the name in the innermost scope that knows it; a name error
    /// when none does.
    pub fn var_set(&mut self, name: String, obj: Object) -> (r: Result<Object, LoxError>)
        ensures
            match frame_assign(old(self)@, name@, obj@) {
                Some(f2) => r matches Ok(o) && o@ == obj@ && final(self)@ =~= f2,
                None => r matches Err(e) && e.kind == ErrKind::Name && final(self)@ == old(self)@,
            },
    {
        let n = self.scopes.len();
        let mut i = n;
        while i > 0
            invariant
                i <= n,
                n == self.scopes@.len(),
                forall|k: int| i <= k < n ==> !self@[k].contains_key(name@),
                self@ == old(self)@,
                self.scopes@ == old(self).scopes@,
            decreases i,
        {
            if self.scopes[i - 1].var_exist(&name) {
                proof {
                    lemma_frame_assign_found(self@, i as int - 1, name@, obj@);
                }
                let mut sc = self.scopes.remove(i - 1);
                let r = sc.var_set(name, obj);
                self.scopes.insert(i - 1, sc);
                proof {
                    assert(self@ =~= old(self)@.update(i as int - 1, self@[i as int - 1]));
                }
                return r;
            }
            i = i - 1;
        }
        proof {
            lemma_frame_assign_none(self@, name@, obj@);
        }
        Err(LoxError::new(ErrKind::Name, "cannot find a variable of that name"))
    }

    /// The value of the name in the innermost scope that knows it.
    pub fn var_get(&self, name: &String) -> (r: Result<Object, LoxError>)
        ensures
            match frame_find(self@, name@) {
                Some(v) => r matches Ok(o) && o@ == v,
                None => r matches Err(e) && e.kind == ErrKind::Name,
            },
    {
        let n = self.scopes.len();
        let mut i = n;
        while i > 0
            invariant
                i <= n,
                n == self.scopes@.len(),
                forall|k: int| i <= k < n ==> !self@[k].contains_key(name@),
            decreases i,
        {
            if self.scopes[i - 1].var_exist(name) {
                proof {
                    lemma_frame_find_found(self@, i as int - 1, name@);
                }
                return self.scopes[i - 1].var_get(name);
            }
            i = i - 1;
        }
        proof {
            lemma_frame_find_none(self@, name@);
        }
        Err(LoxError::new(ErrKind::Name, "cannot find a variable of that name"))
    }

    /// Whether any scope of the frame knows the name.
    pub fn var_exist(&self, name: &String) -> (r: bool)
        ensures
            r == frame_contains(self@, name@),
    {
        let n = self.scopes.len();
        let mut i = n;
        while i > 0
            invariant
                i <= n,
                n == self.scopes@.len(),
                forall|k: int| i <= k < n ==> !self@[k].contains_key(name@),
            decreases i,
        {
            if self.scopes[i - 1].var_exist(name) {
                proof {
                    lemma_frame_find_found(self@, i as int - 1, name@);
                }
                return true;
            }
            i = i - 1;
        }
        proof {
            lemma_frame_find_none(self@, name@);
        }
        false
    }
}

/// When the topmost scope that binds the name is at index `i`, lookup finds
/// that scope's value.
proof fn lemma_frame_find_found(f: Seq<SpecScope>, i: int, n: Seq<char>)
    requires
        0 <= i < f.len(),
        f[i].contains_key(n),
        forall|k: int| i < k < f.len() ==> !f[k].contains_key(n),
    ensures
        frame_find(f, n) == Some(f[i][n]),
    decreases f.len(),
{
    if i == f.len() - 1 {
    } else {
        lemma_frame_find_found(f.drop_last(), i, n);
    }
}

proof fn lemma_frame_find_none(f: Seq<SpecScope>, n: Seq<char>)
    requires
        forall|k: int| 0 <= k < f.len() ==> !f[k].contains_key(n),
    ensures
        frame_find(f, n) is None,
    decreases f.len(),
{
    if f.len() > 0 {
        lemma_frame_find_none(f.drop_last(), n);
    }
}

/// When the topmost scope that binds the name is at index `i`, assignment
/// updates exactly that scope.
proof fn lemma_frame_assign_found(f: Seq<SpecScope>, i: int, n: Seq<char>, v: crate::semantics::SpecValue)
    requires
        0 <= i < f.len(),
        f[i].contains_key(n),
        forall|k: int| i < k < f.len() ==> !f[k].contains_key(n),
    ensures
        frame_assign(f, n, v) == Some(f.update(i, f[i].insert(n, v))),
    decreases f.len(),
{
    if i == f.len() - 1 {
    } else {
        lemma_frame_assign_found(f.drop_last(), i, n, v);
        assert(f.drop_last().update(i, f[i].insert(n, v)).push(f.last()) =~= f.update(
            i,
            f[i].insert(n, v),
        ));
    }
}

proof fn lemma_frame_assign_none(f: Seq<SpecScope>, n: Seq<char>, v: crate::semantics::SpecValue)
    requires
        forall|k: int| 0 <= k < f.len() ==> !f[k].contains_key(n),
    ensures
        frame_assign(f, n, v) is None,
    decreases f.len(),
{
    if f.len() > 0 {
        lemma_frame_assign_none(f.drop_last(), n, v);
    }
}

} // verus!
