//! One scope: a mapping from names to values.

use vstd::prelude::*;

use crate::error::{ErrKind, LoxError};
use crate::object::Object;
use crate::semantics::{SpecScope, SpecValue};

verus! {

/// One scope: the variables of one block (or of one frame's base), as a
/// mapping from names to values. Stored as the history of bindings; the
/// latest binding of a name is the one in force.
pub struct VmVarPool {
    pool: Vec<(String, Object)>,
}

/// The mapping that a binding history denotes: later entries win.
pub open spec fn pool_as_map(s: Seq<(String, Object)>) -> SpecScope
    decreases s.len(),
{
    if s.len() == 0 {
        Map::empty()
    } else {
        pool_as_map(s.drop_last()).insert(s.last().0@, s.last().1@)
    }
}

impl View for VmVarPool {
    type V = SpecScope;

    closed spec fn view(&self) -> SpecScope {
        pool_as_map(self.pool@)
    }
}

/// A name is in the mapping exactly when some entry binds it.
proof fn lemma_pool_contains(s: Seq<(String, Object)>, n: Seq<char>)
    ensures
        pool_as_map(s).contains_key(n) <==> exists|i: int| 0 <= i < s.len() && s[i].0@ == n,
    decreases s.len(),
{
    if s.len() > 0 {
        lemma_pool_contains(s.drop_last(), n);
        if pool_as_map(s).contains_key(n) {
            if s.last().0@ == n {
                assert(s[s.len() - 1].0@ == n);
            } else {
                let i = choose|i: int| 0 <= i < s.drop_last().len() && s.drop_last()[i].0@ == n;
                assert(s[i].0@ == n);
            }
        }
        if exists|i: int| 0 <= i < s.len() && s[i].0@ == n {
            let i = choose|i: int| 0 <= i < s.len() && s[i].0@ == n;
            if i < s.len() - 1 {
                assert(s.drop_last()[i].0@ == n);
            }
        }
    }
}

/// When no entry at or after `i` binds the name, the prefix decides both
/// membership and value.
proof fn lemma_pool_suffix(s: Seq<(String, Object)>, i: int, n: Seq<char>)
    requires
        0 <= i <= s.len(),
        forall|k: int| i <= k < s.len() ==> s[k].0@ != n,
    ensures
        pool_as_map(s).contains_key(n) == pool_as_map(s.take(i)).contains_key(n),
        pool_as_map(s).contains_key(n) ==> pool_as_map(s)[n] == pool_as_map(s.take(i))[n],
    decreases s.len() - i,
{
    if i < s.len() {
        assert(s.take(s.len() as int - 1) =~= s.drop_last());
        lemma_pool_suffix(s.drop_last(), i, n);
        assert(s.drop_last().take(i) =~= s.take(i));
    } else {
        assert(s.take(i) =~= s);
    }
}

impl VmVarPool {
    pub fn new() -> (r: VmVarPool)
        ensures
            r@ == Map::<Seq<char>, SpecValue>::empty(),
    {
        VmVarPool { pool: Vec::new() }
    }

    pub fn clear(&mut self)
        ensures
            final(self)@ == Map::<Seq<char>, SpecValue>::empty(),
    {
        self.pool.clear();
    }

    /// Binds the name to the value, overwriting a previous binding in this
    /// scope.
    pub fn var_add(&mut self, name: String, obj: Object)
        ensures
            final(self)@ == old(self)@.insert(name@, obj@),
    {
        let ghost before = self.pool@;
        let ghost nv = name@;
        let ghost ov = obj@;
        self.pool.push((name, obj));
        proof {
            assert(self.pool@.drop_last() =~= before);
            assert(self.pool@.last().0@ == nv);
            assert(self.pool@.last().1@ == ov);
        }
    }

    /// Rebinds an existing name; a name never bound in this scope is a name
    /// error and leaves the scope unchanged.
    pub fn var_set(&mut self, name: String, obj: Object) -> (r: Result<Object, LoxError>)
        ensures
            old(self)@.contains_key(name@) ==> (r matches Ok(o) && o@ == obj@ && final(self)@
                == old(self)@.insert(name@, obj@)),
            !old(self)@.contains_key(name@) ==> (r matches Err(e) && e.kind == ErrKind::Name
                && final(self)@ == old(self)@),
    {
        if self.var_exist(&name) {
            let copy = obj.clone();
            self.var_add(name, obj);
            Ok(copy)
        } else {
            Err(LoxError::new(ErrKind::Name, "cannot find a variable of that name"))
        }
    }

    /// The value bound to the name, or a name error.
    pub fn var_get(&self, name: &String) -> (r: Result<Object, LoxError>)
        ensures
            self@.contains_key(name@) ==> (r matches Ok(o) && o@ == self@[name@]),
            !self@.contains_key(name@) ==> (r matches Err(e) && e.kind == ErrKind::Name),
    {
        let n = self.pool.len();
        let mut i = n;
        while i > 0
            invariant
                i <= n,
                n == self.pool@.len(),
                forall|k: int| i <= k < n ==> self.pool@[k].0@ != name@,
            decreases i,
        {
            if self.pool[i - 1].0 == *name {
                proof {
                    lemma_pool_suffix(self.pool@, i as int, name@);
                    assert(self.pool@.take(i as int).last() == self.pool@[i - 1]);
                    assert(self.pool@.take(i as int).drop_last() =~= self.pool@.take(i as int - 1));
                }
                return Ok(self.pool[i - 1].1.clone());
            }
            i = i - 1;
        }
        proof {
            lemma_pool_suffix(self.pool@, 0, name@);
            assert(self.pool@.take(0) =~= Seq::<(String, Object)>::empty());
        }
        Err(LoxError::new(ErrKind::Name, "cannot find a variable of that name"))
    }

    /// Whether the name is bound in this scope.
    pub fn var_exist(&self, name: &String) -> (r: bool)
        ensures
            r == self@.contains_key(name@),
    {
        let n = self.pool.len();
        let mut i: usize = 0;
        while i < n
            invariant
                i <= n,
                n == self.pool@.len(),
                forall|k: int| 0 <= k < i ==> self.pool@[k].0@ != name@,
            decreases n - i,
        {
            if self.pool[i].0 == *name {
                proof {
                    lemma_pool_contains(self.pool@, name@);
                }
                return true;
            }
            i = i + 1;
        }
        proof {
            lemma_pool_contains(self.pool@, name@);
        }
        false
    }
}

} // verus!
