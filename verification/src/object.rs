//! Runtime values and the operators over them.

use vstd::prelude::*;

use crate::error::{ErrKind, LoxError};
use crate::number::Number;
use crate::semantics::{
    dec_int, fmt_value, spec_add, spec_div, spec_eq_vals, spec_ge, spec_gt, spec_le,
    spec_logic_and, spec_logic_or, spec_lt, spec_mul, spec_neg, spec_not, spec_sub, truthiness,
    SpecValue,
};
use crate::statement::{clone_strings, strs_view, Stmt};

verus! {

/// A runtime value: the result of evaluating an expression, and what the
/// environment stores under a variable name.
pub enum Object {
    Nil,
    Boolean(bool),
    Number(Number),
    Str(String),
    /// A function value: its parameter names and its body, a block.
    Function(Vec<String>, Stmt),
}

impl View for Object {
    type V = SpecValue;

    open spec fn view(&self) -> SpecValue {
        match self {
            Object::Nil => SpecValue::Nil,
            Object::Boolean(b) => SpecValue::Bool(*b),
            Object::Number(n) => SpecValue::Num(n@),
            Object::Str(s) => SpecValue::Str(s@),
            Object::Function(params, body) => SpecValue::Fun(
                strs_view(params@),
                Box::new(body@),
            ),
        }
    }
}

impl Clone for Object {
    fn clone(&self) -> (res: Self)
        ensures
            res@ == self@,
    {
        match self {
            Object::Nil => Object::Nil,
            Object::Boolean(b) => Object::Boolean(*b),
            Object::Number(n) => Object::Number(n.clone()),
            Object::Str(s) => Object::Str(s.clone()),
            Object::Function(params, body) => Object::Function(clone_strings(params), body.clone()),
        }
    }
}

/// Relies on std's `Display` for `i64`: `to_string` yields the value in
/// decimal digits without leading zeroes, preceded by `-` when negative.
#[verifier::external_body]
fn i64_to_string(n: i64) -> (r: String)
    ensures
        r@ == dec_int(n as int),
{
    n.to_string()
}

fn type_error() -> (r: LoxError)
    ensures
        r.kind == ErrKind::Type,
{
    LoxError::new(ErrKind::Type, "operand of an unsupported type")
}

fn arith_error() -> (r: LoxError)
    ensures
        r.kind == ErrKind::Arithmetic,
{
    LoxError::new(ErrKind::Arithmetic, "division by zero or a result out of range")
}

impl Object {
    pub fn new_string(s: String) -> (r: Object)
        ensures
            r@ == SpecValue::Str(s@),
    {
        Object::Str(s)
    }

    /// The text a `print` statement emits for this value.
    pub fn to_text(&self) -> (r: String)
        ensures
            r@ == fmt_value(self@),
    {
        match self {
            Object::Nil => "(Nil)".to_owned(),
            Object::Boolean(b) => if *b {
                "true".to_owned()
            } else {
                "false".to_owned()
            },
            Object::Number(n) => match n {
                Number::Integer(i) => i64_to_string(*i),
            },
            Object::Str(s) => s.clone(),
            Object::Function(_, _) => "(Fun)".to_owned(),
        }
    }

    /// The truthiness of the value: an error unless it is a boolean or nil.
    pub fn is_true(&self) -> (r: Result<bool, LoxError>)
        ensures
            match truthiness(self@) {
                Some(b) => r matches Ok(rb) && rb == b,
                None => r matches Err(e) && e.kind == ErrKind::Type,
            },
    {
        match self {
            Object::Boolean(b) => Ok(*b),
            Object::Nil => Ok(false),
            _ => Err(LoxError::new(ErrKind::Type, "not a boolean value")),
        }
    }

    pub fn not(&self) -> (r: Result<Object, LoxError>)
        ensures
            res_matches(r, spec_not(self@)),
    {
        match self {
            Object::Boolean(b) => Ok(Object::Boolean(!*b)),
            Object::Nil => Ok(Object::Boolean(false)),
            _ => Err(type_error()),
        }
    }

    pub fn neg(&self) -> (r: Result<Object, LoxError>)
        ensures
            res_matches(r, spec_neg(self@)),
    {
        match self {
            Object::Number(n) => match n.neg_ref() {
                Some(m) => Ok(Object::Number(m)),
                None => Err(arith_error()),
            },
            _ => Err(type_error()),
        }
    }

    pub fn add(&self, rhs: &Object) -> (r: Result<Object, LoxError>)
        ensures
            res_matches(r, spec_add(self@, rhs@)),
    {
        match (self, rhs) {
            (Object::Number(a), Object::Number(b)) => match a.add_ref(b) {
                Some(m) => Ok(Object::Number(m)),
                None => Err(arith_error()),
            },
            (Object::Str(s), Object::Str(t)) => Ok(Object::Str(s.clone().concat(t.as_str()))),
            (Object::Number(a), Object::Str(t)) => {
                let text = match a {
                    Number::Integer(i) => i64_to_string(*i),
                };
                Ok(Object::Str(text.concat(t.as_str())))
            },
            (Object::Str(s), Object::Number(b)) => {
                let text = match b {
                    Number::Integer(i) => i64_to_string(*i),
                };
                Ok(Object::Str(s.clone().concat(text.as_str())))
            },
            _ => Err(type_error()),
        }
    }

    pub fn sub(&self, rhs: &Object) -> (r: Result<Object, LoxError>)
        ensures
            res_matches(r, spec_sub(self@, rhs@)),
    {
        match (self, rhs) {
            (Object::Number(a), Object::Number(b)) => match a.sub_ref(b) {
                Some(m) => Ok(Object::Number(m)),
                None => Err(arith_error()),
            },
            _ => Err(type_error()),
        }
    }

    pub fn mul(&self, rhs: &Object) -> (r: Result<Object, LoxError>)
        ensures
            res_matches(r, spec_mul(self@, rhs@)),
    {
        match (self, rhs) {
            (Object::Number(a), Object::Number(b)) => match a.mul_ref(b) {
                Some(m) => Ok(Object::Number(m)),
                None => Err(arith_error()),
            },
            _ => Err(type_error()),
        }
    }

    pub fn div(&self, rhs: &Object) -> (r: Result<Object, LoxError>)
        ensures
            res_matches(r, spec_div(self@, rhs@)),
    {
        match (self, rhs) {
            (Object::Number(a), Object::Number(b)) => match a.div_ref(b) {
                Some(m) => Ok(Object::Number(m)),
                None => Err(arith_error()),
            },
            _ => Err(type_error()),
        }
    }

    /// Structural equality across any two values; mismatched shapes and
    /// functions compare unequal.
    pub fn eq(&self, rhs: &Object) -> (r: Result<Object, LoxError>)
        ensures
            r matches Ok(v) && v@ == SpecValue::Bool(spec_eq_vals(self@, rhs@)),
    {
        match (self, rhs) {
            (Object::Nil, Object::Nil) => Ok(Object::Boolean(true)),
            (Object::Boolean(a), Object::Boolean(b)) => Ok(Object::Boolean(*a == *b)),
            (Object::Number(a), Object::Number(b)) => {
                let same = match (a, b) {
                    (Number::Integer(x), Number::Integer(y)) => *x == *y,
                };
                Ok(Object::Boolean(same))
            },
            (Object::Str(s), Object::Str(t)) => Ok(Object::Boolean(*s == *t)),
            _ => Ok(Object::Boolean(false)),
        }
    }

    pub fn ne(&self, rhs: &Object) -> (r: Result<Object, LoxError>)
        ensures
            r matches Ok(v) && v@ == SpecValue::Bool(!spec_eq_vals(self@, rhs@)),
    {
        match self.eq(rhs) {
            Ok(v) => match v {
                Object::Boolean(b) => Ok(Object::Boolean(!b)),
                _ => Err(LoxError::new(ErrKind::Internal, "equality must yield a boolean")),
            },
            Err(e) => Err(e),
        }
    }

    pub fn lt(&self, rhs: &Object) -> (r: Result<Object, LoxError>)
        ensures
            res_matches(r, spec_lt(self@, rhs@)),
    {
        match (self, rhs) {
            (Object::Number(a), Object::Number(b)) => {
                let lt = match (a, b) {
                    (Number::Integer(x), Number::Integer(y)) => *x < *y,
                };
                Ok(Object::Boolean(lt))
            },
            _ => Err(type_error()),
        }
    }

    pub fn le(&self, rhs: &Object) -> (r: Result<Object, LoxError>)
        ensures
            res_matches(r, spec_le(self@, rhs@)),
    {
        match (self, rhs) {
            (Object::Number(a), Object::Number(b)) => {
                let le = match (a, b) {
                    (Number::Integer(x), Number::Integer(y)) => *x <= *y,
                };
                Ok(Object::Boolean(le))
            },
            _ => Err(type_error()),
        }
    }

    pub fn gt(&self, rhs: &Object) -> (r: Result<Object, LoxError>)
        ensures
            res_matches(r, spec_gt(self@, rhs@)),
    {
        match (self, rhs) {
            (Object::Number(a), Object::Number(b)) => {
                let gt = match (a, b) {
                    (Number::Integer(x), Number::Integer(y)) => *x > *y,
                };
                Ok(Object::Boolean(gt))
            },
            _ => Err(type_error()),
        }
    }

    pub fn ge(&self, rhs: &Object) -> (r: Result<Object, LoxError>)
        ensures
            res_matches(r, spec_ge(self@, rhs@)),
    {
        match (self, rhs) {
            (Object::Number(a), Object::Number(b)) => {
                let ge = match (a, b) {
                    (Number::Integer(x), Number::Integer(y)) => *x >= *y,
                };
                Ok(Object::Boolean(ge))
            },
            _ => Err(type_error()),
        }
    }

    pub fn logic_and(&self, rhs: &Object) -> (r: Result<Object, LoxError>)
        ensures
            res_matches(r, spec_logic_and(self@, rhs@)),
    {
        let a = match self.is_true() {
            Ok(b) => b,
            Err(e) => {
                return Err(e);
            },
        };
        let b = match rhs.is_true() {
            Ok(b) => b,
            Err(e) => {
                return Err(e);
            },
        };
        Ok(Object::Boolean(a && b))
    }

    pub fn logic_or(&self, rhs: &Object) -> (r: Result<Object, LoxError>)
        ensures
            res_matches(r, spec_logic_or(self@, rhs@)),
    {
        let a = match self.is_true() {
            Ok(b) => b,
            Err(e) => {
                return Err(e);
            },
        };
        let b = match rhs.is_true() {
            Ok(b) => b,
            Err(e) => {
                return Err(e);
            },
        };
        Ok(Object::Boolean(a || b))
    }
}

/// The views of a sequence of values.
pub open spec fn objs_view(s: Seq<Object>) -> Seq<SpecValue> {
    s.map_values(|o: Object| o@)
}

/// The executable result agrees with the mathematical one: same value view
/// on success, same error kind on failure.
pub open spec fn res_matches(r: Result<Object, LoxError>, s: Result<SpecValue, ErrKind>) -> bool {
    match (r, s) {
        (Ok(o), Ok(v)) => o@ == v,
        (Err(e), Err(k)) => e.kind == k,
        _ => false,
    }
}

} // verus!
