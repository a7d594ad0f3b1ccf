//! Numbers and their checked arithmetic.

use vstd::prelude::*;

verus! {

/// A numeric value of the language. Only integers are supported: the
/// arithmetic of the interpreter is exact, checked 64-bit arithmetic.
#[derive(Debug)]
pub enum Number {
    Integer(i64),
}

impl View for Number {
    type V = int;

    open spec fn view(&self) -> int {
        match self {
            Number::Integer(i) => *i as int,
        }
    }
}

impl Clone for Number {
    fn clone(&self) -> (res: Self)
        ensures
            res == *self,
    {
        match self {
            Number::Integer(i) => Number::Integer(*i),
        }
    }
}

/// True when a mathematical integer fits in the numeric type of the language.
pub open spec fn num_in_range(n: int) -> bool {
    i64::MIN <= n <= i64::MAX
}

impl Number {
    pub fn is_zero(&self) -> (r: bool)
        ensures
            r <==> self@ == 0,
    {
        match self {
            Number::Integer(i) => *i == 0i64,
        }
    }

    /// Sum of two numbers; `None` when the exact result does not fit.
    pub fn add_ref(&self, rhs: &Self) -> (r: Option<Number>)
        ensures
            num_in_range(self@ + rhs@) ==> (r matches Some(n) && n@ == self@ + rhs@),
            !num_in_range(self@ + rhs@) ==> r is None,
    {
        match (self, rhs) {
            (Number::Integer(a), Number::Integer(b)) => match a.checked_add(*b) {
                Some(s) => Some(Number::Integer(s)),
                None => None,
            },
        }
    }

    /// Difference of two numbers; `None` when the exact result does not fit.
    pub fn sub_ref(&self, rhs: &Self) -> (r: Option<Number>)
        ensures
            num_in_range(self@ - rhs@) ==> (r matches Some(n) && n@ == self@ - rhs@),
            !num_in_range(self@ - rhs@) ==> r is None,
    {
        match (self, rhs) {
            (Number::Integer(a), Number::Integer(b)) => match a.checked_sub(*b) {
                Some(s) => Some(Number::Integer(s)),
                None => None,
            },
        }
    }

    /// Product of two numbers; `None` when the exact result does not fit.
    pub fn mul_ref(&self, rhs: &Self) -> (r: Option<Number>)
        ensures
            num_in_range(self@ * rhs@) ==> (r matches Some(n) && n@ == self@ * rhs@),
            !num_in_range(self@ * rhs@) ==> r is None,
    {
        match (self, rhs) {
            (Number::Integer(a), Number::Integer(b)) => match a.checked_mul(*b) {
                Some(s) => Some(Number::Integer(s)),
                None => None,
            },
        }
    }

    /// Quotient, truncated toward zero as 64-bit machine division does;
    /// `None` on division by zero or when the result does not fit.
    pub fn div_ref(&self, rhs: &Self) -> (r: Option<Number>)
        ensures
            rhs@ != 0 && num_in_range(trunc_div(self@, rhs@)) ==> (r matches Some(n) && n@
                == trunc_div(self@, rhs@)),
            rhs@ == 0 || !num_in_range(trunc_div(self@, rhs@)) ==> r is None,
    {
        match (self, rhs) {
            (Number::Integer(a), Number::Integer(b)) => match a.checked_div(*b) {
                Some(s) => Some(Number::Integer(s)),
                None => None,
            },
        }
    }

    /// Negation; `None` when the exact result does not fit.
    pub fn neg_ref(&self) -> (r: Option<Number>)
        ensures
            num_in_range(-self@) ==> (r matches Some(n) && n@ == -self@),
            !num_in_range(-self@) ==> r is None,
    {
        match self {
            Number::Integer(a) => match 0i64.checked_sub(*a) {
                Some(s) => Some(Number::Integer(s)),
                None => None,
            },
        }
    }
}

/// Integer division truncated toward zero, the rule of the `/` operator
/// on the machine integers the interpreter computes with.
pub open spec fn trunc_div(a: int, b: int) -> int {
    if (a < 0) == (b < 0) {
        abs_int(a) / abs_int(b)
    } else {
        -(abs_int(a) / abs_int(b))
    }
}

pub open spec fn abs_int(a: int) -> int {
    if a < 0 {
        -a
    } else {
        a
    }
}

} // verus!
