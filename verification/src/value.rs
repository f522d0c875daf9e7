use vstd::prelude::*;
use crate::text::{int_text, int_to_string};

verus! {

/// A runtime value.
#[derive(Debug, PartialEq, PartialOrd)]
pub enum Value {
    Int(i32),
    String(String),
    Bool(bool),
    Unit,
}

/// The mathematical model of a [`Value`].
pub enum ValueView {
    Int(i32),
    String(Seq<char>),
    Bool(bool),
    Unit,
}

impl View for Value {
    type V = ValueView;

    open spec fn view(&self) -> ValueView {
        match self {
            Value::Int(i) => ValueView::Int(*i),
            Value::String(s) => ValueView::String(s@),
            Value::Bool(b) => ValueView::Bool(*b),
            Value::Unit => ValueView::Unit,
        }
    }
}

/// The models of a sequence of values, in order.
pub open spec fn values_view(values: Seq<Value>) -> Seq<ValueView> {
    Seq::new(values.len(), |i: int| values[i]@)
}

impl ValueView {
    /// Truthiness: a non-zero integer, any text and `true` count as true;
    /// zero, `false` and the unit value count as false.
    pub open spec fn truthy(self) -> bool {
        match self {
            ValueView::Int(i) => i != 0,
            ValueView::String(_) => true,
            ValueView::Bool(b) => b,
            ValueView::Unit => false,
        }
    }

    /// The text that a value is written as: an integer in decimal, text as it
    /// is, a boolean as `true` or `false`, the unit value as nothing.
    pub open spec fn text(self) -> Seq<char> {
        match self {
            ValueView::Int(i) => int_text(i as int),
            ValueView::String(s) => s,
            ValueView::Bool(b) => if b {
                seq!['t', 'r', 'u', 'e']
            } else {
                seq!['f', 'a', 'l', 's', 'e']
            },
            ValueView::Unit => Seq::empty(),
        }
    }
}

/// Conversion of a value to a branch decision.
pub trait AsBool {
    /// The decision that `as_bool` computes.
    spec fn truth(&self) -> bool;

    fn as_bool(&self) -> (b: bool)
        ensures
            b == self.truth(),
    ;
}

impl AsBool for Value {
    open spec fn truth(&self) -> bool {
        self@.truthy()
    }

    fn as_bool(&self) -> (b: bool) {
        match self {
            Value::Int(i) => *i != 0,
            Value::String(_s) => true,
            Value::Bool(b) => *b,
            Value::Unit => false,
        }
    }
}

impl Value {
    /// Writes the value as text.
    pub fn to_string(&self) -> (s: String)
        ensures
            s@ == self@.text(),
    {
        match self {
            Value::Int(i) => int_to_string(*i),
            Value::String(s) => s.clone(),
            Value::Bool(b) => {
                if *b {
                    proof {
                        reveal_strlit("true");
                    }
                    let t = "true".to_string();
                    assert(t@ =~= seq!['t', 'r', 'u', 'e']);
                    t
                } else {
                    proof {
                        reveal_strlit("false");
                    }
                    let f = "false".to_string();
                    assert(f@ =~= seq!['f', 'a', 'l', 's', 'e']);
                    f
                }
            },
            Value::Unit => String::new(),
        }
    }
}

impl Clone for Value {
    fn clone(&self) -> (r: Self)
        ensures
            r@ == self@,
    {
        match self {
            Value::Int(i) => Value::Int(*i),
            Value::String(s) => Value::String(s.clone()),
            Value::Bool(b) => Value::Bool(*b),
            Value::Unit => Value::Unit,
        }
    }
}

} // verus!
