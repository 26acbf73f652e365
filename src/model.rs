//! Values, filter arguments, the operator that combines them, and the
//! placeholder dialect of the backend.
use vstd::prelude::*;
use vstd::string::*;
use crate::text::{decimal, decimal_of};

verus! {

/// A scalar value that an argument carries. A real number is held as its
/// decimal text; the backend parses it when it binds it.
#[derive(Clone, Debug, PartialEq, Eq)]
pub enum Value {
    Integer(i32),
    Real(String),
    Text(String),
    Bool(bool),
}

/// The value as it is bound: a boolean becomes the integer 1 or 0, every
/// other value stays as it is.
pub open spec fn normalized(v: Value) -> Value {
    match v {
        Value::Bool(b) => Value::Integer(if b { 1i32 } else { 0i32 }),
        _ => v,
    }
}

/// The name of the type of a value, which decides how it is bound.
pub open spec fn type_name_of(v: Value) -> Seq<char> {
    match v {
        Value::Integer(_) => "i32"@,
        Value::Real(_) => "f64"@,
        Value::Text(_) => "String"@,
        Value::Bool(_) => "bool"@,
    }
}

/// Normalizes a value for binding: `true` becomes 1, `false` becomes 0.
pub fn to_value(value: Value) -> (r: Value)
    ensures
        r == normalized(value),
{
    match value {
        Value::Bool(b) => Value::Integer(if b { 1 } else { 0 }),
        other => other,
    }
}

/// The name of the type of a value: `i32`, `f64`, `String` or `bool`.
pub fn get_type_name(value: &Value) -> (r: &'static str)
    ensures
        r@ == type_name_of(*value),
{
    proof {
        reveal_strlit("i32");
        reveal_strlit("f64");
        reveal_strlit("String");
        reveal_strlit("bool");
    }
    match value {
        Value::Integer(_) => "i32",
        Value::Real(_) => "f64",
        Value::Text(_) => "String",
        Value::Bool(_) => "bool",
    }
}

/// How the predicates of one set of arguments combine.
#[derive(Clone, Copy, Debug, PartialEq, Eq, Structural)]
pub enum Operator {
    Or,
    And,
}

/// The text that stands between two predicates.
pub open spec fn connector(op: Operator) -> Seq<char> {
    match op {
        Operator::Or => " or "@,
        Operator::And => " and "@,
    }
}

impl Operator {
    /// The text that stands between two predicates: ` or ` or ` and `.
    pub fn get(&self) -> (r: &'static str)
        ensures
            r@ == connector(*self),
    {
        proof {
            reveal_strlit(" or ");
            reveal_strlit(" and ");
        }
        match self {
            Operator::Or => " or ",
            Operator::And => " and ",
        }
    }
}

/// One named criterion: a column name, or a join key
/// `local_field__other_table__other_field`, with its value.
#[derive(Debug)]
pub struct Arg {
    pub key: String,
    pub value: Value,
}

impl Arg {
    /// An argument whose value is normalized for binding.
    pub fn new(key: &str, value: Value) -> (r: Arg)
        ensures
            r.key@ == key@,
            r.value == normalized(value),
    {
        Arg { key: String::from_str(key), value: to_value(value) }
    }
}

/// An ordered list of arguments combined by one operator.
#[derive(Debug)]
pub struct Kwargs {
    pub operator: Operator,
    pub args: Vec<Arg>,
}

impl Kwargs {
    /// No arguments, combined by `And`.
    pub fn new() -> (r: Kwargs)
        ensures
            r.operator == Operator::And,
            r.args@.len() == 0,
    {
        Kwargs { operator: Operator::And, args: Vec::new() }
    }

    /// The same arguments followed by one more, whose value is normalized.
    pub fn arg(self, key: &str, value: Value) -> (r: Kwargs)
        ensures
            r.operator == self.operator,
            r.args@.len() == self.args@.len() + 1,
            r.args@.take(self.args@.len() as int) == self.args@,
            r.args@.last().key@ == key@,
            r.args@.last().value == normalized(value),
    {
        let Kwargs { operator, mut args } = self;
        args.push(Arg::new(key, value));
        proof {
            assert(args@.take(self.args@.len() as int) =~= self.args@);
        }
        Kwargs { operator, args }
    }

    /// The same arguments, combined by `Or`.
    pub fn or(self) -> (r: Kwargs)
        ensures
            r.operator == Operator::Or,
            r.args == self.args,
    {
        Kwargs { operator: Operator::Or, args: self.args }
    }
}

/// The placeholder convention of the backend.
#[derive(Clone, Copy, Debug, PartialEq, Eq, Structural)]
pub enum Dialect {
    /// `$1`, `$2`, ...
    Numbered,
    /// `?` for every parameter.
    Positional,
}

/// The placeholder of the parameter at 1-based position `index`.
pub open spec fn marker(d: Dialect, index: nat) -> Seq<char> {
    match d {
        Dialect::Numbered => "$"@ + decimal_of(index),
        Dialect::Positional => "?"@,
    }
}

impl Dialect {
    /// The placeholder of the parameter at 1-based position `index`.
    pub fn placeholder(&self, index: usize) -> (r: String)
        requires
            index >= 1,
        ensures
            r@ == marker(*self, index as nat),
    {
        proof {
            reveal_strlit("$");
            reveal_strlit("?");
        }
        match self {
            Dialect::Numbered => {
                let s = String::from_str("$");
                s.concat(decimal(index).as_str())
            },
            Dialect::Positional => String::from_str("?"),
        }
    }
}

} // verus!
