use vstd::prelude::*;

verus! {

/// A value built from the user's answers.
///
/// Numbers that are not integers are kept as the decimal text that was
/// entered, so that no floating-point arithmetic takes place here.
#[derive(Debug, PartialEq)]
pub enum Value {
    Null,
    Bool(bool),
    Integer(i64),
    Number(String),
    String(String),
    Array(Vec<Value>),
    Object(Vec<(String, Value)>),
}

} // verus!
