//! SQL statements and the values that are bound to their parameters.
use vstd::prelude::*;

verus! {

/// A value bound to a parameter, or read from a column.
pub enum Value {
    Null,
    Integer(i64),
    Text(String),
}

/// What a `Value` stands for.
pub enum ValueModel {
    Null,
    Integer(i64),
    Text(Seq<char>),
}

impl View for Value {
    type V = ValueModel;

    open spec fn view(&self) -> ValueModel {
        match self {
            Value::Null => ValueModel::Null,
            Value::Integer(n) => ValueModel::Integer(*n),
            Value::Text(text) => ValueModel::Text(text@),
        }
    }
}

/// What a list of values stands for.
pub open spec fn values(list: Seq<Value>) -> Seq<ValueModel> {
    list.map_values(|v: Value| v@)
}

/// A statement with the values of its parameters.
pub struct Statement {
    pub sql: &'static str,
    pub params: Vec<Value>,
}

/// What a `Statement` stands for.
pub struct StatementModel {
    pub sql: Seq<char>,
    pub params: Seq<ValueModel>,
}

impl View for Statement {
    type V = StatementModel;

    open spec fn view(&self) -> StatementModel {
        StatementModel { sql: self.sql@, params: values(self.params@) }
    }
}

/// A value that may be missing.
pub open spec fn optional_integer(n: Option<i64>) -> ValueModel {
    match n {
        Some(n) => ValueModel::Integer(n),
        None => ValueModel::Null,
    }
}

/// A number, or `Null` where there is none.
pub fn integer_or_null(n: Option<i64>) -> (r: Value)
    ensures
        r@ == optional_integer(n),
{
    match n {
        Some(n) => Value::Integer(n),
        None => Value::Null,
    }
}

/// The number that stands for a truth value.
pub fn flag(set: bool) -> (r: i64)
    ensures
        r == if set {
            1i64
        } else {
            0i64
        },
{
    if set {
        1
    } else {
        0
    }
}

/// A text as a value.
pub fn text_value(text: &str) -> (r: Value)
    ensures
        r@ == ValueModel::Text(text@),
{
    Value::Text(text.to_owned())
}

/// A statement without parameters.
pub fn plain(sql: &'static str) -> (r: Statement)
    ensures
        r@ == (StatementModel { sql: sql@, params: Seq::empty() }),
{
    let r = Statement { sql, params: Vec::new() };
    assert(r@.params =~= Seq::empty());
    r
}

/// A statement with one parameter.
pub fn with_one(sql: &'static str, a: Value) -> (r: Statement)
    ensures
        r@ == (StatementModel { sql: sql@, params: seq![a@] }),
{
    let mut params: Vec<Value> = Vec::new();
    params.push(a);
    let r = Statement { sql, params };
    assert(r@.params =~= seq![a@]);
    r
}

/// A statement with two parameters.
pub fn with_two(sql: &'static str, a: Value, b: Value) -> (r: Statement)
    ensures
        r@ == (StatementModel { sql: sql@, params: seq![a@, b@] }),
{
    let mut params: Vec<Value> = Vec::new();
    params.push(a);
    params.push(b);
    let r = Statement { sql, params };
    assert(r@.params =~= seq![a@, b@]);
    r
}

/// A statement with three parameters.
pub fn with_three(sql: &'static str, a: Value, b: Value, c: Value) -> (r: Statement)
    ensures
        r@ == (StatementModel { sql: sql@, params: seq![a@, b@, c@] }),
{
    let mut params: Vec<Value> = Vec::new();
    params.push(a);
    params.push(b);
    params.push(c);
    let r = Statement { sql, params };
    assert(r@.params =~= seq![a@, b@, c@]);
    r
}

/// The text in a value, where it is one.
pub open spec fn text_in(value: ValueModel) -> Seq<char> {
    match value {
        ValueModel::Text(text) => text,
        _ => Seq::empty(),
    }
}

/// The number in a value, where it is one.
pub open spec fn integer_in(value: ValueModel) -> Option<i64> {
    match value {
        ValueModel::Integer(n) => Some(n),
        _ => None,
    }
}

/// A statement stands for its own text and for the values of its parameters, in order.
pub proof fn law_statement_stands_for_its_fields(
    statement: Statement,
    i: int,
    n: i64,
    text: String,
)
    requires
        0 <= i < statement.params@.len(),
    ensures
        statement@.sql == statement.sql@,
        statement@.params.len() == statement.params@.len(),
        statement@.params[i] == statement.params@[i]@,
        Value::Null@ == ValueModel::Null,
        Value::Integer(n)@ == ValueModel::Integer(n),
        Value::Text(text)@ == ValueModel::Text(text@),
{
}

} // verus!
