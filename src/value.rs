//! The tree that the reader builds, its mathematical model and its accessors.
use vstd::prelude::*;

verus! {

/// The mathematical model of a `Value`: the same tree, with texts as
/// sequences of characters and numbers as naturals.
pub enum Datum {
    Pair(Box<Datum>, Box<Datum>),
    Symbol(Seq<char>),
    Number(nat),
    Bool(bool),
    Literal(Seq<char>),
    Null,
}

/// The shape an accessor asked for when it met another one.
#[derive(Debug, Clone, Copy, PartialEq, Eq, Structural)]
pub enum Shape {
    Pair,
    Symbol,
    Number,
    Literal,
}

/// Why reading an input or taking a value apart failed.
#[derive(Debug, Clone, Copy, PartialEq, Eq, Structural)]
pub enum Error {
    /// The input is not exactly one expression of the grammar, with optional
    /// whitespace around it.
    Syntax,
    /// The input is well formed, but a number in it does not fit in a `usize`.
    NumericOverflow,
    /// An accessor was called on a value of another shape than the one named.
    Type(Shape),
}

/// One node of the tree.
#[derive(Debug)]
pub enum Value {
    /// A non-empty list: its first element and the rest of it.
    List(Cons),
    /// An identifier, such as `if`, `set!` or `+`.
    Symbol(String),
    /// An unsigned integer.
    Number(usize),
    /// `#t` / `#T` or `#f` / `#F`.
    Bool(bool),
    /// The text that follows a quote, kept as it was written.
    Literal(String),
    /// The end of a list; also the empty list.
    Null,
}

/// A cons cell: the head of a list and the list that follows it.
#[derive(Debug)]
pub struct Cons {
    pub car: Box<Value>,
    pub cdr: Box<Value>,
}

/// The model of a value, node by node.
pub open spec fn datum_of(v: Value) -> Datum
    decreases v,
{
    match v {
        Value::List(c) => Datum::Pair(Box::new(datum_of(*c.car)), Box::new(datum_of(*c.cdr))),
        Value::Symbol(s) => Datum::Symbol(s@),
        Value::Number(n) => Datum::Number(n as nat),
        Value::Bool(b) => Datum::Bool(b),
        Value::Literal(l) => Datum::Literal(l@),
        Value::Null => Datum::Null,
    }
}

impl View for Value {
    type V = Datum;

    open spec fn view(&self) -> Datum {
        datum_of(*self)
    }
}

impl Value {
    /// The head of a list.
    pub fn car(self) -> (r: Result<Box<Value>, Error>)
        ensures
            self@ is Pair <==> r is Ok,
            r is Ok ==> r->Ok_0@ == *self@->Pair_0,
            !(self@ is Pair) ==> r == Err::<Box<Value>, Error>(Error::Type(Shape::Pair)),
    {
        match self {
            Value::List(c) => Ok(c.car),
            _ => Err(Error::Type(Shape::Pair)),
        }
    }

    /// The rest of a list, after its head.
    pub fn cdr(self) -> (r: Result<Box<Value>, Error>)
        ensures
            self@ is Pair <==> r is Ok,
            r is Ok ==> r->Ok_0@ == *self@->Pair_1,
            !(self@ is Pair) ==> r == Err::<Box<Value>, Error>(Error::Type(Shape::Pair)),
    {
        match self {
            Value::List(c) => Ok(c.cdr),
            _ => Err(Error::Type(Shape::Pair)),
        }
    }

    /// Whether the value is a symbol.
    pub fn is_symbol(&self) -> (r: bool)
        ensures
            r == self@ is Symbol,
    {
        match self {
            Value::Symbol(_) => true,
            _ => false,
        }
    }

    /// Whether the value is a number.
    pub fn is_number(&self) -> (r: bool)
        ensures
            r == self@ is Number,
    {
        match self {
            Value::Number(_) => true,
            _ => false,
        }
    }

    /// Whether the value is the boolean true; any other value, a boolean
    /// false or not a boolean at all, gives `false`.
    pub fn is_true(&self) -> (r: bool)
        ensures
            r == (self@ == Datum::Bool(true)),
    {
        match self {
            Value::Bool(b) => *b,
            _ => false,
        }
    }

    /// The negation of `is_true`.
    pub fn is_false(&self) -> (r: bool)
        ensures
            r == (self@ != Datum::Bool(true)),
    {
        !self.is_true()
    }

    /// The text of a symbol.
    pub fn unwrap_symbol(self) -> (r: Result<String, Error>)
        ensures
            self@ is Symbol <==> r is Ok,
            r is Ok ==> r->Ok_0@ == self@->Symbol_0,
            !(self@ is Symbol) ==> r == Err::<String, Error>(Error::Type(Shape::Symbol)),
    {
        match self {
            Value::Symbol(s) => Ok(s),
            _ => Err(Error::Type(Shape::Symbol)),
        }
    }

    /// The value of a number.
    pub fn unwrap_number(self) -> (r: Result<usize, Error>)
        ensures
            self@ is Number <==> r is Ok,
            r is Ok ==> r->Ok_0 as nat == self@->Number_0,
            !(self@ is Number) ==> r == Err::<usize, Error>(Error::Type(Shape::Number)),
    {
        match self {
            Value::Number(n) => Ok(n),
            _ => Err(Error::Type(Shape::Number)),
        }
    }

    /// The text of a literal, without its quote.
    pub fn unwrap_literal(self) -> (r: Result<String, Error>)
        ensures
            self@ is Literal <==> r is Ok,
            r is Ok ==> r->Ok_0@ == self@->Literal_0,
            !(self@ is Literal) ==> r == Err::<String, Error>(Error::Type(Shape::Literal)),
    {
        match self {
            Value::Literal(l) => Ok(l),
            _ => Err(Error::Type(Shape::Literal)),
        }
    }
}

} // verus!
