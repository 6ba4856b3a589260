//! Runtime values: a tagged union over the four kinds of value the
//! evaluator produces — numbers, strings, booleans and the absent value.
//! The tag and the payload travel together, so a value can never be read
//! at the wrong type.

use vstd::prelude::*;

use crate::ast::number::{render_spec, Number};

verus! {

/// A runtime value.
#[derive(Debug, PartialEq)]
pub enum Object {
    Num(Number),
    Str(String),
    Bool(bool),
    Nil,
}

/// The textual form of a value: a number's decimal text, a string's raw
/// contents, `true`/`false`, or `nil`.
pub open spec fn object_text(o: Object) -> Seq<char>
    recommends
        o.wf(),
{
    match o {
        Object::Num(n) => render_spec(n, false),
        Object::Str(s) => s@,
        Object::Bool(b) => if b {
            "true"@
        } else {
            "false"@
        },
        Object::Nil => "nil"@,
    }
}

impl Clone for Object {
    fn clone(&self) -> (res: Self)
        ensures
            res == *self,
    {
        match self {
            Object::Num(n) => Object::Num(*n),
            Object::Str(s) => Object::Str(s.clone()),
            Object::Bool(b) => Object::Bool(*b),
            Object::Nil => Object::Nil,
        }
    }
}

impl Object {
    /// A number payload is well-formed.
    pub open spec fn wf(self) -> bool {
        self matches Object::Num(n) ==> n.wf()
    }

    pub fn is_num(&self) -> (r: bool)
        ensures
            r == (self matches Object::Num(_)),
    {
        matches!(self, Object::Num(_))
    }

    pub fn is_str(&self) -> (r: bool)
        ensures
            r == (self matches Object::Str(_)),
    {
        matches!(self, Object::Str(_))
    }

    pub fn is_bool(&self) -> (r: bool)
        ensures
            r == (self matches Object::Bool(_)),
    {
        matches!(self, Object::Bool(_))
    }

    pub fn is_nil(&self) -> (r: bool)
        ensures
            r == (self matches Object::Nil),
    {
        matches!(self, Object::Nil)
    }

    pub fn as_num(&self) -> (r: Option<Number>)
        ensures
            match r {
                Some(n) => self matches Object::Num(m) && n == m,
                None => !(self matches Object::Num(_)),
            },
    {
        match self {
            Object::Num(n) => Some(*n),
            _ => None,
        }
    }

    pub fn as_str(&self) -> (r: Option<&String>)
        ensures
            match r {
                Some(s) => self matches Object::Str(t) && s == t,
                None => !(self matches Object::Str(_)),
            },
    {
        match self {
            Object::Str(s) => Some(s),
            _ => None,
        }
    }

    pub fn as_bool(&self) -> (r: Option<bool>)
        ensures
            match r {
                Some(b) => self matches Object::Bool(c) && b == c,
                None => !(self matches Object::Bool(_)),
            },
    {
        match self {
            Object::Bool(b) => Some(*b),
            _ => None,
        }
    }

    /// The value's textual form, as print statements and the prompt show it.
    pub fn to_string(&self) -> (r: String)
        requires
            self.wf(),
        ensures
            r@ == object_text(*self),
    {
        match self {
            Object::Num(n) => n.display_string(),
            Object::Str(s) => s.clone(),
            Object::Bool(b) => {
                if *b {
                    String::from_str("true")
                } else {
                    String::from_str("false")
                }
            },
            Object::Nil => String::from_str("nil"),
        }
    }
}

} // verus!
