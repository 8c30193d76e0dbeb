//! The dynamically-typed value model, its truthiness, and the distinction
//! between an absent binding and a present but falsy one.

use vstd::prelude::*;

verus! {

/// A number: either an integer, or a real held as its IEEE-754 binary64 bit
/// pattern.
#[derive(Clone, Copy, Debug, PartialEq, Eq)]
pub enum Number {
    Integer(i128),
    Real(u64),
}

/// Bit pattern of the real number negative zero.
pub const NEGATIVE_ZERO_BITS: u64 = 0x8000_0000_0000_0000;

impl Number {
    /// Whether the number is zero: the integer 0, or a real that is positive
    /// or negative zero.
    pub open spec fn is_zero(self) -> bool {
        match self {
            Number::Integer(i) => i == 0,
            Number::Real(bits) => bits == 0 || bits == NEGATIVE_ZERO_BITS,
        }
    }

    /// Decides whether the number is zero.
    pub fn zero(&self) -> (r: bool)
        ensures
            r == self.is_zero(),
    {
        match self {
            Number::Integer(i) => *i == 0,
            Number::Real(bits) => *bits == 0 || *bits == NEGATIVE_ZERO_BITS,
        }
    }
}

/// The data a template operates on. A value never stands for absence: see
/// [`Lookup`].
#[derive(Debug, PartialEq, Eq)]
pub enum Value {
    Null,
    Bool(bool),
    Number(Number),
    Text(String),
    List(Vec<Value>),
    /// A mapping from keys to values, held as its entries.
    Object(Vec<(String, Value)>),
}

/// The mathematical content of a [`Value`].
pub enum ValueView {
    Null,
    Bool(bool),
    Number(Number),
    Text(Seq<char>),
    List(Seq<ValueView>),
    Object(Seq<(Seq<char>, ValueView)>),
}

/// The content of a value, defined by recursion on its structure.
pub open spec fn content_of(v: Value) -> ValueView
    decreases v,
{
    match v {
        Value::Null => ValueView::Null,
        Value::Bool(b) => ValueView::Bool(b),
        Value::Number(n) => ValueView::Number(n),
        Value::Text(s) => ValueView::Text(s@),
        Value::List(l) => ValueView::List(
            Seq::new(
                l.len() as nat,
                |i: int|
                    if 0 <= i < l.len() {
                        content_of(l[i])
                    } else {
                        ValueView::Null
                    },
            ),
        ),
        Value::Object(m) => ValueView::Object(
            Seq::new(
                m.len() as nat,
                |i: int|
                    if 0 <= i < m.len() {
                        (m[i].0@, content_of(m[i].1))
                    } else {
                        (Seq::empty(), ValueView::Null)
                    },
            ),
        ),
    }
}

impl View for Value {
    type V = ValueView;

    open spec fn view(&self) -> ValueView {
        content_of(*self)
    }
}

/// The boolean reading of a value. With `include_zero` every number counts as
/// true, zero included; without it a number is true when it is not zero.
pub open spec fn is_truthy(v: ValueView, include_zero: bool) -> bool {
    match v {
        ValueView::Null => false,
        ValueView::Bool(b) => b,
        ValueView::Number(n) => include_zero || !n.is_zero(),
        ValueView::Text(s) => s.len() > 0,
        ValueView::List(l) => l.len() > 0,
        ValueView::Object(m) => m.len() > 0,
    }
}

/// Evaluates the truthiness of `v`. `include_zero` adds zero to the numbers
/// that count as true.
pub fn truthy(v: &Value, include_zero: bool) -> (r: bool)
    ensures
        r == is_truthy(v@, include_zero),
{
    match v {
        Value::Null => false,
        Value::Bool(b) => *b,
        Value::Number(n) => include_zero || !n.zero(),
        Value::Text(s) => !s.as_str().is_empty(),
        Value::List(l) => l.len() > 0,
        Value::Object(m) => m.len() > 0,
    }
}

impl Value {
    /// Makes a copy with the same content.
    pub fn duplicate(&self) -> (r: Value)
        ensures
            r@ == self@,
        decreases self,
    {
        match self {
            Value::Null => Value::Null,
            Value::Bool(b) => Value::Bool(*b),
            Value::Number(n) => Value::Number(*n),
            Value::Text(s) => Value::Text(s.clone()),
            Value::List(l) => {
                let mut out: Vec<Value> = Vec::new();
                let mut i: usize = 0;
                while i < l.len()
                    invariant
                        i <= l.len(),
                        *self == Value::List(*l),
                        out@.len() == i,
                        forall|k: int| 0 <= k < i ==> out@[k]@ == l@[k]@,
                    decreases l.len() - i,
                {
                    let item = &l[i];
                    proof {
                        assert(*item == self->List_0[i as int]);
                        assert(decreases_to!(self->List_0 => self->List_0[i as int]));
                    }
                    out.push(item.duplicate());
                    i += 1;
                }
                assert(Value::List(out)@->List_0 =~= self@->List_0);
                Value::List(out)
            },
            Value::Object(m) => {
                let mut out: Vec<(String, Value)> = Vec::new();
                let mut i: usize = 0;
                while i < m.len()
                    invariant
                        i <= m.len(),
                        *self == Value::Object(*m),
                        out@.len() == i,
                        forall|k: int|
                            0 <= k < i ==> out@[k].0@ == m@[k].0@ && out@[k].1@ == m@[k].1@,
                    decreases m.len() - i,
                {
                    let entry = &m[i];
                    proof {
                        assert(entry.1 == self->Object_0[i as int].1);
                        assert(decreases_to!(self->Object_0 => self->Object_0[i as int]));
                        assert(decreases_to!(self->Object_0[i as int] => self->Object_0[i as int].1));
                    }
                    out.push((entry.0.clone(), entry.1.duplicate()));
                    i += 1;
                }
                assert(Value::Object(out)@->Object_0 =~= self@->Object_0);
                Value::Object(out)
            },
        }
    }
}

impl Clone for Value {
    fn clone(&self) -> (r: Value)
        ensures
            r@ == self@,
    {
        self.duplicate()
    }
}

/// The outcome of resolving a reference against the active scopes. An absent
/// binding is not a value, and differs from a binding to `Null`.
#[derive(Clone, Debug, PartialEq, Eq)]
pub enum Lookup {
    Present(Value),
    Absent,
}

impl View for Lookup {
    type V = Option<ValueView>;

    open spec fn view(&self) -> Option<ValueView> {
        match self {
            Lookup::Present(v) => Some(v@),
            Lookup::Absent => None,
        }
    }
}

/// The views of a list of values.
pub open spec fn values_view(v: Seq<Value>) -> Seq<ValueView> {
    Seq::new(v.len(), |i: int| v[i]@)
}

/// The content of a list value is the list of its items' contents, and the
/// content of an object is the list of its entries' contents.
pub proof fn content_of_containers(v: Value)
    ensures
        v matches Value::List(l) ==> v@ == ValueView::List(values_view(l@)),
        v matches Value::Object(m) ==> v@ == ValueView::Object(entries_view(m@)),
{
    match v {
        Value::List(l) => {
            assert(v@->List_0 =~= values_view(l@));
        },
        Value::Object(m) => {
            assert(v@->Object_0 =~= entries_view(m@));
        },
        _ => {},
    }
}

/// The views of a list of lookups.
pub open spec fn lookups_view(v: Seq<Lookup>) -> Seq<Option<ValueView>> {
    Seq::new(v.len(), |i: int| v[i]@)
}

/// The views of a list of named values.
pub open spec fn entries_view(v: Seq<(String, Value)>) -> Seq<(Seq<char>, ValueView)> {
    Seq::new(v.len(), |i: int| (v[i].0@, v[i].1@))
}

impl Lookup {
    /// Makes a copy with the same content.
    pub fn duplicate(&self) -> (r: Lookup)
        ensures
            r@ == self@,
    {
        match self {
            Lookup::Present(v) => Lookup::Present(v.duplicate()),
            Lookup::Absent => Lookup::Absent,
        }
    }
}

/// True exactly when the reference found no binding in any scope.
pub fn is_missing(lookup: &Lookup) -> (r: bool)
    ensures
        r == (lookup@ is None),
{
    match lookup {
        Lookup::Present(_) => false,
        Lookup::Absent => true,
    }
}

/// Every non-empty text, list or object is true, whatever the flag; the empty
/// ones are false.
pub proof fn truthy_of_containers(v: ValueView, include_zero: bool)
    ensures
        v matches ValueView::Text(s) ==> is_truthy(v, include_zero) == (s.len() != 0),
        v matches ValueView::List(l) ==> is_truthy(v, include_zero) == (l.len() != 0),
        v matches ValueView::Object(m) ==> is_truthy(v, include_zero) == (m.len() != 0),
{
}

/// Zero is true only when zero is included; any other number is true
/// whatever the flag.
pub proof fn truthy_of_numbers(n: Number, include_zero: bool)
    ensures
        n.is_zero() ==> is_truthy(ValueView::Number(n), include_zero) == include_zero,
        !n.is_zero() ==> is_truthy(ValueView::Number(n), include_zero),
{
}

} // verus!
