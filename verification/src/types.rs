//! The dynamic value union. Strings are byte strings (the chunk format makes
//! no encoding promise); a float is carried as its IEEE-754 bit pattern and
//! only ever computed on by the host driving the engine; tables and closures
//! are handles into the execution context's arenas, so that equality of
//! handles is exactly identity of the underlying object.
use vstd::prelude::*;

verus! {

/// A numeric value: a 64-bit integer, or a float held as its bit pattern.
#[derive(Debug, Clone, Copy, PartialEq, Eq, Structural)]
pub enum Number {
    Integer(i64),
    Float(u64),
}

/// A function of the standard environment, executed at the native boundary:
/// `print` is surfaced to the host, `assert` and `type` run in the engine.
#[derive(Debug, Clone, Copy, PartialEq, Eq, Structural)]
pub enum NativeFn {
    Print,
    Assert,
    Type,
}

/// A callable value: a handle to an instantiated closure, or a native.
#[derive(Debug, Clone, Copy, PartialEq, Eq, Structural)]
pub enum Function {
    Lua(usize),
    Native(NativeFn),
}

/// A handle to a shared mutable table in the context's table arena. Copies of
/// the handle alias one table; handle equality is table identity.
#[derive(Debug, Clone, Copy, PartialEq, Eq, Structural)]
pub struct LuaTable(pub usize);

/// A dynamic value.
#[derive(Debug, PartialEq, Eq)]
pub enum Type {
    Nil,
    Boolean(bool),
    Number(Number),
    String(Vec<u8>),
    Table(LuaTable),
    Function(Function),
}

/// The mathematical value a `Type` denotes: the same union with the string's
/// bytes abstracted to a sequence.
pub enum Value {
    Nil,
    Boolean(bool),
    Number(Number),
    Str(Seq<u8>),
    Table(int),
    Function(Function),
}

impl View for Type {
    type V = Value;

    open spec fn view(&self) -> Value {
        match self {
            Type::Nil => Value::Nil,
            Type::Boolean(b) => Value::Boolean(*b),
            Type::Number(n) => Value::Number(*n),
            Type::String(s) => Value::Str(s@),
            Type::Table(t) => Value::Table(t.0 as int),
            Type::Function(f) => Value::Function(*f),
        }
    }
}

impl Clone for Type {
    fn clone(&self) -> (r: Self)
        ensures
            r@ == self@,
    {
        match self {
            Type::Nil => Type::Nil,
            Type::Boolean(b) => Type::Boolean(*b),
            Type::Number(n) => Type::Number(*n),
            Type::String(s) => {
                let mut t: Vec<u8> = Vec::new();
                let mut i: usize = 0;
                while i < s.len()
                    invariant
                        i <= s@.len(),
                        t@ =~= s@.subrange(0, i as int),
                    decreases s@.len() - i,
                {
                    t.push(s[i]);
                    i = i + 1;
                }
                proof {
                    assert(t@ =~= s@);
                }
                Type::String(t)
            },
            Type::Table(t) => Type::Table(*t),
            Type::Function(f) => Type::Function(*f),
        }
    }
}

/// Truthiness: only `nil` and `false` are falsy.
pub open spec fn spec_truthy(v: Value) -> bool {
    match v {
        Value::Nil => false,
        Value::Boolean(b) => b,
        _ => true,
    }
}

/// A value the table model accepts as a key: anything but `nil` and floats
/// (a float key has no exact comparison the engine performs itself).
pub open spec fn spec_valid_key(v: Value) -> bool {
    match v {
        Value::Nil => false,
        Value::Number(Number::Float(_)) => false,
        _ => true,
    }
}

/// Equality as the `EQ` instruction sees it, where the engine can decide it
/// alone: identity for tables and functions, value equality otherwise.
/// `None` when a float is involved in a numeric comparison, which the host
/// must decide.
pub open spec fn spec_try_value_eq(a: Value, b: Value) -> Option<bool> {
    match (a, b) {
        (Value::Number(Number::Integer(x)), Value::Number(Number::Integer(y))) => Some(x == y),
        (Value::Number(_), Value::Number(_)) => None,
        (Value::Nil, Value::Nil) => Some(true),
        (Value::Boolean(p), Value::Boolean(q)) => Some(p == q),
        (Value::Str(s), Value::Str(t)) => Some(s == t),
        (Value::Table(i), Value::Table(j)) => Some(i == j),
        (Value::Function(f), Value::Function(g)) => Some(f == g),
        _ => Some(false),
    }
}

impl Type {
    pub fn truthy(&self) -> (r: bool)
        ensures
            r == spec_truthy(self@),
    {
        match self {
            Type::Nil => false,
            Type::Boolean(b) => *b,
            _ => true,
        }
    }

    pub fn is_valid_key(&self) -> (r: bool)
        ensures
            r == spec_valid_key(self@),
    {
        match self {
            Type::Nil => false,
            Type::Number(Number::Float(_)) => false,
            _ => true,
        }
    }

    /// Engine-side equality; `None` defers a float comparison to the host.
    pub fn try_value_eq(&self, other: &Type) -> (r: Option<bool>)
        ensures
            r == spec_try_value_eq(self@, other@),
    {
        match (self, other) {
            (Type::Number(Number::Integer(x)), Type::Number(Number::Integer(y))) => Some(x == y),
            (Type::Number(_), Type::Number(_)) => None,
            (Type::Nil, Type::Nil) => Some(true),
            (Type::Boolean(p), Type::Boolean(q)) => Some(p == q),
            (Type::String(s), Type::String(t)) => {
                let eq = byte_vecs_eq(s, t);
                Some(eq)
            },
            (Type::Table(i), Type::Table(j)) => Some(i.0 == j.0),
            (Type::Function(f), Type::Function(g)) => Some(function_eq(f, g)),
            _ => Some(false),
        }
    }

    /// The Lua type name of this value, as bytes.
    pub fn as_type_name(&self) -> (r: Vec<u8>)
        ensures
            r@ == spec_as_type_name(self@),
    {
        let mut v: Vec<u8> = Vec::new();
        match self {
            Type::Nil => {
                v.push(0x6e);
                v.push(0x69);
                v.push(0x6c);
            },
            Type::Boolean(_) => {
                v.push(0x62);
                v.push(0x6f);
                v.push(0x6f);
                v.push(0x6c);
                v.push(0x65);
                v.push(0x61);
                v.push(0x6e);
            },
            Type::Number(_) => {
                v.push(0x6e);
                v.push(0x75);
                v.push(0x6d);
                v.push(0x62);
                v.push(0x65);
                v.push(0x72);
            },
            Type::String(_) => {
                v.push(0x73);
                v.push(0x74);
                v.push(0x72);
                v.push(0x69);
                v.push(0x6e);
                v.push(0x67);
            },
            Type::Table(_) => {
                v.push(0x74);
                v.push(0x61);
                v.push(0x62);
                v.push(0x6c);
                v.push(0x65);
            },
            Type::Function(_) => {
                v.push(0x66);
                v.push(0x75);
                v.push(0x6e);
                v.push(0x63);
                v.push(0x74);
                v.push(0x69);
                v.push(0x6f);
                v.push(0x6e);
            },
        }
        proof {
            assert(v@ =~= spec_as_type_name(self@));
        }
        v
    }
}

/// The Lua type name, as bytes: `"nil"`, `"boolean"`, `"number"`, `"string"`,
/// `"table"` or `"function"`.
pub open spec fn spec_as_type_name(v: Value) -> Seq<u8> {
    match v {
        Value::Nil => seq![0x6eu8, 0x69u8, 0x6cu8],
        Value::Boolean(_) => seq![0x62u8, 0x6fu8, 0x6fu8, 0x6cu8, 0x65u8, 0x61u8, 0x6eu8],
        Value::Number(_) => seq![0x6eu8, 0x75u8, 0x6du8, 0x62u8, 0x65u8, 0x72u8],
        Value::Str(_) => seq![0x73u8, 0x74u8, 0x72u8, 0x69u8, 0x6eu8, 0x67u8],
        Value::Table(_) => seq![0x74u8, 0x61u8, 0x62u8, 0x6cu8, 0x65u8],
        Value::Function(_) => seq![0x66u8, 0x75u8, 0x6eu8, 0x63u8, 0x74u8, 0x69u8, 0x6fu8, 0x6eu8],
    }
}

/// Byte-string equality.
pub fn byte_vecs_eq(a: &Vec<u8>, b: &Vec<u8>) -> (r: bool)
    ensures
        r == (a@ == b@),
{
    if a.len() != b.len() {
        proof {
            assert(a@ != b@);
        }
        return false;
    }
    let mut i: usize = 0;
    while i < a.len()
        invariant
            i <= a@.len(),
            a@.len() == b@.len(),
            forall|j: int| 0 <= j < i ==> a@[j] == b@[j],
        decreases a@.len() - i,
    {
        if a[i] != b[i] {
            return false;
        }
        i = i + 1;
    }
    proof {
        assert(a@ =~= b@);
    }
    true
}

/// Function equality: identity of the closure handle or the native.
pub fn function_eq(a: &Function, b: &Function) -> (r: bool)
    ensures
        r == (*a == *b),
{
    match (a, b) {
        (Function::Lua(i), Function::Lua(j)) => i == j,
        (Function::Native(m), Function::Native(n)) => match (m, n) {
            (NativeFn::Print, NativeFn::Print) => true,
            (NativeFn::Assert, NativeFn::Assert) => true,
            (NativeFn::Type, NativeFn::Type) => true,
            _ => false,
        },
        _ => false,
    }
}

} // verus!
