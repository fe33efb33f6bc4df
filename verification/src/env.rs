//! The standard environment: the `_ENV` table handed to the main prototype.
//! Only the minimal surface the engine's native boundary defines is supplied:
//! `print`, `assert` and `type`, plus the version marker.
use vstd::prelude::*;
use crate::error::RuntimeError;
use crate::interpreter::Context;
use crate::types::{Function, NativeFn, Type, Value};

verus! {

/// Which environment the interpreter starts with.
#[derive(Debug, Clone, Copy, PartialEq, Eq, Structural)]
pub enum Environment {
    /// An empty environment table.
    Empty,
    /// `print`, `assert`, `type` and `_VERSION`.
    LuaStandard,
}

/// The bytes of `"print"`.
fn key_print() -> (r: Vec<u8>)
    ensures
        r@ == seq![0x70u8, 0x72u8, 0x69u8, 0x6eu8, 0x74u8],
{
    let mut v: Vec<u8> = Vec::new();
    v.push(0x70);
    v.push(0x72);
    v.push(0x69);
    v.push(0x6e);
    v.push(0x74);
    proof {
        assert(v@ =~= seq![0x70u8, 0x72u8, 0x69u8, 0x6eu8, 0x74u8]);
    }
    v
}

/// The bytes of `"assert"`.
fn key_assert() -> (r: Vec<u8>)
    ensures
        r@ == seq![0x61u8, 0x73u8, 0x73u8, 0x65u8, 0x72u8, 0x74u8],
{
    let mut v: Vec<u8> = Vec::new();
    v.push(0x61);
    v.push(0x73);
    v.push(0x73);
    v.push(0x65);
    v.push(0x72);
    v.push(0x74);
    proof {
        assert(v@ =~= seq![0x61u8, 0x73u8, 0x73u8, 0x65u8, 0x72u8, 0x74u8]);
    }
    v
}

/// The bytes of `"type"`.
fn key_type() -> (r: Vec<u8>)
    ensures
        r@ == seq![0x74u8, 0x79u8, 0x70u8, 0x65u8],
{
    let mut v: Vec<u8> = Vec::new();
    v.push(0x74);
    v.push(0x79);
    v.push(0x70);
    v.push(0x65);
    proof {
        assert(v@ =~= seq![0x74u8, 0x79u8, 0x70u8, 0x65u8]);
    }
    v
}

/// The view of the `"_VERSION"` key.
pub open spec fn version_key_view() -> Value {
    Value::Str(
        seq![0x5fu8, 0x56u8, 0x45u8, 0x52u8, 0x53u8, 0x49u8, 0x4fu8, 0x4eu8],
    )
}

/// The view of the version marker value.
pub open spec fn version_value_view() -> Value {
    Value::Str(seq![0x4cu8, 0x75u8, 0x61u8, 0x20u8, 0x35u8, 0x2eu8, 0x33u8])
}

/// The bytes of `"_VERSION"`.
fn key_version() -> (r: Vec<u8>)
    ensures
        r@ == seq![0x5fu8, 0x56u8, 0x45u8, 0x52u8, 0x53u8, 0x49u8, 0x4fu8, 0x4eu8],
{
    let mut v: Vec<u8> = Vec::new();
    v.push(0x5f);
    v.push(0x56);
    v.push(0x45);
    v.push(0x52);
    v.push(0x53);
    v.push(0x49);
    v.push(0x4f);
    v.push(0x4e);
    proof {
        assert(v@ =~= seq![0x5fu8, 0x56u8, 0x45u8, 0x52u8, 0x53u8, 0x49u8, 0x4fu8, 0x4eu8]);
    }
    v
}

/// The bytes of `"Lua 5.3"`.
fn version_string() -> (r: Vec<u8>)
    ensures
        r@ == seq![0x4cu8, 0x75u8, 0x61u8, 0x20u8, 0x35u8, 0x2eu8, 0x33u8],
{
    let mut v: Vec<u8> = Vec::new();
    v.push(0x4c);
    v.push(0x75);
    v.push(0x61);
    v.push(0x20);
    v.push(0x35);
    v.push(0x2e);
    v.push(0x33);
    proof {
        assert(v@ =~= seq![0x4cu8, 0x75u8, 0x61u8, 0x20u8, 0x35u8, 0x2eu8, 0x33u8]);
    }
    v
}

impl Environment {
    /// Allocates the environment table in the context and fills it according
    /// to this choice of environment, returning the table value.
    pub fn make(&self, context: &mut Context) -> (r: Result<Type, RuntimeError>)
        requires
            old(context).wf(),
        ensures
            final(context).wf(),
            r is Ok,
            final(context).call_info@ == old(context).call_info@,
            final(context).stack == old(context).stack,
            final(context).open_upval == old(context).open_upval,
            final(context).upvalue_cells@ == old(context).upvalue_cells@,
            final(context).closures@ == old(context).closures@,
            final(context).protos@ == old(context).protos@,
            final(context).mode == old(context).mode,
            match r {
                Ok(v) => ({
                    &&& v@ matches crate::types::Value::Table(t)
                    &&& 0 <= t < final(context).tables@.len()
                    &&& (*self == Environment::Empty ==> final(context).tables@[t].view_seq()
                        == Seq::<(Value, Value)>::empty())
                    &&& (*self == Environment::LuaStandard ==> ({
                        let bindings = final(context).tables@[t].view_seq();
                        &&& crate::table::spec_table_lookup(
                            bindings,
                            Value::Str(seq![0x70u8, 0x72u8, 0x69u8, 0x6eu8, 0x74u8]),
                        ) == Some(Value::Function(Function::Native(NativeFn::Print)))
                        &&& crate::table::spec_table_lookup(
                            bindings,
                            Value::Str(seq![0x61u8, 0x73u8, 0x73u8, 0x65u8, 0x72u8, 0x74u8]),
                        ) == Some(Value::Function(Function::Native(NativeFn::Assert)))
                        &&& crate::table::spec_table_lookup(
                            bindings,
                            Value::Str(seq![0x74u8, 0x79u8, 0x70u8, 0x65u8]),
                        ) == Some(Value::Function(Function::Native(NativeFn::Type)))
                    }))
                }),
                Err(_) => true,
            },
    {
        let t = context.alloc_table();
        match self {
            Environment::Empty => {},
            Environment::LuaStandard => {
                context.table_set(
                    t,
                    Type::String(key_print()),
                    Type::Function(Function::Native(NativeFn::Print)),
                )?;
                context.table_set(
                    t,
                    Type::String(key_assert()),
                    Type::Function(Function::Native(NativeFn::Assert)),
                )?;
                context.table_set(
                    t,
                    Type::String(key_type()),
                    Type::Function(Function::Native(NativeFn::Type)),
                )?;
                context.table_set(t, Type::String(key_version()), Type::String(version_string()))?;
                proof {
                    let kp = Value::Str(seq![0x70u8, 0x72u8, 0x69u8, 0x6eu8, 0x74u8]);
                    let ka = Value::Str(seq![0x61u8, 0x73u8, 0x73u8, 0x65u8, 0x72u8, 0x74u8]);
                    let kt = Value::Str(seq![0x74u8, 0x79u8, 0x70u8, 0x65u8]);
                    let s0 = Seq::<(Value, Value)>::empty();
                    let vp = Value::Function(Function::Native(NativeFn::Print));
                    let va = Value::Function(Function::Native(NativeFn::Assert));
                    let vt = Value::Function(Function::Native(NativeFn::Type));
                    let s1 = s0.push((kp, vp));
                    let s2 = s1.push((ka, va));
                    let s3 = s2.push((kt, vt));
                    crate::table::lemma_table_set_get(s0, kp, vp, kp);
                    crate::table::lemma_table_set_get(s1, ka, va, kp);
                    crate::table::lemma_table_set_get(s2, kt, vt, kp);
                    crate::table::lemma_table_set_get(s3, version_key_view(), version_value_view(), kp);
                    crate::table::lemma_table_set_get(s1, ka, va, ka);
                    crate::table::lemma_table_set_get(s2, kt, vt, ka);
                    crate::table::lemma_table_set_get(s3, version_key_view(), version_value_view(), ka);
                    crate::table::lemma_table_set_get(s2, kt, vt, kt);
                    crate::table::lemma_table_set_get(s3, version_key_view(), version_value_view(), kt);
                }
            },
        }
        Ok(Type::Table(t))
    }
}

} // verus!
