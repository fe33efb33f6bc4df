//! The shared mutable table: one table's bindings, held in the execution
//! context's table arena and addressed through `LuaTable` handles. A table is
//! a key-to-value map; the newest binding of a key wins, so writing is a
//! push and reading searches newest-first.
use vstd::prelude::*;
use crate::error::RuntimeError;
use crate::types::{spec_try_value_eq, spec_valid_key, Type, Value};

verus! {

/// One table's storage.
#[derive(Debug)]
pub struct TableData {
    pub entries: Vec<(Type, Type)>,
}

/// Views of a binding list.
pub open spec fn pair_views(s: Seq<(Type, Type)>) -> Seq<(Value, Value)> {
    s.map_values(|p: (Type, Type)| (p.0@, p.1@))
}

/// The value bound to `k`, newest binding first; `None` when unbound.
pub open spec fn spec_table_lookup(s: Seq<(Value, Value)>, k: Value) -> Option<Value>
    decreases s.len(),
{
    if s.len() == 0 {
        None
    } else if s.last().0 == k {
        Some(s.last().1)
    } else {
        spec_table_lookup(s.drop_last(), k)
    }
}

/// A binding list whose keys the table model accepts.
pub open spec fn spec_table_wf(s: Seq<(Value, Value)>) -> bool {
    forall|i: int| 0 <= i < s.len() ==> spec_valid_key(#[trigger] s[i].0)
}

/// Bindings at or above `i` do not mention `k`, so the lookup is decided by
/// the first `i` bindings.
proof fn lemma_lookup_prefix(s: Seq<(Value, Value)>, k: Value, i: int)
    requires
        0 <= i <= s.len(),
        forall|j: int| i <= j < s.len() ==> (#[trigger] s[j]).0 != k,
    ensures
        spec_table_lookup(s, k) == spec_table_lookup(s.take(i), k),
    decreases s.len() - i,
{
    if i == s.len() {
        assert(s.take(i) =~= s);
    } else {
        lemma_lookup_prefix(s.drop_last(), k, i);
        assert(s.drop_last().take(i) =~= s.take(i));
    }
}

impl TableData {
    /// The mathematical content: the binding list.
    pub open spec fn view_seq(self) -> Seq<(Value, Value)> {
        pair_views(self.entries@)
    }

    pub fn new() -> (r: TableData)
        ensures
            r.view_seq() == Seq::<(Value, Value)>::empty(),
            spec_table_wf(r.view_seq()),
    {
        let r = TableData { entries: Vec::new() };
        proof {
            assert(r.view_seq() =~= Seq::<(Value, Value)>::empty());
        }
        r
    }

    /// Reads the binding of `key`; an unbound key reads as `nil`. A key the
    /// model cannot compare is refused.
    pub fn get(&self, key: &Type) -> (r: Result<Type, RuntimeError>)
        requires
            spec_table_wf(self.view_seq()),
        ensures
            match r {
                Ok(v) => spec_valid_key(key@) && v@ == (match spec_table_lookup(
                    self.view_seq(),
                    key@,
                ) {
                    Some(w) => w,
                    None => Value::Nil,
                }),
                Err(e) => e == RuntimeError::InvalidTableKey && !spec_valid_key(key@),
            },
    {
        if !key.is_valid_key() {
            return Err(RuntimeError::InvalidTableKey);
        }
        let ghost s = self.view_seq();
        let mut i: usize = self.entries.len();
        while i > 0
            invariant
                i <= self.entries@.len(),
                s == self.view_seq(),
                spec_table_wf(s),
                spec_valid_key(key@),
                forall|j: int| i <= j < s.len() ==> (#[trigger] s[j]).0 != key@,
            decreases i,
        {
            i = i - 1;
            let hit = self.entries[i].0.try_value_eq(key);
            proof {
                assert(spec_try_value_eq(s[i as int].0, key@) is Some);
            }
            if hit.unwrap() {
                proof {
                    lemma_lookup_prefix(s, key@, i + 1);
                    assert(s.take(i + 1).last() == s[i as int]);
                    assert(s.take(i + 1).drop_last() =~= s.take(i as int));
                }
                let v = self.entries[i].1.clone();
                return Ok(v);
            }
        }
        proof {
            lemma_lookup_prefix(s, key@, 0);
            assert(s.take(0) =~= Seq::<(Value, Value)>::empty());
        }
        Ok(Type::Nil)
    }

    /// Binds `key` to `value`; the new binding shadows any older one. A key
    /// the model cannot compare is refused.
    pub fn set(&mut self, key: Type, value: Type) -> (r: Result<(), RuntimeError>)
        requires
            spec_table_wf(old(self).view_seq()),
        ensures
            spec_table_wf(final(self).view_seq()),
            match r {
                Ok(()) => spec_valid_key(key@) && final(self).view_seq() == old(
                    self,
                ).view_seq().push((key@, value@)),
                Err(e) => e == RuntimeError::InvalidTableKey && !spec_valid_key(key@)
                    && *final(self) == *old(self),
            },
    {
        if !key.is_valid_key() {
            return Err(RuntimeError::InvalidTableKey);
        }
        let ghost k = key@;
        let ghost v = value@;
        self.entries.push((key, value));
        proof {
            assert(self.view_seq() =~= old(self).view_seq().push((k, v)));
        }
        Ok(())
    }
}

/// Binding then reading the same key yields the bound value; reading any
/// other key is unaffected by the binding.
pub proof fn lemma_table_set_get(s: Seq<(Value, Value)>, k: Value, v: Value, k2: Value)
    ensures
        spec_table_lookup(s.push((k, v)), k) == Some(v),
        k2 != k ==> spec_table_lookup(s.push((k, v)), k2) == spec_table_lookup(s, k2),
{
    assert(s.push((k, v)).drop_last() =~= s);
}

} // verus!
