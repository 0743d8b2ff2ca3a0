use vstd::prelude::*;
use crate::value::{ScriptValue, kinds_of};
use crate::registry::{MethodSig, DispatchError, dispatch_spec, with_method};
use crate::objects::{ObjectTable, ForeignObject, Ownership, CallError, call_spec, invalidated_in};
use crate::script::{Binding, apply_chunk, chunk_bindings};

verus! {

/// A call of a registered method, on a valid object of its type, with
/// arguments of the registered kinds, resolves to exactly the registered
/// implementation.
pub proof fn lemma_call_registered(
    objects: Seq<ForeignObject>,
    reg: Map<u64, Map<Seq<char>, MethodSig>>,
    handle: usize,
    name: Seq<char>,
    args: Seq<ScriptValue>,
)
    requires
        handle < objects.len(),
        objects[handle as int].valid,
        reg.contains_key(objects[handle as int].type_key),
        reg[objects[handle as int].type_key].contains_key(name),
        kinds_of(args) == reg[objects[handle as int].type_key][name].params,
    ensures
        call_spec(objects, reg, handle, name, args) == Ok::<u64, CallError>(
            reg[objects[handle as int].type_key][name].implementation,
        ),
{
}

/// Once a method is registered, dispatching it with arguments of its kinds
/// resolves to its implementation. Every other method of a type that was
/// already registered, and every method of another type, resolves as before.
pub proof fn lemma_register_then_dispatch(
    reg: Map<u64, Map<Seq<char>, MethodSig>>,
    key: u64,
    name: Seq<char>,
    sig: MethodSig,
    args: Seq<ScriptValue>,
    other_key: u64,
    other_name: Seq<char>,
)
    requires
        kinds_of(args) == sig.params,
    ensures
        dispatch_spec(with_method(reg, key, name, sig), key, name, args) == Ok::<
            u64,
            DispatchError,
        >(sig.implementation),
        (other_key != key || (other_name != name && reg.contains_key(key))) ==> dispatch_spec(
            with_method(reg, key, name, sig),
            other_key,
            other_name,
            args,
        ) == dispatch_spec(reg, other_key, other_name, args),
{
    let after = with_method(reg, key, name, sig);
    if other_key == key && other_name != name && reg.contains_key(key) {
        assert(after[key].contains_key(other_name) == reg[key].contains_key(other_name));
    }
}

/// After the scope of a borrowed object has closed, every method call on it
/// is refused as invalidated, whatever the method and the arguments.
pub proof fn lemma_no_call_after_scope(
    table: ObjectTable,
    reg: Map<u64, Map<Seq<char>, MethodSig>>,
    handle: usize,
    scope_id: usize,
    name: Seq<char>,
    args: Seq<ScriptValue>,
)
    requires
        table.wf(),
        !table.scope_open(scope_id),
        handle < table.objects().len(),
        table.objects()[handle as int].mode == Ownership::Borrowed(scope_id),
    ensures
        call_spec(table.objects(), reg, handle, name, args) == Err::<u64, CallError>(
            CallError::Invalidated,
        ),
{
    assert(!table.objects()[handle as int].valid);
}

/// Leaving a scope, on the normal path or with an error, invalidates each
/// object borrowed in it: a call on it is refused, and the objects of other
/// scopes and the owned ones are left as they were.
pub proof fn lemma_scope_exit_invalidates(
    objects: Seq<ForeignObject>,
    reg: Map<u64, Map<Seq<char>, MethodSig>>,
    scope_id: usize,
    handle: usize,
    name: Seq<char>,
    args: Seq<ScriptValue>,
)
    requires
        handle < objects.len(),
    ensures
        invalidated_in(objects, scope_id).len() == objects.len(),
        objects[handle as int].mode == Ownership::Borrowed(scope_id) ==> call_spec(
            invalidated_in(objects, scope_id),
            reg,
            handle,
            name,
            args,
        ) == Err::<u64, CallError>(CallError::Invalidated),
        objects[handle as int].mode != Ownership::Borrowed(scope_id) ==> invalidated_in(
            objects,
            scope_id,
        )[handle as int] == objects[handle as int],
{
}

/// Running a chunk is running its own bindings over the old namespace.
pub proof fn lemma_apply_chunk_union(m: Map<Seq<char>, u64>, defs: Seq<Binding>)
    ensures
        apply_chunk(m, defs) == m.union_prefer_right(chunk_bindings(defs)),
    decreases defs.len(),
{
    if defs.len() == 0 {
        assert(m.union_prefer_right(chunk_bindings(defs)) =~= m);
    } else {
        lemma_apply_chunk_union(m, defs.drop_last());
        lemma_apply_chunk_union(Map::empty(), defs.drop_last());
        assert(Map::<Seq<char>, u64>::empty().union_prefer_right(chunk_bindings(defs.drop_last()))
            =~= chunk_bindings(defs.drop_last()));
        assert(apply_chunk(m, defs) =~= m.union_prefer_right(chunk_bindings(defs)));
    }
}

/// Running the same chunk a second time leaves the namespace, and so every
/// lookup and invocation by name, as the first run left it.
pub proof fn lemma_reload_idempotent(m: Map<Seq<char>, u64>, defs: Seq<Binding>)
    ensures
        apply_chunk(apply_chunk(m, defs), defs) == apply_chunk(m, defs),
{
    let once = apply_chunk(m, defs);
    lemma_apply_chunk_union(m, defs);
    lemma_apply_chunk_union(once, defs);
    assert(once.union_prefer_right(chunk_bindings(defs)) =~= once);
}

} // verus!
