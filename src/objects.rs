use vstd::prelude::*;
use crate::value::ScriptValue;
use crate::registry::{MethodRegistry, MethodSig, DispatchError, dispatch_spec};

verus! {

/// How a foreign object holds its native value: owned by the script engine's
/// storage, or borrowed for the extent of the scope with the given id.
#[derive(PartialEq, Eq, Structural, Clone, Copy, Debug)]
pub enum Ownership {
    Owned,
    Borrowed(usize),
}

/// A script-visible handle's record: the native type it wraps, how it holds
/// the value, and whether it may still be used.
#[derive(PartialEq, Eq, Structural, Clone, Copy, Debug)]
pub struct ForeignObject {
    pub type_key: u64,
    pub mode: Ownership,
    pub valid: bool,
}

/// A scope minted by `ObjectTable::open_scope`.
#[derive(PartialEq, Eq, Structural, Clone, Copy, Debug)]
pub struct Scope {
    pub id: usize,
}

/// Why a method call on a foreign object failed.
#[derive(PartialEq, Eq, Structural, Clone, Copy, Debug)]
pub enum CallError {
    Invalidated,
    UnregisteredType,
    UnknownMethod,
    ArityOrTypeMismatch,
}

/// The dispatch error that a method call reports.
pub open spec fn call_error_of(e: DispatchError) -> CallError {
    match e {
        DispatchError::UnknownMethod => CallError::UnknownMethod,
        DispatchError::ArityOrTypeMismatch => CallError::ArityOrTypeMismatch,
        DispatchError::UnregisteredType => CallError::UnregisteredType,
    }
}

/// What a method call on the object at `handle` yields: the registered
/// implementation, or why there is none. A handle that names no valid object
/// is refused before its type is even looked at.
pub open spec fn call_spec(
    objects: Seq<ForeignObject>,
    reg: Map<u64, Map<Seq<char>, MethodSig>>,
    handle: usize,
    name: Seq<char>,
    args: Seq<ScriptValue>,
) -> Result<u64, CallError> {
    if handle >= objects.len() || !objects[handle as int].valid {
        Err(CallError::Invalidated)
    } else {
        match dispatch_spec(reg, objects[handle as int].type_key, name, args) {
            Ok(imp) => Ok(imp),
            Err(e) => Err(call_error_of(e)),
        }
    }
}

/// The objects after the scope `id` has closed: every object borrowed in it
/// is invalid, every other object is as it was.
pub open spec fn invalidated_in(before: Seq<ForeignObject>, id: usize) -> Seq<ForeignObject> {
    before.map_values(
        |o: ForeignObject|
            if o.mode == Ownership::Borrowed(id) {
                ForeignObject { valid: false, ..o }
            } else {
                o
            },
    )
}

/// The foreign objects that the script engine can see, and the scopes that
/// bound the borrowed ones.
pub struct ObjectTable {
    objects: Vec<ForeignObject>,
    /// Indexed by scope id: whether that scope is still open.
    scopes: Vec<bool>,
}

impl ObjectTable {
    /// The objects, indexed by handle.
    pub closed spec fn objects(&self) -> Seq<ForeignObject> {
        self.objects@
    }

    /// Whether the scope `id` has been opened and not yet closed.
    pub closed spec fn scope_open(&self, id: usize) -> bool {
        id < self.scopes@.len() && self.scopes@[id as int]
    }

    /// The number of scopes opened so far; the next scope gets this id.
    pub closed spec fn scopes_minted(&self) -> nat {
        self.scopes@.len()
    }

    /// A valid borrowed object always belongs to an open scope.
    pub open spec fn wf(&self) -> bool {
        forall|h: int|
            0 <= h < self.objects().len() && (#[trigger] self.objects()[h]).valid ==> match self.objects()[h].mode {
                Ownership::Borrowed(s) => self.scope_open(s),
                Ownership::Owned => true,
            }
    }

    /// An empty table with no scope.
    pub fn new() -> (r: ObjectTable)
        ensures
            r.wf(),
            r.objects() == Seq::<ForeignObject>::empty(),
            r.scopes_minted() == 0,
    {
        ObjectTable { objects: Vec::new(), scopes: Vec::new() }
    }

    /// Moves a native value of the type `type_key` into script storage; the
    /// result is its handle.
    pub fn wrap_owned(&mut self, type_key: u64) -> (r: usize)
        requires
            old(self).wf(),
        ensures
            final(self).wf(),
            r == old(self).objects().len(),
            final(self).objects() == old(self).objects().push(
                ForeignObject { type_key, mode: Ownership::Owned, valid: true },
            ),
            forall|s: usize| final(self).scope_open(s) == old(self).scope_open(s),
            final(self).scopes_minted() == old(self).scopes_minted(),
    {
        let r = self.objects.len();
        self.objects.push(ForeignObject { type_key, mode: Ownership::Owned, valid: true });
        r
    }

    /// Opens a fresh scope. Returns `None` only where scope ids are exhausted.
    pub fn open_scope(&mut self) -> (r: Option<Scope>)
        requires
            old(self).wf(),
        ensures
            final(self).wf(),
            final(self).objects() == old(self).objects(),
            old(self).scopes_minted() < usize::MAX ==> r == Some(
                Scope { id: old(self).scopes_minted() as usize },
            ),
            old(self).scopes_minted() >= usize::MAX ==> r.is_none(),
            match r {
                Some(s) => {
                    &&& final(self).scope_open(s.id)
                    &&& final(self).scopes_minted() == old(self).scopes_minted() + 1
                    &&& forall|t: usize| t != s.id ==> final(self).scope_open(t) == old(self).scope_open(t)
                },
                None => *final(self) == *old(self),
            },
    {
        if self.scopes.len() == usize::MAX {
            return None;
        }
        let id = self.scopes.len();
        self.scopes.push(true);
        Some(Scope { id })
    }

    /// Wraps a borrowed native value of the type `type_key` as an object tied
    /// to `scope`. Returns `None`, and changes nothing, where the scope is not
    /// open.
    pub fn wrap_borrowed(&mut self, type_key: u64, scope: Scope) -> (r: Option<usize>)
        requires
            old(self).wf(),
        ensures
            final(self).wf(),
            forall|s: usize| final(self).scope_open(s) == old(self).scope_open(s),
            final(self).scopes_minted() == old(self).scopes_minted(),
            old(self).scope_open(scope.id) ==> r == Some(old(self).objects().len() as usize)
                && final(self).objects() == old(self).objects().push(
                ForeignObject { type_key, mode: Ownership::Borrowed(scope.id), valid: true },
            ),
            !old(self).scope_open(scope.id) ==> r.is_none() && *final(self) == *old(self),
    {
        if scope.id >= self.scopes.len() || !self.scopes[scope.id] {
            return None;
        }
        let r = self.objects.len();
        self.objects.push(
            ForeignObject { type_key, mode: Ownership::Borrowed(scope.id), valid: true },
        );
        Some(r)
    }

    /// Closes `scope`: every object borrowed in it becomes invalid, and the
    /// scope can never again mint one.
    pub fn close_scope(&mut self, scope: Scope)
        requires
            old(self).wf(),
        ensures
            final(self).wf(),
            final(self).objects() == invalidated_in(old(self).objects(), scope.id),
            !final(self).scope_open(scope.id),
            forall|s: usize| s != scope.id ==> final(self).scope_open(s) == old(self).scope_open(s),
            final(self).scopes_minted() == old(self).scopes_minted(),
    {
        let ghost before = self.objects@;
        let mut i: usize = 0;
        while i < self.objects.len()
            invariant
                self.objects@.len() == before.len(),
                self.scopes == old(self).scopes,
                before == old(self).objects@,
                0 <= i <= before.len(),
                forall|j: int| 0 <= j < i ==> self.objects@[j] == invalidated_in(before, scope.id)[j],
                forall|j: int| i <= j < before.len() ==> self.objects@[j] == before[j],
            decreases before.len() - i,
        {
            if self.objects[i].mode == Ownership::Borrowed(scope.id) {
                self.objects[i].valid = false;
            }
            i = i + 1;
        }
        assert(self.objects@ =~= invalidated_in(before, scope.id));
        if scope.id < self.scopes.len() {
            self.scopes[scope.id] = false;
        }
    }

    /// Closes `scope` and then hands back what its body produced, error or
    /// not: the objects are invalid before any caller sees the outcome.
    pub fn finish_scope<T, E>(&mut self, scope: Scope, outcome: Result<T, E>) -> (r: Result<T, E>)
        requires
            old(self).wf(),
        ensures
            final(self).wf(),
            r == outcome,
            final(self).objects() == invalidated_in(old(self).objects(), scope.id),
            !final(self).scope_open(scope.id),
            forall|s: usize| s != scope.id ==> final(self).scope_open(s) == old(self).scope_open(s),
            final(self).scopes_minted() == old(self).scopes_minted(),
    {
        self.close_scope(scope);
        outcome
    }

    /// Whether `handle` names an object that may still be used.
    pub fn is_valid(&self, handle: usize) -> (r: bool)
        ensures
            r == (handle < self.objects().len() && self.objects()[handle as int].valid),
    {
        handle < self.objects.len() && self.objects[handle].valid
    }

    /// Resolves a method call on the object at `handle`: checks first that the
    /// object is still valid, then forwards to the registry by its type.
    pub fn call_method(
        &self,
        reg: &MethodRegistry,
        handle: usize,
        name: &String,
        args: &Vec<ScriptValue>,
    ) -> (r: Result<u64, CallError>)
        requires
            reg.wf(),
        ensures
            r == call_spec(self.objects(), reg@, handle, name@, args@),
    {
        if handle >= self.objects.len() || !self.objects[handle].valid {
            return Err(CallError::Invalidated);
        }
        match reg.dispatch(self.objects[handle].type_key, name, args) {
            Ok(imp) => Ok(imp),
            Err(DispatchError::UnknownMethod) => Err(CallError::UnknownMethod),
            Err(DispatchError::ArityOrTypeMismatch) => Err(CallError::ArityOrTypeMismatch),
            Err(DispatchError::UnregisteredType) => Err(CallError::UnregisteredType),
        }
    }
}

} // verus!
