use vstd::prelude::*;

verus! {

/// The kind of a script value, as a method's parameter list names it.
#[derive(PartialEq, Eq, Structural, Clone, Copy, Debug)]
pub enum ValueKind {
    Nil,
    Bool,
    Int,
    Text,
    Object,
}

/// A value in the script engine's value space. An object is referred to by
/// its handle in the foreign-object table.
#[derive(Debug)]
pub enum ScriptValue {
    Nil,
    Bool(bool),
    Int(i64),
    Text(String),
    Object(usize),
}

impl ScriptValue {
    pub open spec fn kind_spec(&self) -> ValueKind {
        match self {
            ScriptValue::Nil => ValueKind::Nil,
            ScriptValue::Bool(_) => ValueKind::Bool,
            ScriptValue::Int(_) => ValueKind::Int,
            ScriptValue::Text(_) => ValueKind::Text,
            ScriptValue::Object(_) => ValueKind::Object,
        }
    }

    /// The kind of this value.
    pub fn kind(&self) -> (r: ValueKind)
        ensures
            r == self.kind_spec(),
    {
        match self {
            ScriptValue::Nil => ValueKind::Nil,
            ScriptValue::Bool(_) => ValueKind::Bool,
            ScriptValue::Int(_) => ValueKind::Int,
            ScriptValue::Text(_) => ValueKind::Text,
            ScriptValue::Object(_) => ValueKind::Object,
        }
    }
}

/// The kinds of a list of values, in order.
pub open spec fn kinds_of(args: Seq<ScriptValue>) -> Seq<ValueKind> {
    args.map_values(|v: ScriptValue| v.kind_spec())
}

/// Whether a list of arguments matches a parameter list in arity and kinds.
pub fn args_match(args: &Vec<ScriptValue>, params: &Vec<ValueKind>) -> (r: bool)
    ensures
        r == (kinds_of(args@) == params@),
{
    if args.len() != params.len() {
        proof {
            assert(kinds_of(args@).len() != params@.len());
        }
        return false;
    }
    let mut i: usize = 0;
    while i < args.len()
        invariant
            args@.len() == params@.len(),
            0 <= i <= args@.len(),
            forall|j: int| 0 <= j < i ==> args@[j].kind_spec() == params@[j],
        decreases args@.len() - i,
    {
        if args[i].kind() != params[i] {
            proof {
                assert(kinds_of(args@)[i as int] != params@[i as int]);
            }
            return false;
        }
        i = i + 1;
    }
    proof {
        assert(kinds_of(args@) =~= params@);
    }
    true
}

} // verus!
