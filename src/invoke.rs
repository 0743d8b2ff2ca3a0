use vstd::prelude::*;
use crate::objects::{ObjectTable, ForeignObject, Ownership, Scope, invalidated_in};
use crate::script::ScriptGlobals;

verus! {

/// How the engine's call of a script function ended.
#[derive(PartialEq, Eq, Structural, Clone, Copy, Debug)]
pub enum CallOutcome {
    /// The function returned.
    Returned,
    /// The function raised an error of its own.
    RuntimeError,
    /// The function used a foreign object after its scope had closed.
    InvalidatedAccess,
    /// The engine refused the borrowed handle before the call.
    HandleRefused,
}

/// What one invocation cycle came to.
#[derive(PartialEq, Eq, Structural, Clone, Copy, Debug)]
pub enum TickReport {
    Succeeded,
    FunctionNotFound,
    ScopeFailed,
    MintFailed,
    ScriptError,
    InvalidatedAccess,
}

/// A call in progress: the script function to call, the scope opened for it,
/// and the borrowed handle to pass as its argument.
#[derive(PartialEq, Eq, Structural, Clone, Copy, Debug)]
pub struct Invocation {
    pub function: u64,
    pub scope: Scope,
    pub handle: usize,
}

/// The report that an engine outcome gives.
pub open spec fn report_of(outcome: CallOutcome) -> TickReport {
    match outcome {
        CallOutcome::Returned => TickReport::Succeeded,
        CallOutcome::RuntimeError => TickReport::ScriptError,
        CallOutcome::InvalidatedAccess => TickReport::InvalidatedAccess,
        CallOutcome::HandleRefused => TickReport::MintFailed,
    }
}

impl TickReport {
    pub open spec fn is_failure_spec(&self) -> bool {
        match self {
            TickReport::ScriptError | TickReport::InvalidatedAccess | TickReport::MintFailed => true,
            _ => false,
        }
    }

    /// Whether this report goes to the log as a failure. A missing function
    /// and a refused scope are shown to the user instead.
    pub fn is_failure(&self) -> (r: bool)
        ensures
            r == self.is_failure_spec(),
    {
        match self {
            TickReport::ScriptError | TickReport::InvalidatedAccess | TickReport::MintFailed => true,
            _ => false,
        }
    }
}

/// Starts an invocation of the script function `name` on a receiver of the
/// type `receiver_type`: looks the function up, opens a scope and wraps the
/// receiver as an object borrowed in it. Where the function is not defined,
/// nothing is opened and the report is `FunctionNotFound`.
pub fn begin_invocation(
    globals: &ScriptGlobals,
    table: &mut ObjectTable,
    name: &String,
    receiver_type: u64,
) -> (r: Result<Invocation, TickReport>)
    requires
        globals.wf(),
        old(table).wf(),
    ensures
        final(table).wf(),
        !globals@.contains_key(name@) ==> r == Err::<Invocation, TickReport>(
            TickReport::FunctionNotFound,
        ) && *final(table) == *old(table),
        globals@.contains_key(name@) && old(table).scopes_minted() >= usize::MAX ==> r == Err::<
            Invocation,
            TickReport,
        >(TickReport::ScopeFailed) && *final(table) == *old(table),
        globals@.contains_key(name@) && old(table).scopes_minted() < usize::MAX ==> r == Ok::<
            Invocation,
            TickReport,
        >(
            Invocation {
                function: globals@[name@],
                scope: Scope { id: old(table).scopes_minted() as usize },
                handle: old(table).objects().len() as usize,
            },
        ),
        r is Ok ==> {
            &&& final(table).objects() == old(table).objects().push(
                ForeignObject {
                    type_key: receiver_type,
                    mode: Ownership::Borrowed(r->Ok_0.scope.id),
                    valid: true,
                },
            )
            &&& final(table).scope_open(r->Ok_0.scope.id)
            &&& final(table).scopes_minted() == old(table).scopes_minted() + 1
            &&& forall|s: usize|
                s != r->Ok_0.scope.id ==> final(table).scope_open(s) == old(table).scope_open(s)
        },
{
    let function = match globals.lookup(name) {
        Some(f) => f,
        None => {
            return Err(TickReport::FunctionNotFound);
        },
    };
    let scope = match table.open_scope() {
        Some(s) => s,
        None => {
            return Err(TickReport::ScopeFailed);
        },
    };
    match table.wrap_borrowed(receiver_type, scope) {
        Some(handle) => Ok(Invocation { function, scope, handle }),
        None => {
            table.close_scope(scope);
            Err(TickReport::MintFailed)
        },
    }
}

/// Ends an invocation once the engine has called the function: closes its
/// scope, so that the borrowed handle is invalid, and reports the outcome.
pub fn end_invocation(table: &mut ObjectTable, inv: Invocation, outcome: CallOutcome) -> (r:
    TickReport)
    requires
        old(table).wf(),
    ensures
        final(table).wf(),
        r == report_of(outcome),
        final(table).objects() == invalidated_in(old(table).objects(), inv.scope.id),
        !final(table).scope_open(inv.scope.id),
        forall|s: usize| s != inv.scope.id ==> final(table).scope_open(s) == old(table).scope_open(s),
        final(table).scopes_minted() == old(table).scopes_minted(),
{
    table.close_scope(inv.scope);
    match outcome {
        CallOutcome::Returned => TickReport::Succeeded,
        CallOutcome::RuntimeError => TickReport::ScriptError,
        CallOutcome::InvalidatedAccess => TickReport::InvalidatedAccess,
        CallOutcome::HandleRefused => TickReport::MintFailed,
    }
}

} // verus!
