use script_bridge::invoke::{begin_invocation, end_invocation, CallOutcome, TickReport};
use script_bridge::objects::{CallError, ForeignObject, ObjectTable, Ownership};
use script_bridge::registry::{DispatchError, MethodRegistry, RegistrationError};
use script_bridge::script::{Binding, ScriptGlobals};
use script_bridge::surface::{
    register_egui, BUTTON_IMPL, CLICKED_IMPL, LABEL_IMPL, RESPONSE_TYPE, UI_TYPE,
};
use script_bridge::value::{args_match, ScriptValue, ValueKind};

/// A stand-in for the native UI context that the host lends each tick.
struct FakeUi {
    labels: Vec<String>,
    buttons: Vec<String>,
    pressed: bool,
}

/// A stand-in for a button's interaction result.
struct FakeResponse {
    clicked: bool,
}

fn text(s: &str) -> Vec<ScriptValue> {
    vec![ScriptValue::Text(s.to_string())]
}

fn ui_registry() -> MethodRegistry {
    let mut reg = MethodRegistry::new();
    assert_eq!(register_egui(&mut reg), Ok(()));
    reg
}

#[test]
fn label_then_invalidated_after_scope() {
    let reg = ui_registry();
    let mut table = ObjectTable::new();
    let mut ui = FakeUi { labels: vec![], buttons: vec![], pressed: false };
    let scope = table.open_scope().unwrap();
    let h = table.wrap_borrowed(UI_TYPE, scope).unwrap();
    let args = text("hello");
    let imp = table.call_method(&reg, h, &"label".to_string(), &args);
    assert_eq!(imp, Ok(LABEL_IMPL));
    if let ScriptValue::Text(s) = &args[0] {
        ui.labels.push(s.clone());
    }
    assert_eq!(ui.labels, vec!["hello".to_string()]);
    table.close_scope(scope);
    assert!(!table.is_valid(h));
    assert_eq!(
        table.call_method(&reg, h, &"label".to_string(), &args),
        Err(CallError::Invalidated)
    );
    assert_eq!(ui.labels.len(), 1);
}

fn run_button_tick(pressed: bool) -> bool {
    let reg = ui_registry();
    let mut table = ObjectTable::new();
    let mut ui = FakeUi { labels: vec![], buttons: vec![], pressed };
    let scope = table.open_scope().unwrap();
    let h = table.wrap_borrowed(UI_TYPE, scope).unwrap();
    let args = text("go");
    assert_eq!(table.call_method(&reg, h, &"button".to_string(), &args), Ok(BUTTON_IMPL));
    ui.buttons.push("go".to_string());
    let response = FakeResponse { clicked: ui.pressed };
    let rh = table.wrap_owned(RESPONSE_TYPE);
    let imp = table.call_method(&reg, rh, &"clicked".to_string(), &vec![]);
    assert_eq!(imp, Ok(CLICKED_IMPL));
    table.close_scope(scope);
    assert!(table.is_valid(rh));
    assert_eq!(ui.buttons.len(), 1);
    response.clicked
}

#[test]
fn button_clicked_follows_the_tick() {
    assert!(run_button_tick(true));
    assert!(!run_button_tick(false));
}

#[test]
fn dispatch_errors() {
    let reg = ui_registry();
    let name = "label".to_string();
    assert_eq!(reg.dispatch(UI_TYPE, &name, &text("x")), Ok(LABEL_IMPL));
    assert_eq!(
        reg.dispatch(UI_TYPE, &"slider".to_string(), &text("x")),
        Err(DispatchError::UnknownMethod)
    );
    assert_eq!(reg.dispatch(UI_TYPE, &name, &vec![]), Err(DispatchError::ArityOrTypeMismatch));
    assert_eq!(
        reg.dispatch(UI_TYPE, &name, &vec![ScriptValue::Int(3)]),
        Err(DispatchError::ArityOrTypeMismatch)
    );
    assert_eq!(reg.dispatch(99, &name, &text("x")), Err(DispatchError::UnregisteredType));
    assert_eq!(
        reg.dispatch(RESPONSE_TYPE, &"clicked".to_string(), &text("x")),
        Err(DispatchError::ArityOrTypeMismatch)
    );
}

#[test]
fn call_on_unregistered_type() {
    let reg = ui_registry();
    let mut table = ObjectTable::new();
    let h = table.wrap_owned(42);
    assert_eq!(
        table.call_method(&reg, h, &"label".to_string(), &text("x")),
        Err(CallError::UnregisteredType)
    );
    assert_eq!(
        table.call_method(&reg, h + 1, &"label".to_string(), &text("x")),
        Err(CallError::Invalidated)
    );
}

#[test]
fn duplicate_registration_is_refused() {
    let mut reg = ui_registry();
    assert_eq!(register_egui(&mut reg), Err(RegistrationError::DuplicateMethod));
    assert_eq!(
        reg.register(UI_TYPE, "label".to_string(), vec![], 7),
        Err(RegistrationError::DuplicateMethod)
    );
    assert_eq!(reg.dispatch(UI_TYPE, &"label".to_string(), &text("x")), Ok(LABEL_IMPL));
    assert_eq!(reg.register(UI_TYPE, "separator".to_string(), vec![], 7), Ok(()));
    assert_eq!(reg.dispatch(UI_TYPE, &"separator".to_string(), &vec![]), Ok(7));
    assert!(reg.has_type(UI_TYPE));
    assert!(!reg.has_type(5));
}

#[test]
fn error_in_scope_body_invalidates_first() {
    let mut table = ObjectTable::new();
    let scope = table.open_scope().unwrap();
    let a = table.wrap_borrowed(UI_TYPE, scope).unwrap();
    let b = table.wrap_borrowed(RESPONSE_TYPE, scope).unwrap();
    let owned = table.wrap_owned(RESPONSE_TYPE);
    let outcome: Result<u32, String> = Err("script raised".to_string());
    let r = table.finish_scope(scope, outcome);
    assert_eq!(r, Err("script raised".to_string()));
    assert!(!table.is_valid(a));
    assert!(!table.is_valid(b));
    assert!(table.is_valid(owned));
    assert_eq!(table.wrap_borrowed(UI_TYPE, scope), None);
}

#[test]
fn nested_scopes_are_independent() {
    let mut table = ObjectTable::new();
    let outer = table.open_scope().unwrap();
    let inner = table.open_scope().unwrap();
    assert_ne!(outer, inner);
    let ho = table.wrap_borrowed(UI_TYPE, outer).unwrap();
    let hi = table.wrap_borrowed(UI_TYPE, inner).unwrap();
    assert_eq!(hi, ho + 1);
    table.close_scope(inner);
    assert!(table.is_valid(ho));
    assert!(!table.is_valid(hi));
    table.close_scope(outer);
    assert!(!table.is_valid(ho));
}

#[test]
fn missing_function_is_not_an_error() {
    let globals = ScriptGlobals::new();
    let mut table = ObjectTable::new();
    let r = begin_invocation(&globals, &mut table, &"gui".to_string(), UI_TYPE);
    assert_eq!(r, Err(TickReport::FunctionNotFound));
    assert!(!TickReport::FunctionNotFound.is_failure());
    assert!(!table.is_valid(0));
}

#[test]
fn script_error_is_reported_once_and_next_tick_runs() {
    let mut globals = ScriptGlobals::new();
    globals.execute_chunk(vec![Binding { name: "gui".to_string(), function: 11 }]);
    let mut table = ObjectTable::new();
    let mut log: Vec<TickReport> = vec![];

    let inv = begin_invocation(&globals, &mut table, &"gui".to_string(), UI_TYPE).unwrap();
    assert_eq!(inv.function, 11);
    assert!(table.is_valid(inv.handle));
    let report = end_invocation(&mut table, inv, CallOutcome::RuntimeError);
    assert_eq!(report, TickReport::ScriptError);
    if report.is_failure() {
        log.push(report);
    }
    assert!(!table.is_valid(inv.handle));

    let inv2 = begin_invocation(&globals, &mut table, &"gui".to_string(), UI_TYPE).unwrap();
    assert_ne!(inv2.scope, inv.scope);
    let report2 = end_invocation(&mut table, inv2, CallOutcome::Returned);
    assert_eq!(report2, TickReport::Succeeded);
    if report2.is_failure() {
        log.push(report2);
    }
    assert_eq!(log, vec![TickReport::ScriptError]);
}

#[test]
fn outcome_reports() {
    let mut globals = ScriptGlobals::new();
    globals.define(Binding { name: "gui".to_string(), function: 1 });
    let mut table = ObjectTable::new();
    let inv = begin_invocation(&globals, &mut table, &"gui".to_string(), UI_TYPE).unwrap();
    assert_eq!(
        end_invocation(&mut table, inv, CallOutcome::InvalidatedAccess),
        TickReport::InvalidatedAccess
    );
    let inv = begin_invocation(&globals, &mut table, &"gui".to_string(), UI_TYPE).unwrap();
    assert_eq!(end_invocation(&mut table, inv, CallOutcome::HandleRefused), TickReport::MintFailed);
    assert!(TickReport::MintFailed.is_failure());
    assert!(TickReport::InvalidatedAccess.is_failure());
    assert!(!TickReport::ScopeFailed.is_failure());
    assert!(!TickReport::Succeeded.is_failure());
}

#[test]
fn reloading_same_source_changes_nothing() {
    let chunk = || {
        vec![
            Binding { name: "gui".to_string(), function: 3 },
            Binding { name: "helper".to_string(), function: 4 },
        ]
    };
    let mut globals = ScriptGlobals::new();
    globals.define(Binding { name: "other".to_string(), function: 9 });
    globals.execute_chunk(chunk());
    let first = globals.lookup(&"gui".to_string());
    globals.execute_chunk(chunk());
    assert_eq!(globals.lookup(&"gui".to_string()), first);
    assert_eq!(first, Some(3));
    assert_eq!(globals.lookup(&"helper".to_string()), Some(4));
    assert_eq!(globals.lookup(&"other".to_string()), Some(9));
}

#[test]
fn later_definition_wins() {
    let mut globals = ScriptGlobals::new();
    globals.execute_chunk(vec![
        Binding { name: "gui".to_string(), function: 1 },
        Binding { name: "gui".to_string(), function: 2 },
    ]);
    assert_eq!(globals.lookup(&"gui".to_string()), Some(2));
    assert_eq!(globals.lookup(&"nope".to_string()), None);
}

#[test]
fn argument_kinds() {
    let params = vec![ValueKind::Text, ValueKind::Object];
    assert!(args_match(
        &vec![ScriptValue::Text("a".to_string()), ScriptValue::Object(0)],
        &params
    ));
    assert!(!args_match(&vec![ScriptValue::Object(0), ScriptValue::Text("a".to_string())], &params));
    assert!(args_match(&vec![], &vec![]));
    assert_eq!(ScriptValue::Bool(true).kind(), ValueKind::Bool);
    assert_eq!(ScriptValue::Nil.kind(), ValueKind::Nil);
    assert_eq!(ScriptValue::Int(1).kind(), ValueKind::Int);
}

#[test]
fn borrowed_record_fields() {
    let mut table = ObjectTable::new();
    let scope = table.open_scope().unwrap();
    assert_eq!(scope.id, 0);
    let h = table.wrap_borrowed(UI_TYPE, scope).unwrap();
    assert_eq!(h, 0);
    let expected = ForeignObject { type_key: UI_TYPE, mode: Ownership::Borrowed(0), valid: true };
    assert_eq!(expected.mode, Ownership::Borrowed(scope.id));
}
