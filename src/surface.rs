use vstd::prelude::*;
use crate::value::ValueKind;
use crate::registry::{MethodRegistry, MethodSig, RegistrationError, with_method};

verus! {

/// The type key of the per-tick UI context.
pub const UI_TYPE: u64 = 1;

/// The type key of a button's interaction result.
pub const RESPONSE_TYPE: u64 = 2;

/// Implementation id: emit a text label.
pub const LABEL_IMPL: u64 = 1;

/// Implementation id: emit a button and return its interaction result.
pub const BUTTON_IMPL: u64 = 2;

/// Implementation id: whether the button was clicked this tick.
pub const CLICKED_IMPL: u64 = 3;

pub open spec fn label_name() -> Seq<char> {
    seq!['l', 'a', 'b', 'e', 'l']
}

pub open spec fn button_name() -> Seq<char> {
    seq!['b', 'u', 't', 't', 'o', 'n']
}

pub open spec fn clicked_name() -> Seq<char> {
    seq!['c', 'l', 'i', 'c', 'k', 'e', 'd']
}

/// The registry model once the UI surface is registered on `m`.
pub open spec fn with_ui_surface(m: Map<u64, Map<Seq<char>, MethodSig>>) -> Map<
    u64,
    Map<Seq<char>, MethodSig>,
> {
    let m1 = with_method(
        m,
        RESPONSE_TYPE,
        clicked_name(),
        MethodSig { params: Seq::empty(), implementation: CLICKED_IMPL },
    );
    let m2 = with_method(
        m1,
        UI_TYPE,
        label_name(),
        MethodSig { params: seq![ValueKind::Text], implementation: LABEL_IMPL },
    );
    with_method(
        m2,
        UI_TYPE,
        button_name(),
        MethodSig { params: seq![ValueKind::Text], implementation: BUTTON_IMPL },
    )
}

/// Whether `m` already has a method of the UI surface.
pub open spec fn has_ui_method(m: Map<u64, Map<Seq<char>, MethodSig>>) -> bool {
    ||| m.contains_key(RESPONSE_TYPE) && m[RESPONSE_TYPE].contains_key(clicked_name())
    ||| m.contains_key(UI_TYPE) && m[UI_TYPE].contains_key(label_name())
    ||| m.contains_key(UI_TYPE) && m[UI_TYPE].contains_key(button_name())
}

/// Registers the UI surface that scripts call: `label(text)` and
/// `button(text)` on the UI context, `clicked()` on a button's result.
/// Fails with `DuplicateMethod` exactly where one of them is already there.
pub fn register_egui(reg: &mut MethodRegistry) -> (r: Result<(), RegistrationError>)
    requires
        old(reg).wf(),
    ensures
        final(reg).wf(),
        !has_ui_method(old(reg)@) ==> r == Ok::<(), RegistrationError>(()) && final(reg)@
            == with_ui_surface(old(reg)@),
        has_ui_method(old(reg)@) ==> r == Err::<(), RegistrationError>(
            RegistrationError::DuplicateMethod,
        ),
{
    let ghost m = reg@;
    let clicked = "clicked".to_owned();
    let label = "label".to_owned();
    let button = "button".to_owned();
    proof {
        reveal_strlit("clicked");
        reveal_strlit("label");
        reveal_strlit("button");
        assert(clicked@ =~= clicked_name());
        assert(label@ =~= label_name());
        assert(button@ =~= button_name());
        assert(label_name() != button_name());
    }
    reg.register(RESPONSE_TYPE, clicked, Vec::new(), CLICKED_IMPL)?;
    let mut text_param: Vec<ValueKind> = Vec::new();
    text_param.push(ValueKind::Text);
    proof {
        assert(text_param@ =~= seq![ValueKind::Text]);
    }
    reg.register(UI_TYPE, label, text_param, LABEL_IMPL)?;
    let mut text_param2: Vec<ValueKind> = Vec::new();
    text_param2.push(ValueKind::Text);
    proof {
        assert(text_param2@ =~= seq![ValueKind::Text]);
    }
    reg.register(UI_TYPE, button, text_param2, BUTTON_IMPL)
}

} // verus!
