//! Bindings of keys and buttons, and starting programs.

use crate::args::copy_from;
use crate::binding;
use crate::binding::{parse_mousebutton, split_binding};
use crate::reply;
use crate::reply::{err, err_quote, ok};
use crate::state;
use crate::state::{Model, Op, OpView, State};
use crate::step::{err_of, Call, CallView, Step, StepView};
use crate::text::same;
use vstd::prelude::*;

verus! {

/// Whether a button drags a window's size, and not its place.
pub open spec fn drag(word: Seq<char>) -> Option<bool> {
    if word == "move"@ {
        Some(false)
    } else if word == "resize"@ || word == "zoom"@ {
        Some(true)
    } else {
        None
    }
}

/// What `mousebind` comes to.
pub open spec fn mousebind(rest: Seq<Seq<char>>) -> StepView {
    if rest.len() < 2 {
        StepView::Reply(
            reply::err_text("mousebind: expected <mods+ButtonN> <move|resize|zoom>"@),
        )
    } else {
        match (binding::mousebutton(rest[0]), drag(rest[1])) {
            (Err(e), _) => StepView::Reply(reply::err_text("mousebind"@ + ": "@ + e)),
            (Ok(_), None) => StepView::Reply(
                reply::err_text(reply::quoted("mousebind: unknown action"@, rest[1])),
            ),
            (Ok((mods, button)), Some(resize)) => StepView::Call(
                CallView::AddMousebind { mods, button, resize },
            ),
        }
    }
}

/// What `mouseunbind` does.
pub open spec fn mouseunbind(m: Model) -> (Model, Seq<char>) {
    (state::managed(m, OpView::ClearMousebinds), reply::ok_text())
}

/// What `keybind` comes to: the lookup of the key.
pub open spec fn keybind(rest: Seq<Seq<char>>) -> StepView {
    if rest.len() < 2 {
        StepView::Reply(reply::err_text("keybind: expected <mods+key> <command...>"@))
    } else {
        match binding::binding_parts(rest[0]) {
            Err(e) => StepView::Reply(reply::err_text("keybind"@ + ": "@ + e)),
            Ok((mods, key)) => StepView::Call(
                CallView::LookUpKey { mods, key, command: rest.skip(1) },
            ),
        }
    }
}

/// What `keyunbind` does.
pub open spec fn keyunbind(m: Model) -> (Model, Seq<char>) {
    (state::managed(m, OpView::ClearKeybinds), reply::ok_text())
}

/// What `spawn` comes to.
pub open spec fn spawn(rest: Seq<Seq<char>>) -> StepView {
    if rest.len() == 0 {
        StepView::Reply(reply::err_text("spawn: expected a command"@))
    } else {
        StepView::Call(CallView::Spawn { program: rest[0], args: rest.skip(1) })
    }
}

/// `mousebind <mods+ButtonN> <move|resize|zoom>`: binds a button to a drag.
pub fn cmd_mousebind(rest: &[String]) -> (step: Step)
    ensures
        step@ == mousebind(rest.deep_view()),
{
    if rest.len() < 2 {
        return Step::Reply(err("mousebind: expected <mods+ButtonN> <move|resize|zoom>"));
    }
    let (mods, button) = match parse_mousebutton(rest[0].as_str()) {
        Ok(v) => v,
        Err(e) => return Step::Reply(err_of("mousebind", e.as_str())),
    };
    let action = rest[1].as_str();
    let resize = if same(action, "move") {
        false
    } else if same(action, "resize") || same(action, "zoom") {
        true
    } else {
        return Step::Reply(err_quote("mousebind: unknown action", action));
    };
    Step::Call(Call::AddMousebind { mods, button, resize })
}

/// `mouseunbind`: drops all button bindings, whatever its arguments.
pub fn cmd_mouseunbind(state: &mut State, _rest: &[String]) -> (r: String)
    ensures
        (final(state)@, r@) == mouseunbind(old(state)@),
{
    state.queue_and_manage(Op::ClearMousebinds);
    ok()
}

/// `keybind <mods+key> <command...>`: binds a key to a command. The name of
/// the key is looked up first.
pub fn cmd_keybind(rest: &[String]) -> (step: Step)
    ensures
        step@ == keybind(rest.deep_view()),
{
    if rest.len() < 2 {
        return Step::Reply(err("keybind: expected <mods+key> <command...>"));
    }
    match split_binding(rest[0].as_str()) {
        Ok((mods, key)) => Step::Call(Call::LookUpKey { mods, key, command: copy_from(rest, 1) }),
        Err(e) => Step::Reply(err_of("keybind", e.as_str())),
    }
}

/// `keyunbind [--all]`: drops all key bindings, whatever its arguments.
pub fn cmd_keyunbind(state: &mut State, _rest: &[String]) -> (r: String)
    ensures
        (final(state)@, r@) == keyunbind(old(state)@),
{
    state.queue_and_manage(Op::ClearKeybinds);
    ok()
}

/// `spawn <program> [args...]`: starts a program.
pub fn cmd_spawn(rest: &[String]) -> (step: Step)
    ensures
        step@ == spawn(rest.deep_view()),
{
    if rest.len() == 0 {
        Step::Reply(err("spawn: expected a command"))
    } else {
        Step::Call(Call::Spawn { program: rest[0].clone(), args: copy_from(rest, 1) })
    }
}

} // verus!
