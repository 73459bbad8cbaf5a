//! Commands that need an answer of the window manager before they can reply.
//!
//! Such a command makes a [`Call`]. The manager performs it and hands the
//! [`Answer`] to [`resume`], which goes on from there.

use crate::binding;
use crate::binding::check_key;
use crate::geometry::{Insets, Rect};
use crate::number;
use crate::number::decimal;
use crate::reply;
use crate::reply::{err, err_quote, ok};
use crate::state;
use crate::state::{Model, MonitorSel, OpView, State, TagId};
use vstd::prelude::*;
use vstd::string::*;

verus! {

/// What the window manager is asked to do and to answer.
#[derive(Debug, PartialEq, Eq)]
pub enum Call {
    /// Add a monitor. The answer is its id.
    AddMonitor { rect: Rect, tag: TagId, name: Option<String> },
    /// Raise a monitor. The answer says whether there is such a one.
    RaiseMonitor { sel: MonitorSel },
    /// Lock a tag to a monitor. The answer says whether there is such a one.
    LockTag { tag: TagId, sel: MonitorSel },
    /// Set the pad of a monitor. The answer says whether there is such a one.
    SetPad { sel: MonitorSel, pad: Insets },
    /// Focus a monitor. The answer says whether there is such a one.
    FocusMonitor { sel: MonitorSel },
    /// Bind a button. The answer says whether that could be done.
    AddMousebind { mods: u32, button: u32, resize: bool },
    /// Look up the keysym of a key's name, which is 0 when there is none.
    LookUpKey { mods: u32, key: String, command: Vec<String> },
    /// Bind a key to a command. The answer says whether that could be done.
    AddKeybind { mods: u32, keysym: u32, command: Vec<String> },
    /// Start a program. The answer says whether that could be done.
    Spawn { program: String, args: Vec<String> },
    /// Run the autostart again.
    Reload,
    /// Leave. There is no answer.
    Quit,
}

/// A call, with its texts as characters.
pub enum CallView {
    AddMonitor { rect: Rect, tag: TagId, name: Option<Seq<char>> },
    RaiseMonitor { sel: Seq<char> },
    LockTag { tag: TagId, sel: Seq<char> },
    SetPad { sel: Seq<char>, pad: Insets },
    FocusMonitor { sel: Seq<char> },
    AddMousebind { mods: u32, button: u32, resize: bool },
    LookUpKey { mods: u32, key: Seq<char>, command: Seq<Seq<char>> },
    AddKeybind { mods: u32, keysym: u32, command: Seq<Seq<char>> },
    Spawn { program: Seq<char>, args: Seq<Seq<char>> },
    Reload,
    Quit,
}

impl View for Call {
    type V = CallView;

    open spec fn view(&self) -> CallView {
        match *self {
            Call::AddMonitor { rect, tag, name } => CallView::AddMonitor {
                rect,
                tag,
                name: state::text_view(name),
            },
            Call::RaiseMonitor { sel } => CallView::RaiseMonitor { sel: sel@ },
            Call::LockTag { tag, sel } => CallView::LockTag { tag, sel: sel@ },
            Call::SetPad { sel, pad } => CallView::SetPad { sel: sel@, pad },
            Call::FocusMonitor { sel } => CallView::FocusMonitor { sel: sel@ },
            Call::AddMousebind { mods, button, resize } => CallView::AddMousebind {
                mods,
                button,
                resize,
            },
            Call::LookUpKey { mods, key, command } => CallView::LookUpKey {
                mods,
                key: key@,
                command: command.deep_view(),
            },
            Call::AddKeybind { mods, keysym, command } => CallView::AddKeybind {
                mods,
                keysym,
                command: command.deep_view(),
            },
            Call::Spawn { program, args } => CallView::Spawn {
                program: program@,
                args: args.deep_view(),
            },
            Call::Reload => CallView::Reload,
            Call::Quit => CallView::Quit,
        }
    }
}

/// How far a command has come: to its reply, or to a call.
#[derive(Debug, PartialEq, Eq)]
pub enum Step {
    Reply(String),
    Call(Call),
}

/// A step, with its texts as characters.
pub enum StepView {
    Reply(Seq<char>),
    Call(CallView),
}

impl View for Step {
    type V = StepView;

    open spec fn view(&self) -> StepView {
        match *self {
            Step::Reply(text) => StepView::Reply(text@),
            Step::Call(call) => StepView::Call(call@),
        }
    }
}

/// What the window manager answers.
#[derive(Debug, PartialEq, Eq)]
pub enum Answer {
    Added(u32),
    Found(bool),
    Keysym(u32),
    Done(Result<(), String>),
}

/// An answer, with its texts as characters.
pub enum AnswerView {
    Added(u32),
    Found(bool),
    Keysym(u32),
    Done(Result<(), Seq<char>>),
}

impl View for Answer {
    type V = AnswerView;

    open spec fn view(&self) -> AnswerView {
        match *self {
            Answer::Added(id) => AnswerView::Added(id),
            Answer::Found(found) => AnswerView::Found(found),
            Answer::Keysym(keysym) => AnswerView::Keysym(keysym),
            Answer::Done(result) => AnswerView::Done(binding::result_view(result)),
        }
    }
}

/// Whether an answer is of the kind that a call asks for.
pub open spec fn answers(call: CallView, answer: AnswerView) -> bool {
    match call {
        CallView::AddMonitor { .. } => answer is Added,
        CallView::RaiseMonitor { .. } => answer is Found,
        CallView::LockTag { .. } => answer is Found,
        CallView::SetPad { .. } => answer is Found,
        CallView::FocusMonitor { .. } => answer is Found,
        CallView::LookUpKey { .. } => answer is Keysym,
        CallView::AddMousebind { .. } => answer is Done,
        CallView::AddKeybind { .. } => answer is Done,
        CallView::Spawn { .. } => answer is Done,
        CallView::Reload => answer is Done,
        CallView::Quit => false,
    }
}

/// After a monitor was found, a manage pass is due; when none was found, the
/// command is refused.
pub open spec fn after_search(
    m: Model,
    complaint: Seq<char>,
    sel: Seq<char>,
    found: bool,
) -> (Model, StepView) {
    if found {
        (
            state::queued(m, OpView::Manage),
            StepView::Reply(reply::ok_text()),
        )
    } else {
        (
            m,
            StepView::Reply(reply::err_text(reply::quoted(complaint, sel))),
        )
    }
}

/// The reply to a deed of the manager that may have failed.
pub open spec fn after_deed(command: Seq<char>, result: Result<(), Seq<char>>) -> Seq<char> {
    match result {
        Ok(_) => reply::ok_text(),
        Err(e) => reply::err_text(command + ": "@ + e),
    }
}

/// After a binding was made, a manage pass is due; when it could not be
/// made, the command is refused.
pub open spec fn after_binding(m: Model, command: Seq<char>, result: Result<(), Seq<char>>) -> (
    Model,
    StepView,
) {
    (
        if result is Ok {
            state::queued(m, OpView::Manage)
        } else {
            m
        },
        StepView::Reply(after_deed(command, result)),
    )
}

/// Where a command goes on after the answer to its call.
pub open spec fn resumed(m: Model, call: CallView, answer: AnswerView) -> (
    Model,
    StepView,
) {
    match (call, answer) {
        (CallView::AddMonitor { .. }, AnswerView::Added(id)) => (
            state::queued(m, OpView::Manage),
            StepView::Reply("monitor "@ + number::dec(id as nat) + "\n"@),
        ),
        (CallView::RaiseMonitor { sel }, AnswerView::Found(found)) => after_search(
            m,
            "raise_monitor: no such monitor"@,
            sel,
            found,
        ),
        (CallView::LockTag { sel, .. }, AnswerView::Found(found)) => after_search(
            m,
            "lock_tag: no such monitor"@,
            sel,
            found,
        ),
        (CallView::SetPad { sel, .. }, AnswerView::Found(found)) => after_search(
            m,
            "pad: no such monitor"@,
            sel,
            found,
        ),
        (CallView::FocusMonitor { sel }, AnswerView::Found(found)) => after_search(
            m,
            "focus_monitor: no such monitor"@,
            sel,
            found,
        ),
        (CallView::LookUpKey { mods, key, command }, AnswerView::Keysym(keysym)) => {
            match binding::known_key(mods, key, keysym) {
                Ok((mods, keysym)) => (
                    m,
                    StepView::Call(CallView::AddKeybind { mods, keysym, command }),
                ),
                Err(e) => (m, StepView::Reply(reply::err_text("keybind"@ + ": "@ + e))),
            }
        },
        (CallView::AddMousebind { .. }, AnswerView::Done(result)) => after_binding(
            m,
            "mousebind"@,
            result,
        ),
        (CallView::AddKeybind { .. }, AnswerView::Done(result)) => after_binding(
            m,
            "keybind"@,
            result,
        ),
        (CallView::Spawn { .. }, AnswerView::Done(result)) => (
            m,
            StepView::Reply(after_deed("spawn"@, result)),
        ),
        _ => (m, StepView::Reply(reply::ok_text())),
    }
}

/// Replies to a command that named a monitor.
fn conclude_search(
    state: &mut State,
    complaint: &str,
    sel: &MonitorSel,
    found: bool,
) -> (step: Step)
    ensures
        (final(state)@, step@) == after_search(old(state)@, complaint@, sel@, found),
{
    if found {
        state.request_manage();
        Step::Reply(ok())
    } else {
        Step::Reply(err_quote(complaint, sel.text.as_str()))
    }
}

/// An error reply of a command that passes on a complaint.
pub fn err_of(command: &str, e: &str) -> (r: String)
    ensures
        r@ == reply::err_text(command@ + ": "@ + e@),
{
    let mut msg = command.to_owned();
    msg.append(": ");
    msg.append(e);
    err(msg.as_str())
}

/// Replies to a command whose deed may have failed.
fn conclude_deed(command: &str, result: &Result<(), String>) -> (r: String)
    ensures
        r@ == after_deed(command@, binding::result_view(*result)),
{
    match result {
        Ok(_) => ok(),
        Err(e) => err_of(command, e.as_str()),
    }
}

/// Replies to a command that made a binding.
fn conclude_binding(state: &mut State, command: &str, result: &Result<(), String>) -> (step: Step)
    ensures
        (final(state)@, step@) == after_binding(
            old(state)@,
            command@,
            binding::result_view(*result),
        ),
{
    if result.is_ok() {
        state.request_manage();
    }
    Step::Reply(conclude_deed(command, result))
}

/// Goes on with a command after the answer to its call.
pub fn resume(state: &mut State, call: Call, answer: Answer) -> (step: Step)
    requires
        answers(call@, answer@),
    ensures
        (final(state)@, step@) == resumed(old(state)@, call@, answer@),
{
    match (call, answer) {
        (Call::AddMonitor { .. }, Answer::Added(id)) => {
            state.request_manage();
            let mut r = "monitor ".to_owned();
            let n = decimal(id as u64);
            r.append(n.as_str());
            r.append("\n");
            Step::Reply(r)
        },
        (Call::RaiseMonitor { sel }, Answer::Found(found)) => conclude_search(
            state,
            "raise_monitor: no such monitor",
            &sel,
            found,
        ),
        (Call::LockTag { sel, .. }, Answer::Found(found)) => conclude_search(
            state,
            "lock_tag: no such monitor",
            &sel,
            found,
        ),
        (Call::SetPad { sel, .. }, Answer::Found(found)) => conclude_search(
            state,
            "pad: no such monitor",
            &sel,
            found,
        ),
        (Call::FocusMonitor { sel }, Answer::Found(found)) => conclude_search(
            state,
            "focus_monitor: no such monitor",
            &sel,
            found,
        ),
        (Call::LookUpKey { mods, key, command }, Answer::Keysym(keysym)) => {
            match check_key(mods, key.as_str(), keysym) {
                Ok((mods, keysym)) => Step::Call(Call::AddKeybind { mods, keysym, command }),
                Err(e) => Step::Reply(err_of("keybind", e.as_str())),
            }
        },
        (Call::AddMousebind { .. }, Answer::Done(result)) => conclude_binding(
            state,
            "mousebind",
            &result,
        ),
        (Call::AddKeybind { .. }, Answer::Done(result)) => conclude_binding(
            state,
            "keybind",
            &result,
        ),
        (Call::Spawn { .. }, Answer::Done(result)) => Step::Reply(conclude_deed("spawn", &result)),
        _ => Step::Reply(ok()),
    }
}

/// Calls in the model are those that are made, with their texts as
/// characters.
pub proof fn calls_are_faithful(call: Call)
    ensures
        call matches Call::AddMonitor { rect, tag, name: Some(name) } ==> call@ == (
        CallView::AddMonitor { rect, tag, name: Some(name@) }),
        call matches Call::AddMonitor { rect, tag, name: None } ==> call@ == (
        CallView::AddMonitor { rect, tag, name: None }),
        call matches Call::RaiseMonitor { sel } ==> call@ == (CallView::RaiseMonitor {
            sel: sel.text@,
        }),
        call matches Call::LockTag { tag, sel } ==> call@ == (CallView::LockTag {
            tag,
            sel: sel.text@,
        }),
        call matches Call::SetPad { sel, pad } ==> call@ == (CallView::SetPad {
            sel: sel.text@,
            pad,
        }),
        call matches Call::FocusMonitor { sel } ==> call@ == (CallView::FocusMonitor {
            sel: sel.text@,
        }),
        call matches Call::AddMousebind { mods, button, resize } ==> call@ == (
        CallView::AddMousebind { mods, button, resize }),
        call matches Call::LookUpKey { mods, key, command } ==> call@ == (CallView::LookUpKey {
            mods,
            key: key@,
            command: command.deep_view(),
        }),
        call matches Call::AddKeybind { mods, keysym, command } ==> call@ == (
        CallView::AddKeybind { mods, keysym, command: command.deep_view() }),
        call matches Call::Spawn { program, args } ==> call@ == (CallView::Spawn {
            program: program@,
            args: args.deep_view(),
        }),
        call matches Call::Reload ==> call@ == CallView::Reload,
        call matches Call::Quit ==> call@ == CallView::Quit,
{
}

/// Steps and answers in the model are those that are taken and given.
pub proof fn steps_are_faithful(step: Step, answer: Answer)
    ensures
        step matches Step::Reply(text) ==> step@ == StepView::Reply(text@),
        step matches Step::Call(call) ==> step@ == StepView::Call(call@),
        answer matches Answer::Added(id) ==> answer@ == AnswerView::Added(id),
        answer matches Answer::Found(found) ==> answer@ == AnswerView::Found(found),
        answer matches Answer::Keysym(keysym) ==> answer@ == AnswerView::Keysym(keysym),
        answer matches Answer::Done(Ok(_)) ==> answer@ == AnswerView::Done(Ok(())),
        answer matches Answer::Done(Err(e)) ==> answer@ == AnswerView::Done(Err(e@)),
{
}

} // verus!
