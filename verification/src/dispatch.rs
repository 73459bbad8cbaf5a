//! The dispatcher: from the arguments of a request to the command and its
//! first step.

use crate::cmd_bind;
use crate::cmd_bind::{cmd_keybind, cmd_keyunbind, cmd_mousebind, cmd_mouseunbind, cmd_spawn};
use crate::cmd_monitor;
use crate::cmd_monitor::{
    cmd_add_monitor, cmd_cycle_monitor, cmd_detect_monitors, cmd_focus_monitor, cmd_lock_tag,
    cmd_pad, cmd_raise_monitor, cmd_set_monitors,
};
use crate::cmd_rule;
use crate::cmd_rule::{cmd_rule, cmd_set_tag_monitor, cmd_unrule};
use crate::cmd_set;
use crate::cmd_set::cmd_set;
use crate::cmd_tag;
use crate::cmd_tag::{cmd_move, cmd_use, cmd_use_index};
use crate::cmd_tree;
use crate::cmd_tree::{
    cmd_cycle, cmd_cycle_all, cmd_cycle_layout, cmd_focus, cmd_remove, cmd_resize,
    cmd_set_layout, cmd_shift, cmd_split,
};
use crate::cmd_window;
use crate::cmd_window::{
    cmd_close, cmd_floating, cmd_floating_geometry, cmd_window_mode, WinMode,
};
use crate::listing;
use crate::listing::{cmd_dump, list_clients, list_monitors, list_outputs};
use crate::reply;
use crate::reply::err;
use crate::request;
use crate::request::parse_request;
use crate::state::{Model, State};
use crate::step::{Call, CallView, Step, StepView};
use crate::text::same;
use vstd::prelude::*;
use vstd::slice::slice_subrange;
use vstd::string::*;

verus! {

/// The commands that there are.
#[derive(Clone, Copy, Debug, PartialEq, Eq, Structural)]
pub enum Command {
    SetMonitors,
    AddMonitor,
    RaiseMonitor,
    LockTag,
    Pad,
    FocusMonitor,
    CycleMonitor,
    DetectMonitors,
    Use,
    UseIndex,
    Move,
    Spawn,
    Keybind,
    Keyunbind,
    Split,
    Focus,
    Shift,
    Resize,
    Remove,
    Cycle,
    CycleAll,
    SetLayout,
    CycleLayout,
    Configure,
    Close,
    Fullscreen,
    Pseudotile,
    Floating,
    FloatingGeometry,
    Mousebind,
    Mouseunbind,
    Rule,
    Unrule,
    SetTagMonitor,
    ListMonitors,
    ListClients,
    ListOutputs,
    Dump,
    Quit,
    Reload,
}

/// The command that a name stands for.
pub open spec fn command(name: Seq<char>) -> Option<Command> {
    if name == "set_monitors"@ {
        Some(Command::SetMonitors)
    } else if name == "add_monitor"@ {
        Some(Command::AddMonitor)
    } else if name == "raise_monitor"@ {
        Some(Command::RaiseMonitor)
    } else if name == "lock_tag"@ {
        Some(Command::LockTag)
    } else if name == "pad"@ {
        Some(Command::Pad)
    } else if name == "focus_monitor"@ {
        Some(Command::FocusMonitor)
    } else if name == "cycle_monitor"@ {
        Some(Command::CycleMonitor)
    } else if name == "detect_monitors"@ {
        Some(Command::DetectMonitors)
    } else if name == "use"@ {
        Some(Command::Use)
    } else if name == "use_index"@ {
        Some(Command::UseIndex)
    } else if name == "move"@ {
        Some(Command::Move)
    } else if name == "spawn"@ {
        Some(Command::Spawn)
    } else if name == "keybind"@ {
        Some(Command::Keybind)
    } else if name == "keyunbind"@ {
        Some(Command::Keyunbind)
    } else if name == "split"@ {
        Some(Command::Split)
    } else if name == "focus"@ {
        Some(Command::Focus)
    } else if name == "shift"@ {
        Some(Command::Shift)
    } else if name == "resize"@ {
        Some(Command::Resize)
    } else if name == "remove"@ {
        Some(Command::Remove)
    } else if name == "cycle"@ {
        Some(Command::Cycle)
    } else if name == "cycle_all"@ {
        Some(Command::CycleAll)
    } else if name == "set_layout"@ {
        Some(Command::SetLayout)
    } else if name == "cycle_layout"@ {
        Some(Command::CycleLayout)
    } else if name == "set"@ {
        Some(Command::Configure)
    } else if name == "close"@ {
        Some(Command::Close)
    } else if name == "fullscreen"@ {
        Some(Command::Fullscreen)
    } else if name == "pseudotile"@ {
        Some(Command::Pseudotile)
    } else if name == "floating"@ {
        Some(Command::Floating)
    } else if name == "floating_geometry"@ {
        Some(Command::FloatingGeometry)
    } else if name == "mousebind"@ {
        Some(Command::Mousebind)
    } else if name == "mouseunbind"@ {
        Some(Command::Mouseunbind)
    } else if name == "rule"@ {
        Some(Command::Rule)
    } else if name == "unrule"@ {
        Some(Command::Unrule)
    } else if name == "set_tag_monitor"@ {
        Some(Command::SetTagMonitor)
    } else if name == "list_monitors"@ {
        Some(Command::ListMonitors)
    } else if name == "list_clients"@ {
        Some(Command::ListClients)
    } else if name == "list_outputs"@ {
        Some(Command::ListOutputs)
    } else if name == "dump"@ {
        Some(Command::Dump)
    } else if name == "quit"@ {
        Some(Command::Quit)
    } else if name == "reload"@ {
        Some(Command::Reload)
    } else {
        None
    }
}

/// A change of the model with a reply, as a step.
pub open spec fn replied(r: (Model, Seq<char>)) -> (Model, StepView) {
    (r.0, StepView::Reply(r.1))
}

/// What a command does to the model, and the step to which it comes.
pub open spec fn performed(m: Model, what: Command, rest: Seq<Seq<char>>) -> (Model, StepView) {
    match what {
        Command::SetMonitors => replied(cmd_monitor::set_monitors(m, rest)),
        Command::AddMonitor => (m, cmd_monitor::add_monitor(rest)),
        Command::RaiseMonitor => (m, cmd_monitor::raise_monitor(rest)),
        Command::LockTag => (m, cmd_monitor::lock_tag(rest)),
        Command::Pad => (m, cmd_monitor::pad(rest)),
        Command::FocusMonitor => (m, cmd_monitor::focus_monitor(rest)),
        Command::CycleMonitor => replied(cmd_monitor::cycle_monitor(m, rest)),
        Command::DetectMonitors => replied(cmd_monitor::detect_monitors(m)),
        Command::Use => replied(cmd_tag::use_tag(m, rest)),
        Command::UseIndex => replied(cmd_tag::use_index(m, rest)),
        Command::Move => replied(cmd_tag::move_window(m, rest)),
        Command::Spawn => (m, cmd_bind::spawn(rest)),
        Command::Keybind => (m, cmd_bind::keybind(rest)),
        Command::Keyunbind => replied(cmd_bind::keyunbind(m)),
        Command::Split => replied(cmd_tree::split_frame(m, rest)),
        Command::Focus => replied(cmd_tree::focus_dir(m, rest)),
        Command::Shift => replied(cmd_tree::shift_dir(m, rest)),
        Command::Resize => replied(cmd_tree::resize(m, rest)),
        Command::Remove => replied(cmd_tree::remove_frame(m)),
        Command::Cycle => replied(cmd_tree::cycle(m, rest)),
        Command::CycleAll => replied(cmd_tree::cycle_all(m, rest)),
        Command::SetLayout => replied(cmd_tree::set_layout(m, rest)),
        Command::CycleLayout => replied(cmd_tree::cycle_layout(m)),
        Command::Configure => replied(cmd_set::set(m, rest)),
        Command::Close => replied(cmd_window::close(m)),
        Command::Fullscreen => replied(cmd_window::window_mode(m, rest, WinMode::Fullscreen)),
        Command::Pseudotile => replied(cmd_window::window_mode(m, rest, WinMode::Pseudotile)),
        Command::Floating => replied(cmd_window::floating(m, rest)),
        Command::FloatingGeometry => replied(cmd_window::floating_geometry(m, rest)),
        Command::Mousebind => (m, cmd_bind::mousebind(rest)),
        Command::Mouseunbind => replied(cmd_bind::mouseunbind(m)),
        Command::Rule => replied(cmd_rule::rule(m, rest)),
        Command::Unrule => replied(cmd_rule::unrule(m)),
        Command::SetTagMonitor => replied(cmd_rule::set_tag_monitor(m, rest)),
        Command::ListMonitors => (m, StepView::Reply(listing::monitors_text(m))),
        Command::ListClients => (m, StepView::Reply(listing::clients_text(m))),
        Command::ListOutputs => (m, StepView::Reply(listing::outputs_text(m))),
        Command::Dump => (m, StepView::Reply(listing::dump_text(m))),
        Command::Quit => (m, StepView::Call(CallView::Quit)),
        Command::Reload => (m, StepView::Call(CallView::Reload)),
    }
}

/// What a request does to the model, and the step to which it comes.
pub open spec fn dispatched(m: Model, args: Seq<Seq<char>>) -> (Model, StepView) {
    if args.len() == 0 {
        (m, StepView::Reply(reply::err_text("empty command"@)))
    } else {
        match command(args[0]) {
            None => (m, StepView::Reply(reply::err_text("unknown command: "@ + args[0]))),
            Some(what) => performed(m, what, args.skip(1)),
        }
    }
}

impl Command {
    /// The command that a name stands for.
    pub fn parse(name: &str) -> (r: Option<Command>)
        ensures
            r == command(name@),
    {
        if same(name, "set_monitors") {
            Some(Command::SetMonitors)
        } else if same(name, "add_monitor") {
            Some(Command::AddMonitor)
        } else if same(name, "raise_monitor") {
            Some(Command::RaiseMonitor)
        } else if same(name, "lock_tag") {
            Some(Command::LockTag)
        } else if same(name, "pad") {
            Some(Command::Pad)
        } else if same(name, "focus_monitor") {
            Some(Command::FocusMonitor)
        } else if same(name, "cycle_monitor") {
            Some(Command::CycleMonitor)
        } else if same(name, "detect_monitors") {
            Some(Command::DetectMonitors)
        } else if same(name, "use") {
            Some(Command::Use)
        } else if same(name, "use_index") {
            Some(Command::UseIndex)
        } else if same(name, "move") {
            Some(Command::Move)
        } else if same(name, "spawn") {
            Some(Command::Spawn)
        } else if same(name, "keybind") {
            Some(Command::Keybind)
        } else if same(name, "keyunbind") {
            Some(Command::Keyunbind)
        } else if same(name, "split") {
            Some(Command::Split)
        } else if same(name, "focus") {
            Some(Command::Focus)
        } else if same(name, "shift") {
            Some(Command::Shift)
        } else if same(name, "resize") {
            Some(Command::Resize)
        } else if same(name, "remove") {
            Some(Command::Remove)
        } else if same(name, "cycle") {
            Some(Command::Cycle)
        } else if same(name, "cycle_all") {
            Some(Command::CycleAll)
        } else if same(name, "set_layout") {
            Some(Command::SetLayout)
        } else if same(name, "cycle_layout") {
            Some(Command::CycleLayout)
        } else if same(name, "set") {
            Some(Command::Configure)
        } else if same(name, "close") {
            Some(Command::Close)
        } else if same(name, "fullscreen") {
            Some(Command::Fullscreen)
        } else if same(name, "pseudotile") {
            Some(Command::Pseudotile)
        } else if same(name, "floating") {
            Some(Command::Floating)
        } else if same(name, "floating_geometry") {
            Some(Command::FloatingGeometry)
        } else if same(name, "mousebind") {
            Some(Command::Mousebind)
        } else if same(name, "mouseunbind") {
            Some(Command::Mouseunbind)
        } else if same(name, "rule") {
            Some(Command::Rule)
        } else if same(name, "unrule") {
            Some(Command::Unrule)
        } else if same(name, "set_tag_monitor") {
            Some(Command::SetTagMonitor)
        } else if same(name, "list_monitors") {
            Some(Command::ListMonitors)
        } else if same(name, "list_clients") {
            Some(Command::ListClients)
        } else if same(name, "list_outputs") {
            Some(Command::ListOutputs)
        } else if same(name, "dump") {
            Some(Command::Dump)
        } else if same(name, "quit") {
            Some(Command::Quit)
        } else if same(name, "reload") {
            Some(Command::Reload)
        } else {
            None
        }
    }
}

/// Performs a command up to its first step.
fn perform(state: &mut State, what: Command, rest: &[String]) -> (step: Step)
    ensures
        (final(state)@, step@) == performed(old(state)@, what, rest.deep_view()),
{
    match what {
        Command::SetMonitors => Step::Reply(cmd_set_monitors(state, rest)),
        Command::AddMonitor => cmd_add_monitor(rest),
        Command::RaiseMonitor => cmd_raise_monitor(rest),
        Command::LockTag => cmd_lock_tag(rest),
        Command::Pad => cmd_pad(rest),
        Command::FocusMonitor => cmd_focus_monitor(rest),
        Command::CycleMonitor => Step::Reply(cmd_cycle_monitor(state, rest)),
        Command::DetectMonitors => Step::Reply(cmd_detect_monitors(state)),
        Command::Use => Step::Reply(cmd_use(state, rest)),
        Command::UseIndex => Step::Reply(cmd_use_index(state, rest)),
        Command::Move => Step::Reply(cmd_move(state, rest)),
        Command::Spawn => cmd_spawn(rest),
        Command::Keybind => cmd_keybind(rest),
        Command::Keyunbind => Step::Reply(cmd_keyunbind(state, rest)),
        Command::Split => Step::Reply(cmd_split(state, rest)),
        Command::Focus => Step::Reply(cmd_focus(state, rest)),
        Command::Shift => Step::Reply(cmd_shift(state, rest)),
        Command::Resize => Step::Reply(cmd_resize(state, rest)),
        Command::Remove => Step::Reply(cmd_remove(state)),
        Command::Cycle => Step::Reply(cmd_cycle(state, rest)),
        Command::CycleAll => Step::Reply(cmd_cycle_all(state, rest)),
        Command::SetLayout => Step::Reply(cmd_set_layout(state, rest)),
        Command::CycleLayout => Step::Reply(cmd_cycle_layout(state)),
        Command::Configure => Step::Reply(cmd_set(state, rest)),
        Command::Close => Step::Reply(cmd_close(state)),
        Command::Fullscreen => Step::Reply(cmd_window_mode(state, rest, WinMode::Fullscreen)),
        Command::Pseudotile => Step::Reply(cmd_window_mode(state, rest, WinMode::Pseudotile)),
        Command::Floating => Step::Reply(cmd_floating(state, rest)),
        Command::FloatingGeometry => Step::Reply(cmd_floating_geometry(state, rest)),
        Command::Mousebind => cmd_mousebind(rest),
        Command::Mouseunbind => Step::Reply(cmd_mouseunbind(state, rest)),
        Command::Rule => Step::Reply(cmd_rule(state, rest)),
        Command::Unrule => Step::Reply(cmd_unrule(state)),
        Command::SetTagMonitor => Step::Reply(cmd_set_tag_monitor(state, rest)),
        Command::ListMonitors => Step::Reply(list_monitors(state)),
        Command::ListClients => Step::Reply(list_clients(state)),
        Command::ListOutputs => Step::Reply(list_outputs(state)),
        Command::Dump => Step::Reply(cmd_dump(state)),
        Command::Quit => Step::Call(Call::Quit),
        Command::Reload => Step::Call(Call::Reload),
    }
}

/// Dispatches a request. The step is its reply, or a call on the window
/// manager that comes before it.
pub fn dispatch(state: &mut State, args: &[String]) -> (step: Step)
    ensures
        (final(state)@, step@) == dispatched(old(state)@, args.deep_view()),
{
    if args.len() == 0 {
        return Step::Reply(err("empty command"));
    }
    let name = args[0].as_str();
    let rest = slice_subrange(args, 1, args.len());
    assert(rest.deep_view() =~= args.deep_view().skip(1));
    match Command::parse(name) {
        Some(what) => perform(state, what, rest),
        None => {
            let mut msg = "unknown command: ".to_owned();
            msg.append(name);
            Step::Reply(err(msg.as_str()))
        },
    }
}

/// Dispatches a request as it arrived. What is dispatched are the arguments
/// that the client sent.
pub fn handle_request(state: &mut State, buf: &[u8]) -> (step: Step)
    ensures
        (final(state)@, step@) == dispatched(old(state)@, request::request_args(buf@)),
        forall|texts: Seq<Seq<char>>|
            request::are_sendable(texts) && buf@ == #[trigger] request::sent(texts)
                ==> request::request_args(buf@) == texts,
{
    let parsed = parse_request(buf);
    let args = parsed.as_slice();
    assert(args.deep_view() =~= parsed.deep_view());
    dispatch(state, args)
}

} // verus!
