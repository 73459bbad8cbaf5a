//! The names of the commands.

use crate::dispatch;
use crate::dispatch::Command;
use vstd::prelude::*;
use vstd::string::*;

verus! {

/// Every command has its name.
pub proof fn commands_have_names()
    ensures
        dispatch::command("set_monitors"@) == Some(Command::SetMonitors),
        dispatch::command("add_monitor"@) == Some(Command::AddMonitor),
        dispatch::command("raise_monitor"@) == Some(Command::RaiseMonitor),
        dispatch::command("lock_tag"@) == Some(Command::LockTag),
        dispatch::command("pad"@) == Some(Command::Pad),
        dispatch::command("focus_monitor"@) == Some(Command::FocusMonitor),
        dispatch::command("cycle_monitor"@) == Some(Command::CycleMonitor),
        dispatch::command("detect_monitors"@) == Some(Command::DetectMonitors),
        dispatch::command("use"@) == Some(Command::Use),
        dispatch::command("use_index"@) == Some(Command::UseIndex),
        dispatch::command("move"@) == Some(Command::Move),
        dispatch::command("spawn"@) == Some(Command::Spawn),
        dispatch::command("keybind"@) == Some(Command::Keybind),
        dispatch::command("keyunbind"@) == Some(Command::Keyunbind),
        dispatch::command("split"@) == Some(Command::Split),
        dispatch::command("focus"@) == Some(Command::Focus),
        dispatch::command("shift"@) == Some(Command::Shift),
        dispatch::command("resize"@) == Some(Command::Resize),
        dispatch::command("remove"@) == Some(Command::Remove),
        dispatch::command("cycle"@) == Some(Command::Cycle),
        dispatch::command("cycle_all"@) == Some(Command::CycleAll),
        dispatch::command("set_layout"@) == Some(Command::SetLayout),
        dispatch::command("cycle_layout"@) == Some(Command::CycleLayout),
        dispatch::command("set"@) == Some(Command::Configure),
        dispatch::command("close"@) == Some(Command::Close),
        dispatch::command("fullscreen"@) == Some(Command::Fullscreen),
        dispatch::command("pseudotile"@) == Some(Command::Pseudotile),
        dispatch::command("floating"@) == Some(Command::Floating),
        dispatch::command("floating_geometry"@) == Some(Command::FloatingGeometry),
        dispatch::command("mousebind"@) == Some(Command::Mousebind),
        dispatch::command("mouseunbind"@) == Some(Command::Mouseunbind),
        dispatch::command("rule"@) == Some(Command::Rule),
        dispatch::command("unrule"@) == Some(Command::Unrule),
        dispatch::command("set_tag_monitor"@) == Some(Command::SetTagMonitor),
        dispatch::command("list_monitors"@) == Some(Command::ListMonitors),
        dispatch::command("list_clients"@) == Some(Command::ListClients),
        dispatch::command("list_outputs"@) == Some(Command::ListOutputs),
        dispatch::command("dump"@) == Some(Command::Dump),
        dispatch::command("quit"@) == Some(Command::Quit),
        dispatch::command("reload"@) == Some(Command::Reload),
{
    reveal_strlit("set_monitors");
    reveal_strlit("add_monitor");
    reveal_strlit("raise_monitor");
    reveal_strlit("lock_tag");
    reveal_strlit("pad");
    reveal_strlit("focus_monitor");
    reveal_strlit("cycle_monitor");
    reveal_strlit("detect_monitors");
    reveal_strlit("use");
    reveal_strlit("use_index");
    reveal_strlit("move");
    reveal_strlit("spawn");
    reveal_strlit("keybind");
    reveal_strlit("keyunbind");
    reveal_strlit("split");
    reveal_strlit("focus");
    reveal_strlit("shift");
    reveal_strlit("resize");
    reveal_strlit("remove");
    reveal_strlit("cycle");
    reveal_strlit("cycle_all");
    reveal_strlit("set_layout");
    reveal_strlit("cycle_layout");
    reveal_strlit("set");
    reveal_strlit("close");
    reveal_strlit("fullscreen");
    reveal_strlit("pseudotile");
    reveal_strlit("floating");
    reveal_strlit("floating_geometry");
    reveal_strlit("mousebind");
    reveal_strlit("mouseunbind");
    reveal_strlit("rule");
    reveal_strlit("unrule");
    reveal_strlit("set_tag_monitor");
    reveal_strlit("list_monitors");
    reveal_strlit("list_clients");
    reveal_strlit("list_outputs");
    reveal_strlit("dump");
    reveal_strlit("quit");
    reveal_strlit("reload");
    // Names of different lengths differ.
    assert("set_monitors"@.len() == 12);
    assert("add_monitor"@.len() == 11);
    assert("raise_monitor"@.len() == 13);
    assert("lock_tag"@.len() == 8);
    assert("pad"@.len() == 3);
    assert("focus_monitor"@.len() == 13);
    assert("cycle_monitor"@.len() == 13);
    assert("detect_monitors"@.len() == 15);
    assert("use"@.len() == 3);
    assert("use_index"@.len() == 9);
    assert("move"@.len() == 4);
    assert("spawn"@.len() == 5);
    assert("keybind"@.len() == 7);
    assert("keyunbind"@.len() == 9);
    assert("split"@.len() == 5);
    assert("focus"@.len() == 5);
    assert("shift"@.len() == 5);
    assert("resize"@.len() == 6);
    assert("remove"@.len() == 6);
    assert("cycle"@.len() == 5);
    assert("cycle_all"@.len() == 9);
    assert("set_layout"@.len() == 10);
    assert("cycle_layout"@.len() == 12);
    assert("set"@.len() == 3);
    assert("close"@.len() == 5);
    assert("fullscreen"@.len() == 10);
    assert("pseudotile"@.len() == 10);
    assert("floating"@.len() == 8);
    assert("floating_geometry"@.len() == 17);
    assert("mousebind"@.len() == 9);
    assert("mouseunbind"@.len() == 11);
    assert("rule"@.len() == 4);
    assert("unrule"@.len() == 6);
    assert("set_tag_monitor"@.len() == 15);
    assert("list_monitors"@.len() == 13);
    assert("list_clients"@.len() == 12);
    assert("list_outputs"@.len() == 12);
    assert("dump"@.len() == 4);
    assert("quit"@.len() == 4);
    assert("reload"@.len() == 6);
    // Names of the same length differ in some place.
    assert("focus_monitor"@[0] != "raise_monitor"@[0]);
    assert("cycle_monitor"@[0] != "raise_monitor"@[0]);
    assert("cycle_monitor"@[0] != "focus_monitor"@[0]);
    assert("use"@[0] != "pad"@[0]);
    assert("keyunbind"@[0] != "use_index"@[0]);
    assert("split"@[2] != "spawn"@[2]);
    assert("focus"@[0] != "spawn"@[0]);
    assert("focus"@[0] != "split"@[0]);
    assert("shift"@[1] != "spawn"@[1]);
    assert("shift"@[1] != "split"@[1]);
    assert("shift"@[0] != "focus"@[0]);
    assert("remove"@[2] != "resize"@[2]);
    assert("cycle"@[0] != "spawn"@[0]);
    assert("cycle"@[0] != "split"@[0]);
    assert("cycle"@[0] != "focus"@[0]);
    assert("cycle"@[0] != "shift"@[0]);
    assert("cycle_all"@[0] != "use_index"@[0]);
    assert("cycle_all"@[0] != "keyunbind"@[0]);
    assert("cycle_layout"@[0] != "set_monitors"@[0]);
    assert("set"@[0] != "pad"@[0]);
    assert("set"@[0] != "use"@[0]);
    assert("close"@[0] != "spawn"@[0]);
    assert("close"@[0] != "split"@[0]);
    assert("close"@[0] != "focus"@[0]);
    assert("close"@[0] != "shift"@[0]);
    assert("close"@[1] != "cycle"@[1]);
    assert("fullscreen"@[0] != "set_layout"@[0]);
    assert("pseudotile"@[0] != "set_layout"@[0]);
    assert("pseudotile"@[0] != "fullscreen"@[0]);
    assert("floating"@[0] != "lock_tag"@[0]);
    assert("mousebind"@[0] != "use_index"@[0]);
    assert("mousebind"@[0] != "keyunbind"@[0]);
    assert("mousebind"@[0] != "cycle_all"@[0]);
    assert("mouseunbind"@[0] != "add_monitor"@[0]);
    assert("rule"@[0] != "move"@[0]);
    assert("unrule"@[0] != "resize"@[0]);
    assert("unrule"@[0] != "remove"@[0]);
    assert("set_tag_monitor"@[0] != "detect_monitors"@[0]);
    assert("list_monitors"@[0] != "raise_monitor"@[0]);
    assert("list_monitors"@[0] != "focus_monitor"@[0]);
    assert("list_monitors"@[0] != "cycle_monitor"@[0]);
    assert("list_clients"@[0] != "set_monitors"@[0]);
    assert("list_clients"@[0] != "cycle_layout"@[0]);
    assert("list_outputs"@[0] != "set_monitors"@[0]);
    assert("list_outputs"@[0] != "cycle_layout"@[0]);
    assert("list_outputs"@[5] != "list_clients"@[5]);
    assert("dump"@[0] != "move"@[0]);
    assert("dump"@[0] != "rule"@[0]);
    assert("quit"@[0] != "move"@[0]);
    assert("quit"@[0] != "rule"@[0]);
    assert("quit"@[0] != "dump"@[0]);
    assert("reload"@[2] != "resize"@[2]);
    assert("reload"@[2] != "remove"@[2]);
    assert("reload"@[0] != "unrule"@[0]);
}

/// Whether a word is the name of a command.
pub open spec fn is_name(word: Seq<char>) -> bool {
    ||| word == "set_monitors"@
    ||| word == "add_monitor"@
    ||| word == "raise_monitor"@
    ||| word == "lock_tag"@
    ||| word == "pad"@
    ||| word == "focus_monitor"@
    ||| word == "cycle_monitor"@
    ||| word == "detect_monitors"@
    ||| word == "use"@
    ||| word == "use_index"@
    ||| word == "move"@
    ||| word == "spawn"@
    ||| word == "keybind"@
    ||| word == "keyunbind"@
    ||| word == "split"@
    ||| word == "focus"@
    ||| word == "shift"@
    ||| word == "resize"@
    ||| word == "remove"@
    ||| word == "cycle"@
    ||| word == "cycle_all"@
    ||| word == "set_layout"@
    ||| word == "cycle_layout"@
    ||| word == "set"@
    ||| word == "close"@
    ||| word == "fullscreen"@
    ||| word == "pseudotile"@
    ||| word == "floating"@
    ||| word == "floating_geometry"@
    ||| word == "mousebind"@
    ||| word == "mouseunbind"@
    ||| word == "rule"@
    ||| word == "unrule"@
    ||| word == "set_tag_monitor"@
    ||| word == "list_monitors"@
    ||| word == "list_clients"@
    ||| word == "list_outputs"@
    ||| word == "dump"@
    ||| word == "quit"@
    ||| word == "reload"@
}

/// No other word names a command.
pub proof fn other_words_name_nothing(word: Seq<char>)
    ensures
        dispatch::command(word) is Some <==> is_name(word),
{
    commands_have_names();
}

} // verus!
