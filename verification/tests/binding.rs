use sommerfluss_ipc::binding::{check_key, parse_binding, parse_mods, parse_mousebutton, split_binding};

// The keysyms that xkbcommon has for these names: ASCII letters and digits map
// to their code points; named keys use the X keysym values; an unknown name has
// the keysym 0. The library takes the keysym from its caller, so it is given
// here.
fn keysym_of(name: &str) -> u32 {
    match name {
        "q" => 0x71,
        "1" => 0x31,
        "Return" => 0xff0d,
        "Tab" => 0xff09,
        "XF86AudioRaiseVolume" => 0x1008ff13,
        _ => 0,
    }
}

/// Reads a binding with the keysym of the key that it names.
fn read(spec: &str) -> Result<(u32, u32), String> {
    let keysym = match split_binding(spec) {
        Ok((_, key)) => keysym_of(&key),
        Err(_) => 0,
    };
    parse_binding(spec, keysym)
}

#[test]
fn binding_modifiers_and_base_keysym() {
    // Mod4 = 64, Shift = 1; the base keysym of 'q' is 0x71.
    assert_eq!(read("Mod4-Shift-q"), Ok((65, 0x71)));
    assert_eq!(read("Mod4+Return"), Ok((64, 0xff0d)));
    assert_eq!(read("super+1"), Ok((64, 0x31)));
    assert_eq!(read("Alt+Tab"), Ok((8, 0xff09)));
}

#[test]
fn binding_resolves_xf86_keys() {
    assert_eq!(read("XF86AudioRaiseVolume"), Ok((0, 0x1008ff13)));
}

#[test]
fn binding_errors() {
    assert!(read("Mod9+q").is_err()); // unknown modifier
    assert!(read("Mod4+definitelynotakey").is_err()); // unknown key
}

#[test]
fn binding_error_texts() {
    assert_eq!(read(""), Err("empty binding ''".to_string()));
    assert_eq!(read("+-+"), Err("empty binding '+-+'".to_string()));
    assert_eq!(read("MOD9+q"), Err("unknown modifier 'mod9'".to_string()));
    assert_eq!(read("Mod4+nokey"), Err("unknown key 'nokey'".to_string()));
    // The first unknown modifier is named, whatever follows it.
    assert_eq!(read("one+two+q"), Err("unknown modifier 'one'".to_string()));
}

#[test]
fn binding_names_the_key_to_look_up() {
    assert_eq!(split_binding("Mod4-Shift-q"), Ok((65, "q".to_string())));
    assert_eq!(split_binding("Return"), Ok((0, "Return".to_string())));
    assert_eq!(split_binding("++Mod4--Ü"), Ok((64, "Ü".to_string())));
}

#[test]
fn keysym_zero_is_no_key() {
    assert_eq!(check_key(64, "x", 0), Err("unknown key 'x'".to_string()));
    assert_eq!(check_key(64, "x", 0x78), Ok((64, 0x78)));
}

#[test]
fn modifier_values() {
    for word in ["mod4", "super", "logo", "win", "mod", "SUPER", "Logo"] {
        assert_eq!(parse_mods(&[word]), Ok(64));
    }
    for word in ["mod1", "alt", "ALT"] {
        assert_eq!(parse_mods(&[word]), Ok(8));
    }
    for word in ["control", "ctrl", "Ctrl"] {
        assert_eq!(parse_mods(&[word]), Ok(4));
    }
    assert_eq!(parse_mods(&["Shift"]), Ok(1));
    assert_eq!(parse_mods(&["Mod3"]), Ok(32));
    assert_eq!(parse_mods(&["Mod5"]), Ok(128));
    assert_eq!(parse_mods(&[]), Ok(0));
    assert_eq!(parse_mods(&["Hyper"]), Err("unknown modifier 'hyper'".to_string()));
    // Only ASCII letters have a lower case here.
    assert_eq!(parse_mods(&["ÄLT"]), Err("unknown modifier 'Ält'".to_string()));
}

#[test]
fn modifier_order_and_repetition() {
    assert_eq!(parse_mods(&["shift", "mod4", "ctrl"]), Ok(69));
    assert_eq!(parse_mods(&["ctrl", "shift", "mod4", "shift"]), Ok(69));
}

#[test]
fn joints_are_alike() {
    assert_eq!(read("Mod4-Shift+q"), read("Mod4+Shift-q"));
    assert_eq!(parse_mousebutton("Mod4-Button1"), parse_mousebutton("Mod4+Button1"));
}

#[test]
fn mouse_buttons() {
    assert_eq!(parse_mousebutton("Mod4-Button1"), Ok((64, 0x110)));
    assert_eq!(parse_mousebutton("Mod4-Button2"), Ok((64, 0x112)));
    assert_eq!(parse_mousebutton("Mod4-Button3"), Ok((64, 0x111)));
    assert_eq!(parse_mousebutton("Button4"), Ok((0, 0x113)));
    assert_eq!(parse_mousebutton("Shift+Button5"), Ok((1, 0x114)));
    assert_eq!(parse_mousebutton("Button6"), Err("unknown button 'Button6'".to_string()));
    // Unlike modifiers, buttons have a case.
    assert_eq!(parse_mousebutton("button1"), Err("unknown button 'button1'".to_string()));
    assert_eq!(parse_mousebutton(""), Err("empty mousebind ''".to_string()));
    assert_eq!(parse_mousebutton("foo+Button1"), Err("unknown modifier 'foo'".to_string()));
}
