use dtrwm::action::{parse_action, parse_layout, Action};
use dtrwm::config::{
    combine_key, default_bindings, define_bindings, key_name, key_symbol, key_symbols, parse_key,
    Binding, Colors, Config,
};
use dtrwm::layout::Layout;
use std::cell::RefCell;

fn binding(keys: &str, action: &str, arg: &str) -> Binding {
    Binding { keys: keys.to_string(), action: action.to_string(), arg: arg.to_string() }
}

#[test]
fn default_settings() {
    let cfg = Config::default();
    assert_eq!(cfg.border_px, 2);
    assert_eq!(cfg.gap, 0);
    assert_eq!(cfg.default_layout, "tile");
    assert!(!cfg.focus_follows_mouse);
    assert_eq!(cfg.colors.focused, "#88c0d0ff");
    assert_eq!(cfg.colors.unfocused, "#3b4252ff");
    assert_eq!(cfg.bindings.len(), 10);
    assert_eq!(Colors::default().focused, "#88c0d0ff");
}

#[test]
fn default_bindings_all_mean_something() {
    let bindings = default_bindings();
    let keysyms: Vec<u32> = (1..=10).collect();
    let defs = define_bindings(&bindings, &keysyms);
    assert_eq!(defs.len(), 10);
    assert_eq!(defs[0], (1, 64, Action::Spawn("kitty".to_string())));
    assert_eq!(defs[2], (3, 65, Action::Quit));
    assert_eq!(defs[6], (7, 64, Action::SetLayout(Layout::Grid)));
    assert_eq!(defs[9], (10, 64, Action::Reload));
}

#[test]
fn modifiers_of_keys() {
    assert_eq!(combine_key("Super+Return", 5), Some((5, 64)));
    assert_eq!(combine_key("q", 5), Some((5, 0)));
    assert_eq!(combine_key("LOGO+Shift+ctrl+ALT+x", 5), Some((5, 77)));
    assert_eq!(combine_key("meta+win+mod4+super+x", 5), Some((5, 64)));
    assert_eq!(combine_key("control+mod1+x", 5), Some((5, 12)));
}

#[test]
fn unknown_modifier() {
    assert_eq!(combine_key("Hyper+x", 5), None);
    assert_eq!(combine_key("+x", 5), None);
    assert_eq!(combine_key("Super +x", 5), None);
}

#[test]
fn unknown_key() {
    assert_eq!(combine_key("Super+x", 0), None);
}

#[test]
fn the_name_of_the_key_is_looked_up() {
    let asked: RefCell<Vec<String>> = RefCell::new(Vec::new());
    let look_up = |name: &str| {
        asked.borrow_mut().push(name.to_string());
        if name == "Return" {
            0xff0d
        } else {
            0
        }
    };
    assert_eq!(parse_key("Super+Return", &look_up), Some((0xff0d, 64)));
    assert_eq!(parse_key("Super+return", &look_up), None);
    assert_eq!(parse_key("Hyper+Return", &look_up), None);
    assert_eq!(*asked.borrow(), vec!["Return", "return"]);
}

#[test]
fn symbols_of_bindings() {
    let look_up = |name: &str| name.len() as u32;
    assert_eq!(key_symbol("Super+abc", &look_up), 3);
    assert_eq!(key_symbol("Hyper+abc", &look_up), 0);
    let bindings = vec![
        binding("Super+ab", "close", ""),
        binding("Hyper+ab", "close", ""),
        binding("x", "dance", ""),
    ];
    assert_eq!(key_symbols(&bindings, &look_up), vec![2, 0, 1]);
}

#[test]
fn modifiers_count_once() {
    assert_eq!(
        combine_key("shift+SUPER+win+e", 9),
        combine_key("Super+Shift+Win+shift+e", 9)
    );
}

#[test]
fn order_of_modifiers_does_not_matter() {
    assert_eq!(combine_key("Super+Shift+e", 9), combine_key("Shift+Super+e", 9));
}

#[test]
fn names_of_keys() {
    assert_eq!(key_name("Super+Return"), Some("Return".to_string()));
    assert_eq!(key_name("x"), Some("x".to_string()));
    assert_eq!(key_name("Super++"), None);
    assert_eq!(key_name("Super+"), Some("".to_string()));
    assert_eq!(key_name("Hyper+x"), None);
}

#[test]
fn bindings_that_mean_nothing_are_left_out() {
    let bindings = vec![
        binding("Super+a", "close", ""),
        binding("Hyper+b", "close", ""),
        binding("Super+c", "dance", ""),
        binding("Super+d", "close", ""),
        binding("Super+e", "switch_workspace", "3"),
    ];
    let defs = define_bindings(&bindings, &vec![1, 2, 3, 0, 5]);
    assert_eq!(defs, vec![(1, 64, Action::Close), (5, 64, Action::SwitchWorkspace(3))]);
}

#[test]
fn names_of_actions() {
    assert_eq!(parse_action("spawn", "a b"), Some(Action::Spawn("a b".to_string())));
    assert_eq!(parse_action("exec", ""), Some(Action::Exec));
    assert_eq!(parse_action("quit", ""), Some(Action::Quit));
    assert_eq!(parse_action("close", ""), Some(Action::Close));
    assert_eq!(parse_action("focus_next", ""), Some(Action::FocusNext));
    assert_eq!(parse_action("focus_prev", ""), Some(Action::FocusPrev));
    assert_eq!(parse_action("set_layout", "tile"), Some(Action::SetLayout(Layout::Tile)));
    assert_eq!(parse_action("set_layout", "float"), Some(Action::SetLayout(Layout::Float)));
    assert_eq!(parse_action("set_layout", "Tile"), None);
    assert_eq!(parse_action("toggle_float", ""), Some(Action::ToggleFloat));
    assert_eq!(parse_action("toggle_fullscreen", ""), Some(Action::ToggleFullscreen));
    assert_eq!(parse_action("reload", ""), Some(Action::Reload));
    assert_eq!(parse_action("switch_workspace", "+2"), Some(Action::SwitchWorkspace(2)));
    assert_eq!(parse_action("switch_workspace", "x"), None);
    assert_eq!(parse_action("move_to_workspace", "10"), Some(Action::MoveToWorkspace(10)));
    assert_eq!(parse_action("move_to_workspace", ""), None);
    assert_eq!(parse_action("Close", ""), None);
    assert_eq!(parse_action("", ""), None);
}

#[test]
fn names_of_layouts() {
    assert_eq!(parse_layout("monocle"), Some(Layout::Monocle));
    assert_eq!(parse_layout("spiral"), None);
}

#[test]
fn default_bindings_differ_and_hold_the_logo_modifier() {
    let bindings = default_bindings();
    let mut names: Vec<String> = Vec::new();
    for b in &bindings {
        let (_, mods) = combine_key(&b.keys, 1).unwrap();
        assert!(mods & 64 != 0);
        assert!(parse_action(&b.action, &b.arg).is_some());
        assert_eq!(!b.arg.is_empty(), b.action == "spawn" || b.action == "set_layout");
        let name = key_name(&b.keys).unwrap().to_lowercase();
        assert!(!names.contains(&name));
        names.push(name);
    }
    assert_eq!(names.len(), 10);
}
