use dtrwm::config::Config;
use dtrwm::dialog::{path_completion, search_dirs, TextRun};
use dtrwm::keyboard::{
    can_complete, keymap_text, reads_keymap, TypeEffect, KEY_BACKSPACE, KEY_ENTER, KEY_ESCAPE,
    KEY_RETURN, KEY_TAB,
};
use dtrwm::spawn::command_arguments;
use dtrwm::state::{ExecDialog, State};

fn strings(list: &[&str]) -> Vec<String> {
    list.iter().map(|s| s.to_string()).collect()
}

fn with_dialog() -> State {
    let mut s = State::from_config(&Config::default(), &|_: &str| 0);
    s.global_offered("wl_compositor", 4);
    s.global_offered("xdg_wm_base", 5);
    s.global_offered("wl_shm", 1);
    assert!(s.show_exec_dialog());
    s
}

fn input(s: &State) -> String {
    s.dialog_input().unwrap()
}

fn dialog(input: &str, width: i32, height: i32) -> ExecDialog {
    ExecDialog { input: input.to_string(), width, height, configured: true }
}

#[test]
fn new_dialog() {
    let mut s = with_dialog();
    let d = s.exec_dialog.clone().unwrap();
    assert_eq!((d.width, d.height, d.configured), (600, 30, false));
    assert_eq!(d.input, "");
    assert!(!s.show_exec_dialog());
}

#[test]
fn dialog_needs_a_compositor_and_a_shell() {
    let mut s = State::from_config(&Config::default(), &|_: &str| 0);
    assert!(!s.show_exec_dialog());
    s.global_offered("wl_compositor", 4);
    assert!(!s.show_exec_dialog());
    assert!(s.exec_dialog.is_none());
}

#[test]
fn keys_are_heeded_with_a_dialog_and_a_keymap() {
    let mut s = with_dialog();
    assert!(!s.heeds_key(1));
    s.keymap_loaded();
    assert!(s.heeds_key(1));
    assert!(!s.heeds_key(0));
    s.close_exec_dialog();
    assert!(!s.heeds_key(1));
}

#[test]
fn typed_text() {
    let mut s = with_dialog();
    assert_eq!(s.key_typed(0x6b, "k"), TypeEffect::Redraw);
    assert_eq!(s.key_typed(0xe9, "é"), TypeEffect::Redraw);
    assert_eq!(input(&s), "ké");
    assert_eq!(s.key_typed(0xffe1, ""), TypeEffect::Nothing);
    assert_eq!(s.key_typed(0xffff, "\u{7f}"), TypeEffect::Nothing);
    assert_eq!(s.key_typed(0x61, "a\u{1}"), TypeEffect::Nothing);
    assert_eq!(input(&s), "ké");
}

#[test]
fn erased_text() {
    let mut s = with_dialog();
    s.key_typed(0xe9, "é");
    s.key_typed(0x61, "a");
    assert_eq!(s.key_typed(KEY_BACKSPACE, "\u{8}"), TypeEffect::Redraw);
    assert_eq!(input(&s), "é");
    s.key_typed(KEY_BACKSPACE, "\u{8}");
    assert_eq!(s.key_typed(KEY_BACKSPACE, "\u{8}"), TypeEffect::Redraw);
    assert_eq!(input(&s), "");
}

#[test]
fn return_runs_the_input() {
    for key in [KEY_RETURN, KEY_ENTER] {
        let mut s = with_dialog();
        assert_eq!(s.key_typed(0x6b, "k"), TypeEffect::Redraw);
        assert_eq!(s.key_typed(key, "\r"), TypeEffect::Run("k".to_string()));
        assert!(s.exec_dialog.is_none());
        assert_eq!(s.key_typed(0x6b, "k"), TypeEffect::Nothing);
    }
}

#[test]
fn return_without_input_only_closes() {
    let mut s = with_dialog();
    assert_eq!(s.key_typed(KEY_RETURN, "\r"), TypeEffect::Close);
    assert!(s.exec_dialog.is_none());
}

#[test]
fn escape_closes() {
    let mut s = with_dialog();
    s.key_typed(0x6b, "k");
    assert_eq!(s.key_typed(KEY_ESCAPE, "\u{1b}"), TypeEffect::Close);
    assert!(s.exec_dialog.is_none());
}

#[test]
fn tab_completes() {
    let mut s = with_dialog();
    assert_eq!(s.key_typed(KEY_TAB, "\t"), TypeEffect::Nothing);
    s.key_typed(0x6b, "k");
    assert_eq!(s.key_typed(KEY_TAB, "\t"), TypeEffect::Complete("k".to_string()));
    assert!(!s.input_completed(None));
    assert_eq!(input(&s), "k");
    assert!(s.input_completed(Some("kitty".to_string())));
    assert_eq!(input(&s), "kitty");
    s.key_typed(0x20, " ");
    assert_eq!(s.key_typed(KEY_TAB, "\t"), TypeEffect::Nothing);
}

#[test]
fn symbols_of_keys() {
    assert_eq!(
        [KEY_RETURN, KEY_ENTER, KEY_ESCAPE, KEY_BACKSPACE, KEY_TAB],
        [0xff0d, 0xff8d, 0xff1b, 0xff08, 0xff09]
    );
}

#[test]
fn first_name_in_order_completes() {
    let names = strings(&["vim", "kitty", "kill", "kitten", "kill", "Kate"]);
    assert_eq!(path_completion("ki", &names), Some("kill".to_string()));
    assert_eq!(path_completion("kit", &names), Some("kitten".to_string()));
    assert_eq!(path_completion("kitty", &names), Some("kitty".to_string()));
    assert_eq!(path_completion("x", &names), None);
    assert_eq!(path_completion("", &names), None);
    assert_eq!(path_completion("ki ", &strings(&["ki t"])), None);
    assert_eq!(path_completion("k", &vec![]), None);
}

#[test]
fn completion_does_not_depend_on_the_order_of_names() {
    let a = strings(&["b", "ab", "aa", "a b"]);
    let b = strings(&["aa", "a b", "ab", "b", "ab"]);
    assert_eq!(path_completion("a", &a), Some("a b".to_string()));
    assert_eq!(path_completion("a", &a), path_completion("a", &b));
}

#[test]
fn completed_input_is_complete() {
    let names = strings(&["kitty", "kitten", "kill"]);
    let once = path_completion("k", &names).unwrap();
    assert_eq!(path_completion(&once, &names), Some(once));
}

#[test]
fn inputs_that_can_be_completed() {
    assert!(can_complete("k"));
    assert!(!can_complete(""));
    assert!(!can_complete("k i"));
    assert!(can_complete("k\ti"));
}

#[test]
fn directories_of_a_path() {
    assert_eq!(search_dirs("/bin:/usr/bin"), strings(&["/bin", "/usr/bin"]));
    assert_eq!(search_dirs(""), strings(&[""]));
    assert_eq!(search_dirs(":a:"), strings(&["", "a", ""]));
}

#[test]
fn picture_of_an_empty_dialog() {
    let p = dialog("", 600, 30).picture(&None);
    assert_eq!((p.w, p.h, p.bytes), (600, 30, 72000));
    assert_eq!(p.background, 0xFF1D2021);
    assert_eq!(
        p.label,
        TextRun { x: 8, y: 11, text: "exec: ".to_string(), color: 0xFF888888 }
    );
    assert_eq!(p.input, TextRun { x: 56, y: 11, text: "".to_string(), color: 0xFFD8DEE9 });
    assert_eq!(p.hint, None);
    assert_eq!(
        p.cursor,
        Some(TextRun { x: 56, y: 11, text: "_".to_string(), color: 0xFF88C0D0 })
    );
}

#[test]
fn picture_with_a_hint() {
    let p = dialog("kit", 600, 8).picture(&Some("kitty".to_string()));
    assert_eq!(
        p.hint,
        Some(TextRun { x: 80, y: 0, text: "ty".to_string(), color: 0xFF555555 })
    );
    assert_eq!(p.cursor.unwrap().x, 96);
    let complete = dialog("kitty", 600, 8).picture(&Some("kitty".to_string()));
    assert_eq!(complete.hint, None);
    assert_eq!(complete.cursor.unwrap().x, 96);
}

#[test]
fn places_count_bytes() {
    let p = dialog("é", 600, 30).picture(&Some("éé".to_string()));
    let hint = p.hint.unwrap();
    assert_eq!((hint.x, hint.text.as_str()), (72, "é"));
    assert_eq!(p.cursor.unwrap().x, 88);
    assert_eq!(dialog("é", 600, 30).picture(&None).cursor.unwrap().x, 72);
}

#[test]
fn no_room_for_hint_or_cursor() {
    let hinted = dialog("k", 80, 30).picture(&Some("ki".to_string()));
    assert_eq!(hinted.hint.unwrap().x, 64);
    assert_eq!(hinted.cursor.unwrap().x, 72);
    let narrow = dialog("k", 79, 30).picture(&Some("ki".to_string()));
    assert!(narrow.hint.is_none());
    assert_eq!(narrow.cursor.unwrap().x, 64);
    let narrower = dialog("k", 71, 30).picture(&None);
    assert!(narrower.cursor.is_none());
}

#[test]
fn picture_without_a_size_has_one_pixel() {
    let p = dialog("", 0, -5).picture(&None);
    assert_eq!((p.w, p.h, p.bytes), (1, 1, 4));
    assert_eq!(p.label.y, 0);
    assert!(dialog("", 600, 30).can_draw(&None));
    assert!(dialog("", i32::MAX, i32::MAX).can_draw(&None));
}

#[test]
fn dialog_is_drawn_when_it_is_shown() {
    let mut s = with_dialog();
    assert!(!s.draws_dialog());
    s.dialog_configured();
    assert!(s.draws_dialog());
    s.globals.shm = false;
    assert!(!s.draws_dialog());
    s.globals.shm = true;
    s.close_exec_dialog();
    s.dialog_configured();
    assert!(!s.draws_dialog());
    assert!(s.exec_dialog.is_none());
}

#[test]
fn positive_sizes_are_taken() {
    let mut s = with_dialog();
    s.dialog_resized(700, 0);
    s.dialog_resized(-1, 40);
    let d = s.exec_dialog.clone().unwrap();
    assert_eq!((d.width, d.height), (700, 40));
}

#[test]
fn keyboard_is_bound_once() {
    let mut s = with_dialog();
    assert!(!s.seat_capabilities(1));
    assert!(s.seat_capabilities(3));
    assert!(!s.seat_capabilities(2));
}

#[test]
fn keymaps() {
    assert!(reads_keymap(1));
    assert!(!reads_keymap(0));
    assert_eq!(keymap_text(b"xkb_keymap {}\n\0\0"), "xkb_keymap {}\n");
    assert_eq!(keymap_text("é\0x\0".as_bytes()), "é\0x");
    assert_eq!(keymap_text(&[0x61, 0xff]), "");
    assert_eq!(keymap_text(&[]), "");
}

#[test]
fn arguments_of_a_command() {
    assert_eq!(
        command_arguments("  kitty -e  'vim x' "),
        Some(strings(&["kitty", "-e", "'vim", "x'"]))
    );
    assert_eq!(command_arguments(" \t"), None);
    assert_eq!(command_arguments(""), None);
    assert_eq!(command_arguments("a b\0c"), None);
}
