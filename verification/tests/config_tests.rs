use snipgrab::config::{
    handle_command, parse_config, parse_hotkey, splice_config, validate_shortcuts, ConfigField,
    Key, MainState, Modifier, SettingsAction, SettingsCommand, ShortcutValidation,
};

#[test]
fn empty_shortcuts_are_invalid() {
    let v = validate_shortcuts(&String::new(), &String::from("ctrl + f"));
    assert_eq!(v, ShortcutValidation::Invalid);
}

#[test]
fn identical_shortcuts_clash() {
    let s = String::from("ctrl + k");
    assert_eq!(validate_shortcuts(&s, &s.clone()), ShortcutValidation::Same);
}

#[test]
fn missing_prefix_is_invalid() {
    let v = validate_shortcuts(&String::from("alt + k"), &String::from("ctrl + f"));
    assert_eq!(v, ShortcutValidation::Invalid);
}

#[test]
fn bare_prefix_is_incomplete() {
    let v = validate_shortcuts(&String::from("ctrl +"), &String::from("ctrl + f"));
    assert_eq!(v, ShortcutValidation::Incomplete);
}

#[test]
fn distinct_prefixed_shortcuts_are_valid() {
    let v = validate_shortcuts(&String::from("ctrl + k"), &String::from("ctrl + f"));
    assert_eq!(v, ShortcutValidation::Valid);
}

#[test]
fn hotkey_parses_the_trimmed_key_token() {
    assert_eq!(
        parse_hotkey(&String::from("ctrl + k")),
        Some((Modifier::Control, Key::K))
    );
    assert_eq!(
        parse_hotkey(&String::from("ctrl + A")),
        Some((Modifier::Control, Key::A))
    );
    assert_eq!(
        parse_hotkey(&String::from("ctrl + 7")),
        Some((Modifier::Control, Key::Digit7))
    );
}

#[test]
fn hotkey_without_separator_is_rejected() {
    assert_eq!(parse_hotkey(&String::from("nonsense")), None);
}

#[test]
fn unrecognized_key_tokens_fall_back_to_the_default_key() {
    assert_eq!(
        parse_hotkey(&String::from("ctrl + xy")),
        Some((Modifier::Control, Key::K))
    );
    assert_eq!(
        parse_hotkey(&String::from("shift + b")),
        Some((Modifier::Control, Key::B))
    );
}

#[test]
fn splice_replaces_the_save_path_and_keeps_the_rest() {
    let out = splice_config("old\nbg\nfs", "new", ConfigField::SavePath);
    assert_eq!(out, "new\nbg\nfs");
}

#[test]
fn splice_replaces_the_background_shortcut_line() {
    let out = splice_config("path\nold-bg\nfs", "ctrl + k", ConfigField::BackgroundShortcut);
    assert_eq!(out, "path\nctrl + k");
}

#[test]
fn splice_replaces_the_fullscreen_shortcut_line() {
    let out = splice_config("path\nbg\nold-fs", "ctrl + f", ConfigField::FullscreenShortcut);
    assert_eq!(out, "path\nbg\nctrl + f");
}

#[test]
fn config_lines_parse_with_defaults_for_missing_ones() {
    let (path, bg, fs) = parse_config("shots\nctrl + a\nctrl + b");
    assert_eq!(path, "shots");
    assert_eq!(bg, "ctrl + a");
    assert_eq!(fs, "ctrl + b");
    let (path, bg, fs) = parse_config("");
    assert_eq!(path, "target");
    assert_eq!(bg, "ctrl + k");
    assert_eq!(fs, "ctrl + f");
    let (path, bg, fs) = parse_config("only-path");
    assert_eq!(path, "only-path");
    assert_eq!(bg, "ctrl + k");
    assert_eq!(fs, "ctrl + f");
}

fn fresh_state() -> MainState {
    MainState {
        launch_overlay: false,
        path_gui: false,
        shortcut_gui: false,
        path: String::from("target"),
        bg_shortcut: String::from("ctrl + k"),
        fs_shortcut: String::from("ctrl + f"),
        delay_state: 0,
    }
}

#[test]
fn delay_command_stores_the_delay() {
    let (state, action) = handle_command(fresh_state(), SettingsCommand::Delay(3));
    assert_eq!(state.delay_state, 3);
    assert_eq!(action, SettingsAction::Stay);
}

#[test]
fn launch_overlay_quits_with_the_stored_delay() {
    let mut s = fresh_state();
    s.delay_state = 5;
    let (state, action) = handle_command(s, SettingsCommand::LaunchOverlay);
    assert!(state.launch_overlay);
    assert_eq!(action, SettingsAction::QuitToOverlay { delay: 5 });
}

#[test]
fn pane_switches_are_exclusive() {
    let (state, action) = handle_command(fresh_state(), SettingsCommand::PathGui);
    assert!(state.path_gui && !state.shortcut_gui);
    assert_eq!(action, SettingsAction::Stay);
    let (state, _) = handle_command(state, SettingsCommand::ShortcutGui);
    assert!(state.shortcut_gui && !state.path_gui);
    let (state, _) = handle_command(state, SettingsCommand::Home);
    assert!(!state.shortcut_gui && !state.path_gui);
}

#[test]
fn fullscreen_and_background_commands_quit() {
    let (_, action) = handle_command(fresh_state(), SettingsCommand::Fullscreen);
    assert_eq!(action, SettingsAction::QuitToFullscreenCapture { delay: 0 });
    let (_, action) = handle_command(fresh_state(), SettingsCommand::RunInBackground);
    assert_eq!(action, SettingsAction::QuitToBackgroundListener);
}
