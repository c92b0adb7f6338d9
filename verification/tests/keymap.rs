use ekphos::keymap::{keymap_or_defaults, AppCommand, BindingEntry, KeyResolution, KeybindingFallback, KeybindingWarning, KeybindingsConfig, Keymap};
use ekphos::keys::{parse_key_code, KeyChord, KeyCode, KeyEvent, KeySequence, ALT, CONTROL, SHIFT};

fn config(entries: &[(&str, &[&str])]) -> KeybindingsConfig {
    KeybindingsConfig(entries.iter().map(|(command, bindings)| BindingEntry { command: (*command).to_string(), bindings: bindings.iter().map(|binding| (*binding).to_string()).collect() }).collect())
}

fn everything_available() -> Vec<bool> {
    vec![true; 46]
}

#[test]
fn editor_mode_toggle_defaults_to_f6() {
    let keymap = Keymap::default();
    assert_eq!(keymap.binding_label(AppCommand::ToggleEditorMode), "F6");
}

#[test]
fn partial_config_replaces_one_command_and_keeps_defaults() {
    let keymap = Keymap::from_config(&config(&[("open_graph", &["alt+g"])])).expect("valid keymap");
    assert_eq!(keymap.binding_label(AppCommand::OpenGraph), "Alt+g");
    assert_eq!(keymap.binding_label(AppCommand::Quit), "q");
}

#[test]
fn secondary_bindings_and_unbinding_are_supported() {
    let keymap = Keymap::from_config(&config(&[("open_graph", &["alt+g", "ctrl+g"]), ("show_help", &[])])).expect("valid keymap");
    assert_eq!(keymap.binding_label(AppCommand::OpenGraph), "Alt+g / Ctrl+g");
    assert_eq!(keymap.binding_label(AppCommand::ShowHelp), "Unbound");
}

#[test]
fn equivalent_case_and_modifier_spellings_clash() {
    let error = Keymap::from_config(&config(&[("open_graph", &["Ctrl+G"]), ("show_help", &["control+shift+g"])])).expect_err("bindings should clash");
    assert!(error.issues.iter().any(|issue| { issue.contains("Ctrl+Shift+g") && issue.contains("open_graph") && issue.contains("show_help") }));
}

#[test]
fn prefix_clashes_name_both_commands() {
    let error = Keymap::from_config(&config(&[("open_graph", &["g"])])).expect_err("g should clash with default g g");
    assert!(error.issues.iter().any(|issue| { issue.contains("prefix") && issue.contains("open_graph") && issue.contains("go_first") }));
}

#[test]
fn resolves_sequences_and_retries_failed_continuations() {
    let mut keymap = Keymap::default();
    let available = everything_available();
    assert_eq!(keymap.resolve(KeyEvent::new(KeyCode::Char('g'), 0), &available), KeyResolution::Pending);
    assert_eq!(keymap.resolve(KeyEvent::new(KeyCode::Char('g'), 0), &available), KeyResolution::Command(AppCommand::GoFirst));
    assert_eq!(keymap.resolve(KeyEvent::new(KeyCode::Char('z'), 0), &available), KeyResolution::Pending);
    assert_eq!(keymap.resolve(KeyEvent::new(KeyCode::Char('g'), CONTROL), &available), KeyResolution::Command(AppCommand::OpenGraph));
}

#[test]
fn unavailable_sequences_do_not_capture_their_prefix() {
    let mut keymap = Keymap::default();
    let available: Vec<bool> = AppCommand::all().into_iter().map(|command| !matches!(command, AppCommand::ToggleFold | AppCommand::FoldAll | AppCommand::UnfoldAll)).collect();
    assert_eq!(keymap.resolve(KeyEvent::new(KeyCode::Char('z'), 0), &available), KeyResolution::NoMatch);
}

#[test]
fn built_in_bindings_are_valid() {
    assert!(Keymap::from_config(&KeybindingsConfig::default()).is_ok());
}

#[test]
fn unknown_commands_and_bad_bindings_are_reported_sorted() {
    let error = Keymap::from_config(&config(&[("zoom", &["z"]), ("quit", &["ctrl+"])])).expect_err("invalid");
    assert_eq!(
        error.issues,
        vec!["Invalid binding 'ctrl+' for 'quit': use the name 'plus' for the + key.".to_string(), "Unknown keybinding command 'zoom'.".to_string()]
    );
}

#[test]
fn chords_parse_and_normalize() {
    assert_eq!(KeyChord::parse("Ctrl+G").unwrap(), KeyChord { code: KeyCode::Char('g'), modifiers: CONTROL | SHIFT });
    assert_eq!(KeyChord::parse(" alt + plus ").unwrap(), KeyChord { code: KeyCode::Char('+'), modifiers: ALT });
    assert_eq!(KeyChord::parse("shift+?").unwrap(), KeyChord { code: KeyCode::Char('?'), modifiers: 0 });
    assert_eq!(KeyChord::parse("shift+tab").unwrap(), KeyChord { code: KeyCode::Tab, modifiers: SHIFT });
    assert_eq!(KeyChord::parse("backtab").unwrap(), KeyChord { code: KeyCode::Tab, modifiers: SHIFT });
    assert_eq!(KeyChord::parse("F12").unwrap(), KeyChord { code: KeyCode::F(12), modifiers: 0 });
    assert_eq!(KeyChord::parse("ctrl").unwrap_err(), "missing key in chord 'ctrl'");
    assert_eq!(KeyChord::parse("a+b").unwrap_err(), "more than one key in chord 'a+b'");
    assert_eq!(KeyChord::parse("ctrl+").unwrap_err(), "use the name 'plus' for the + key");
    assert_eq!(parse_key_code("f25").unwrap_err(), "unknown key 'f25'");
    assert_eq!(parse_key_code("f+5").unwrap(), KeyCode::F(5));
    assert_eq!(parse_key_code("Page_Up").unwrap(), KeyCode::PageUp);
    assert_eq!(parse_key_code("é").unwrap(), KeyCode::Char('é'));
}

#[test]
fn chords_and_sequences_label_themselves() {
    assert_eq!(KeyChord { code: KeyCode::Char(' '), modifiers: CONTROL | ALT | SHIFT }.label(), "Ctrl+Alt+Shift+Space");
    assert_eq!(KeyChord { code: KeyCode::F(6), modifiers: 0 }.label(), "F6");
    assert_eq!(KeyChord { code: KeyCode::F(24), modifiers: 0 }.label(), "F24");
    assert_eq!(KeyChord { code: KeyCode::Char('+'), modifiers: 0 }.label(), "Plus");
    assert_eq!(KeySequence::parse("z shift+m").unwrap().label(), "z Shift+m");
    assert_eq!(KeySequence::parse("   ").unwrap_err(), "binding cannot be empty");
}

#[test]
fn commands_round_trip_through_their_ids() {
    for command in AppCommand::all() {
        assert_eq!(AppCommand::from_id(command.id()), Some(command));
        assert!(!command.default_bindings().is_empty());
    }
    assert_eq!(AppCommand::from_id("nope"), None);
}

#[test]
fn warnings_start_at_the_top() {
    let error = Keymap::from_config(&config(&[("nope", &["x"])])).unwrap_err();
    let warning = KeybindingWarning::new(error.clone(), KeybindingFallback::Defaults);
    assert_eq!(warning.issues, error.issues);
    assert_eq!(warning.scroll, 0);
    assert_eq!(warning.fallback, KeybindingFallback::Defaults);
}

#[test]
fn pending_sequences_reset() {
    let mut keymap = Keymap::default();
    let available = everything_available();
    assert_eq!(keymap.resolve(KeyEvent::new(KeyCode::Char('g'), 0), &available), KeyResolution::Pending);
    keymap.reset_pending();
    assert_eq!(keymap.resolve(KeyEvent::new(KeyCode::Char('q'), 0), &available), KeyResolution::Command(AppCommand::Quit));
}

#[test]
fn invalid_bindings_fall_back_to_the_defaults_with_a_warning() {
    let bad = config(&[("quit", &["ctrl+nope"])]);
    let (keymap, warning) = keymap_or_defaults(&bad);
    let warning = warning.expect("a warning");
    assert_eq!(warning.fallback, KeybindingFallback::Defaults);
    assert_eq!(warning.scroll, 0);
    assert!(!warning.issues.is_empty());
    assert_eq!(keymap.binding_label(AppCommand::Quit), Keymap::default().binding_label(AppCommand::Quit));

    let good = config(&[("quit", &["ctrl+q"])]);
    let (keymap, warning) = keymap_or_defaults(&good);
    assert!(warning.is_none());
    assert_eq!(keymap.binding_label(AppCommand::Quit), Keymap::from_config(&good).ok().unwrap().binding_label(AppCommand::Quit));
}

#[test]
fn set_bindings_replaces_the_entry_of_an_identifier() {
    let mut c = KeybindingsConfig::new();
    c.set_bindings("quit".to_string(), vec!["q".to_string()]);
    c.set_bindings("show_help".to_string(), vec!["?".to_string()]);
    c.set_bindings("quit".to_string(), vec!["ctrl+q".to_string()]);
    assert_eq!(c.0.len(), 2);
    assert_eq!(c.0[0].command, "quit");
    assert_eq!(c.0[0].bindings, vec!["ctrl+q".to_string()]);
    assert_eq!(c.0[1].command, "show_help");
}

#[test]
fn every_command_has_a_default_binding_and_a_lowercase_id() {
    for c in AppCommand::all() {
        assert!(!c.default_bindings().is_empty());
        assert!(c.id().chars().all(|ch| ch.is_ascii_lowercase() || ch == '_'));
    }
    assert!(Keymap::from_config(&KeybindingsConfig::default()).is_ok());
}
