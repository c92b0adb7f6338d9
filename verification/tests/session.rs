use ekphos::version::{is_newer_version, version_numbers};
use ekphos::config::{expand_home_with, Config, EditingMode, StyleMode, ThemeEntry, PANEL_RESIZE_STEP_PERCENT};
use ekphos::session::{launch_state, DialogState, content_position_for_line, edit_entry_position, Alignment, ContentItem, DocumentRange, SortMode, ThemePicker, Toast, ToastKind, TOAST_TTL_NANOS};
use ekphos::theme::{lighten, parse_hex_color, Color, Theme};
use ekphos::theme_file::ThemeFile;

#[test]
fn alignment_from_separator_cell_classifies_each_form() {
    assert_eq!(Alignment::from_separator_cell("---"), Alignment::Left);
    assert_eq!(Alignment::from_separator_cell(":---"), Alignment::Left);
    assert_eq!(Alignment::from_separator_cell("---:"), Alignment::Right);
    assert_eq!(Alignment::from_separator_cell(":---:"), Alignment::Center);
    assert_eq!(Alignment::from_separator_cell("  :---:  "), Alignment::Center);
}

#[test]
fn style_mode_toggles_and_insets() {
    assert_eq!(StyleMode::Outlined.toggled(), StyleMode::Flat);
    assert_eq!(StyleMode::Flat.toggled(), StyleMode::Outlined);
    assert_eq!(StyleMode::Outlined.vertical_inset(), 2);
    assert_eq!(StyleMode::Flat.vertical_inset(), 1);
}

#[test]
fn editing_modes_toggle_and_name_themselves() {
    assert_eq!(EditingMode::Standard.toggled(), EditingMode::Vim);
    assert_eq!(EditingMode::Vim.display_name(), "Vim");
    assert_eq!(StyleMode::Flat.display_name(), "Flat");
    assert!(StyleMode::Flat.is_flat() && !StyleMode::Outlined.is_flat());
}

#[test]
fn effective_panel_width_is_clamped() {
    assert_eq!(Config::effective_panel_width_percent(i64::MIN), 5);
    assert_eq!(Config::effective_panel_width_percent(-10), 5);
    assert_eq!(Config::effective_panel_width_percent(5), 5);
    assert_eq!(Config::effective_panel_width_percent(55), 55);
    assert_eq!(Config::effective_panel_width_percent(95), 95);
    assert_eq!(Config::effective_panel_width_percent(i64::MAX), 95);
}

#[test]
fn panel_widths_below_ten_percent_are_minimized() {
    assert!(Config::panel_width_is_minimized(-10));
    assert!(Config::panel_width_is_minimized(5));
    assert!(Config::panel_width_is_minimized(9));
    assert!(!Config::panel_width_is_minimized(10));
    assert!(!Config::panel_width_is_minimized(20));
}

#[test]
fn panel_width_resize_uses_five_point_steps() {
    assert_eq!(Config::resized_panel_width_percent(20, -PANEL_RESIZE_STEP_PERCENT), 15);
    assert_eq!(Config::resized_panel_width_percent(20, PANEL_RESIZE_STEP_PERCENT), 25);
}

#[test]
fn panel_width_resize_stops_at_bounds() {
    assert_eq!(Config::resized_panel_width_percent(5, -PANEL_RESIZE_STEP_PERCENT), 5);
    assert_eq!(Config::resized_panel_width_percent(5, PANEL_RESIZE_STEP_PERCENT), 10);
    assert_eq!(Config::resized_panel_width_percent(95, PANEL_RESIZE_STEP_PERCENT), 95);
    assert_eq!(Config::resized_panel_width_percent(-100, PANEL_RESIZE_STEP_PERCENT), 10);
    assert_eq!(Config::resized_panel_width_percent(100, -PANEL_RESIZE_STEP_PERCENT), 90);
    assert_eq!(Config::resized_panel_width_percent(50, i64::MAX), 95);
}

#[test]
fn parse_hex_color_valid() {
    assert_eq!(parse_hex_color("#ff8800"), Color::Rgb(255, 136, 0));
    assert_eq!(parse_hex_color("'00ff00'"), Color::Rgb(0, 255, 0));
}

#[test]
fn parse_hex_color_multibyte_no_panic() {
    assert_eq!(parse_hex_color("aé234"), Color::White);
    assert_eq!(parse_hex_color("世界AB"), Color::White);
}

#[test]
fn parse_hex_color_reads_signed_pairs_like_from_str_radix() {
    assert_eq!(parse_hex_color("+f+f+f"), Color::Rgb(15, 15, 15));
    assert_eq!(parse_hex_color("##'-fffff'"), Color::White);
    assert_eq!(parse_hex_color("12345"), Color::White);
}

#[test]
fn lighten_saturates_each_channel() {
    assert_eq!(lighten(Color::Rgb(250, 0, 10), 10), Color::Rgb(255, 10, 20));
    assert_eq!(lighten(Color::White, 10), Color::White);
}

#[test]
fn theme_without_flat_colors_derives_surfaces() {
    let mut file = ThemeFile::default();
    file.base.background = "#101010".into();
    file.base.background_secondary = "#202020".into();
    file.ui.content.background = "#111111".into();
    let theme = Theme::from_file(&file);
    assert_eq!(theme.flat.surface, theme.background_secondary);
    assert_eq!(theme.flat.content_bg, theme.content.background);
    assert_eq!(theme.flat.surface_raised, Color::Rgb(0x2a, 0x2a, 0x2a));
    assert_eq!(theme.background, Color::Rgb(0x10, 0x10, 0x10));
}

#[test]
fn default_theme_uses_the_built_in_palette() {
    let theme = Theme::default();
    assert_eq!(theme.background, Color::Rgb(0x1a, 0x1a, 0x24));
    assert_eq!(theme.search.match_current, Color::Rgb(0xff, 0x9e, 0x64));
}

#[test]
fn sort_modes_cycle_through_all_six() {
    let mut mode = SortMode::NameAsc;
    let mut labels = Vec::new();
    for _ in 0..6 {
        labels.push(mode.label());
        mode = mode.next();
    }
    assert_eq!(mode, SortMode::NameAsc);
    assert_eq!(labels, ["A→Z", "Z→A", "Mod↑", "Mod↓", "Cre↑", "Cre↓"]);
}

#[test]
fn toasts_expire_after_four_seconds() {
    let toast = Toast { message: "x".into(), kind: ToastKind::Error, shown_at: 1_000 };
    assert!(!toast.is_expired_at(0));
    assert!(!toast.is_expired_at(1_000 + TOAST_TTL_NANOS - 1));
    assert!(toast.is_expired_at(1_000 + TOAST_TTL_NANOS));
}

#[test]
fn content_items_report_their_source_line() {
    let range = DocumentRange { start: 0, end: 1 };
    assert_eq!(ContentItem::TextLine { range, source_line: 7, heading_level: 0 }.source_line(), 7);
    assert_eq!(ContentItem::TagBadges.source_line(), 0);
}

#[test]
fn theme_list_puts_official_themes_first_then_sorted_user_themes() {
    let files: Vec<String> = ["notes.toml", "dracula.toml", "zeta.toml", "alpha.toml", ".toml", "readme.md", "alpha.toml", "b.TOML", "x.y.toml"]
        .iter()
        .map(|s| s.to_string())
        .collect();
    let entries = ThemeFile::list_available_in(&files);
    let names: Vec<(&str, bool)> = entries.iter().map(|e| (e.name.as_str(), e.bundled)).collect();
    assert_eq!(
        names,
        vec![
            ("ekphos-dawn", true),
            ("dracula", true),
            ("kanagawa", true),
            ("alpha", false),
            ("notes", false),
            ("x.y", false),
            ("zeta", false),
        ]
    );
}

#[test]
fn home_expansion_matches_the_previous_tilde_contract() {
    let home = "/fixture/home";
    assert_eq!(expand_home_with("~", Some(home)), home);
    assert_eq!(expand_home_with("~/notes", Some(home)), "/fixture/home/notes");
    assert_eq!(expand_home_with("~other/notes", Some(home)), "~other/notes");
    assert_eq!(expand_home_with("relative/notes", Some(home)), "relative/notes");
    assert_eq!(expand_home_with("~/notes", None), "~/notes");
}

#[test]
fn home_expansion_joins_like_a_path() {
    assert_eq!(expand_home_with("~/notes", Some("/home/me/")), "/home/me/notes");
    assert_eq!(expand_home_with("~//abs", Some("/home/me")), "/abs");
    assert_eq!(expand_home_with("~/x", Some("")), "x");
}

#[test]
fn versions_compare_as_numbers() {
    assert_eq!(version_numbers("1.12.3"), (1, 12, 3));
    assert_eq!(version_numbers("2.0"), (2, 0, 0));
    assert_eq!(version_numbers("v1.2.3"), (2, 3, 0));
    assert_eq!(version_numbers("+4.x.5"), (4, 5, 0));
    assert_eq!(version_numbers("99999999999.1"), (1, 0, 0));
    assert!(is_newer_version("0.20.1", "0.19.9"));
    assert!(is_newer_version("1.0.10", "1.0.9"));
    assert!(!is_newer_version("1.0", "1.0.0"));
    assert!(!is_newer_version("0.9.9", "0.10.0"));
}

#[test]
fn search_hits_land_on_the_nearest_item() {
    assert_eq!(content_position_for_line(&[0, 2, 5, 9], 6), (2, 0));
    assert_eq!(content_position_for_line(&[0, 2, 5, 9], 8), (2, 0));
    assert_eq!(content_position_for_line(&[0, 2, 5, 9], 9), (3, 0));
    assert_eq!(content_position_for_line(&[4, 6], 1), (0, 0));
    assert_eq!(content_position_for_line(&[], 3), (0, 0));
    let lines: Vec<usize> = (0..20).collect();
    assert_eq!(content_position_for_line(&lines, 16), (15, 9));
}

#[test]
fn editing_opens_at_the_selected_line() {
    assert_eq!(edit_entry_position(Some(30), 100, 20, false, 0, 11, 14), (30, 26));
    assert_eq!(edit_entry_position(Some(30), 100, 5, true, 3, 0, 0), (30, 25));
    assert_eq!(edit_entry_position(Some(4), 100, 20, true, 3, 1, 0), (4, 0));
    assert_eq!(edit_entry_position(None, 0, 0, false, 0, 0, 0), (0, 0));
    assert_eq!(edit_entry_position(Some(500), 50, 20, false, 0, 0, 0), (49, 49));
}

fn themes(names: &[&str]) -> Vec<ThemeEntry> {
    names.iter().map(|name| ThemeEntry { name: name.to_string(), bundled: true }).collect()
}

#[test]
fn theme_selector_starts_on_the_active_theme_and_wraps() {
    assert!(ThemePicker::open_theme_selector(Vec::new(), "ekphos-dawn", StyleMode::Flat).is_none());
    let mut picker = ThemePicker::open_theme_selector(themes(&["ekphos-dawn", "ekphos-dusk", "mono"]), "ekphos-dusk", StyleMode::Flat).unwrap();
    assert_eq!(picker.selected, 1);
    assert_eq!(picker.original_theme_name, "ekphos-dusk");
    assert_eq!(picker.original_style, StyleMode::Flat);
    picker.theme_selector_select_next();
    assert_eq!(picker.selected_theme().map(|t| t.name.as_str()), Some("mono"));
    picker.theme_selector_select_next();
    assert_eq!(picker.selected, 0);
    picker.theme_selector_select_prev();
    assert_eq!(picker.selected, 2);
    picker.theme_selector_toggle_style();
    assert_eq!(picker.style, StyleMode::Outlined);
    assert_eq!(picker.original_style, StyleMode::Flat);
    let unknown = ThemePicker::open_theme_selector(themes(&["a", "b"]), "zzz", StyleMode::Outlined).unwrap();
    assert_eq!(unknown.selected, 0);
}

#[test]
fn launch_state_follows_first_launch_and_the_notes_directory() {
    assert_eq!(launch_state(Some(true), true, false, true), (DialogState::Onboarding, false, false));
    assert_eq!(launch_state(Some(false), false, false, true), (DialogState::DirectoryNotFound, false, false));
    assert_eq!(launch_state(Some(false), true, true, true), (DialogState::EmptyDirectory, false, true));
    assert_eq!(launch_state(Some(false), true, false, true), (DialogState::Closed, true, true));
    assert_eq!(launch_state(Some(false), true, false, false), (DialogState::Closed, false, true));
    assert_eq!(launch_state(None, true, false, true), (DialogState::Closed, false, true));
    assert_eq!(launch_state(None, false, false, true), (DialogState::DirectoryNotFound, false, false));
}
