//! Configuration values, their defaults, and the theme model.
use vstd::prelude::*;

use crate::keymap::KeybindingsConfig;
use crate::text::{chars_of, push_char, push_range, string_of_range};

verus! {

/// How the note editor interprets keys.
#[derive(Debug, Clone, Copy, PartialEq, Eq, Structural)]
pub enum EditingMode {
    Standard,
    Vim,
}

impl EditingMode {
    /// The name shown in the interface.
    pub fn display_name(self) -> (s: &'static str)
        ensures
            s@ == (match self {
                EditingMode::Standard => "Standard"@,
                EditingMode::Vim => "Vim"@,
            }),
    {
        match self {
            EditingMode::Standard => "Standard",
            EditingMode::Vim => "Vim",
        }
    }

    /// The other mode.
    pub fn toggled(self) -> (m: EditingMode)
        ensures
            m != self,
    {
        match self {
            EditingMode::Standard => EditingMode::Vim,
            EditingMode::Vim => EditingMode::Standard,
        }
    }
}

/// Panel chrome: outlined boxes or flat surfaces.
#[derive(Debug, Clone, Copy, PartialEq, Eq, Structural)]
pub enum StyleMode {
    Outlined,
    Flat,
}

/// Rows of chrome below a panel's content.
pub open spec fn bottom_inset_of(s: StyleMode) -> u16 {
    match s {
        StyleMode::Outlined => 1,
        StyleMode::Flat => 0,
    }
}

impl StyleMode {
    /// The name shown in the interface.
    pub fn display_name(self) -> (s: &'static str)
        ensures
            s@ == (match self {
                StyleMode::Outlined => "Outlined"@,
                StyleMode::Flat => "Flat"@,
            }),
    {
        match self {
            StyleMode::Outlined => "Outlined",
            StyleMode::Flat => "Flat",
        }
    }

    /// The other style.
    pub fn toggled(self) -> (m: StyleMode)
        ensures
            m != self,
    {
        match self {
            StyleMode::Outlined => StyleMode::Flat,
            StyleMode::Flat => StyleMode::Outlined,
        }
    }

    /// Whether panels are drawn flat.
    pub fn is_flat(self) -> (b: bool)
        ensures
            b == (self == StyleMode::Flat),
    {
        match self {
            StyleMode::Outlined => false,
            StyleMode::Flat => true,
        }
    }

    /// Rows of chrome below a panel's content: the bottom border when outlined.
    pub fn bottom_inset(self) -> (n: u16)
        ensures
            n == bottom_inset_of(self),
    {
        match self {
            StyleMode::Outlined => 1,
            StyleMode::Flat => 0,
        }
    }

    /// Rows of chrome above and below a panel's content.
    pub fn vertical_inset(self) -> (n: u16)
        ensures
            n == 1 + bottom_inset_of(self),
    {
        1 + self.bottom_inset()
    }
}

impl Default for EditingMode {
    fn default() -> (m: EditingMode)
        ensures
            m == EditingMode::Standard,
    {
        EditingMode::Standard
    }
}

impl Default for StyleMode {
    fn default() -> (m: StyleMode)
        ensures
            m == StyleMode::Outlined,
    {
        StyleMode::Outlined
    }
}

/// A theme available for selection, with its origin.
#[derive(Debug, Clone)]
pub struct ThemeEntry {
    pub name: String,
    /// True for official themes shipped in the binary, false for user themes
    /// found in the user's themes directory.
    pub bundled: bool,
}

/// Default of `notes_dir`.
pub fn default_notes_dir() -> (s: String)
    ensures
        s@ == "~/Documents/ekphos"@,
{
    "~/Documents/ekphos".to_owned()
}

/// Default of `journal_dir`.
pub fn default_journal_dir() -> (s: String)
    ensures
        s@ == "Journal"@,
{
    "Journal".to_owned()
}

/// Default of `welcome_shown`.
pub fn default_welcome_shown() -> (r: bool)
    ensures
        r == true,
{
    true
}

/// Default of `theme`.
pub fn default_theme_name() -> (s: String)
    ensures
        s@ == "ekphos-dawn"@,
{
    "ekphos-dawn".to_owned()
}

/// Default of `show_empty_dir`.
pub fn default_show_empty_dir() -> (r: bool)
    ensures
        r == true,
{
    true
}

/// Default of `syntax_theme`.
pub fn default_syntax_theme() -> (s: String)
    ensures
        s@ == "base16-ocean.dark"@,
{
    "base16-ocean.dark".to_owned()
}

/// Default of `image_height`.
pub fn default_image_height() -> (r: u16)
    ensures
        r == 8,
{
    8
}

/// Default of `inline_image_height`.
pub fn default_inline_image_height() -> (r: u16)
    ensures
        r == 4,
{
    4
}

/// Default of `latex_height`.
pub fn default_latex_height() -> (r: u16)
    ensures
        r == 8,
{
    8
}

/// Default of `sidebar_width_percent`.
pub fn default_sidebar_width_percent() -> (r: i64)
    ensures
        r == 20,
{
    20
}

/// Default of `outline_width_percent`.
pub fn default_outline_width_percent() -> (r: i64)
    ensures
        r == 20,
{
    20
}

/// Default of `sidebar_collapsed`.
pub fn default_sidebar_collapsed() -> (r: bool)
    ensures
        r == false,
{
    false
}

/// Default of `outline_collapsed`.
pub fn default_outline_collapsed() -> (r: bool)
    ensures
        r == false,
{
    false
}

/// Default of `folders_first`.
pub fn default_folders_first() -> (r: bool)
    ensures
        r == true,
{
    true
}

/// Default of `frontmatter_hidden`.
pub fn default_frontmatter_hidden() -> (r: bool)
    ensures
        r == true,
{
    true
}

/// Default of `show_tags`.
pub fn default_show_tags() -> (r: bool)
    ensures
        r == true,
{
    true
}

/// Default of `check_updates`.
pub fn default_check_updates() -> (r: bool)
    ensures
        r == true,
{
    true
}

/// Default of `transparent_bg`.
pub fn default_transparent_bg() -> (r: bool)
    ensures
        r == false,
{
    false
}

/// Default of `floating_cursor`.
pub fn default_floating_cursor() -> (r: bool)
    ensures
        r == false,
{
    false
}

/// Settings of the `[general]` table.
#[derive(Debug, Clone)]
pub struct GeneralConfig {
    pub notes_dir: String,
    pub journal_dir: String,
    pub welcome_shown: bool,
    pub theme: String,
    pub show_empty_dir: bool,
    pub syntax_theme: String,
    pub image_height: u16,
    pub inline_image_height: u16,
    pub latex_height: u16,
    pub sidebar_width_percent: i64,
    pub outline_width_percent: i64,
    pub sidebar_collapsed: bool,
    pub outline_collapsed: bool,
    pub folders_first: bool,
    pub frontmatter_hidden: bool,
    pub show_tags: bool,
    pub check_updates: bool,
    pub transparent_bg: bool,
    pub floating_cursor: bool,
    pub style: StyleMode,
}

impl GeneralConfig {
    /// Every setting holds its default.
    pub open spec fn is_default(&self) -> bool {
        &&& self.notes_dir@ == "~/Documents/ekphos"@
        &&& self.journal_dir@ == "Journal"@
        &&& self.welcome_shown == true
        &&& self.theme@ == "ekphos-dawn"@
        &&& self.show_empty_dir == true
        &&& self.syntax_theme@ == "base16-ocean.dark"@
        &&& self.image_height == 8
        &&& self.inline_image_height == 4
        &&& self.latex_height == 8
        &&& self.sidebar_width_percent == 20
        &&& self.outline_width_percent == 20
        &&& self.sidebar_collapsed == false
        &&& self.outline_collapsed == false
        &&& self.folders_first == true
        &&& self.frontmatter_hidden == true
        &&& self.show_tags == true
        &&& self.check_updates == true
        &&& self.transparent_bg == false
        &&& self.floating_cursor == false
        &&& self.style == StyleMode::Outlined
    }
}

impl Default for GeneralConfig {
    fn default() -> (c: GeneralConfig)
        ensures
            c.is_default(),
    {
        GeneralConfig {
            notes_dir: default_notes_dir(),
            journal_dir: default_journal_dir(),
            welcome_shown: default_welcome_shown(),
            theme: default_theme_name(),
            show_empty_dir: default_show_empty_dir(),
            syntax_theme: default_syntax_theme(),
            image_height: default_image_height(),
            inline_image_height: default_inline_image_height(),
            latex_height: default_latex_height(),
            sidebar_width_percent: default_sidebar_width_percent(),
            outline_width_percent: default_outline_width_percent(),
            sidebar_collapsed: default_sidebar_collapsed(),
            outline_collapsed: default_outline_collapsed(),
            folders_first: default_folders_first(),
            frontmatter_hidden: default_frontmatter_hidden(),
            show_tags: default_show_tags(),
            check_updates: default_check_updates(),
            transparent_bg: default_transparent_bg(),
            floating_cursor: default_floating_cursor(),
            style: StyleMode::Outlined,
        }
    }
}

/// Editing mode assumed for configuration files written before the editor
/// table existed.
pub fn legacy_editing_mode() -> (m: EditingMode)
    ensures
        m == EditingMode::Vim,
{
    EditingMode::Vim
}

/// Default of `line_wrap`.
pub fn default_line_wrap() -> (b: bool)
    ensures
        b,
{
    true
}

/// Default of `tab_width`.
pub fn default_tab_width() -> (n: u16)
    ensures
        n == 4,
{
    4
}

/// Default of `left_padding`.
pub fn default_left_padding() -> (n: u16)
    ensures
        n == 0,
{
    0
}

/// Default of `right_padding`.
pub fn default_right_padding() -> (n: u16)
    ensures
        n == 1,
{
    1
}

/// Default of `scrolloff`.
pub fn default_scrolloff() -> (n: u8)
    ensures
        n == 0,
{
    0
}

/// Settings of the `[editor]` table.
#[derive(Debug, Clone, Copy)]
pub struct EditorConfig {
    pub mode: EditingMode,
    pub line_wrap: bool,
    pub tab_width: u16,
    pub left_padding: u16,
    pub right_padding: u16,
    pub scrolloff: u8,
}

impl Default for EditorConfig {
    fn default() -> (c: EditorConfig)
        ensures
            c.mode == EditingMode::Standard,
            c.line_wrap,
            c.tab_width == 4,
            c.left_padding == 0,
            c.right_padding == 1,
            c.scrolloff == 0,
    {
        EditorConfig {
            mode: EditingMode::Standard,
            line_wrap: default_line_wrap(),
            tab_width: default_tab_width(),
            left_padding: default_left_padding(),
            right_padding: default_right_padding(),
            scrolloff: default_scrolloff(),
        }
    }
}

/// Editor settings assumed when a configuration file has no editor table:
/// the defaults, but in Vim mode.
pub fn legacy_editor_config() -> (c: EditorConfig)
    ensures
        c.mode == EditingMode::Vim,
        c.line_wrap,
        c.tab_width == 4,
        c.left_padding == 0,
        c.right_padding == 1,
        c.scrolloff == 0,
{
    EditorConfig { mode: legacy_editing_mode(), ..EditorConfig::default() }
}

/// Narrowest panel width, in percent of the screen.
pub const MIN_PANEL_WIDTH_PERCENT: i64 = 5;

/// Widest panel width, in percent of the screen.
pub const MAX_PANEL_WIDTH_PERCENT: i64 = 95;

/// Panels narrower than this, in percent, are drawn minimized.
pub const MINIMIZED_PANEL_WIDTH_PERCENT: u16 = 10;

/// Step of one panel resize, in percent.
pub const PANEL_RESIZE_STEP_PERCENT: i64 = 5;

/// `x` clamped to `lo..=hi`.
pub open spec fn clamp(x: int, lo: int, hi: int) -> int {
    if x < lo {
        lo
    } else if x > hi {
        hi
    } else {
        x
    }
}

/// The configuration: general settings, editor settings and key bindings.
#[derive(Debug, Clone)]
pub struct Config {
    pub general: GeneralConfig,
    pub editor: EditorConfig,
    pub keybindings: KeybindingsConfig,
}

impl Default for Config {
    fn default() -> (c: Config)
        ensures
            c.general.is_default(),
            c.editor.mode == EditingMode::Standard,
            c.editor.line_wrap,
            c.editor.tab_width == 4,
            c.editor.left_padding == 0,
            c.editor.right_padding == 1,
            c.editor.scrolloff == 0,
            crate::keymap::is_default_config(c.keybindings),
    {
        Config {
            general: GeneralConfig::default(),
            editor: EditorConfig::default(),
            keybindings: KeybindingsConfig::default(),
        }
    }
}

impl Config {
    /// A configured panel width clamped to the supported range.
    pub fn effective_panel_width_percent(width: i64) -> (p: u16)
        ensures
            p == clamp(width as int, MIN_PANEL_WIDTH_PERCENT as int, MAX_PANEL_WIDTH_PERCENT as int),
    {
        let w = if width < MIN_PANEL_WIDTH_PERCENT {
            MIN_PANEL_WIDTH_PERCENT
        } else if width > MAX_PANEL_WIDTH_PERCENT {
            MAX_PANEL_WIDTH_PERCENT
        } else {
            width
        };
        w as u16
    }

    /// The sidebar width in percent.
    pub fn effective_sidebar_width_percent(&self) -> (p: u16)
        ensures
            p == clamp(self.general.sidebar_width_percent as int, 5, 95),
    {
        Self::effective_panel_width_percent(self.general.sidebar_width_percent)
    }

    /// The outline width in percent.
    pub fn effective_outline_width_percent(&self) -> (p: u16)
        ensures
            p == clamp(self.general.outline_width_percent as int, 5, 95),
    {
        Self::effective_panel_width_percent(self.general.outline_width_percent)
    }

    /// The image height in rows, at least three so a bordered image keeps a
    /// visible row.
    pub fn effective_image_height(&self) -> (h: u16)
        ensures
            h == if self.general.image_height < 3 {
                3
            } else {
                self.general.image_height
            },
    {
        if self.general.image_height < 3 {
            3
        } else {
            self.general.image_height
        }
    }

    /// The inline image height in rows, at least three.
    pub fn effective_inline_image_height(&self) -> (h: u16)
        ensures
            h == if self.general.inline_image_height < 3 {
                3
            } else {
                self.general.inline_image_height
            },
    {
        if self.general.inline_image_height < 3 {
            3
        } else {
            self.general.inline_image_height
        }
    }

    /// The rendered formula height in rows, at least three.
    pub fn effective_latex_height(&self) -> (h: u16)
        ensures
            h == if self.general.latex_height < 3 {
                3
            } else {
                self.general.latex_height
            },
    {
        if self.general.latex_height < 3 {
            3
        } else {
            self.general.latex_height
        }
    }

    /// Whether a panel of this configured width is drawn minimized.
    pub fn panel_width_is_minimized(width: i64) -> (b: bool)
        ensures
            b == (clamp(width as int, 5, 95) < 10),
    {
        Self::effective_panel_width_percent(width) < MINIMIZED_PANEL_WIDTH_PERCENT
    }

    /// The configured width after resizing by `delta` percent, clamped.
    pub fn resized_panel_width_percent(width: i64, delta: i64) -> (w: i64)
        ensures
            w == clamp(clamp(width as int, 5, 95) + delta, 5, 95),
    {
        let effective = Self::effective_panel_width_percent(width) as i64;
        let grown = if delta > i64::MAX - effective {
            i64::MAX
        } else {
            effective + delta
        };
        if grown < MIN_PANEL_WIDTH_PERCENT {
            MIN_PANEL_WIDTH_PERCENT
        } else if grown > MAX_PANEL_WIDTH_PERCENT {
            MAX_PANEL_WIDTH_PERCENT
        } else {
            grown
        }
    }
}

/// `Path::join` on Unix, as text: an absolute `rel` replaces `base`;
/// otherwise `rel` follows `base`, with a `/` between them unless `base` is
/// empty or already ends with one.
pub open spec fn joined_path(base: Seq<char>, rel: Seq<char>) -> Seq<char> {
    if rel.len() > 0 && rel[0] == '/' {
        rel
    } else if base.len() == 0 || base.last() == '/' {
        base + rel
    } else {
        base + seq!['/'] + rel
    }
}

/// A path with a leading `~` resolved against `home`: `~` alone is the home
/// directory and `~/rest` is `rest` under it; anything else, or any path
/// when there is no home directory, stays as it is.
pub open spec fn home_expanded(path: Seq<char>, home: Option<Seq<char>>) -> Seq<char> {
    match home {
        None => path,
        Some(h) => if path == seq!['~'] {
            h
        } else if path.len() >= 2 && path[0] == '~' && path[1] == '/' {
            joined_path(h, path.skip(2))
        } else {
            path
        },
    }
}

/// Resolves a leading `~` of `path` against the home directory `home`.
pub fn expand_home_with(path: &str, home: Option<&str>) -> (r: String)
    ensures
        r@ == home_expanded(path@, match home {
            Some(h) => Some(h@),
            None => None,
        }),
{
    let cs = chars_of(path);
    let n = cs.len();
    let h = match home {
        None => {
            assert(cs@.subrange(0, n as int) =~= cs@);
            return string_of_range(cs.as_slice(), 0, n);
        },
        Some(h) => h,
    };
    let hs = chars_of(h);
    let hn = hs.len();
    assert(hs@.subrange(0, hn as int) =~= hs@);
    assert(cs@.subrange(0, n as int) =~= cs@);
    if n == 1 && cs[0] == '~' {
        assert(cs@ =~= seq!['~']);
        return string_of_range(hs.as_slice(), 0, hn);
    }
    if n >= 2 && cs[0] == '~' && cs[1] == '/' {
        assert(cs@.subrange(2, n as int) =~= cs@.skip(2));
        let mut out = String::new();
        if n > 2 && cs[2] == '/' {
            push_range(&mut out, cs.as_slice(), 2, n);
            return out;
        }
        push_range(&mut out, hs.as_slice(), 0, hn);
        if hn > 0 && hs[hn - 1] != '/' {
            push_char(&mut out, '/');
        }
        push_range(&mut out, cs.as_slice(), 2, n);
        return out;
    }
    if n == 1 {
        assert(cs@ != seq!['~']) by {
            assert(seq!['~'][0] == '~');
        }
    } else {
        assert(cs@.len() != 1);
    }
    string_of_range(cs.as_slice(), 0, n)
}

} // verus!
