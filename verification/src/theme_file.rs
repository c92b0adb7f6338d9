//! Theme files: every color as `#rrggbb` text, with the defaults a file
//! may leave out.
use vstd::prelude::*;

use crate::config::ThemeEntry;
use crate::text::{chars_of, same_chars, sorted_unique, string_of_range, string_views, strictly_sorted};
use crate::theme_defaults as defaults;

verus! {

/// Base palette of a theme file.
#[derive(Debug, Clone)]
pub struct BaseColors {
    pub background: String,
    pub background_secondary: String,
    pub foreground: String,
    pub muted: String,
}

impl BaseColors {
    /// Every field holds the built-in default.
    pub open spec fn is_default(&self) -> bool {
        &&& self.background@ == "#1a1a24"@
        &&& self.background_secondary@ == "#24243a"@
        &&& self.foreground@ == "#c0caf5"@
        &&& self.muted@ == "#565f89"@
    }
}

impl Default for BaseColors {
    fn default() -> (r: BaseColors)
        ensures
            r.is_default(),
    {
        BaseColors {
            background: defaults::background(),
            background_secondary: defaults::background_secondary(),
            foreground: defaults::foreground(),
            muted: defaults::muted(),
        }
    }
}

/// Accent colors of a theme file.
#[derive(Debug, Clone)]
pub struct AccentColors {
    pub primary: String,
    pub secondary: String,
}

impl AccentColors {
    /// Every field holds the built-in default.
    pub open spec fn is_default(&self) -> bool {
        &&& self.primary@ == "#7aa2f7"@
        &&& self.secondary@ == "#bb9af7"@
    }
}

impl Default for AccentColors {
    fn default() -> (r: AccentColors)
        ensures
            r.is_default(),
    {
        AccentColors {
            primary: defaults::primary(),
            secondary: defaults::secondary(),
        }
    }
}

/// Colors that carry meaning: errors, warnings, success, information.
#[derive(Debug, Clone)]
pub struct SemanticColors {
    pub error: String,
    pub warning: String,
    pub success: String,
    pub info: String,
}

impl SemanticColors {
    /// Every field holds the built-in default.
    pub open spec fn is_default(&self) -> bool {
        &&& self.error@ == "#f7768e"@
        &&& self.warning@ == "#e0af68"@
        &&& self.success@ == "#9ece6a"@
        &&& self.info@ == "#7dcfff"@
    }
}

impl Default for SemanticColors {
    fn default() -> (r: SemanticColors)
        ensures
            r.is_default(),
    {
        SemanticColors {
            error: defaults::error(),
            warning: defaults::warning(),
            success: defaults::success(),
            info: defaults::info(),
        }
    }
}

/// Status bar colors.
#[derive(Debug, Clone)]
pub struct StatusbarColors {
    pub background: String,
    pub foreground: String,
    pub brand: String,
    pub mode: String,
    pub separator: String,
}

impl StatusbarColors {
    /// Every field holds the built-in default.
    pub open spec fn is_default(&self) -> bool {
        &&& self.background@ == "#1a1a24"@
        &&& self.foreground@ == "#c0caf5"@
        &&& self.brand@ == "#7aa2f7"@
        &&& self.mode@ == "#565f89"@
        &&& self.separator@ == "#3b4261"@
    }
}

impl Default for StatusbarColors {
    fn default() -> (r: StatusbarColors)
        ensures
            r.is_default(),
    {
        StatusbarColors {
            background: defaults::background(),
            foreground: defaults::foreground(),
            brand: defaults::primary(),
            mode: defaults::muted(),
            separator: defaults::border(),
        }
    }
}

/// Dialog colors.
#[derive(Debug, Clone)]
pub struct DialogColors {
    pub background: String,
    pub border: String,
    pub title: String,
    pub text: String,
}

impl DialogColors {
    /// Every field holds the built-in default.
    pub open spec fn is_default(&self) -> bool {
        &&& self.background@ == "#1a1a24"@
        &&& self.border@ == "#7aa2f7"@
        &&& self.title@ == "#7aa2f7"@
        &&& self.text@ == "#c0caf5"@
    }
}

impl Default for DialogColors {
    fn default() -> (r: DialogColors)
        ensures
            r.is_default(),
    {
        DialogColors {
            background: defaults::background(),
            border: defaults::primary(),
            title: defaults::primary(),
            text: defaults::foreground(),
        }
    }
}

/// Sidebar colors.
#[derive(Debug, Clone)]
pub struct SidebarColors {
    pub background: String,
    pub item: String,
    pub item_selected: String,
    pub folder: String,
    pub folder_expanded: String,
}

impl SidebarColors {
    /// Every field holds the built-in default.
    pub open spec fn is_default(&self) -> bool {
        &&& self.background@ == "#1a1a24"@
        &&& self.item@ == "#c0caf5"@
        &&& self.item_selected@ == "#e0af68"@
        &&& self.folder@ == "#7dcfff"@
        &&& self.folder_expanded@ == "#7dcfff"@
    }
}

impl Default for SidebarColors {
    fn default() -> (r: SidebarColors)
        ensures
            r.is_default(),
    {
        SidebarColors {
            background: defaults::background(),
            item: defaults::foreground(),
            item_selected: defaults::warning(),
            folder: defaults::info(),
            folder_expanded: defaults::info(),
        }
    }
}

/// Colors of the rendered note.
#[derive(Debug, Clone)]
pub struct ContentColors {
    pub background: String,
    pub text: String,
    pub heading1: String,
    pub heading2: String,
    pub heading3: String,
    pub heading4: String,
    pub link: String,
    pub link_invalid: String,
    pub code: String,
    pub code_background: String,
    pub blockquote: String,
    pub list_marker: String,
    pub tag: String,
    pub tag_background: String,
    pub frontmatter: String,
}

impl ContentColors {
    /// Every field holds the built-in default.
    pub open spec fn is_default(&self) -> bool {
        &&& self.background@ == "#1a1a24"@
        &&& self.text@ == "#c0caf5"@
        &&& self.heading1@ == "#7aa2f7"@
        &&& self.heading2@ == "#9ece6a"@
        &&& self.heading3@ == "#e0af68"@
        &&& self.heading4@ == "#bb9af7"@
        &&& self.link@ == "#7dcfff"@
        &&& self.link_invalid@ == "#f7768e"@
        &&& self.code@ == "#9ece6a"@
        &&& self.code_background@ == "#24243a"@
        &&& self.blockquote@ == "#565f89"@
        &&& self.list_marker@ == "#bb9af7"@
        &&& self.tag@ == "#bb9af7"@
        &&& self.tag_background@ == "#24243a"@
        &&& self.frontmatter@ == "#565f89"@
    }
}

impl Default for ContentColors {
    fn default() -> (r: ContentColors)
        ensures
            r.is_default(),
    {
        ContentColors {
            background: defaults::background(),
            text: defaults::foreground(),
            heading1: defaults::primary(),
            heading2: defaults::success(),
            heading3: defaults::warning(),
            heading4: defaults::secondary(),
            link: defaults::info(),
            link_invalid: defaults::error(),
            code: defaults::success(),
            code_background: defaults::background_secondary(),
            blockquote: defaults::muted(),
            list_marker: defaults::secondary(),
            tag: defaults::secondary(),
            tag_background: defaults::background_secondary(),
            frontmatter: defaults::muted(),
        }
    }
}

/// Outline pane colors.
#[derive(Debug, Clone)]
pub struct OutlineColors {
    pub background: String,
    pub heading1: String,
    pub heading2: String,
    pub heading3: String,
    pub heading4: String,
}

impl OutlineColors {
    /// Every field holds the built-in default.
    pub open spec fn is_default(&self) -> bool {
        &&& self.background@ == "#1a1a24"@
        &&& self.heading1@ == "#7aa2f7"@
        &&& self.heading2@ == "#9ece6a"@
        &&& self.heading3@ == "#e0af68"@
        &&& self.heading4@ == "#bb9af7"@
    }
}

impl Default for OutlineColors {
    fn default() -> (r: OutlineColors)
        ensures
            r.is_default(),
    {
        OutlineColors {
            background: defaults::background(),
            heading1: defaults::primary(),
            heading2: defaults::success(),
            heading3: defaults::warning(),
            heading4: defaults::secondary(),
        }
    }
}

/// Search overlay colors.
#[derive(Debug, Clone)]
pub struct SearchColors {
    pub background: String,
    pub border: String,
    pub input: String,
    pub match_highlight: String,
    pub match_current: String,
    pub match_count: String,
}

impl SearchColors {
    /// Every field holds the built-in default.
    pub open spec fn is_default(&self) -> bool {
        &&& self.background@ == "#24243a"@
        &&& self.border@ == "#7aa2f7"@
        &&& self.input@ == "#c0caf5"@
        &&& self.match_highlight@ == "#e0af68"@
        &&& self.match_current@ == "#ff9e64"@
        &&& self.match_count@ == "#565f89"@
    }
}

impl Default for SearchColors {
    fn default() -> (r: SearchColors)
        ensures
            r.is_default(),
    {
        SearchColors {
            background: defaults::background_secondary(),
            border: defaults::primary(),
            input: defaults::foreground(),
            match_highlight: defaults::warning(),
            match_current: defaults::search_match_current(),
            match_count: defaults::muted(),
        }
    }
}

/// Editor syntax colors.
#[derive(Debug, Clone)]
pub struct EditorColors {
    pub heading1: String,
    pub heading2: String,
    pub heading3: String,
    pub heading4: String,
    pub heading5: String,
    pub heading6: String,
    pub code: String,
    pub link: String,
    pub blockquote: String,
    pub list_marker: String,
    pub bold: String,
    pub italic: String,
}

impl EditorColors {
    /// Every field holds the built-in default.
    pub open spec fn is_default(&self) -> bool {
        &&& self.heading1@ == "#7aa2f7"@
        &&& self.heading2@ == "#9ece6a"@
        &&& self.heading3@ == "#e0af68"@
        &&& self.heading4@ == "#bb9af7"@
        &&& self.heading5@ == "#7dcfff"@
        &&& self.heading6@ == "#565f89"@
        &&& self.code@ == "#9ece6a"@
        &&& self.link@ == "#7dcfff"@
        &&& self.blockquote@ == "#565f89"@
        &&& self.list_marker@ == "#bb9af7"@
        &&& self.bold@ == "#e0af68"@
        &&& self.italic@ == "#7dcfff"@
    }
}

impl Default for EditorColors {
    fn default() -> (r: EditorColors)
        ensures
            r.is_default(),
    {
        EditorColors {
            heading1: defaults::primary(),
            heading2: defaults::success(),
            heading3: defaults::warning(),
            heading4: defaults::secondary(),
            heading5: defaults::info(),
            heading6: defaults::muted(),
            code: defaults::success(),
            link: defaults::info(),
            blockquote: defaults::muted(),
            list_marker: defaults::secondary(),
            bold: defaults::warning(),
            italic: defaults::info(),
        }
    }
}

/// Optional surfaces of the flat style; missing ones are derived.
#[derive(Debug, Clone)]
pub struct FlatColors {
    pub surface: Option<String>,
    pub surface_raised: Option<String>,
    pub content_bg: Option<String>,
}

impl FlatColors {
    /// Every field holds the built-in default.
    pub open spec fn is_default(&self) -> bool {
        &&& self.surface is None
        &&& self.surface_raised is None
        &&& self.content_bg is None
    }
}

impl Default for FlatColors {
    fn default() -> (r: FlatColors)
        ensures
            r.is_default(),
    {
        FlatColors { surface: None, surface_raised: None, content_bg: None }
    }
}

/// Interface colors of a theme file.
#[derive(Debug, Clone)]
pub struct UiColorsFile {
    pub border: String,
    pub border_focused: String,
    pub selection: String,
    pub cursor: String,
    pub statusbar: StatusbarColors,
    pub dialog: DialogColors,
    pub sidebar: SidebarColors,
    pub content: ContentColors,
    pub outline: OutlineColors,
    pub search: SearchColors,
    pub editor: EditorColors,
    pub flat: FlatColors,
}

impl UiColorsFile {
    /// Every field holds the built-in default.
    pub open spec fn is_default(&self) -> bool {
        &&& self.border@ == "#3b4261"@
        &&& self.border_focused@ == "#7aa2f7"@
        &&& self.selection@ == "#283457"@
        &&& self.cursor@ == "#c0caf5"@
        &&& self.statusbar.is_default()
        &&& self.dialog.is_default()
        &&& self.sidebar.is_default()
        &&& self.content.is_default()
        &&& self.outline.is_default()
        &&& self.search.is_default()
        &&& self.editor.is_default()
        &&& self.flat.is_default()
    }
}

impl Default for UiColorsFile {
    fn default() -> (r: UiColorsFile)
        ensures
            r.is_default(),
    {
        UiColorsFile {
            border: defaults::border(),
            border_focused: defaults::border_focused(),
            selection: defaults::selection(),
            cursor: defaults::cursor(),
            statusbar: StatusbarColors::default(),
            dialog: DialogColors::default(),
            sidebar: SidebarColors::default(),
            content: ContentColors::default(),
            outline: OutlineColors::default(),
            search: SearchColors::default(),
            editor: EditorColors::default(),
            flat: FlatColors::default(),
        }
    }
}

/// A theme file: every color of a theme as text.
#[derive(Debug, Clone)]
pub struct ThemeFile {
    pub base: BaseColors,
    pub accent: AccentColors,
    pub semantic: SemanticColors,
    pub ui: UiColorsFile,
}

impl ThemeFile {
    /// Every field holds the built-in default.
    pub open spec fn is_default(&self) -> bool {
        &&& self.base.is_default()
        &&& self.accent.is_default()
        &&& self.semantic.is_default()
        &&& self.ui.is_default()
    }
}

impl Default for ThemeFile {
    fn default() -> (r: ThemeFile)
        ensures
            r.is_default(),
    {
        ThemeFile {
            base: BaseColors::default(),
            accent: AccentColors::default(),
            semantic: SemanticColors::default(),
            ui: UiColorsFile::default(),
        }
    }
}

/// The official themes, in their canonical order.
pub open spec fn bundled_theme_names() -> Seq<Seq<char>> {
    seq!["ekphos-dawn"@, "dracula"@, "kanagawa"@]
}

/// Index of the last `.` of `name` before index `i`.
pub open spec fn last_dot(name: Seq<char>, i: int) -> Option<int>
    decreases i,
{
    if i <= 0 || i > name.len() {
        None
    } else if name[i - 1] == '.' {
        Some(i - 1)
    } else {
        last_dot(name, i - 1)
    }
}

/// The stem of a file name whose extension is `toml`, as `Path::extension`
/// and `Path::file_stem` split it: at the last `.`, unless that `.` starts
/// the name.
pub open spec fn toml_stem(name: Seq<char>) -> Option<Seq<char>> {
    match last_dot(name, name.len() as int) {
        Some(d) => if d > 0 && name.skip(d + 1) == "toml"@ {
            Some(name.take(d))
        } else {
            None
        },
        None => None,
    }
}

/// `name` is the stem of a `.toml` file among the first `j` of `files`.
pub open spec fn stem_among(files: Seq<String>, j: int, name: Seq<char>) -> bool {
    exists|k: int| 0 <= k < j && toml_stem((#[trigger] files[k])@) == Some(name)
}

/// `name` is the stem of a `.toml` file among `files` and not an official
/// theme.
pub open spec fn is_user_theme(files: Seq<String>, name: Seq<char>) -> bool {
    stem_among(files, files.len() as int, name) && !bundled_theme_names().contains(name)
}

pub open spec fn entry_names(v: Seq<ThemeEntry>) -> Seq<Seq<char>> {
    v.map_values(|e: ThemeEntry| e.name@)
}

/// [`toml_stem`] of `name`.
fn toml_stem_exec(name: &[char]) -> (r: Option<Vec<char>>)
    ensures
        match toml_stem(name@) {
            Some(t) => r matches Some(v) && v@ == t,
            None => r is None,
        },
{
    let mut i = name.len();
    while i > 0 && name[i - 1] != '.'
        invariant
            i <= name@.len(),
            last_dot(name@, name@.len() as int) == last_dot(name@, i as int),
        decreases i,
    {
        i -= 1;
    }
    if i <= 1 {
        return None;
    }
    let d = i - 1;
    let ext = ['t', 'o', 'm', 'l'];
    proof {
        reveal_strlit("toml");
        assert(ext@ =~= "toml"@);
        assert(name@.skip(d + 1) =~= name@.subrange(d + 1, name@.len() as int));
    }
    let tail: Vec<char> = {
        let mut t: Vec<char> = Vec::new();
        let mut k = d + 1;
        while k < name.len()
            invariant
                d + 1 <= k <= name@.len(),
                t@ == name@.subrange(d + 1, k as int),
            decreases name@.len() - k,
        {
            t.push(name[k]);
            assert(name@.subrange(d + 1, k as int).push(name@[k as int]) =~= name@.subrange(d + 1, k + 1));
            k += 1;
        }
        t
    };
    if !same_chars(tail.as_slice(), &ext) {
        return None;
    }
    let mut stem: Vec<char> = Vec::new();
    let mut k: usize = 0;
    while k < d
        invariant
            d < name@.len(),
            k <= d,
            stem@ == name@.take(k as int),
        decreases d - k,
    {
        stem.push(name[k]);
        assert(name@.take(k as int).push(name@[k as int]) =~= name@.take(k + 1));
        k += 1;
    }
    Some(stem)
}

/// Whether `name` is an official theme.
fn is_bundled(name: &[char]) -> (b: bool)
    ensures
        b == bundled_theme_names().contains(name@),
{
    let a = chars_of("ekphos-dawn");
    let b = chars_of("dracula");
    let c = chars_of("kanagawa");
    let r = same_chars(name, a.as_slice()) || same_chars(name, b.as_slice()) || same_chars(
        name,
        c.as_slice(),
    );
    proof {
        let names = bundled_theme_names();
        assert(names[0] == "ekphos-dawn"@ && names[1] == "dracula"@ && names[2] == "kanagawa"@);
        if names.contains(name@) {
            let j = choose|j: int| 0 <= j < names.len() && names[j] == name@;
            assert(j == 0 || j == 1 || j == 2);
        }
    }
    r
}

impl ThemeFile {
    /// Every selectable theme, given the file names in the user's themes
    /// directory: the official themes first, in their canonical order, then
    /// the stems of the user's `.toml` files that are not official themes,
    /// sorted and without repeats.
    pub fn list_available_in(files: &Vec<String>) -> (out: Vec<ThemeEntry>)
        ensures
            out@.len() >= 3,
            entry_names(out@).take(3) == bundled_theme_names(),
            forall|i: int| 0 <= i < out@.len() ==> (#[trigger] out@[i]).bundled == (i < 3),
            strictly_sorted(entry_names(out@).skip(3)),
            forall|m: Seq<char>| entry_names(out@).skip(3).contains(m) <==> is_user_theme(files@, m),
    {
        let mut user: Vec<String> = Vec::new();
        let mut j: usize = 0;
        while j < files.len()
            invariant
                j <= files@.len(),
                forall|m: Seq<char>|
                    #[trigger] string_views(user@).contains(m) <==> stem_among(files@, j as int, m)
                        && !bundled_theme_names().contains(m),
            decreases files@.len() - j,
        {
            let cs = chars_of(files[j].as_str());
            let ghost before = string_views(user@);
            let ghost st = toml_stem(files@[j as int]@);
            let ghost adds = st is Some && !bundled_theme_names().contains(st->0);
            match toml_stem_exec(cs.as_slice()) {
                Some(stem) => {
                    if !is_bundled(stem.as_slice()) {
                        let n = stem.len();
                        let t = string_of_range(stem.as_slice(), 0, n);
                        assert(stem@.subrange(0, n as int) =~= stem@);
                        user.push(t);
                        assert(string_views(user@) =~= before.push(stem@));
                    } else {
                        assert(!adds);
                    }
                },
                None => {
                    assert(!adds);
                },
            }
            assert(adds ==> string_views(user@) == before.push(st->0));
            assert(!adds ==> string_views(user@) == before);
            proof {
                assert forall|m: Seq<char>|
                    #[trigger] string_views(user@).contains(m) <==> stem_among(files@, j + 1, m)
                        && !bundled_theme_names().contains(m) by {
                    assert(before.contains(m) <==> stem_among(files@, j as int, m) && !bundled_theme_names().contains(m));
                    if stem_among(files@, j as int, m) {
                        let k = choose|k: int| 0 <= k < j && toml_stem((#[trigger] files@[k])@) == Some(m);
                        assert(toml_stem(files@[k]@) == Some(m));
                    }
                    if stem_among(files@, j + 1, m) {
                        let k = choose|k: int| 0 <= k < j + 1 && toml_stem((#[trigger] files@[k])@) == Some(m);
                        if k < j {
                            assert(stem_among(files@, j as int, m));
                        }
                    }
                    if string_views(user@).contains(m) && !before.contains(m) {
                        let i = choose|i: int| 0 <= i < string_views(user@).len() && string_views(user@)[i] == m;
                        assert(adds);
                        assert(i == before.len());
                        assert(toml_stem(files@[j as int]@) == Some(m));
                    }
                    if before.contains(m) {
                        let i = choose|i: int| 0 <= i < before.len() && before[i] == m;
                        if adds {
                            assert(string_views(user@)[i] == m);
                        }
                    }
                    if adds && st->0 == m {
                        assert(string_views(user@)[before.len() as int] == m);
                    }
                }
            }
            j += 1;
        }
        let sorted = sorted_unique(&user);
        let mut out: Vec<ThemeEntry> = Vec::new();
        out.push(ThemeEntry { name: "ekphos-dawn".to_string(), bundled: true });
        out.push(ThemeEntry { name: "dracula".to_string(), bundled: true });
        out.push(ThemeEntry { name: "kanagawa".to_string(), bundled: true });
        assert(entry_names(out@) =~= bundled_theme_names());
        let mut k: usize = 0;
        while k < sorted.len()
            invariant
                k <= sorted@.len(),
                out@.len() == 3 + k,
                entry_names(out@).take(3) == bundled_theme_names(),
                forall|i: int| 0 <= i < out@.len() ==> (#[trigger] out@[i]).bundled == (i < 3),
                entry_names(out@).skip(3) == string_views(sorted@).take(k as int),
            decreases sorted@.len() - k,
        {
            let ghost before = out@;
            out.push(ThemeEntry { name: sorted[k].clone(), bundled: false });
            assert(entry_names(out@).take(3) =~= entry_names(before).take(3));
            assert(entry_names(out@).skip(3) =~= string_views(sorted@).take(k + 1));
            k += 1;
        }
        assert(string_views(sorted@).take(sorted@.len() as int) =~= string_views(sorted@));
        assert forall|m: Seq<char>| entry_names(out@).skip(3).contains(m) <==> is_user_theme(files@, m) by {
            assert(string_views(sorted@).contains(m) <==> string_views(user@).contains(m));
        }
        out
    }
}

} // verus!
