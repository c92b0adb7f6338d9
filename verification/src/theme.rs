//! Resolved themes: colors parsed from a theme file.
use vstd::prelude::*;

use crate::text::chars_of;
use crate::theme_file::ThemeFile;

verus! {

/// A terminal color.
#[derive(Debug, Clone, Copy, PartialEq, Eq, Structural)]
pub enum Color {
    White,
    Rgb(u8, u8, u8),
}

/// Value of a hexadecimal digit character.
pub open spec fn hex_char_value(c: char) -> Option<u8> {
    if '0' <= c <= '9' {
        Some(((c as u32) - 48) as u8)
    } else if 'a' <= c <= 'f' {
        Some(((c as u32) - 87) as u8)
    } else if 'A' <= c <= 'F' {
        Some(((c as u32) - 55) as u8)
    } else {
        None
    }
}

/// Value of a two-character field read as `u8::from_str_radix(_, 16)` reads
/// it: two hex digits, or a `+` sign and one digit.
pub open spec fn hex_pair(c0: char, c1: char) -> Option<u8> {
    if c0 == '+' {
        hex_char_value(c1)
    } else {
        match (hex_char_value(c0), hex_char_value(c1)) {
            (Some(a), Some(b)) => Some((a * 16 + b) as u8),
            _ => None,
        }
    }
}

/// `s` without the leading copies of `c`.
pub open spec fn strip_leading(s: Seq<char>, c: char) -> Seq<char>
    decreases s.len(),
{
    if s.len() > 0 && s[0] == c {
        strip_leading(s.drop_first(), c)
    } else {
        s
    }
}

/// `s` without the trailing copies of `c`.
pub open spec fn strip_trailing(s: Seq<char>, c: char) -> Seq<char>
    decreases s.len(),
{
    if s.len() > 0 && s.last() == c {
        strip_trailing(s.drop_last(), c)
    } else {
        s
    }
}

/// The color text once leading `#`s and surrounding single quotes are gone.
pub open spec fn hex_body(s: Seq<char>) -> Seq<char> {
    strip_trailing(strip_leading(strip_leading(s, '#'), '\''), '\'')
}

/// The color a `#rrggbb` text names: white unless the body is six ASCII
/// characters whose three pairs all read as hex bytes.
pub open spec fn parsed_color(s: Seq<char>) -> Color {
    let h = hex_body(s);
    if h.len() == 6 && (forall|i: int| 0 <= i < 6 ==> (h[i] as int) < 128) {
        match (hex_pair(h[0], h[1]), hex_pair(h[2], h[3]), hex_pair(h[4], h[5])) {
            (Some(r), Some(g), Some(b)) => Color::Rgb(r, g, b),
            _ => Color::White,
        }
    } else {
        Color::White
    }
}

/// Value of a hex digit character.
fn hex_char(c: char) -> (r: Option<u8>)
    ensures
        r == hex_char_value(c),
{
    if '0' <= c && c <= '9' {
        Some(((c as u32) - 48) as u8)
    } else if 'a' <= c && c <= 'f' {
        Some(((c as u32) - 87) as u8)
    } else if 'A' <= c && c <= 'F' {
        Some(((c as u32) - 55) as u8)
    } else {
        None
    }
}

/// Value of a two-character hex field.
fn hex_pair_exec(c0: char, c1: char) -> (r: Option<u8>)
    ensures
        r == hex_pair(c0, c1),
{
    if c0 == '+' {
        hex_char(c1)
    } else {
        match (hex_char(c0), hex_char(c1)) {
            (Some(a), Some(b)) => Some(a * 16 + b),
            _ => None,
        }
    }
}

/// Parse a `#rrggbb` color, falling back to white.
pub fn parse_hex_color(hex: &str) -> (c: Color)
    ensures
        c == parsed_color(hex@),
{
    let cs = chars_of(hex);
    let n = cs.len();
    let mut a: usize = 0;
    assert(cs@.skip(0) =~= cs@);
    while a < n && cs[a] == '#'
        invariant
            a <= n == cs@.len(),
            strip_leading(cs@, '#') == strip_leading(cs@.skip(a as int), '#'),
        decreases n - a,
    {
        assert(cs@.skip(a as int).drop_first() =~= cs@.skip(a + 1));
        a += 1;
    }
    assert(cs@.skip(0) =~= cs@);
    let ghost after_hash = cs@.skip(a as int);
    assert(strip_leading(cs@, '#') == after_hash);
    let mut b: usize = a;
    while b < n && cs[b] == '\''
        invariant
            a <= b <= n == cs@.len(),
            strip_leading(after_hash, '\'') == strip_leading(cs@.skip(b as int), '\''),
        decreases n - b,
    {
        assert(cs@.skip(b as int).drop_first() =~= cs@.skip(b + 1));
        b += 1;
    }
    assert(cs@.skip(a as int).skip(0) =~= after_hash);
    let mut e: usize = n;
    assert(cs@.skip(b as int) =~= cs@.subrange(b as int, n as int));
    while e > b && cs[e - 1] == '\''
        invariant
            b <= e <= n == cs@.len(),
            hex_body(cs@) == strip_trailing(cs@.subrange(b as int, e as int), '\''),
        decreases e,
    {
        assert(cs@.subrange(b as int, e as int).drop_last() =~= cs@.subrange(b as int, e - 1));
        e -= 1;
    }
    let ghost h = cs@.subrange(b as int, e as int);
    assert(hex_body(cs@) == h);
    if e - b != 6 {
        return Color::White;
    }
    let mut i: usize = 0;
    while i < 6
        invariant
            i <= 6,
            e - b == 6,
            b <= e <= n == cs@.len(),
            h == cs@.subrange(b as int, e as int),
            cs@ == hex@,
            hex_body(cs@) == h,
            forall|k: int| 0 <= k < i ==> (h[k] as int) < 128,
        decreases 6 - i,
    {
        if cs[b + i] > '\x7f' {
            assert((h[i as int] as int) >= 128);
            assert(!(forall|k: int| 0 <= k < 6 ==> (h[k] as int) < 128));
            return Color::White;
        }
        i += 1;
    }
    let r = hex_pair_exec(cs[b], cs[b + 1]);
    let g = hex_pair_exec(cs[b + 2], cs[b + 3]);
    let bl = hex_pair_exec(cs[b + 4], cs[b + 5]);
    match (r, g, bl) {
        (Some(r), Some(g), Some(bl)) => Color::Rgb(r, g, bl),
        _ => Color::White,
    }
}

/// `x + amount`, capped at 255.
pub open spec fn saturating_add_u8(x: u8, amount: u8) -> u8 {
    if x + amount > 255 {
        255
    } else {
        (x + amount) as u8
    }
}

/// The color with each channel raised by `amount`, capped at 255; white
/// stays white.
pub open spec fn lightened(c: Color, amount: u8) -> Color {
    match c {
        Color::Rgb(r, g, b) => Color::Rgb(
            saturating_add_u8(r, amount),
            saturating_add_u8(g, amount),
            saturating_add_u8(b, amount),
        ),
        other => other,
    }
}

/// Lighten a color by `amount` on every channel.
pub fn lighten(color: Color, amount: u8) -> (c: Color)
    ensures
        c == lightened(color, amount),
{
    match color {
        Color::Rgb(r, g, b) => Color::Rgb(
            r.saturating_add(amount),
            g.saturating_add(amount),
            b.saturating_add(amount),
        ),
        other => other,
    }
}

/// Surfaces of the flat style.
#[derive(Debug, Clone, Copy, PartialEq, Eq, Structural)]
pub struct FlatTheme {
    pub surface: Color,
    pub surface_raised: Color,
    pub content_bg: Color,
}

/// Status bar colors.
#[derive(Debug, Clone, Copy, PartialEq, Eq, Structural)]
pub struct StatusbarTheme {
    pub background: Color,
    pub foreground: Color,
    pub brand: Color,
    pub mode: Color,
    pub separator: Color,
}

/// Dialog colors.
#[derive(Debug, Clone, Copy, PartialEq, Eq, Structural)]
pub struct DialogTheme {
    pub background: Color,
    pub border: Color,
    pub title: Color,
    pub text: Color,
}

/// Sidebar colors.
#[derive(Debug, Clone, Copy, PartialEq, Eq, Structural)]
pub struct SidebarTheme {
    pub background: Color,
    pub item: Color,
    pub item_selected: Color,
    pub folder: Color,
    pub folder_expanded: Color,
}

/// Colors of the rendered note.
#[derive(Debug, Clone, Copy, PartialEq, Eq, Structural)]
pub struct ContentTheme {
    pub background: Color,
    pub text: Color,
    pub heading1: Color,
    pub heading2: Color,
    pub heading3: Color,
    pub heading4: Color,
    pub link: Color,
    pub link_invalid: Color,
    pub code: Color,
    pub code_background: Color,
    pub blockquote: Color,
    pub list_marker: Color,
    pub tag: Color,
    pub tag_background: Color,
    pub frontmatter: Color,
}

/// Outline pane colors.
#[derive(Debug, Clone, Copy, PartialEq, Eq, Structural)]
pub struct OutlineTheme {
    pub background: Color,
    pub heading1: Color,
    pub heading2: Color,
    pub heading3: Color,
    pub heading4: Color,
}

/// Search overlay colors.
#[derive(Debug, Clone, Copy, PartialEq, Eq, Structural)]
pub struct SearchTheme {
    pub background: Color,
    pub border: Color,
    pub input: Color,
    pub match_highlight: Color,
    pub match_current: Color,
    pub match_count: Color,
}

/// Editor syntax colors.
#[derive(Debug, Clone, Copy, PartialEq, Eq, Structural)]
pub struct EditorTheme {
    pub heading1: Color,
    pub heading2: Color,
    pub heading3: Color,
    pub heading4: Color,
    pub heading5: Color,
    pub heading6: Color,
    pub code: Color,
    pub link: Color,
    pub blockquote: Color,
    pub list_marker: Color,
    pub bold: Color,
    pub italic: Color,
}

/// A resolved theme.
#[derive(Debug, Clone, Copy, PartialEq, Eq, Structural)]
pub struct Theme {
    pub background: Color,
    pub background_secondary: Color,
    pub foreground: Color,
    pub muted: Color,
    pub primary: Color,
    pub secondary: Color,
    pub error: Color,
    pub warning: Color,
    pub success: Color,
    pub info: Color,
    pub border: Color,
    pub border_focused: Color,
    pub selection: Color,
    pub cursor: Color,
    pub statusbar: StatusbarTheme,
    pub dialog: DialogTheme,
    pub sidebar: SidebarTheme,
    pub content: ContentTheme,
    pub outline: OutlineTheme,
    pub search: SearchTheme,
    pub editor: EditorTheme,
    pub flat: FlatTheme,
}

/// The theme a theme file describes: every color parsed with
/// [`parsed_color`]; flat surfaces missing from the file default to the
/// secondary background, that lightened by 10, and the content background.
pub open spec fn theme_of(tf: ThemeFile) -> Theme {
    let background_secondary = parsed_color(tf.base.background_secondary@);
    let flat_surface = match tf.ui.flat.surface {
        Some(s) => parsed_color(s@),
        None => background_secondary,
    };
    Theme {
        background: parsed_color(tf.base.background@),
        background_secondary,
        foreground: parsed_color(tf.base.foreground@),
        muted: parsed_color(tf.base.muted@),
        primary: parsed_color(tf.accent.primary@),
        secondary: parsed_color(tf.accent.secondary@),
        error: parsed_color(tf.semantic.error@),
        warning: parsed_color(tf.semantic.warning@),
        success: parsed_color(tf.semantic.success@),
        info: parsed_color(tf.semantic.info@),
        border: parsed_color(tf.ui.border@),
        border_focused: parsed_color(tf.ui.border_focused@),
        selection: parsed_color(tf.ui.selection@),
        cursor: parsed_color(tf.ui.cursor@),
        statusbar: StatusbarTheme {
            background: parsed_color(tf.ui.statusbar.background@),
            foreground: parsed_color(tf.ui.statusbar.foreground@),
            brand: parsed_color(tf.ui.statusbar.brand@),
            mode: parsed_color(tf.ui.statusbar.mode@),
            separator: parsed_color(tf.ui.statusbar.separator@),
        },
        dialog: DialogTheme {
            background: parsed_color(tf.ui.dialog.background@),
            border: parsed_color(tf.ui.dialog.border@),
            title: parsed_color(tf.ui.dialog.title@),
            text: parsed_color(tf.ui.dialog.text@),
        },
        sidebar: SidebarTheme {
            background: parsed_color(tf.ui.sidebar.background@),
            item: parsed_color(tf.ui.sidebar.item@),
            item_selected: parsed_color(tf.ui.sidebar.item_selected@),
            folder: parsed_color(tf.ui.sidebar.folder@),
            folder_expanded: parsed_color(tf.ui.sidebar.folder_expanded@),
        },
        content: ContentTheme {
            background: parsed_color(tf.ui.content.background@),
            text: parsed_color(tf.ui.content.text@),
            heading1: parsed_color(tf.ui.content.heading1@),
            heading2: parsed_color(tf.ui.content.heading2@),
            heading3: parsed_color(tf.ui.content.heading3@),
            heading4: parsed_color(tf.ui.content.heading4@),
            link: parsed_color(tf.ui.content.link@),
            link_invalid: parsed_color(tf.ui.content.link_invalid@),
            code: parsed_color(tf.ui.content.code@),
            code_background: parsed_color(tf.ui.content.code_background@),
            blockquote: parsed_color(tf.ui.content.blockquote@),
            list_marker: parsed_color(tf.ui.content.list_marker@),
            tag: parsed_color(tf.ui.content.tag@),
            tag_background: parsed_color(tf.ui.content.tag_background@),
            frontmatter: parsed_color(tf.ui.content.frontmatter@),
        },
        outline: OutlineTheme {
            background: parsed_color(tf.ui.outline.background@),
            heading1: parsed_color(tf.ui.outline.heading1@),
            heading2: parsed_color(tf.ui.outline.heading2@),
            heading3: parsed_color(tf.ui.outline.heading3@),
            heading4: parsed_color(tf.ui.outline.heading4@),
        },
        search: SearchTheme {
            background: parsed_color(tf.ui.search.background@),
            border: parsed_color(tf.ui.search.border@),
            input: parsed_color(tf.ui.search.input@),
            match_highlight: parsed_color(tf.ui.search.match_highlight@),
            match_current: parsed_color(tf.ui.search.match_current@),
            match_count: parsed_color(tf.ui.search.match_count@),
        },
        editor: EditorTheme {
            heading1: parsed_color(tf.ui.editor.heading1@),
            heading2: parsed_color(tf.ui.editor.heading2@),
            heading3: parsed_color(tf.ui.editor.heading3@),
            heading4: parsed_color(tf.ui.editor.heading4@),
            heading5: parsed_color(tf.ui.editor.heading5@),
            heading6: parsed_color(tf.ui.editor.heading6@),
            code: parsed_color(tf.ui.editor.code@),
            link: parsed_color(tf.ui.editor.link@),
            blockquote: parsed_color(tf.ui.editor.blockquote@),
            list_marker: parsed_color(tf.ui.editor.list_marker@),
            bold: parsed_color(tf.ui.editor.bold@),
            italic: parsed_color(tf.ui.editor.italic@),
        },
        flat: FlatTheme {
            surface: flat_surface,
            surface_raised: match tf.ui.flat.surface_raised {
                Some(s) => parsed_color(s@),
                None => lightened(flat_surface, 10),
            },
            content_bg: match tf.ui.flat.content_bg {
                Some(s) => parsed_color(s@),
                None => parsed_color(tf.ui.content.background@),
            },
        },
    }
}

/// The color of an optional text, or `fallback` when it is missing.
fn parse_or(text: &Option<String>, fallback: Color) -> (c: Color)
    ensures
        c == match *text {
            Some(s) => parsed_color(s@),
            None => fallback,
        },
{
    match text {
        Some(s) => parse_hex_color(s.as_str()),
        None => fallback,
    }
}

impl Theme {
    /// Resolve every color of a theme file.
    pub fn from_file(tf: &ThemeFile) -> (t: Theme)
        ensures
            t == theme_of(*tf),
    {
        let background_secondary = parse_hex_color(tf.base.background_secondary.as_str());
        let flat_surface = parse_or(&tf.ui.flat.surface, background_secondary);
        let content_background = parse_hex_color(tf.ui.content.background.as_str());
        Theme {
            background: parse_hex_color(tf.base.background.as_str()),
            background_secondary,
            foreground: parse_hex_color(tf.base.foreground.as_str()),
            muted: parse_hex_color(tf.base.muted.as_str()),
            primary: parse_hex_color(tf.accent.primary.as_str()),
            secondary: parse_hex_color(tf.accent.secondary.as_str()),
            error: parse_hex_color(tf.semantic.error.as_str()),
            warning: parse_hex_color(tf.semantic.warning.as_str()),
            success: parse_hex_color(tf.semantic.success.as_str()),
            info: parse_hex_color(tf.semantic.info.as_str()),
            border: parse_hex_color(tf.ui.border.as_str()),
            border_focused: parse_hex_color(tf.ui.border_focused.as_str()),
            selection: parse_hex_color(tf.ui.selection.as_str()),
            cursor: parse_hex_color(tf.ui.cursor.as_str()),
            statusbar: StatusbarTheme {
                background: parse_hex_color(tf.ui.statusbar.background.as_str()),
                foreground: parse_hex_color(tf.ui.statusbar.foreground.as_str()),
                brand: parse_hex_color(tf.ui.statusbar.brand.as_str()),
                mode: parse_hex_color(tf.ui.statusbar.mode.as_str()),
                separator: parse_hex_color(tf.ui.statusbar.separator.as_str()),
            },
            dialog: DialogTheme {
                background: parse_hex_color(tf.ui.dialog.background.as_str()),
                border: parse_hex_color(tf.ui.dialog.border.as_str()),
                title: parse_hex_color(tf.ui.dialog.title.as_str()),
                text: parse_hex_color(tf.ui.dialog.text.as_str()),
            },
            sidebar: SidebarTheme {
                background: parse_hex_color(tf.ui.sidebar.background.as_str()),
                item: parse_hex_color(tf.ui.sidebar.item.as_str()),
                item_selected: parse_hex_color(tf.ui.sidebar.item_selected.as_str()),
                folder: parse_hex_color(tf.ui.sidebar.folder.as_str()),
                folder_expanded: parse_hex_color(tf.ui.sidebar.folder_expanded.as_str()),
            },
            content: ContentTheme {
                background: content_background,
                text: parse_hex_color(tf.ui.content.text.as_str()),
                heading1: parse_hex_color(tf.ui.content.heading1.as_str()),
                heading2: parse_hex_color(tf.ui.content.heading2.as_str()),
                heading3: parse_hex_color(tf.ui.content.heading3.as_str()),
                heading4: parse_hex_color(tf.ui.content.heading4.as_str()),
                link: parse_hex_color(tf.ui.content.link.as_str()),
                link_invalid: parse_hex_color(tf.ui.content.link_invalid.as_str()),
                code: parse_hex_color(tf.ui.content.code.as_str()),
                code_background: parse_hex_color(tf.ui.content.code_background.as_str()),
                blockquote: parse_hex_color(tf.ui.content.blockquote.as_str()),
                list_marker: parse_hex_color(tf.ui.content.list_marker.as_str()),
                tag: parse_hex_color(tf.ui.content.tag.as_str()),
                tag_background: parse_hex_color(tf.ui.content.tag_background.as_str()),
                frontmatter: parse_hex_color(tf.ui.content.frontmatter.as_str()),
            },
            outline: OutlineTheme {
                background: parse_hex_color(tf.ui.outline.background.as_str()),
                heading1: parse_hex_color(tf.ui.outline.heading1.as_str()),
                heading2: parse_hex_color(tf.ui.outline.heading2.as_str()),
                heading3: parse_hex_color(tf.ui.outline.heading3.as_str()),
                heading4: parse_hex_color(tf.ui.outline.heading4.as_str()),
            },
            search: SearchTheme {
                background: parse_hex_color(tf.ui.search.background.as_str()),
                border: parse_hex_color(tf.ui.search.border.as_str()),
                input: parse_hex_color(tf.ui.search.input.as_str()),
                match_highlight: parse_hex_color(tf.ui.search.match_highlight.as_str()),
                match_current: parse_hex_color(tf.ui.search.match_current.as_str()),
                match_count: parse_hex_color(tf.ui.search.match_count.as_str()),
            },
            editor: EditorTheme {
                heading1: parse_hex_color(tf.ui.editor.heading1.as_str()),
                heading2: parse_hex_color(tf.ui.editor.heading2.as_str()),
                heading3: parse_hex_color(tf.ui.editor.heading3.as_str()),
                heading4: parse_hex_color(tf.ui.editor.heading4.as_str()),
                heading5: parse_hex_color(tf.ui.editor.heading5.as_str()),
                heading6: parse_hex_color(tf.ui.editor.heading6.as_str()),
                code: parse_hex_color(tf.ui.editor.code.as_str()),
                link: parse_hex_color(tf.ui.editor.link.as_str()),
                blockquote: parse_hex_color(tf.ui.editor.blockquote.as_str()),
                list_marker: parse_hex_color(tf.ui.editor.list_marker.as_str()),
                bold: parse_hex_color(tf.ui.editor.bold.as_str()),
                italic: parse_hex_color(tf.ui.editor.italic.as_str()),
            },
            flat: FlatTheme {
                surface: flat_surface,
                surface_raised: parse_or(&tf.ui.flat.surface_raised, lighten(flat_surface, 10)),
                content_bg: parse_or(&tf.ui.flat.content_bg, content_background),
            },
        }
    }
}

impl Default for Theme {
    fn default() -> (t: Theme)
        ensures
            exists|tf: ThemeFile| tf.is_default() && t == theme_of(tf),
    {
        let tf = ThemeFile::default();
        Theme::from_file(&tf)
    }
}

} // verus!
