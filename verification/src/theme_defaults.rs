//! Default colors of the built-in theme, as `#rrggbb` text.
use vstd::prelude::*;

verus! {

/// The default `background` color.
pub fn background() -> (s: String)
    ensures
        s@ == "#1a1a24"@,
{
    "#1a1a24".to_owned()
}

/// The default `background secondary` color.
pub fn background_secondary() -> (s: String)
    ensures
        s@ == "#24243a"@,
{
    "#24243a".to_owned()
}

/// The default `foreground` color.
pub fn foreground() -> (s: String)
    ensures
        s@ == "#c0caf5"@,
{
    "#c0caf5".to_owned()
}

/// The default `muted` color.
pub fn muted() -> (s: String)
    ensures
        s@ == "#565f89"@,
{
    "#565f89".to_owned()
}

/// The default `primary` color.
pub fn primary() -> (s: String)
    ensures
        s@ == "#7aa2f7"@,
{
    "#7aa2f7".to_owned()
}

/// The default `secondary` color.
pub fn secondary() -> (s: String)
    ensures
        s@ == "#bb9af7"@,
{
    "#bb9af7".to_owned()
}

/// The default `error` color.
pub fn error() -> (s: String)
    ensures
        s@ == "#f7768e"@,
{
    "#f7768e".to_owned()
}

/// The default `warning` color.
pub fn warning() -> (s: String)
    ensures
        s@ == "#e0af68"@,
{
    "#e0af68".to_owned()
}

/// The default `success` color.
pub fn success() -> (s: String)
    ensures
        s@ == "#9ece6a"@,
{
    "#9ece6a".to_owned()
}

/// The default `info` color.
pub fn info() -> (s: String)
    ensures
        s@ == "#7dcfff"@,
{
    "#7dcfff".to_owned()
}

/// The default `border` color.
pub fn border() -> (s: String)
    ensures
        s@ == "#3b4261"@,
{
    "#3b4261".to_owned()
}

/// The default `border focused` color.
pub fn border_focused() -> (s: String)
    ensures
        s@ == "#7aa2f7"@,
{
    "#7aa2f7".to_owned()
}

/// The default `selection` color.
pub fn selection() -> (s: String)
    ensures
        s@ == "#283457"@,
{
    "#283457".to_owned()
}

/// The default `cursor` color.
pub fn cursor() -> (s: String)
    ensures
        s@ == "#c0caf5"@,
{
    "#c0caf5".to_owned()
}

/// The default `search match current` color.
pub fn search_match_current() -> (s: String)
    ensures
        s@ == "#ff9e64"@,
{
    "#ff9e64".to_owned()
}

} // verus!
