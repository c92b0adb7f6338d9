//! Panel surfaces and chrome.
use vstd::prelude::*;

use crate::config::{GeneralConfig, StyleMode};
use crate::theme::{Color, Theme};

verus! {

/// Which surface a panel is drawn on.
#[derive(Debug, Clone, Copy, PartialEq, Eq, Structural)]
pub enum SurfaceKind {
    Side,
    Raised,
    Content,
}

/// The background of a flat panel surface; the content surface has none when
/// the terminal background shows through.
pub fn panel_surface(config: &GeneralConfig, theme: &Theme, kind: SurfaceKind) -> (c: Option<Color>)
    ensures
        c == match kind {
            SurfaceKind::Side => Some(theme.flat.surface),
            SurfaceKind::Raised => Some(theme.flat.surface_raised),
            SurfaceKind::Content => if config.transparent_bg {
                None
            } else {
                Some(theme.flat.content_bg)
            },
        },
{
    match kind {
        SurfaceKind::Side => Some(theme.flat.surface),
        SurfaceKind::Raised => Some(theme.flat.surface_raised),
        SurfaceKind::Content => if config.transparent_bg {
            None
        } else {
            Some(theme.flat.content_bg)
        },
    }
}

/// The chrome of one panel.
pub struct PanelFrame {
    pub style: StyleMode,
    pub title: String,
    pub focused: bool,
    pub accent: Color,
    pub surface: Option<Color>,
}

impl PanelFrame {
    /// The accent bar beside a focused flat panel.
    pub fn bar_color(&self) -> (c: Option<Color>)
        ensures
            c == if self.style == StyleMode::Flat && self.focused {
                Some(self.accent)
            } else {
                None
            },
    {
        if self.style.is_flat() && self.focused {
            Some(self.accent)
        } else {
            None
        }
    }
}

} // verus!
