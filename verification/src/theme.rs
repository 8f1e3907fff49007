//! Colours, text styles and themes.

use vstd::prelude::*;

use crate::model::DiskLabel;
use crate::text::ascii_lower;
use crate::text::ascii_upper;
use crate::text::begins;
use crate::text::contains;
use crate::text::has_literal;
use crate::text::is_text;
use crate::text::lower;
use crate::text::lowercase;
use crate::text::lowered;
use crate::text::starts_with;
use crate::text::to_chars;
use crate::text::upper;

verus! {

/// A colour of the terminal.
#[derive(Debug, Clone, Copy, PartialEq, Eq, Structural)]
pub enum Color {
    Black,
    Red,
    Green,
    Yellow,
    Cyan,
    Gray,
    DarkGray,
    LightGreen,
    LightYellow,
    LightBlue,
    LightCyan,
    White,
    Rgb(u8, u8, u8),
}

/// How a text is shown; what is not set stays as it is.
#[derive(Debug, Clone, Copy, PartialEq, Eq, Structural)]
pub struct Style {
    pub fg: Option<Color>,
    pub bg: Option<Color>,
    pub bold: bool,
}

/// The name of a theme.
#[derive(Debug, Clone, Copy, PartialEq, Eq, Structural)]
pub enum ThemeName {
    Catppuccin,
    TokyoNight,
    Dracula,
    OneDarkPro,
    Monokai,
    NightOwl,
    Classic,
}

/// The styles of a theme.
#[derive(Debug, Clone, Copy, PartialEq, Eq, Structural)]
pub struct Theme {
    pub border_focused: Style,
    pub border_unfocused: Style,
    pub header_style: Style,
    pub highlight: Style,
    pub status_badge: Style,
    pub state_running: Style,
    pub state_pending: Style,
    pub state_failed: Style,
    pub node_idle: Style,
    pub node_down: Style,
    pub node_mixed: Style,
    pub summary_all: Style,
    pub summary_me: Style,
    pub summary_others: Style,
    pub warning_border: Style,
}

/// The colours of a theme.
#[derive(Debug, Clone, Copy, PartialEq, Eq, Structural)]
pub struct Palette {
    /// The border of the focused panel, and the background of headers.
    pub focus: Color,
    /// The border of other panels.
    pub edge: Color,
    /// The text on headers and on the badge.
    pub ink: Color,
    /// The background of the badge.
    pub badge: Color,
    /// What runs, is idle, or is the current user's.
    pub running: Color,
    /// What waits or is mixed.
    pub pending: Color,
    /// What failed or is down.
    pub failed: Color,
    /// The sum over all users.
    pub everyone: Color,
    /// Other users, and warnings.
    pub others: Color,
}

/// No style.
pub open spec fn plain_style() -> Style {
    Style { fg: None, bg: None, bold: false }
}

/// A colour of text.
pub open spec fn fg_style(fg: Color) -> Style {
    Style { fg: Some(fg), bg: None, bold: false }
}

/// A colour of bold text.
pub open spec fn bold_style(fg: Color) -> Style {
    Style { fg: Some(fg), bg: None, bold: true }
}

/// Bold text on a background.
pub open spec fn block_style(fg: Color, bg: Color) -> Style {
    Style { fg: Some(fg), bg: Some(bg), bold: true }
}

/// The style of the selected row: dark text on teal.
pub open spec fn selection_style() -> Style {
    Style { fg: Some(Color::Rgb(8, 20, 24)), bg: Some(Color::Rgb(0, 188, 188)), bold: false }
}

impl Style {
    /// No style.
    pub fn plain() -> (r: Self)
        ensures
            r == plain_style(),
    {
        Style { fg: None, bg: None, bold: false }
    }

    /// A colour of text.
    pub fn of_fg(fg: Color) -> (r: Self)
        ensures
            r == fg_style(fg),
    {
        Style { fg: Some(fg), bg: None, bold: false }
    }

    /// A colour of bold text.
    fn of_bold(fg: Color) -> (r: Self)
        ensures
            r == bold_style(fg),
    {
        Style { fg: Some(fg), bg: None, bold: true }
    }

    /// Bold text on a background.
    fn of_block(fg: Color, bg: Color) -> (r: Self)
        ensures
            r == block_style(fg, bg),
    {
        Style { fg: Some(fg), bg: Some(bg), bold: true }
    }
}

/// The style of the selected row.
pub fn selected_row_style() -> (r: Style)
    ensures
        r == selection_style(),
{
    Style { fg: Some(Color::Rgb(8, 20, 24)), bg: Some(Color::Rgb(0, 188, 188)), bold: false }
}

/// The theme that a text names; `Catppuccin` where it names none.
pub open spec fn theme_named(s: Seq<char>) -> ThemeName {
    let l = lowercase(s);
    if l == "monokai"@ {
        ThemeName::Monokai
    } else if l == "onedark"@ || l == "onedarkpro"@ {
        ThemeName::OneDarkPro
    } else if l == "nightowl"@ || l == "night_owl"@ {
        ThemeName::NightOwl
    } else if l == "tokyonight"@ || l == "tokyo_night"@ {
        ThemeName::TokyoNight
    } else if l == "dracula"@ {
        ThemeName::Dracula
    } else if l == "classic"@ {
        ThemeName::Classic
    } else {
        ThemeName::Catppuccin
    }
}

impl ThemeName {
    /// The theme that comes next.
    pub open spec fn after(self) -> ThemeName {
        match self {
            ThemeName::Catppuccin => ThemeName::TokyoNight,
            ThemeName::TokyoNight => ThemeName::Dracula,
            ThemeName::Dracula => ThemeName::OneDarkPro,
            ThemeName::OneDarkPro => ThemeName::Monokai,
            ThemeName::Monokai => ThemeName::NightOwl,
            ThemeName::NightOwl => ThemeName::Classic,
            ThemeName::Classic => ThemeName::Catppuccin,
        }
    }

    /// The name as it is shown.
    pub open spec fn shown(self) -> Seq<char> {
        match self {
            ThemeName::Classic => "Classic"@,
            ThemeName::Monokai => "Monokai"@,
            ThemeName::Catppuccin => "Catppuccin Mocha"@,
            ThemeName::OneDarkPro => "One Dark Pro"@,
            ThemeName::NightOwl => "Night Owl"@,
            ThemeName::TokyoNight => "Tokyo Night"@,
            ThemeName::Dracula => "Dracula"@,
        }
    }

    /// The theme that a text names.
    #[must_use]
    pub fn parse(s: &str) -> (r: Self)
        ensures
            r == theme_named(s@),
    {
        let chars = lowered(s);
        let l = chars.as_slice();
        if is_text(l, "monokai") {
            ThemeName::Monokai
        } else if is_text(l, "onedark") || is_text(l, "onedarkpro") {
            ThemeName::OneDarkPro
        } else if is_text(l, "nightowl") || is_text(l, "night_owl") {
            ThemeName::NightOwl
        } else if is_text(l, "tokyonight") || is_text(l, "tokyo_night") {
            ThemeName::TokyoNight
        } else if is_text(l, "dracula") {
            ThemeName::Dracula
        } else if is_text(l, "classic") {
            ThemeName::Classic
        } else {
            ThemeName::Catppuccin
        }
    }

    /// The theme that comes next.
    pub fn cycle(self) -> (r: Self)
        ensures
            r == self.after(),
    {
        match self {
            ThemeName::Catppuccin => ThemeName::TokyoNight,
            ThemeName::TokyoNight => ThemeName::Dracula,
            ThemeName::Dracula => ThemeName::OneDarkPro,
            ThemeName::OneDarkPro => ThemeName::Monokai,
            ThemeName::Monokai => ThemeName::NightOwl,
            ThemeName::NightOwl => ThemeName::Classic,
            ThemeName::Classic => ThemeName::Catppuccin,
        }
    }

    /// The name as it is shown.
    pub fn label(self) -> (r: &'static str)
        ensures
            r@ == self.shown(),
    {
        match self {
            ThemeName::Classic => "Classic",
            ThemeName::Monokai => "Monokai",
            ThemeName::Catppuccin => "Catppuccin Mocha",
            ThemeName::OneDarkPro => "One Dark Pro",
            ThemeName::NightOwl => "Night Owl",
            ThemeName::TokyoNight => "Tokyo Night",
            ThemeName::Dracula => "Dracula",
        }
    }
}

/// Cycling through the themes visits all seven and comes back to the first.
pub proof fn law_themes_cycle(t: ThemeName, other: ThemeName)
    ensures
        t.after().after().after().after().after().after().after() == t,
        other == t || other == t.after() || other == t.after().after() || other
            == t.after().after().after() || other == t.after().after().after().after() || other
            == t.after().after().after().after().after() || other
            == t.after().after().after().after().after().after(),
{
}

/// The colours of a theme.
#[verifier::opaque]
pub open spec fn palette_of(name: ThemeName) -> Palette {
    match name {
        ThemeName::Catppuccin => Palette {
            focus: Color::Rgb(203, 166, 247),
            edge: Color::Rgb(69, 71, 90),
            ink: Color::Rgb(30, 30, 46),
            badge: Color::Rgb(203, 166, 247),
            running: Color::Rgb(166, 227, 161),
            pending: Color::Rgb(250, 179, 135),
            failed: Color::Rgb(243, 139, 168),
            everyone: Color::Rgb(148, 226, 213),
            others: Color::Rgb(250, 179, 135),
        },
        ThemeName::TokyoNight => Palette {
            focus: Color::Rgb(122, 162, 247),
            edge: Color::Rgb(41, 46, 66),
            ink: Color::Rgb(26, 27, 38),
            badge: Color::Rgb(122, 162, 247),
            running: Color::Rgb(158, 206, 106),
            pending: Color::Rgb(255, 158, 100),
            failed: Color::Rgb(247, 118, 142),
            everyone: Color::Rgb(187, 154, 247),
            others: Color::Rgb(255, 158, 100),
        },
        ThemeName::Dracula => Palette {
            focus: Color::Rgb(189, 147, 249),
            edge: Color::Rgb(68, 71, 90),
            ink: Color::Rgb(40, 42, 54),
            badge: Color::Rgb(189, 147, 249),
            running: Color::Rgb(80, 250, 123),
            pending: Color::Rgb(255, 184, 108),
            failed: Color::Rgb(255, 85, 85),
            everyone: Color::Rgb(139, 233, 253),
            others: Color::Rgb(255, 184, 108),
        },
        ThemeName::OneDarkPro => Palette {
            focus: Color::Rgb(97, 175, 239),
            edge: Color::Rgb(76, 82, 99),
            ink: Color::Rgb(40, 44, 52),
            badge: Color::Rgb(97, 175, 239),
            running: Color::Rgb(152, 195, 121),
            pending: Color::Rgb(209, 154, 102),
            failed: Color::Rgb(224, 108, 117),
            everyone: Color::Rgb(198, 120, 221),
            others: Color::Rgb(209, 154, 102),
        },
        ThemeName::Monokai => Palette {
            focus: Color::Rgb(102, 217, 239),
            edge: Color::Rgb(117, 113, 94),
            ink: Color::Black,
            badge: Color::Rgb(166, 226, 46),
            running: Color::Rgb(166, 226, 46),
            pending: Color::Rgb(253, 151, 31),
            failed: Color::Rgb(249, 38, 114),
            everyone: Color::Rgb(102, 217, 239),
            others: Color::Rgb(253, 151, 31),
        },
        ThemeName::NightOwl => Palette {
            focus: Color::Rgb(127, 219, 202),
            edge: Color::Rgb(68, 98, 130),
            ink: Color::Rgb(1, 22, 39),
            badge: Color::Rgb(127, 219, 202),
            running: Color::Rgb(127, 219, 202),
            pending: Color::Rgb(255, 203, 107),
            failed: Color::Rgb(239, 83, 80),
            everyone: Color::Rgb(130, 170, 255),
            others: Color::Rgb(239, 143, 82),
        },
        ThemeName::Classic => Palette {
            focus: Color::Cyan,
            edge: Color::DarkGray,
            ink: Color::Black,
            badge: Color::Cyan,
            running: Color::Green,
            pending: Color::Yellow,
            failed: Color::Red,
            everyone: Color::Cyan,
            others: Color::Yellow,
        },
    }
}

/// The styles that colours make.
#[verifier::opaque]
pub open spec fn theme_with(p: Palette) -> Theme {
    Theme {
        border_focused: bold_style(p.focus),
        border_unfocused: fg_style(p.edge),
        header_style: block_style(p.ink, p.focus),
        highlight: selection_style(),
        status_badge: block_style(p.ink, p.badge),
        state_running: fg_style(p.running),
        state_pending: fg_style(p.pending),
        state_failed: fg_style(p.failed),
        node_idle: fg_style(p.running),
        node_down: fg_style(p.failed),
        node_mixed: fg_style(p.pending),
        summary_all: fg_style(p.everyone),
        summary_me: fg_style(p.running),
        summary_others: fg_style(p.others),
        warning_border: bold_style(p.others),
    }
}

/// The colours of a theme.
fn palette(name: ThemeName) -> (r: Palette)
    ensures
        r == palette_of(name),
{
    proof {
        reveal(palette_of);
    }
    match name {
        ThemeName::Catppuccin => Palette {
            focus: Color::Rgb(203, 166, 247),
            edge: Color::Rgb(69, 71, 90),
            ink: Color::Rgb(30, 30, 46),
            badge: Color::Rgb(203, 166, 247),
            running: Color::Rgb(166, 227, 161),
            pending: Color::Rgb(250, 179, 135),
            failed: Color::Rgb(243, 139, 168),
            everyone: Color::Rgb(148, 226, 213),
            others: Color::Rgb(250, 179, 135),
        },
        ThemeName::TokyoNight => Palette {
            focus: Color::Rgb(122, 162, 247),
            edge: Color::Rgb(41, 46, 66),
            ink: Color::Rgb(26, 27, 38),
            badge: Color::Rgb(122, 162, 247),
            running: Color::Rgb(158, 206, 106),
            pending: Color::Rgb(255, 158, 100),
            failed: Color::Rgb(247, 118, 142),
            everyone: Color::Rgb(187, 154, 247),
            others: Color::Rgb(255, 158, 100),
        },
        ThemeName::Dracula => Palette {
            focus: Color::Rgb(189, 147, 249),
            edge: Color::Rgb(68, 71, 90),
            ink: Color::Rgb(40, 42, 54),
            badge: Color::Rgb(189, 147, 249),
            running: Color::Rgb(80, 250, 123),
            pending: Color::Rgb(255, 184, 108),
            failed: Color::Rgb(255, 85, 85),
            everyone: Color::Rgb(139, 233, 253),
            others: Color::Rgb(255, 184, 108),
        },
        ThemeName::OneDarkPro => Palette {
            focus: Color::Rgb(97, 175, 239),
            edge: Color::Rgb(76, 82, 99),
            ink: Color::Rgb(40, 44, 52),
            badge: Color::Rgb(97, 175, 239),
            running: Color::Rgb(152, 195, 121),
            pending: Color::Rgb(209, 154, 102),
            failed: Color::Rgb(224, 108, 117),
            everyone: Color::Rgb(198, 120, 221),
            others: Color::Rgb(209, 154, 102),
        },
        ThemeName::Monokai => Palette {
            focus: Color::Rgb(102, 217, 239),
            edge: Color::Rgb(117, 113, 94),
            ink: Color::Black,
            badge: Color::Rgb(166, 226, 46),
            running: Color::Rgb(166, 226, 46),
            pending: Color::Rgb(253, 151, 31),
            failed: Color::Rgb(249, 38, 114),
            everyone: Color::Rgb(102, 217, 239),
            others: Color::Rgb(253, 151, 31),
        },
        ThemeName::NightOwl => Palette {
            focus: Color::Rgb(127, 219, 202),
            edge: Color::Rgb(68, 98, 130),
            ink: Color::Rgb(1, 22, 39),
            badge: Color::Rgb(127, 219, 202),
            running: Color::Rgb(127, 219, 202),
            pending: Color::Rgb(255, 203, 107),
            failed: Color::Rgb(239, 83, 80),
            everyone: Color::Rgb(130, 170, 255),
            others: Color::Rgb(239, 143, 82),
        },
        ThemeName::Classic => Palette {
            focus: Color::Cyan,
            edge: Color::DarkGray,
            ink: Color::Black,
            badge: Color::Cyan,
            running: Color::Green,
            pending: Color::Yellow,
            failed: Color::Red,
            everyone: Color::Cyan,
            others: Color::Yellow,
        },
    }
}

impl Theme {
    /// The styles of a theme.
    pub fn from_name(name: ThemeName) -> (r: Self)
        ensures
            r == theme_with(palette_of(name)),
    {
        proof {
            reveal(theme_with);
        }
        let p = palette(name);
        Theme {
            border_focused: Style::of_bold(p.focus),
            border_unfocused: Style::of_fg(p.edge),
            header_style: Style::of_block(p.ink, p.focus),
            highlight: selected_row_style(),
            status_badge: Style::of_block(p.ink, p.badge),
            state_running: Style::of_fg(p.running),
            state_pending: Style::of_fg(p.pending),
            state_failed: Style::of_fg(p.failed),
            node_idle: Style::of_fg(p.running),
            node_down: Style::of_fg(p.failed),
            node_mixed: Style::of_fg(p.pending),
            summary_all: Style::of_fg(p.everyone),
            summary_me: Style::of_fg(p.running),
            summary_others: Style::of_fg(p.others),
            warning_border: Style::of_bold(p.others),
        }
    }
}

/// The style of a job in a state.
pub open spec fn job_state_style(theme: Theme, state: Seq<char>) -> Style {
    let s = ascii_upper(state);
    if starts_with(s, "R"@) {
        theme.state_running
    } else if starts_with(s, "P"@) {
        theme.state_pending
    } else if starts_with(s, "F"@) || starts_with(s, "CANCEL"@) {
        theme.state_failed
    } else {
        plain_style()
    }
}

/// The style of a job in a state.
pub fn themed_state_style(theme: &Theme, state: &str) -> (r: Style)
    ensures
        r == job_state_style(*theme, state@),
{
    let chars = to_chars(state);
    let raised = upper(chars.as_slice());
    let s = raised.as_slice();
    if begins(s, "R") {
        theme.state_running
    } else if begins(s, "P") {
        theme.state_pending
    } else if begins(s, "F") || begins(s, "CANCEL") {
        theme.state_failed
    } else {
        Style::plain()
    }
}

/// The style of a node in a state.
pub open spec fn node_state_style(theme: Theme, state: Seq<char>) -> Style {
    let s = ascii_lower(state);
    if contains(s, "idle"@) {
        theme.node_idle
    } else if contains(s, "down"@) || contains(s, "drain"@) {
        theme.node_down
    } else {
        theme.node_mixed
    }
}

/// The style of a node in a state.
pub fn themed_node_style(theme: &Theme, state: &str) -> (r: Style)
    ensures
        r == node_state_style(*theme, state@),
{
    let chars = to_chars(state);
    let lowered = lower(chars.as_slice());
    let s = lowered.as_slice();
    if has_literal(s, "idle") {
        theme.node_idle
    } else if has_literal(s, "down") || has_literal(s, "drain") {
        theme.node_down
    } else {
        theme.node_mixed
    }
}

/// The colour of a disk.
pub open spec fn label_color(label: DiskLabel) -> Color {
    match label {
        DiskLabel::Ssd => Color::LightGreen,
        DiskLabel::Hdd => Color::LightYellow,
        DiskLabel::Nfs => Color::LightBlue,
        DiskLabel::ParallelFs => Color::LightCyan,
        DiskLabel::Unknown => Color::Gray,
    }
}

/// The colour of a disk.
pub fn disk_color(label: DiskLabel) -> (r: Color)
    ensures
        r == label_color(label),
{
    match label {
        DiskLabel::Ssd => Color::LightGreen,
        DiskLabel::Hdd => Color::LightYellow,
        DiskLabel::Nfs => Color::LightBlue,
        DiskLabel::ParallelFs => Color::LightCyan,
        DiskLabel::Unknown => Color::Gray,
    }
}

} // verus!
