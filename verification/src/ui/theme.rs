//! Colors for the TUI, using the terminal's 16-color palette (lazygit-style).
//!
//! Each logical [`Pair`] role maps to a named [`Color`] so the UI inherits the
//! user's terminal theme rather than forcing 24-bit RGB.

use vstd::prelude::*;

use crate::state::Arithmetic;

verus! {

/// A logical color role (the curses "pair" id), decoupled from the actual RGB.
#[derive(Clone, Copy, Debug, PartialEq, Eq, Structural)]
pub enum Pair {
    Default,
    Title,
    Green,
    Yellow,
    Red,
    Cyan,
    Dim,
    Magenta,
    Hi,
    Div,
    Inactive,
    BoxThru,
    BoxReq,
    BoxLat,
    BoxCache,
    Purple,
    Pink,
    Prompt,
    Focus,
}

/// A color of the terminal's palette.
#[derive(Clone, Copy, Debug, PartialEq, Eq, Structural)]
pub enum Color {
    Reset,
    Green,
    Yellow,
    Red,
    Cyan,
    DarkGray,
    Magenta,
    Blue,
    White,
}

/// How a text is shown: its color, where it has one of its own, and its
/// modifiers.
#[derive(Clone, Copy, Debug, PartialEq, Eq, Structural)]
pub struct Style {
    pub fg: Option<Color>,
    pub bold: bool,
    pub dim: bool,
}

/// The color of a role; the default role has none.
pub open spec fn color_of(pair: Pair) -> Option<Color> {
    match pair {
        Pair::Default => None,
        Pair::Title => Some(Color::Reset),
        Pair::Green => Some(Color::Green),
        Pair::Yellow | Pair::Hi | Pair::Prompt => Some(Color::Yellow),
        Pair::Red => Some(Color::Red),
        Pair::Cyan => Some(Color::Cyan),
        Pair::Magenta | Pair::Pink => Some(Color::Magenta),
        Pair::Purple => Some(Color::Blue),
        Pair::Focus => Some(Color::White),
        Pair::Dim | Pair::Div | Pair::Inactive | Pair::BoxThru | Pair::BoxReq | Pair::BoxLat
        | Pair::BoxCache => Some(Color::DarkGray),
    }
}

pub open spec fn styled(pair: Pair, bold: bool, dim: bool) -> Style {
    Style { fg: color_of(pair), bold, dim }
}

fn palette(pair: Pair) -> (r: Option<Color>)
    ensures
        r == color_of(pair),
{
    match pair {
        Pair::Default => None,
        Pair::Title => Some(Color::Reset),
        Pair::Green => Some(Color::Green),
        Pair::Yellow => Some(Color::Yellow),
        Pair::Red => Some(Color::Red),
        Pair::Cyan => Some(Color::Cyan),
        Pair::Dim => Some(Color::DarkGray),
        Pair::Magenta => Some(Color::Magenta),
        Pair::Hi => Some(Color::Yellow),
        Pair::Div => Some(Color::DarkGray),
        Pair::Inactive => Some(Color::DarkGray),
        Pair::BoxThru => Some(Color::DarkGray),
        Pair::BoxReq => Some(Color::DarkGray),
        Pair::BoxLat => Some(Color::DarkGray),
        Pair::BoxCache => Some(Color::DarkGray),
        Pair::Purple => Some(Color::Blue),
        Pair::Pink => Some(Color::Magenta),
        Pair::Prompt => Some(Color::Yellow),
        Pair::Focus => Some(Color::White),
    }
}

pub struct Theme;

impl Theme {
    pub fn new() -> (r: Theme)
        ensures
            r == Theme,
    {
        Theme
    }

    /// Style for a logical [`Pair`], optionally bold/dim.
    pub fn attr(&self, pair: Pair, bold: bool, dim: bool) -> (r: Style)
        ensures
            r == styled(pair, bold, dim),
    {
        Style { fg: palette(pair), bold, dim }
    }

    /// Pick the btop cpu-gradient green/yellow/red by a low-good threshold.
    pub fn threshold<T: Arithmetic>(&self, t: &T, value: T::F, warn: T::F, crit: T::F) -> (r: Pair)
        ensures
            exists|at_crit: bool, at_warn: bool| #[trigger]
                call_ensures(T::at_most, (t, crit, value), at_crit) && #[trigger] call_ensures(
                    T::at_most,
                    (t, warn, value),
                    at_warn,
                ) && r == if at_crit {
                    Pair::Red
                } else if at_warn {
                    Pair::Yellow
                } else {
                    Pair::Green
                },
    {
        let at_crit = t.at_most(crit, value);
        let at_warn = t.at_most(warn, value);
        assert(call_ensures(T::at_most, (t, crit, value), at_crit));
        assert(call_ensures(T::at_most, (t, warn, value), at_warn));
        if at_crit {
            Pair::Red
        } else if at_warn {
            Pair::Yellow
        } else {
            Pair::Green
        }
    }
}

impl Default for Theme {
    fn default() -> (r: Theme)
        ensures
            r == Theme,
    {
        Theme::new()
    }
}

/// A role that is called like a color has that color; the frames of the panels
/// and the dividers are as faint as dim text; and a title is as text is
/// otherwise.
pub proof fn law_roles_have_their_color()
    ensures
        color_of(Pair::Green) == Some(Color::Green),
        color_of(Pair::Yellow) == Some(Color::Yellow),
        color_of(Pair::Red) == Some(Color::Red),
        color_of(Pair::Cyan) == Some(Color::Cyan),
        color_of(Pair::Magenta) == Some(Color::Magenta),
        color_of(Pair::Dim) == Some(Color::DarkGray),
        color_of(Pair::Focus) == Some(Color::White),
        color_of(Pair::Title) == Some(Color::Reset),
        color_of(Pair::Default) is None,
        forall|p: Pair|
            p == Pair::BoxThru || p == Pair::BoxReq || p == Pair::BoxLat || p == Pair::BoxCache || p
                == Pair::Div || p == Pair::Inactive ==> #[trigger] color_of(p) == color_of(
                Pair::Dim,
            ),
        color_of(Pair::Hi) == color_of(Pair::Yellow),
        color_of(Pair::Prompt) == color_of(Pair::Yellow),
        color_of(Pair::Pink) == color_of(Pair::Magenta),
        color_of(Pair::Purple) == Some(Color::Blue),
{
}

} // verus!
