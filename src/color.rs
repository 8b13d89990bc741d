//! When printed output is colored.

use vstd::prelude::*;

verus! {

/// The color setting of the output.
#[derive(Debug, Eq, PartialEq, Copy, Clone, Structural)]
pub enum Color {
    Always,
    Auto,
    Disable,
}

impl Color {
    /// The setting's name on the command line.
    pub fn as_str(&self) -> (r: &'static str)
        ensures
            r@ == match *self {
                Color::Always => "always"@,
                Color::Auto => "auto"@,
                Color::Disable => "disable"@,
            },
    {
        match self {
            Color::Always => "always",
            Color::Auto => "auto",
            Color::Disable => "disable",
        }
    }

    /// Whether output is colored under this setting, given whether standard
    /// output is a terminal.
    pub fn use_color(&self, stdout_is_terminal: bool) -> (r: bool)
        ensures
            r == match *self {
                Color::Always => true,
                Color::Auto => stdout_is_terminal,
                Color::Disable => false,
            },
    {
        match self {
            Color::Always => true,
            Color::Auto => stdout_is_terminal,
            Color::Disable => false,
        }
    }
}

impl Default for Color {
    fn default() -> (r: Self)
        ensures
            r == Color::Auto,
    {
        Color::Auto
    }
}

} // verus!
