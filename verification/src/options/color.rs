//! Per-field color palette for colorized output.

use vstd::prelude::*;

verus! {

/// A terminal color: one of the eight named colors, a 256-color palette
/// index, or an RGB triple.
#[derive(Clone, Copy, Debug, PartialEq, Eq, Structural)]
pub enum Color {
    Black,
    Blue,
    Green,
    Red,
    Cyan,
    Magenta,
    Yellow,
    White,
    Ansi256(u8),
    Rgb(u8, u8, u8),
}

/// Color configuration for the logger: one slot for each of the five levels
/// and one each for the timestamp, target, continuation and message fields.
#[derive(Clone, Copy, Debug, PartialEq, Eq, Structural)]
pub struct ColorConfig {
    /// Color for the `TRACE` level.
    pub level_trace: Color,
    /// Color for the `DEBUG` level.
    pub level_debug: Color,
    /// Color for the `INFO` level.
    pub level_info: Color,
    /// Color for the `WARN` level.
    pub level_warn: Color,
    /// Color for the `ERROR` level.
    pub level_error: Color,
    /// Color for the timestamp field.
    pub timestamp: Color,
    /// Color for the target field.
    pub target: Color,
    /// Color for the continuation marker.
    pub continuation: Color,
    /// Color for the message field.
    pub message: Color,
}

/// The palette with every slot white.
pub open spec fn monochrome_spec() -> ColorConfig {
    ColorConfig {
        level_trace: Color::White,
        level_debug: Color::White,
        level_info: Color::White,
        level_warn: Color::White,
        level_error: Color::White,
        timestamp: Color::White,
        target: Color::White,
        continuation: Color::White,
        message: Color::White,
    }
}

/// The default palette: distinct level colors and muted palette indices for
/// the other fields.
pub open spec fn default_colors_spec() -> ColorConfig {
    ColorConfig {
        level_trace: Color::Blue,
        level_debug: Color::Cyan,
        level_info: Color::Green,
        level_warn: Color::Yellow,
        level_error: Color::Red,
        timestamp: Color::Ansi256(243),
        target: Color::Ansi256(131),
        continuation: Color::Ansi256(237),
        message: Color::Ansi256(231),
    }
}

/// The default level colors with every other slot white.
pub open spec fn only_levels_spec() -> ColorConfig {
    ColorConfig {
        level_trace: Color::Blue,
        level_debug: Color::Cyan,
        level_info: Color::Green,
        level_warn: Color::Yellow,
        level_error: Color::Red,
        ..monochrome_spec()
    }
}

impl ColorConfig {
    /// A monochrome (all white) color configuration.
    pub fn monochrome() -> (r: Self)
        ensures
            r == monochrome_spec(),
    {
        ColorConfig {
            level_trace: Color::White,
            level_debug: Color::White,
            level_info: Color::White,
            level_warn: Color::White,
            level_error: Color::White,
            timestamp: Color::White,
            target: Color::White,
            continuation: Color::White,
            message: Color::White,
        }
    }

    /// Only the levels keep their default colors; the rest is monochrome.
    pub fn only_levels() -> (r: Self)
        ensures
            r == only_levels_spec(),
    {
        let mut r = Self::monochrome();
        r.level_trace = Color::Blue;
        r.level_debug = Color::Cyan;
        r.level_info = Color::Green;
        r.level_warn = Color::Yellow;
        r.level_error = Color::Red;
        r
    }
}

impl Default for ColorConfig {
    /// The default palette.
    fn default() -> (r: Self)
        ensures
            r == default_colors_spec(),
    {
        ColorConfig {
            level_trace: Color::Blue,
            level_debug: Color::Cyan,
            level_info: Color::Green,
            level_warn: Color::Yellow,
            level_error: Color::Red,
            timestamp: Color::Ansi256(243),
            target: Color::Ansi256(131),
            continuation: Color::Ansi256(237),
            message: Color::Ansi256(231),
        }
    }
}

} // verus!
