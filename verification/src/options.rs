//! Configuration for the loggers: line style, per-field colors, and the
//! timestamp mode.

pub mod color;
pub mod style;
pub mod time;

use vstd::prelude::*;

use crate::options::color::ColorConfig;
use crate::options::style::StyleConfig;
use crate::options::time::TimeConfig;
use crate::options::time::same_mode;

verus! {

/// Configuration for a logger: line style, color palette and timestamp
/// mode, bundled per sink.
#[derive(Debug)]
pub struct Options {
    /// The style configuration.
    pub style: StyleConfig,
    /// The color configuration.
    pub color: ColorConfig,
    /// The time configuration.
    pub time: TimeConfig,
}

impl Options {
    /// These options with the given style.
    pub fn with_style(self, style: StyleConfig) -> (r: Self)
        ensures
            r.style == style,
            r.color == self.color,
            r.time == self.time,
    {
        Options { style, color: self.color, time: self.time }
    }

    /// These options with the given color palette.
    pub fn with_color(self, color: ColorConfig) -> (r: Self)
        ensures
            r.style == self.style,
            r.color == color,
            r.time == self.time,
    {
        Options { style: self.style, color, time: self.time }
    }

    /// These options with the given timestamp mode.
    pub fn with_time(self, time: TimeConfig) -> (r: Self)
        ensures
            r.style == self.style,
            r.color == self.color,
            r.time == time,
    {
        Options { style: self.style, color: self.color, time }
    }
}

impl Default for Options {
    /// Multi-line style, the default palette, and no timestamp.
    fn default() -> (r: Self)
        ensures
            r.style == StyleConfig::MultiLine,
            r.color == crate::options::color::default_colors_spec(),
            r.time is NoTimestamp,
    {
        Options {
            style: StyleConfig::default(),
            color: ColorConfig::default(),
            time: TimeConfig::default(),
        }
    }
}

impl Clone for Options {
    /// A copy sharing style and colors; the timestamp mode is copied as in
    /// [`TimeConfig::clone`].
    fn clone(&self) -> (r: Self)
        ensures
            r.style == self.style,
            r.color == self.color,
            same_mode(&self.time, &r.time),
    {
        Options { style: self.style, color: self.color, time: self.time.clone() }
    }
}

} // verus!
