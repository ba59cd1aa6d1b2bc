//! The terminal sink core: per-sink filter engine and options, a
//! construction-time color switch, and the rendering of one record into
//! colored segments. Writing the segments to the terminal, with whatever
//! color machinery, is the caller's concern.

use vstd::prelude::*;

use crate::filters::Filters;
use crate::filters::spec_is_enabled;
use crate::level::Level;
use crate::options::Options;
use crate::options::time::field_matches;
use crate::render::Segment;
use crate::render::opt_ts_view;
use crate::render::render_segments;
use crate::render::segments_spec;
use crate::render::segs_view;
use vstd::string::StringSliceAdditionalSpecFns;

verus! {

/// A terminal sink: filter engine, render options, and whether color is
/// enabled; an external no-color signal, captured at construction, forces
/// monochrome output regardless of the configured palette.
pub struct TermLogger {
    /// The render options of this sink.
    pub options: Options,
    /// The filter engine of this sink.
    pub filters: Filters,
    /// Whether colored output is enabled.
    pub color_enabled: bool,
}

impl TermLogger {
    /// A terminal sink with the given options, filter specification, and
    /// color switch.
    pub fn new(options: Options, filter_spec: &str, color_enabled: bool) -> (r: Self)
        ensures
            r.options == options,
            r.filters@ == crate::filters::parse_spec(filter_spec@),
            r.color_enabled == color_enabled,
    {
        TermLogger { options, filters: Filters::from_str(filter_spec), color_enabled }
    }

    /// Whether a record of this severity and module path is enabled under
    /// this sink's filters.
    pub fn enabled(&self, level: Level, target: &str) -> (r: bool)
        ensures
            r == spec_is_enabled(self.filters@, level, target@),
    {
        self.filters.is_enabled(level, target)
    }

    /// Renders one record as colored segments in the fixed field order,
    /// with this sink's palette when color is enabled and none otherwise.
    pub fn render_record(&self, level: Level, target: &str, message: &str) -> (r: Vec<Segment>)
        ensures
            exists|ts: Option<Seq<u8>>|
                #[trigger] field_matches(&self.options.time, ts) && segs_view(r@)
                    == segments_spec(
                    level,
                    ts,
                    target.spec_bytes(),
                    message.spec_bytes(),
                    self.options.style,
                    self.options.color,
                    self.color_enabled,
                ),
    {
        let ts = self.options.time.timestamp_field();
        let ts_ref: Option<&Vec<u8>> = match &ts {
            Some(v) => Some(v),
            None => None,
        };
        let out = render_segments(
            level,
            ts_ref,
            target,
            message,
            self.options.style,
            &self.options.color,
            self.color_enabled,
        );
        proof {
            let tsv = opt_ts_view(ts_ref);
            assert(field_matches(&self.options.time, tsv));
        }
        out
    }

    /// Checks the filter, then renders: the segments to write for an
    /// enabled record, nothing for a rejected one.
    pub fn log(&self, level: Level, target: &str, message: &str) -> (r: Option<Vec<Segment>>)
        ensures
            (r is Some) == spec_is_enabled(self.filters@, level, target@),
            r matches Some(segs) ==> exists|ts: Option<Seq<u8>>|
                #[trigger] field_matches(&self.options.time, ts) && segs_view(segs@)
                    == segments_spec(
                    level,
                    ts,
                    target.spec_bytes(),
                    message.spec_bytes(),
                    self.options.style,
                    self.options.color,
                    self.color_enabled,
                ),
    {
        if self.enabled(level, target) {
            Some(self.render_record(level, target, message))
        } else {
            None
        }
    }
}

} // verus!
