//! The fan-out sink: an ordered sequence of child sinks behind a top-level
//! filter of its own. A record must pass the fan-out's filter before any
//! child sees it; each child then filters again, independently.

use vstd::prelude::*;

use crate::filters::Filters;
use crate::filters::FiltersV;
use crate::filters::spec_is_enabled;
use crate::level::Level;
use crate::loggers::file::FileLogger;
use crate::loggers::term::TermLogger;
use crate::options::time::field_matches;
use crate::render::Segment;
use crate::render::line_spec;
use crate::render::segments_spec;
use crate::render::segs_view;
use vstd::string::StringSliceAdditionalSpecFns;

verus! {

/// One child of a fan-out: a terminal sink or a file sink.
pub enum Sink {
    /// A terminal sink.
    Term(TermLogger),
    /// A file sink.
    File(FileLogger),
}

/// What one child produced for a record it accepted: segments for a
/// terminal child, plain bytes for a file child.
pub enum SinkOutput {
    /// Segments for the terminal.
    Term(Vec<Segment>),
    /// Bytes for the file.
    File(Vec<u8>),
}

/// The filter engine of a child sink.
pub open spec fn sink_filters(s: &Sink) -> FiltersV {
    match s {
        Sink::Term(t) => t.filters@,
        Sink::File(f) => f.filters@,
    }
}

/// Whether `out` is a rendering that child `s` can produce for a record of
/// the given severity, target bytes and message bytes.
pub open spec fn output_matches(
    s: &Sink,
    level: Level,
    tb: Seq<u8>,
    mb: Seq<u8>,
    out: &SinkOutput,
) -> bool {
    match (s, out) {
        (Sink::Term(t), SinkOutput::Term(segs)) => exists|ts: Option<Seq<u8>>|
            #[trigger] field_matches(&t.options.time, ts) && segs_view(segs@) == segments_spec(
                level,
                ts,
                tb,
                mb,
                t.options.style,
                t.options.color,
                t.color_enabled,
            ),
        (Sink::File(f), SinkOutput::File(bytes)) => exists|ts: Option<Seq<u8>>|
            #[trigger] field_matches(&f.options.time, ts) && bytes@ == line_spec(
                level,
                ts,
                tb,
                mb,
                f.options.style,
            ),
        _ => false,
    }
}

impl Sink {
    /// Whether this child's own filter enables the record.
    pub fn enabled(&self, level: Level, target: &str) -> (r: bool)
        ensures
            r == spec_is_enabled(sink_filters(self), level, target@),
    {
        match self {
            Sink::Term(t) => t.enabled(level, target),
            Sink::File(f) => f.enabled(level, target),
        }
    }

    /// This child's rendering of the record, if its filter accepts it.
    pub fn log(&self, level: Level, target: &str, message: &str) -> (r: Option<SinkOutput>)
        ensures
            (r is Some) == spec_is_enabled(sink_filters(self), level, target@),
            r matches Some(out) ==> output_matches(
                self,
                level,
                target.spec_bytes(),
                message.spec_bytes(),
                &out,
            ),
    {
        match self {
            Sink::Term(t) => match t.log(level, target, message) {
                Some(segs) => Some(SinkOutput::Term(segs)),
                None => None,
            },
            Sink::File(f) => match f.log(level, target, message) {
                Some(bytes) => Some(SinkOutput::File(bytes)),
                None => None,
            },
        }
    }
}

/// A fan-out over several child sinks, gated by its own top-level filter.
pub struct MultiLogger {
    /// The fan-out's own filter engine.
    pub filters: Filters,
    /// The child sinks, in order.
    pub loggers: Vec<Sink>,
}

impl MultiLogger {
    /// A fan-out with the given filter specification and no children yet.
    pub fn new(filter_spec: &str) -> (r: Self)
        ensures
            r.filters@ == crate::filters::parse_spec(filter_spec@),
            r.loggers@.len() == 0,
    {
        MultiLogger { filters: Filters::from_str(filter_spec), loggers: Vec::new() }
    }

    /// This fan-out with one more child appended.
    pub fn with(self, logger: Sink) -> (r: Self)
        ensures
            r.filters == self.filters,
            r.loggers@ == self.loggers@.push(logger),
    {
        let mut loggers = self.loggers;
        loggers.push(logger);
        MultiLogger { filters: self.filters, loggers }
    }

    /// Whether the fan-out's own top-level filter enables the record.
    pub fn enabled(&self, level: Level, target: &str) -> (r: bool)
        ensures
            r == spec_is_enabled(self.filters@, level, target@),
    {
        self.filters.is_enabled(level, target)
    }

    /// One entry per child, in order: a record rejected by the fan-out's
    /// own filter reaches no child and every entry is `None`; an accepted
    /// record is offered to every child, and each entry holds that child's
    /// rendering exactly when the child's own filter accepts it too.
    pub fn log(&self, level: Level, target: &str, message: &str) -> (r: Vec<Option<SinkOutput>>)
        ensures
            r@.len() == self.loggers@.len(),
            !spec_is_enabled(self.filters@, level, target@) ==> forall|i: int|
                0 <= i < r@.len() ==> r@[i] is None,
            spec_is_enabled(self.filters@, level, target@) ==> forall|i: int|
                0 <= i < r@.len() ==> {
                    &&& (r@[i] is Some) == spec_is_enabled(
                        sink_filters(&self.loggers@[i]),
                        level,
                        target@,
                    )
                    &&& (r@[i] matches Some(out) ==> output_matches(
                        &self.loggers@[i],
                        level,
                        target.spec_bytes(),
                        message.spec_bytes(),
                        &out,
                    ))
                },
    {
        let n = self.loggers.len();
        let mut r: Vec<Option<SinkOutput>> = Vec::new();
        if !self.enabled(level, target) {
            let mut i: usize = 0;
            while i < n
                invariant
                    0 <= i <= n,
                    r@.len() == i,
                    forall|j: int| 0 <= j < i ==> r@[j] is None,
                decreases n - i,
            {
                r.push(None);
                i += 1;
            }
            return r;
        }
        let mut i: usize = 0;
        while i < n
            invariant
                0 <= i <= n == self.loggers@.len(),
                r@.len() == i,
                forall|j: int|
                    0 <= j < i ==> {
                        &&& (#[trigger] r@[j] is Some) == spec_is_enabled(
                            sink_filters(&self.loggers@[j]),
                            level,
                            target@,
                        )
                        &&& (r@[j] matches Some(out) ==> output_matches(
                            &self.loggers@[j],
                            level,
                            target.spec_bytes(),
                            message.spec_bytes(),
                            &out,
                        ))
                    },
            decreases n - i,
        {
            let out = self.loggers[i].log(level, target, message);
            r.push(out);
            i += 1;
        }
        r
    }
}

} // verus!
