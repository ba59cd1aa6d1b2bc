//! The file sink core: per-sink filter engine and options, the resolved
//! destination path, the rendering of one record to the bytes written for
//! it, and the derivation of a timestamped file name. Opening and writing
//! the destination itself is the caller's concern.

use vstd::prelude::*;

use crate::digits::dec_chars_spec;
use crate::digits::u64_dec_str;
use crate::filters::Filters;
use crate::filters::spec_is_enabled;
use crate::level::Level;
use crate::options::Options;
use crate::options::time::field_matches;
use crate::render::line_spec;
use crate::render::opt_ts_view;
use crate::render::render_line;
use vstd::string::StrSliceExecFns;
use vstd::string::StringSliceAdditionalSpecFns;

verus! {

/// The index after the last `/` of `p`; 0 when `p` holds none.
pub open spec fn after_last_slash(p: Seq<char>) -> int
    decreases p.len(),
{
    if p.len() == 0 {
        0
    } else if p.last() == '/' {
        p.len() as int
    } else {
        after_last_slash(p.drop_last())
    }
}

/// The index of the last `.` of `name`, unless it stands first: a name
/// beginning with its only dot has no extension.
pub open spec fn last_dot(name: Seq<char>) -> Option<int>
    decreases name.len(),
{
    if name.len() == 0 {
        None
    } else if name.last() == '.' {
        if name.len() > 1 {
            Some(name.len() - 1)
        } else {
            None
        }
    } else {
        last_dot(name.drop_last())
    }
}

/// The path with the Unix second count inserted before the extension of its
/// final component: `dir/name.ext` becomes `dir/name_secs.ext` and
/// extensionless `dir/name` becomes `dir/name_secs`. `None` when the final
/// component is empty.
pub open spec fn timestamp_path_spec(p: Seq<char>, secs: nat) -> Option<Seq<char>> {
    let ns = after_last_slash(p);
    let name = p.skip(ns);
    if name.len() == 0 {
        None
    } else {
        let dir = p.take(ns);
        match last_dot(name) {
            Some(k) => if k + 1 < name.len() {
                Some(
                    dir + name.take(k) + seq!['_'] + dec_chars_spec(secs) + seq!['.'] + name.skip(
                        k + 1,
                    ),
                )
            } else {
                Some(dir + name.take(k) + seq!['_'] + dec_chars_spec(secs))
            },
            None => Some(dir + name + seq!['_'] + dec_chars_spec(secs)),
        }
    }
}

/// Round trip of the file sink in single-line style: every rendered record
/// whose timestamp mode is not the pattern mode, and whose target and
/// message hold no line feed, is exactly one line, closed by its final
/// line-feed byte. Writing N such records therefore writes exactly N lines.
pub proof fn lemma_single_line_round_trip(
    t: &crate::options::time::TimeConfig,
    ts: Option<Seq<u8>>,
    level: Level,
    target: Seq<u8>,
    msg: Seq<u8>,
)
    requires
        field_matches(t, ts),
        !(t is DateTime),
        forall|i: int| 0 <= i < target.len() ==> target[i] != crate::render::NEWLINE,
        forall|i: int| 0 <= i < msg.len() ==> msg[i] != crate::render::NEWLINE,
    ensures
        crate::render::count_byte(
            line_spec(level, ts, target, msg, crate::options::style::StyleConfig::SingleLine),
            crate::render::NEWLINE,
        ) == 1,
        line_spec(
            level,
            ts,
            target,
            msg,
            crate::options::style::StyleConfig::SingleLine,
        ).last() == crate::render::NEWLINE,
{
    let tse = crate::render::ts_or_empty(ts);
    assert(forall|i: int| 0 <= i < tse.len() ==> tse[i] != crate::render::NEWLINE) by {
        match t {
            crate::options::time::TimeConfig::NoTimestamp => {},
            crate::options::time::TimeConfig::Unix => {
                let secs = choose|secs: u64| ts->0 == crate::options::time::unix_field_spec(secs);
                crate::options::time::lemma_unix_field_no_newline(secs);
            },
            crate::options::time::TimeConfig::Relative(_) => {
                let d = choose|d: crate::options::time::Stamp|
                    crate::options::time::stamp_wf(d) && ts->0
                        == crate::options::time::duration_field_spec(d);
                crate::options::time::lemma_duration_field_no_newline(d);
            },
            crate::options::time::TimeConfig::Timing(_) => {
                let d = choose|d: crate::options::time::Stamp|
                    crate::options::time::stamp_wf(d) && ts->0
                        == crate::options::time::duration_field_spec(d);
                crate::options::time::lemma_duration_field_no_newline(d);
            },
            crate::options::time::TimeConfig::DateTime(_) => {},
        }
    }
    crate::render::lemma_single_line_one_newline(level, ts, target, msg);
}

/// A file sink: filter engine, render options, and the resolved destination
/// path once one is known. The destination itself is opened and written by
/// the caller, from the bytes this sink renders.
pub struct FileLogger {
    /// The render options of this sink.
    pub options: Options,
    /// The filter engine of this sink.
    pub filters: Filters,
    /// The resolved destination path, when one was derived or provided.
    pub path: Option<String>,
}

impl FileLogger {
    /// A file sink with the given options and filter specification, and no
    /// resolved path yet.
    pub fn new(options: Options, filter_spec: &str) -> (r: Self)
        ensures
            r.options == options,
            r.filters@ == crate::filters::parse_spec(filter_spec@),
            r.path is None,
    {
        FileLogger { options, filters: Filters::from_str(filter_spec), path: None }
    }

    /// This sink with its resolved destination path recorded.
    pub fn with_file_name(self, path: String) -> (r: Self)
        ensures
            r.options == self.options,
            r.filters == self.filters,
            r.path matches Some(p) && p == path,
    {
        FileLogger { options: self.options, filters: self.filters, path: Some(path) }
    }

    /// The resolved path, if one was created or provided.
    pub fn file_name(&self) -> (r: Option<&String>)
        ensures
            match r {
                Some(p) => self.path matches Some(q) && q == *p,
                None => self.path is None,
            },
    {
        match &self.path {
            Some(p) => Some(p),
            None => None,
        }
    }

    /// Whether a record of this severity and module path is enabled under
    /// this sink's filters.
    pub fn enabled(&self, level: Level, target: &str) -> (r: bool)
        ensures
            r == spec_is_enabled(self.filters@, level, target@),
    {
        self.filters.is_enabled(level, target)
    }

    /// Renders one record to the bytes written for it, in the fixed field
    /// order, with this sink's style and a timestamp of its mode.
    pub fn render_record(&self, level: Level, target: &str, message: &str) -> (r: Vec<u8>)
        ensures
            exists|ts: Option<Seq<u8>>|
                #[trigger] field_matches(&self.options.time, ts) && r@ == line_spec(
                    level,
                    ts,
                    target.spec_bytes(),
                    message.spec_bytes(),
                    self.options.style,
                ),
    {
        let ts = self.options.time.timestamp_field();
        let ts_ref: Option<&Vec<u8>> = match &ts {
            Some(v) => Some(v),
            None => None,
        };
        let out = render_line(level, ts_ref, target, message, self.options.style);
        proof {
            let tsv = opt_ts_view(ts_ref);
            assert(field_matches(&self.options.time, tsv));
        }
        out
    }

    /// Checks the filter, then renders: the bytes to write for an enabled
    /// record, nothing for a rejected one.
    pub fn log(&self, level: Level, target: &str, message: &str) -> (r: Option<Vec<u8>>)
        ensures
            (r is Some) == spec_is_enabled(self.filters@, level, target@),
            r matches Some(bytes) ==> exists|ts: Option<Seq<u8>>|
                #[trigger] field_matches(&self.options.time, ts) && bytes@ == line_spec(
                    level,
                    ts,
                    target.spec_bytes(),
                    message.spec_bytes(),
                    self.options.style,
                ),
    {
        if self.enabled(level, target) {
            Some(self.render_record(level, target, message))
        } else {
            None
        }
    }

    /// Derives the timestamped destination name for the `timestamp` open
    /// policy: the Unix second count inserted before the extension of the
    /// path's final component. `None` when that component is empty.
    pub fn timestamp_path(path: &str, secs: u64) -> (r: Option<String>)
        ensures
            (r is Some) == (timestamp_path_spec(path@, secs as nat) is Some),
            r matches Some(q) ==> timestamp_path_spec(path@, secs as nat) == Some(q@),
    {
        proof {
            reveal_strlit("_");
            reveal_strlit(".");
        }
        let n = path.unicode_len();
        let mut start: usize = 0;
        let mut j: usize = 0;
        proof {
            assert(path@.take(0) =~= Seq::<char>::empty());
        }
        while j < n
            invariant
                0 <= j <= n == path@.len(),
                0 <= start <= j,
                start == after_last_slash(path@.take(j as int)),
            decreases n - j,
        {
            proof {
                assert(path@.take(j + 1).drop_last() =~= path@.take(j as int));
                assert(path@.take(j + 1).last() == path@[j as int]);
            }
            if path.get_char(j) == '/' {
                start = j + 1;
            }
            j += 1;
        }
        proof {
            assert(path@.take(n as int) =~= path@);
        }
        let ghost name = path@.skip(start as int);
        if start == n {
            proof {
                assert(name.len() == 0);
            }
            return None;
        }
        let mut dot: Option<usize> = None;
        let mut k: usize = start;
        proof {
            assert(name.take(0) =~= Seq::<char>::empty());
        }
        while k < n
            invariant
                start <= k <= n == path@.len(),
                start < n,
                name == path@.skip(start as int),
                match dot {
                    Some(d) => start < d < k && last_dot(name.take(k - start)) == Some(
                        d - start,
                    ),
                    None => last_dot(name.take(k - start)) is None,
                },
            decreases n - k,
        {
            proof {
                assert(name.take(k - start + 1).drop_last() =~= name.take(k - start));
                assert(name.take(k - start + 1).last() == path@[k as int]);
            }
            if path.get_char(k) == '.' {
                if k > start {
                    dot = Some(k);
                }
            }
            k += 1;
        }
        proof {
            assert(name.take(n - start) =~= name);
        }
        let num = u64_dec_str(secs);
        let mut out = path.substring_char(0, start).to_owned();
        proof {
            assert(out@ =~= path@.take(start as int));
        }
        match dot {
            Some(d) => {
                let stem = path.substring_char(start, d);
                out.append(stem);
                out.append("_");
                out.append(num.as_str());
                if d + 1 < n {
                    let ext = path.substring_char(d + 1, n);
                    out.append(".");
                    out.append(ext);
                    proof {
                        assert(name.take(d - start) =~= path@.subrange(start as int, d as int));
                        assert(name.skip(d - start + 1) =~= path@.subrange(d + 1, n as int));
                        assert(out@ =~= path@.take(start as int) + name.take(d - start)
                            + seq!['_'] + dec_chars_spec(secs as nat) + seq!['.'] + name.skip(
                            d - start + 1,
                        ));
                    }
                } else {
                    proof {
                        assert(name.take(d - start) =~= path@.subrange(start as int, d as int));
                        assert(out@ =~= path@.take(start as int) + name.take(d - start)
                            + seq!['_'] + dec_chars_spec(secs as nat));
                    }
                }
            },
            None => {
                let whole = path.substring_char(start, n);
                out.append(whole);
                out.append("_");
                out.append(num.as_str());
                proof {
                    assert(name =~= path@.subrange(start as int, n as int));
                    assert(out@ =~= path@.take(start as int) + name + seq!['_']
                        + dec_chars_spec(secs as nat));
                }
            },
        }
        Some(out)
    }
}

} // verus!
