//! Timestamp configuration and rendering: no timestamp, Unix seconds, time
//! relative to a fixed start, time relative to the previous record, or a
//! pattern-formatted time of day.

use vstd::prelude::*;

use crate::clock::slot_new;
use crate::clock::slot_swap;
use crate::clock::wall_clock_now;
use crate::digits::pad_spec;
use crate::digits::u64_pad;
use crate::error::Error;
use crate::text::str_eq;

verus! {

/// The ASCII space byte.
pub const SPACE: u8 = 32;

/// The ASCII full-stop byte.
pub const DOT: u8 = 46;

/// The ASCII `s` byte.
pub const LETTER_S: u8 = 115;

/// A point in time: whole seconds and sub-second nanoseconds.
#[derive(Clone, Copy, Debug, PartialEq, Eq, Structural)]
pub struct Stamp {
    pub secs: u64,
    pub nanos: u32,
}

/// A well-formed stamp keeps its nanosecond part below one second.
pub open spec fn stamp_wf(s: Stamp) -> bool {
    s.nanos < 1_000_000_000
}

/// The zero duration.
pub open spec fn zero_stamp() -> Stamp {
    Stamp { secs: 0, nanos: 0 }
}

/// The difference `now - start` with borrow between the second and
/// nanosecond parts, saturating at zero when `now` lies before `start`.
pub open spec fn stamp_sub_spec(now: Stamp, start: Stamp) -> Stamp {
    if now.secs > start.secs {
        if now.nanos >= start.nanos {
            Stamp { secs: (now.secs - start.secs) as u64, nanos: (now.nanos - start.nanos) as u32 }
        } else {
            Stamp {
                secs: (now.secs - start.secs - 1) as u64,
                nanos: (now.nanos + 1_000_000_000 - start.nanos) as u32,
            }
        }
    } else if now.secs == start.secs && now.nanos >= start.nanos {
        Stamp { secs: 0, nanos: (now.nanos - start.nanos) as u32 }
    } else {
        zero_stamp()
    }
}

/// The elapsed time from `start` to `now`, saturating at zero.
pub fn stamp_sub(now: Stamp, start: Stamp) -> (r: Stamp)
    requires
        stamp_wf(now),
        stamp_wf(start),
    ensures
        r == stamp_sub_spec(now, start),
        stamp_wf(r),
{
    if now.secs > start.secs {
        if now.nanos >= start.nanos {
            Stamp { secs: now.secs - start.secs, nanos: now.nanos - start.nanos }
        } else {
            Stamp {
                secs: now.secs - start.secs - 1,
                nanos: now.nanos + 1_000_000_000 - start.nanos,
            }
        }
    } else if now.secs == start.secs && now.nanos >= start.nanos {
        Stamp { secs: 0, nanos: now.nanos - start.nanos }
    } else {
        Stamp { secs: 0, nanos: 0 }
    }
}

/// `s` unchanged when well formed; otherwise the nanosecond part clamped to
/// just below one second.
pub open spec fn normalize_spec(s: Stamp) -> Stamp {
    if stamp_wf(s) {
        s
    } else {
        Stamp { secs: s.secs, nanos: 999_999_999 }
    }
}

/// Clamps the nanosecond part below one second.
pub fn normalize_stamp(s: Stamp) -> (r: Stamp)
    ensures
        r == normalize_spec(s),
        stamp_wf(r),
{
    if s.nanos < 1_000_000_000 {
        s
    } else {
        Stamp { secs: s.secs, nanos: 999_999_999 }
    }
}

/// One piece of a timestamp format pattern: literal text, or a zero-padded
/// time-of-day component.
#[derive(Debug)]
pub enum FmtItem {
    /// Literal text copied into the output.
    Literal(String),
    /// The hour of day, two digits.
    Hour,
    /// The minute of the hour, two digits.
    Minute,
    /// The second of the minute, two digits.
    Second,
}

/// Abstract form of a format item.
pub ghost enum FmtItemV {
    Literal(Seq<char>),
    Hour,
    Minute,
    Second,
}

/// The abstract form of one format item.
pub open spec fn item_view(it: FmtItem) -> FmtItemV {
    match it {
        FmtItem::Literal(s) => FmtItemV::Literal(s@),
        FmtItem::Hour => FmtItemV::Hour,
        FmtItem::Minute => FmtItemV::Minute,
        FmtItem::Second => FmtItemV::Second,
    }
}

/// The abstract form of a format item sequence.
pub open spec fn items_view(v: Seq<FmtItem>) -> Seq<FmtItemV> {
    Seq::new(v.len(), |i: int| item_view(v[i]))
}

impl Clone for FmtItem {
    /// A copy with the same abstract form.
    fn clone(&self) -> (r: Self)
        ensures
            item_view(r) == item_view(*self),
    {
        match self {
            FmtItem::Literal(s) => FmtItem::Literal(s.clone()),
            FmtItem::Hour => FmtItem::Hour,
            FmtItem::Minute => FmtItem::Minute,
            FmtItem::Second => FmtItem::Second,
        }
    }
}

/// The items denoted by a format pattern: a `[` opens one of the component
/// names `hour`, `minute` or `second`, closed by `]`; any other character
/// except a stray `]` stands for itself. `None` when the pattern is
/// malformed.
pub open spec fn parse_fmt_spec(s: Seq<char>) -> Option<Seq<FmtItemV>>
    decreases s.len(),
{
    if s.len() == 0 {
        Some(Seq::empty())
    } else if s[0] == ']' {
        None
    } else if s[0] == '[' {
        if s.len() >= 6 && s.subrange(1, 5) == "hour"@ && s[5] == ']' {
            match parse_fmt_spec(s.skip(6)) {
                Some(r) => Some(seq![FmtItemV::Hour] + r),
                None => None,
            }
        } else if s.len() >= 8 && s.subrange(1, 7) == "minute"@ && s[7] == ']' {
            match parse_fmt_spec(s.skip(8)) {
                Some(r) => Some(seq![FmtItemV::Minute] + r),
                None => None,
            }
        } else if s.len() >= 8 && s.subrange(1, 7) == "second"@ && s[7] == ']' {
            match parse_fmt_spec(s.skip(8)) {
                Some(r) => Some(seq![FmtItemV::Second] + r),
                None => None,
            }
        } else {
            None
        }
    } else {
        match parse_fmt_spec(s.drop_first()) {
            Some(r) => Some(seq![FmtItemV::Literal(seq![s[0]])] + r),
            None => None,
        }
    }
}

/// Parses the pattern text from position `i` on.
fn parse_fmt_from(s: &str, i: usize) -> (r: Option<Vec<FmtItem>>)
    requires
        i <= s@.len(),
    ensures
        match r {
            Some(items) => parse_fmt_spec(s@.skip(i as int)) == Some(items_view(items@)),
            None => parse_fmt_spec(s@.skip(i as int)) is None,
        },
    decreases s@.len() - i,
{
    let ghost rest = s@.skip(i as int);
    let n = s.unicode_len();
    if i == n {
        let items: Vec<FmtItem> = Vec::new();
        proof {
            assert(rest =~= Seq::<char>::empty());
            assert(items_view(items@) =~= Seq::<FmtItemV>::empty());
        }
        return Some(items);
    }
    let c = s.get_char(i);
    proof {
        assert(rest[0] == s@[i as int]);
    }
    if c == ']' {
        return None;
    }
    if c == '[' {
        proof {
            reveal_strlit("hour");
            reveal_strlit("minute");
            reveal_strlit("second");
            if n - i >= 6 {
                assert(rest.subrange(1, 5) =~= s@.subrange(i + 1, i + 5));
                assert(rest.skip(6) =~= s@.skip(i + 6));
            }
            if n - i >= 8 {
                assert(rest.subrange(1, 7) =~= s@.subrange(i + 1, i + 7));
                assert(rest.skip(8) =~= s@.skip(i + 8));
            }
        }
        if n - i >= 6 && str_eq(s.substring_char(i + 1, i + 5), "hour") && s.get_char(i + 5)
            == ']' {
            proof {
                assert(rest.subrange(1, 5) =~= s@.subrange(i + 1, i + 5));
                assert(rest[5] == s@[i + 5]);
                assert(rest.skip(6) =~= s@.skip(i + 6));
            }
            match parse_fmt_from(s, i + 6) {
                Some(mut items) => {
                    let ghost tail = items_view(items@);
                    items.insert(0, FmtItem::Hour);
                    proof {
                        assert(items_view(items@) =~= seq![FmtItemV::Hour] + tail);
                    }
                    Some(items)
                },
                None => None,
            }
        } else if n - i >= 8 && str_eq(s.substring_char(i + 1, i + 7), "minute") && s.get_char(
            i + 7,
        ) == ']' {
            proof {
                assert(rest.subrange(1, 7) =~= s@.subrange(i + 1, i + 7));
                assert(rest[7] == s@[i + 7]);
                assert(rest.skip(8) =~= s@.skip(i + 8));
            }
            match parse_fmt_from(s, i + 8) {
                Some(mut items) => {
                    let ghost tail = items_view(items@);
                    items.insert(0, FmtItem::Minute);
                    proof {
                        assert(items_view(items@) =~= seq![FmtItemV::Minute] + tail);
                    }
                    Some(items)
                },
                None => None,
            }
        } else if n - i >= 8 && str_eq(s.substring_char(i + 1, i + 7), "second") && s.get_char(
            i + 7,
        ) == ']' {
            proof {
                assert(rest.subrange(1, 7) =~= s@.subrange(i + 1, i + 7));
                assert(rest[7] == s@[i + 7]);
                assert(rest.skip(8) =~= s@.skip(i + 8));
            }
            match parse_fmt_from(s, i + 8) {
                Some(mut items) => {
                    let ghost tail = items_view(items@);
                    items.insert(0, FmtItem::Second);
                    proof {
                        assert(items_view(items@) =~= seq![FmtItemV::Second] + tail);
                    }
                    Some(items)
                },
                None => None,
            }
        } else {
            proof {
                if rest.len() >= 6 && rest.subrange(1, 5) == "hour"@ && rest[5] == ']' {
                    assert(s@.subrange(i + 1, i + 5) =~= rest.subrange(1, 5));
                    assert(s@[i + 5] == rest[5]);
                }
                if rest.len() >= 8 && rest.subrange(1, 7) == "minute"@ && rest[7] == ']' {
                    assert(s@.subrange(i + 1, i + 7) =~= rest.subrange(1, 7));
                    assert(s@[i + 7] == rest[7]);
                }
                if rest.len() >= 8 && rest.subrange(1, 7) == "second"@ && rest[7] == ']' {
                    assert(s@.subrange(i + 1, i + 7) =~= rest.subrange(1, 7));
                    assert(s@[i + 7] == rest[7]);
                }
            }
            None
        }
    } else {
        proof {
            assert(rest.drop_first() =~= s@.skip(i + 1));
        }
        match parse_fmt_from(s, i + 1) {
            Some(mut items) => {
                let lit = s.substring_char(i, i + 1).to_owned();
                proof {
                    assert(lit@ =~= seq![s@[i as int]]);
                }
                let ghost tail = items_view(items@);
                items.insert(0, FmtItem::Literal(lit));
                proof {
                    assert(items_view(items@) =~= seq![FmtItemV::Literal(seq![rest[0]])]
                        + tail);
                }
                Some(items)
            },
            None => None,
        }
    }
}

/// Parses a timestamp format pattern; a malformed pattern is rejected here,
/// at construction time, never at render time.
pub fn parse_format_description(pattern: &str) -> (r: Result<Vec<FmtItem>, Error>)
    ensures
        (r is Ok) == (parse_fmt_spec(pattern@) is Some),
        r matches Ok(items) ==> parse_fmt_spec(pattern@) == Some(items_view(items@)),
        r matches Err(e) ==> e is InvalidFormatString,
{
    proof {
        assert(pattern@.skip(0) =~= pattern@);
    }
    match parse_fmt_from(pattern, 0) {
        Some(items) => Ok(items),
        None => Err(Error::InvalidFormatString(String::from_str("invalid format pattern"))),
    }
}

/// The hour of day encoded in a Unix second count.
pub open spec fn hour_of(secs: nat) -> nat {
    (secs % 86400) / 3600
}

/// The minute of the hour encoded in a Unix second count.
pub open spec fn minute_of(secs: nat) -> nat {
    ((secs % 86400) % 3600) / 60
}

/// The second of the minute encoded in a Unix second count.
pub open spec fn second_of(secs: nat) -> nat {
    (secs % 86400) % 60
}

/// The bytes of one format item for the given time of day.
pub open spec fn item_text_spec(it: FmtItemV, secs: nat) -> Seq<u8> {
    match it {
        FmtItemV::Literal(t) => vstd::utf8::encode_utf8(t),
        FmtItemV::Hour => pad_spec(hour_of(secs), 2),
        FmtItemV::Minute => pad_spec(minute_of(secs), 2),
        FmtItemV::Second => pad_spec(second_of(secs), 2),
    }
}

/// The bytes of a format item sequence for the given time of day.
pub open spec fn items_text_spec(items: Seq<FmtItemV>, secs: nat) -> Seq<u8>
    decreases items.len(),
{
    if items.len() == 0 {
        Seq::empty()
    } else {
        items_text_spec(items.drop_last(), secs) + item_text_spec(items.last(), secs)
    }
}

/// The timestamp field of the Unix mode: a space and the zero-padded second
/// count.
pub open spec fn unix_field_spec(secs: u64) -> Seq<u8> {
    seq![SPACE] + pad_spec(secs as nat, 4)
}

/// The timestamp field of the relative modes: a space, zero-padded seconds,
/// a dot, nine nanosecond digits, and `s`.
pub open spec fn duration_field_spec(d: Stamp) -> Seq<u8> {
    seq![SPACE] + pad_spec(d.secs as nat, 4) + seq![DOT] + pad_spec(d.nanos as nat, 9)
        + seq![LETTER_S]
}

/// The timestamp field of the pattern mode: a space and the rendered items.
pub open spec fn datetime_field_spec(items: Seq<FmtItemV>, secs: u64) -> Seq<u8> {
    seq![SPACE] + items_text_spec(items, secs as nat)
}

/// The Unix-mode timestamp field.
fn unix_field(secs: u64) -> (r: Vec<u8>)
    ensures
        r@ == unix_field_spec(secs),
{
    let mut v: Vec<u8> = Vec::new();
    v.push(SPACE);
    let mut digits = u64_pad(secs, 4);
    v.append(&mut digits);
    proof {
        assert(v@ =~= unix_field_spec(secs));
    }
    v
}

/// The relative-mode timestamp field for an elapsed duration.
fn duration_field(d: Stamp) -> (r: Vec<u8>)
    ensures
        r@ == duration_field_spec(d),
{
    let mut v: Vec<u8> = Vec::new();
    v.push(SPACE);
    let mut secs = u64_pad(d.secs, 4);
    v.append(&mut secs);
    v.push(DOT);
    let mut nanos = u64_pad(d.nanos as u64, 9);
    v.append(&mut nanos);
    v.push(LETTER_S);
    proof {
        assert(v@ =~= duration_field_spec(d));
    }
    v
}

/// The rendered format items for the time of day in `secs`.
fn items_text(items: &Vec<FmtItem>, secs: u64) -> (r: Vec<u8>)
    ensures
        r@ == items_text_spec(items_view(items@), secs as nat),
{
    let n = items.len();
    let mut v: Vec<u8> = Vec::new();
    let mut i: usize = 0;
    proof {
        assert(items_view(items@).take(0) =~= Seq::<FmtItemV>::empty());
    }
    while i < n
        invariant
            0 <= i <= n == items@.len(),
            v@ == items_text_spec(items_view(items@).take(i as int), secs as nat),
        decreases n - i,
    {
        let ghost pre = items_view(items@).take(i as int);
        let ghost cur = item_view(items@[i as int]);
        proof {
            assert(items_view(items@).take(i + 1).drop_last() =~= pre);
            assert(items_view(items@).take(i + 1).last() == cur);
        }
        let tod = secs % 86400;
        match &items[i] {
            FmtItem::Literal(t) => {
                let mut b = t.as_str().as_bytes_vec();
                v.append(&mut b);
            },
            FmtItem::Hour => {
                let mut b = u64_pad(tod / 3600, 2);
                v.append(&mut b);
            },
            FmtItem::Minute => {
                let mut b = u64_pad((tod % 3600) / 60, 2);
                v.append(&mut b);
            },
            FmtItem::Second => {
                let mut b = u64_pad(tod % 60, 2);
                v.append(&mut b);
            },
        }
        proof {
            assert(v@ =~= items_text_spec(items_view(items@).take(i + 1), secs as nat));
        }
        i += 1;
    }
    proof {
        assert(items_view(items@).take(n as int) =~= items_view(items@));
    }
    v
}

/// No byte of a Unix timestamp field is an ASCII line feed.
pub proof fn lemma_unix_field_no_newline(secs: u64)
    ensures
        forall|i: int| 0 <= i < unix_field_spec(secs).len() ==> #[trigger] unix_field_spec(
            secs,
        )[i] != 10,
{
    crate::digits::lemma_pad_digits_range(secs as nat, 4);
    let f = unix_field_spec(secs);
    assert forall|i: int| 0 <= i < f.len() implies #[trigger] f[i] != 10 by {
        if i == 0 {
            assert(f[0] == SPACE);
        } else {
            assert(f[i] == pad_spec(secs as nat, 4)[i - 1]);
        }
    }
}

/// No byte of a relative-duration timestamp field is an ASCII line feed.
pub proof fn lemma_duration_field_no_newline(d: Stamp)
    ensures
        forall|i: int| 0 <= i < duration_field_spec(d).len() ==> #[trigger] duration_field_spec(
            d,
        )[i] != 10,
{
    crate::digits::lemma_pad_digits_range(d.secs as nat, 4);
    crate::digits::lemma_pad_digits_range(d.nanos as nat, 9);
    let p1 = pad_spec(d.secs as nat, 4);
    let p2 = pad_spec(d.nanos as nat, 9);
    let f = duration_field_spec(d);
    assert(f =~= seq![SPACE] + p1 + seq![DOT] + p2 + seq![LETTER_S]);
    assert forall|i: int| 0 <= i < f.len() implies #[trigger] f[i] != 10 by {
        let a = seq![SPACE] + p1;
        let b = a + seq![DOT];
        let c = b + p2;
        assert(f =~= c + seq![LETTER_S]);
        if i == 0 {
            assert(f[0] == SPACE);
        } else if i < a.len() {
            assert(f[i] == p1[i - 1]);
        } else if i < b.len() {
            assert(f[i] == DOT);
        } else if i < c.len() {
            assert(f[i] == p2[i - b.len()]);
        } else {
            assert(f[i] == LETTER_S);
        }
    }
}

/// Whether `ts` is a timestamp field that mode `t` can produce on some
/// render: absent exactly for the no-timestamp mode, and otherwise shaped
/// by the mode, for some clock reading.
pub open spec fn field_matches(t: &TimeConfig, ts: Option<Seq<u8>>) -> bool {
    match t {
        TimeConfig::NoTimestamp => ts is None,
        TimeConfig::Unix => ts matches Some(v) && exists|secs: u64| v == unix_field_spec(secs),
        TimeConfig::Relative(_) => ts matches Some(v) && exists|d: Stamp|
            stamp_wf(d) && v == duration_field_spec(d),
        TimeConfig::Timing(_) => ts matches Some(v) && exists|d: Stamp|
            stamp_wf(d) && v == duration_field_spec(d),
        TimeConfig::DateTime(items) => ts matches Some(v) && exists|secs: u64|
            v == datetime_field_spec(items_view(items@), secs),
    }
}

/// How the timestamp of a record is produced.
///
/// The relative-to-previous mode owns a mutex-guarded slot holding the
/// previous render's time; every render reads it and replaces it with the
/// current time in one critical section.
#[derive(Debug)]
pub enum TimeConfig {
    /// No timestamp.
    NoTimestamp,
    /// Seconds since the Unix epoch, read anew on every render.
    Unix,
    /// Elapsed time since the stamp taken when this configuration was made.
    Relative(Stamp),
    /// Elapsed time since the previous render; zero on the first.
    Timing(std::sync::Mutex<Option<Stamp>>),
    /// Time of day formatted by a pre-parsed pattern.
    DateTime(Vec<FmtItem>),
}

/// Whether two timestamp configurations denote the same mode and carry the
/// same plain data; the slot of the relative-to-previous mode is fresh in a
/// copy and is not compared.
pub open spec fn same_mode(a: &TimeConfig, b: &TimeConfig) -> bool {
    match (a, b) {
        (TimeConfig::NoTimestamp, TimeConfig::NoTimestamp) => true,
        (TimeConfig::Unix, TimeConfig::Unix) => true,
        (TimeConfig::Relative(x), TimeConfig::Relative(y)) => x == y,
        (TimeConfig::Timing(_), TimeConfig::Timing(_)) => true,
        (TimeConfig::DateTime(x), TimeConfig::DateTime(y)) => items_view(x@) == items_view(y@),
        _ => false,
    }
}

impl Clone for TimeConfig {
    /// A configuration of the same mode; the relative-to-previous mode gets
    /// a fresh, empty slot.
    fn clone(&self) -> (r: Self)
        ensures
            same_mode(self, &r),
    {
        match self {
            TimeConfig::NoTimestamp => TimeConfig::NoTimestamp,
            TimeConfig::Unix => TimeConfig::Unix,
            TimeConfig::Relative(s) => TimeConfig::Relative(*s),
            TimeConfig::Timing(_) => TimeConfig::Timing(slot_new()),
            TimeConfig::DateTime(items) => {
                let n = items.len();
                let mut copy: Vec<FmtItem> = Vec::new();
                let mut i: usize = 0;
                proof {
                    assert(items_view(copy@) =~= items_view(items@).take(0));
                }
                while i < n
                    invariant
                        0 <= i <= n == items@.len(),
                        items_view(copy@) == items_view(items@).take(i as int),
                    decreases n - i,
                {
                    let it = items[i].clone();
                    let ghost itv = item_view(it);
                    let ghost prev = items_view(copy@);
                    copy.push(it);
                    proof {
                        assert(itv == item_view(items@[i as int]));
                        assert(items_view(copy@) =~= prev.push(itv));
                        assert(prev.push(itv) =~= items_view(items@).take(i + 1));
                    }
                    i += 1;
                }
                proof {
                    assert(items_view(items@).take(n as int) =~= items_view(items@));
                }
                TimeConfig::DateTime(copy)
            },
        }
    }
}

impl Default for TimeConfig {
    /// Defaults to no timestamp.
    fn default() -> (r: Self)
        ensures
            r is NoTimestamp,
    {
        TimeConfig::NoTimestamp
    }
}

impl TimeConfig {
    /// A relative timestamp counting from now; from zero when the clock
    /// reads before the epoch.
    pub fn relative_now() -> (r: Self)
        ensures
            r matches TimeConfig::Relative(s) && stamp_wf(s),
    {
        match wall_clock_now() {
            Some(s) => TimeConfig::Relative(s),
            None => TimeConfig::Relative(Stamp { secs: 0, nanos: 0 }),
        }
    }

    /// A timestamp relative to the previous render, starting empty.
    pub fn relative_local() -> (r: Self)
        ensures
            r is Timing,
    {
        TimeConfig::Timing(slot_new())
    }

    /// A timestamp of seconds since the Unix epoch.
    pub fn unix_timestamp() -> (r: Self)
        ensures
            r is Unix,
    {
        TimeConfig::Unix
    }

    /// A timestamp formatted by a pre-parsed pattern; see
    /// [`parse_format_description`].
    pub fn date_time_format(items: Vec<FmtItem>) -> (r: Self)
        ensures
            r matches TimeConfig::DateTime(v) && v == items,
    {
        TimeConfig::DateTime(items)
    }

    /// Produces this mode's timestamp field for one render, reading the
    /// clock where the mode calls for it; the relative-to-previous mode
    /// also replaces its stored stamp with the current time.
    pub fn timestamp_field(&self) -> (r: Option<Vec<u8>>)
        ensures
            field_matches(self, match r {
                Some(v) => Some(v@),
                None => None,
            }),
    {
        match self {
            TimeConfig::NoTimestamp => None,
            TimeConfig::Unix => {
                let secs: u64 = match wall_clock_now() {
                    Some(s) => s.secs,
                    None => 0,
                };
                Some(unix_field(secs))
            },
            TimeConfig::Relative(start) => {
                let now = match wall_clock_now() {
                    Some(s) => s,
                    None => Stamp { secs: 0, nanos: 0 },
                };
                let d = stamp_sub(now, normalize_stamp(*start));
                Some(duration_field(d))
            },
            TimeConfig::Timing(slot) => {
                let now = match wall_clock_now() {
                    Some(s) => s,
                    None => Stamp { secs: 0, nanos: 0 },
                };
                let prev = slot_swap(slot, now);
                let d = match prev {
                    Some(p) => stamp_sub(now, normalize_stamp(p)),
                    None => Stamp { secs: 0, nanos: 0 },
                };
                Some(duration_field(d))
            },
            TimeConfig::DateTime(items) => {
                let secs: u64 = match wall_clock_now() {
                    Some(s) => s.secs,
                    None => 0,
                };
                let mut v: Vec<u8> = Vec::new();
                v.push(SPACE);
                let mut text = items_text(items, secs);
                v.append(&mut text);
                proof {
                    assert(v@ =~= datetime_field_spec(items_view(items@), secs));
                }
                Some(v)
            },
        }
    }
}

} // verus!
