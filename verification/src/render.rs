//! Deterministic rendering of one log record into bytes, in a fixed field
//! order: padded level, optional timestamp, bracketed target, then the
//! message on the same line or on a continuation line. A colorized variant
//! produces the same bytes split into per-field colored segments.

use vstd::prelude::*;

use crate::level::Level;
use crate::options::color::Color;
use crate::options::color::ColorConfig;
use crate::options::style::StyleConfig;
use crate::options::time::SPACE;
use vstd::string::StrSliceExecFns;
use vstd::string::StringSliceAdditionalSpecFns;

verus! {

/// The ASCII line-feed byte.
pub const NEWLINE: u8 = 10;

/// The ASCII `[` byte.
pub const LBRACKET: u8 = 91;

/// The ASCII `]` byte.
pub const RBRACKET: u8 = 93;

/// The three UTF-8 bytes of the continuation marker glyph.
pub const CONT_0: u8 = 0xE2;

/// Second byte of the continuation marker glyph.
pub const CONT_1: u8 = 0xA4;

/// Third byte of the continuation marker glyph.
pub const CONT_2: u8 = 0xB7;

/// The upper-case level name, left-justified to five bytes.
pub open spec fn level_text_spec(l: Level) -> Seq<u8> {
    match l {
        Level::Error => seq![69u8, 82, 82, 79, 82],
        Level::Warn => seq![87u8, 65, 82, 78, 32],
        Level::Info => seq![73u8, 78, 70, 79, 32],
        Level::Debug => seq![68u8, 69, 66, 85, 71],
        Level::Trace => seq![84u8, 82, 65, 67, 69],
    }
}

/// The continuation marker bytes.
pub open spec fn cont_spec() -> Seq<u8> {
    seq![CONT_0, CONT_1, CONT_2]
}

/// The timestamp field, or nothing.
pub open spec fn ts_or_empty(ts: Option<Seq<u8>>) -> Seq<u8> {
    match ts {
        Some(t) => t,
        None => Seq::empty(),
    }
}

/// The bytes of one rendered record: level, timestamp if configured,
/// ` [target]`, a break and continuation marker in multi-line style, then a
/// space, the message, and a final line feed.
pub open spec fn line_spec(
    level: Level,
    ts: Option<Seq<u8>>,
    target: Seq<u8>,
    msg: Seq<u8>,
    style: StyleConfig,
) -> Seq<u8> {
    level_text_spec(level) + ts_or_empty(ts) + seq![SPACE, LBRACKET] + target + seq![RBRACKET]
        + (if style is MultiLine {
        seq![NEWLINE] + cont_spec()
    } else {
        Seq::<u8>::empty()
    }) + seq![SPACE] + msg + seq![NEWLINE]
}

/// One rendered piece: its palette color, if colorized, and its bytes.
pub struct Segment {
    /// The color this piece is written in, or none for plain output.
    pub color: Option<Color>,
    /// The bytes of this piece.
    pub text: Vec<u8>,
}

/// The abstract form of one segment.
pub open spec fn seg_view(s: Segment) -> (Option<Color>, Seq<u8>) {
    (s.color, s.text@)
}

/// The abstract form of a segment vector.
pub open spec fn segs_view(v: Seq<Segment>) -> Seq<(Option<Color>, Seq<u8>)> {
    Seq::new(v.len(), |i: int| seg_view(v[i]))
}

/// The palette color of a level.
pub open spec fn level_color_spec(c: ColorConfig, l: Level) -> Color {
    match l {
        Level::Error => c.level_error,
        Level::Warn => c.level_warn,
        Level::Info => c.level_info,
        Level::Debug => c.level_debug,
        Level::Trace => c.level_trace,
    }
}

/// The rendered record as colored segments: the same bytes as
/// [`line_spec`], split at field boundaries, each field carrying its
/// palette color when `colored` holds and none when color is suppressed.
pub open spec fn segments_spec(
    level: Level,
    ts: Option<Seq<u8>>,
    target: Seq<u8>,
    msg: Seq<u8>,
    style: StyleConfig,
    colors: ColorConfig,
    colored: bool,
) -> Seq<(Option<Color>, Seq<u8>)> {
    let lvl = if colored {
        Some(level_color_spec(colors, level))
    } else {
        None
    };
    let tsc = if colored {
        Some(colors.timestamp)
    } else {
        None
    };
    let tgc = if colored {
        Some(colors.target)
    } else {
        None
    };
    let ctc = if colored {
        Some(colors.continuation)
    } else {
        None
    };
    let msc = if colored {
        Some(colors.message)
    } else {
        None
    };
    seq![(lvl, level_text_spec(level))] + (match ts {
        Some(t) => seq![(tsc, t)],
        None => Seq::<(Option<Color>, Seq<u8>)>::empty(),
    }) + seq![(None::<Color>, seq![SPACE, LBRACKET])] + seq![(tgc, target)] + seq![
        (None::<Color>, seq![RBRACKET]),
    ] + (if style is MultiLine {
        seq![(None::<Color>, seq![NEWLINE]), (ctc, cont_spec())]
    } else {
        Seq::<(Option<Color>, Seq<u8>)>::empty()
    }) + seq![(msc, seq![SPACE] + msg)] + seq![(None::<Color>, seq![NEWLINE])]
}

/// The bytes of a segment sequence, in order, colors discarded.
pub open spec fn flatten_segs(ss: Seq<(Option<Color>, Seq<u8>)>) -> Seq<u8>
    decreases ss.len(),
{
    if ss.len() == 0 {
        Seq::empty()
    } else {
        flatten_segs(ss.drop_last()) + ss.last().1
    }
}

/// Flattening distributes over concatenation.
proof fn lemma_flatten_concat(a: Seq<(Option<Color>, Seq<u8>)>, b: Seq<(Option<Color>, Seq<u8>)>)
    ensures
        flatten_segs(a + b) == flatten_segs(a) + flatten_segs(b),
    decreases b.len(),
{
    if b.len() == 0 {
        assert(a + b =~= a);
        assert(flatten_segs(a) + flatten_segs(b) =~= flatten_segs(a));
    } else {
        assert((a + b).drop_last() =~= a + b.drop_last());
        assert((a + b).last() == b.last());
        lemma_flatten_concat(a, b.drop_last());
        assert(flatten_segs(a) + flatten_segs(b.drop_last()) + b.last().1 =~= flatten_segs(a)
            + flatten_segs(b));
    }
}

/// Flattening a single segment yields its bytes.
proof fn lemma_flatten_singleton(x: (Option<Color>, Seq<u8>))
    ensures
        flatten_segs(seq![x]) == x.1,
{
    assert(seq![x].drop_last() =~= Seq::<(Option<Color>, Seq<u8>)>::empty());
    assert(flatten_segs(Seq::<(Option<Color>, Seq<u8>)>::empty()) == Seq::<u8>::empty());
    assert(Seq::<u8>::empty() + x.1 =~= x.1);
}

/// Color never changes the bytes: the segments of a record, colored with
/// any palette or with color suppressed, flatten to exactly the plain
/// single rendering of the record. Suppressed output is byte-identical to
/// colored output minus the color changes.
pub proof fn lemma_segments_flatten_to_line(
    level: Level,
    ts: Option<Seq<u8>>,
    target: Seq<u8>,
    msg: Seq<u8>,
    style: StyleConfig,
    colors: ColorConfig,
    colored: bool,
)
    ensures
        flatten_segs(segments_spec(level, ts, target, msg, style, colors, colored)) == line_spec(
            level,
            ts,
            target,
            msg,
            style,
        ),
{
    let lvl = if colored {
        Some(level_color_spec(colors, level))
    } else {
        None
    };
    let tsc = if colored {
        Some(colors.timestamp)
    } else {
        None
    };
    let tgc = if colored {
        Some(colors.target)
    } else {
        None
    };
    let ctc = if colored {
        Some(colors.continuation)
    } else {
        None
    };
    let msc = if colored {
        Some(colors.message)
    } else {
        None
    };
    let s1 = seq![(lvl, level_text_spec(level))];
    let s2 = match ts {
        Some(t) => seq![(tsc, t)],
        None => Seq::<(Option<Color>, Seq<u8>)>::empty(),
    };
    let s3 = seq![(None::<Color>, seq![SPACE, LBRACKET])];
    let s4 = seq![(tgc, target)];
    let s5 = seq![(None::<Color>, seq![RBRACKET])];
    let s6 = if style is MultiLine {
        seq![(None::<Color>, seq![NEWLINE]), (ctc, cont_spec())]
    } else {
        Seq::<(Option<Color>, Seq<u8>)>::empty()
    };
    let s7 = seq![(msc, seq![SPACE] + msg)];
    let s8 = seq![(None::<Color>, seq![NEWLINE])];
    lemma_flatten_singleton((lvl, level_text_spec(level)));
    lemma_flatten_singleton((None::<Color>, seq![SPACE, LBRACKET]));
    lemma_flatten_singleton((tgc, target));
    lemma_flatten_singleton((None::<Color>, seq![RBRACKET]));
    lemma_flatten_singleton((msc, seq![SPACE] + msg));
    lemma_flatten_singleton((None::<Color>, seq![NEWLINE]));
    match ts {
        Some(t) => {
            lemma_flatten_singleton((tsc, t));
        },
        None => {},
    }
    if style is MultiLine {
        lemma_flatten_singleton((ctc, cont_spec()));
        lemma_flatten_concat(seq![(None::<Color>, seq![NEWLINE])], seq![(ctc, cont_spec())]);
        assert(seq![(None::<Color>, seq![NEWLINE])] + seq![(ctc, cont_spec())] =~= s6);
    }
    lemma_flatten_concat(s1, s2);
    lemma_flatten_concat(s1 + s2, s3);
    lemma_flatten_concat(s1 + s2 + s3, s4);
    lemma_flatten_concat(s1 + s2 + s3 + s4, s5);
    lemma_flatten_concat(s1 + s2 + s3 + s4 + s5, s6);
    lemma_flatten_concat(s1 + s2 + s3 + s4 + s5 + s6, s7);
    lemma_flatten_concat(s1 + s2 + s3 + s4 + s5 + s6 + s7, s8);
    assert(flatten_segs(segments_spec(level, ts, target, msg, style, colors, colored))
        =~= line_spec(level, ts, target, msg, style));
}

/// How often byte `b` occurs in `s`.
pub open spec fn count_byte(s: Seq<u8>, b: u8) -> int
    decreases s.len(),
{
    if s.len() == 0 {
        0
    } else {
        count_byte(s.drop_last(), b) + (if s.last() == b {
            1int
        } else {
            0int
        })
    }
}

/// Counting distributes over concatenation.
pub proof fn lemma_count_concat(a: Seq<u8>, b: Seq<u8>, x: u8)
    ensures
        count_byte(a + b, x) == count_byte(a, x) + count_byte(b, x),
    decreases b.len(),
{
    if b.len() == 0 {
        assert(a + b =~= a);
    } else {
        assert((a + b).drop_last() =~= a + b.drop_last());
        assert((a + b).last() == b.last());
        lemma_count_concat(a, b.drop_last(), x);
    }
}

/// A sequence without `x` counts zero.
pub proof fn lemma_count_absent(s: Seq<u8>, x: u8)
    requires
        forall|i: int| 0 <= i < s.len() ==> s[i] != x,
    ensures
        count_byte(s, x) == 0,
    decreases s.len(),
{
    if s.len() > 0 {
        lemma_count_absent(s.drop_last(), x);
    }
}

/// A single-line rendering of a record whose timestamp, target and message
/// carry no line feed holds exactly one line feed, and it stands at the
/// end: writing N such records writes exactly N lines.
pub proof fn lemma_single_line_one_newline(
    level: Level,
    ts: Option<Seq<u8>>,
    target: Seq<u8>,
    msg: Seq<u8>,
)
    requires
        forall|i: int| 0 <= i < ts_or_empty(ts).len() ==> ts_or_empty(ts)[i] != NEWLINE,
        forall|i: int| 0 <= i < target.len() ==> target[i] != NEWLINE,
        forall|i: int| 0 <= i < msg.len() ==> msg[i] != NEWLINE,
    ensures
        count_byte(line_spec(level, ts, target, msg, StyleConfig::SingleLine), NEWLINE) == 1,
        line_spec(level, ts, target, msg, StyleConfig::SingleLine).last() == NEWLINE,
{
    let t = ts_or_empty(ts);
    let line = line_spec(level, ts, target, msg, StyleConfig::SingleLine);
    let head = level_text_spec(level) + t + seq![SPACE, LBRACKET] + target + seq![RBRACKET]
        + Seq::<u8>::empty() + seq![SPACE] + msg;
    assert(line =~= head + seq![NEWLINE]);
    lemma_count_concat(head, seq![NEWLINE], NEWLINE);
    assert(count_byte(seq![NEWLINE], NEWLINE) == 1) by {
        assert(seq![NEWLINE].drop_last() =~= Seq::<u8>::empty());
        assert(count_byte(Seq::<u8>::empty(), NEWLINE) == 0);
    }
    assert(forall|i: int| 0 <= i < level_text_spec(level).len() ==> level_text_spec(level)[i]
        != NEWLINE);
    assert(forall|i: int| 0 <= i < head.len() ==> head[i] != NEWLINE) by {
        let p1 = level_text_spec(level);
        let p2 = p1 + t;
        let p3 = p2 + seq![SPACE, LBRACKET];
        let p4 = p3 + target;
        let p5 = p4 + seq![RBRACKET];
        let p6 = p5 + Seq::<u8>::empty();
        let p7 = p6 + seq![SPACE];
        assert(head =~= p7 + msg);
        assert forall|i: int| 0 <= i < head.len() implies head[i] != NEWLINE by {
            if i < p1.len() {
                assert(head[i] == p1[i]);
            } else if i < p2.len() {
                assert(head[i] == t[i - p1.len()]);
            } else if i < p3.len() {
                assert(head[i] == seq![SPACE, LBRACKET][i - p2.len()]);
            } else if i < p4.len() {
                assert(head[i] == target[i - p3.len()]);
            } else if i < p5.len() {
                assert(head[i] == seq![RBRACKET][i - p4.len()]);
            } else if i < p7.len() {
                assert(head[i] == seq![SPACE][i - p6.len()]);
            } else {
                assert(head[i] == msg[i - p7.len()]);
            }
        }
    }
    lemma_count_absent(head, NEWLINE);
    assert(line.last() == NEWLINE);
}

/// The upper-case level name, left-justified to five bytes.
pub fn level_text(l: Level) -> (r: Vec<u8>)
    ensures
        r@ == level_text_spec(l),
{
    let mut v: Vec<u8> = Vec::new();
    match l {
        Level::Error => {
            v.push(69);
            v.push(82);
            v.push(82);
            v.push(79);
            v.push(82);
        },
        Level::Warn => {
            v.push(87);
            v.push(65);
            v.push(82);
            v.push(78);
            v.push(32);
        },
        Level::Info => {
            v.push(73);
            v.push(78);
            v.push(70);
            v.push(79);
            v.push(32);
        },
        Level::Debug => {
            v.push(68);
            v.push(69);
            v.push(66);
            v.push(85);
            v.push(71);
        },
        Level::Trace => {
            v.push(84);
            v.push(82);
            v.push(65);
            v.push(67);
            v.push(69);
        },
    }
    proof {
        assert(v@ =~= level_text_spec(l));
    }
    v
}

/// Appends a copy of `b` to `out`.
pub fn append_bytes(out: &mut Vec<u8>, b: &Vec<u8>)
    ensures
        final(out)@ == old(out)@ + b@,
{
    let n = b.len();
    let mut i: usize = 0;
    proof {
        assert(out@ =~= old(out)@ + b@.take(0));
    }
    while i < n
        invariant
            0 <= i <= n == b@.len(),
            out@ == old(out)@ + b@.take(i as int),
        decreases n - i,
    {
        out.push(b[i]);
        proof {
            assert(old(out)@ + b@.take(i as int) + seq![b@[i as int]] =~= old(out)@ + b@.take(
                i + 1,
            ));
        }
        i += 1;
    }
    proof {
        assert(b@.take(n as int) =~= b@);
    }
}

/// The view of an optional timestamp field.
pub open spec fn opt_ts_view(ts: Option<&Vec<u8>>) -> Option<Seq<u8>> {
    match ts {
        Some(v) => Some(v@),
        None => None,
    }
}

/// Renders one record as plain bytes in the fixed field order.
pub fn render_line(
    level: Level,
    ts: Option<&Vec<u8>>,
    target: &str,
    message: &str,
    style: StyleConfig,
) -> (r: Vec<u8>)
    ensures
        r@ == line_spec(level, opt_ts_view(ts), target.spec_bytes(), message.spec_bytes(), style),
{
    let mut out = level_text(level);
    match ts {
        Some(t) => {
            append_bytes(&mut out, t);
        },
        None => {},
    }
    out.push(SPACE);
    out.push(LBRACKET);
    let tb = target.as_bytes_vec();
    append_bytes(&mut out, &tb);
    out.push(RBRACKET);
    match style {
        StyleConfig::MultiLine => {
            out.push(NEWLINE);
            out.push(CONT_0);
            out.push(CONT_1);
            out.push(CONT_2);
        },
        StyleConfig::SingleLine => {},
    }
    out.push(SPACE);
    let mb = message.as_bytes_vec();
    append_bytes(&mut out, &mb);
    out.push(NEWLINE);
    proof {
        assert(out@ =~= line_spec(
            level,
            opt_ts_view(ts),
            target.spec_bytes(),
            message.spec_bytes(),
            style,
        ));
    }
    out
}

/// Renders one record as colored segments; flattened, they give exactly
/// the bytes of [`render_line`].
pub fn render_segments(
    level: Level,
    ts: Option<&Vec<u8>>,
    target: &str,
    message: &str,
    style: StyleConfig,
    colors: &ColorConfig,
    colored: bool,
) -> (r: Vec<Segment>)
    ensures
        segs_view(r@) == segments_spec(
            level,
            opt_ts_view(ts),
            target.spec_bytes(),
            message.spec_bytes(),
            style,
            *colors,
            colored,
        ),
{
    let lvl_color = if colored {
        Some(
            match level {
                Level::Error => colors.level_error,
                Level::Warn => colors.level_warn,
                Level::Info => colors.level_info,
                Level::Debug => colors.level_debug,
                Level::Trace => colors.level_trace,
            },
        )
    } else {
        None
    };
    let ts_color = if colored {
        Some(colors.timestamp)
    } else {
        None
    };
    let tg_color = if colored {
        Some(colors.target)
    } else {
        None
    };
    let ct_color = if colored {
        Some(colors.continuation)
    } else {
        None
    };
    let ms_color = if colored {
        Some(colors.message)
    } else {
        None
    };
    let mut segs: Vec<Segment> = Vec::new();
    segs.push(Segment { color: lvl_color, text: level_text(level) });
    match ts {
        Some(t) => {
            let mut text: Vec<u8> = Vec::new();
            append_bytes(&mut text, t);
            segs.push(Segment { color: ts_color, text });
        },
        None => {},
    }
    let mut open_text: Vec<u8> = Vec::new();
    open_text.push(SPACE);
    open_text.push(LBRACKET);
    segs.push(Segment { color: None, text: open_text });
    segs.push(Segment { color: tg_color, text: target.as_bytes_vec() });
    let mut close_text: Vec<u8> = Vec::new();
    close_text.push(RBRACKET);
    segs.push(Segment { color: None, text: close_text });
    match style {
        StyleConfig::MultiLine => {
            let mut nl: Vec<u8> = Vec::new();
            nl.push(NEWLINE);
            segs.push(Segment { color: None, text: nl });
            let mut glyph: Vec<u8> = Vec::new();
            glyph.push(CONT_0);
            glyph.push(CONT_1);
            glyph.push(CONT_2);
            segs.push(Segment { color: ct_color, text: glyph });
        },
        StyleConfig::SingleLine => {},
    }
    let mut msg_text: Vec<u8> = Vec::new();
    msg_text.push(SPACE);
    let mb = message.as_bytes_vec();
    append_bytes(&mut msg_text, &mb);
    segs.push(Segment { color: ms_color, text: msg_text });
    let mut last_nl: Vec<u8> = Vec::new();
    last_nl.push(NEWLINE);
    segs.push(Segment { color: None, text: last_nl });
    proof {
        assert(segs_view(segs@) =~~= segments_spec(
            level,
            opt_ts_view(ts),
            target.spec_bytes(),
            message.spec_bytes(),
            style,
            *colors,
            colored,
        ));
    }
    segs
}

/// The bytes of a rendered segment vector, colors discarded.
pub fn flatten_segments(segs: &Vec<Segment>) -> (r: Vec<u8>)
    ensures
        r@ == flatten_segs(segs_view(segs@)),
{
    let n = segs.len();
    let mut out: Vec<u8> = Vec::new();
    let mut i: usize = 0;
    proof {
        assert(segs_view(segs@).take(0) =~= Seq::<(Option<Color>, Seq<u8>)>::empty());
        assert(out@ =~= flatten_segs(segs_view(segs@).take(0)));
    }
    while i < n
        invariant
            0 <= i <= n == segs@.len(),
            out@ == flatten_segs(segs_view(segs@).take(i as int)),
        decreases n - i,
    {
        proof {
            assert(segs_view(segs@).take(i + 1).drop_last() =~= segs_view(segs@).take(i as int));
            assert(segs_view(segs@).take(i + 1).last() == seg_view(segs@[i as int]));
        }
        append_bytes(&mut out, &segs[i].text);
        i += 1;
    }
    proof {
        assert(segs_view(segs@).take(n as int) =~= segs_view(segs@));
    }
    out
}

} // verus!
