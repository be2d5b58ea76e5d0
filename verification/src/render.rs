//! Text of a commit-graph line: lane glyphs, branch labels, the commit
//! summary, relative times, and cutting a line to the screen width.
use vstd::prelude::*;
use vstd::string::StringSliceAdditionalSpecFns;
use vstd::utf8::encode_utf8;
use crate::graph::{lane_color, lane_color_spec, BranchLabel, GraphRow, LaneSegment, Span3, PALETTE_SIZE};
use crate::text::{chars_to_string, decimal, owned, push_char, push_chars, push_decimal, push_str, str_chars, sub_chars};

verus! {

/// A terminal colour.
#[derive(Clone, Copy, Debug, PartialEq, Eq, Structural)]
pub enum Color {
    Black,
    Red,
    Green,
    Yellow,
    Blue,
    Magenta,
    Cyan,
    Gray,
    DarkGray,
    LightRed,
    LightGreen,
    LightYellow,
    LightBlue,
    LightMagenta,
    LightCyan,
    White,
    Rgb(u8, u8, u8),
}

/// Foreground, background and emphasis of a piece of text.
#[derive(Clone, Copy, Debug, PartialEq, Eq, Structural)]
pub struct Style {
    pub fg: Option<Color>,
    pub bg: Option<Color>,
    pub bold: bool,
    pub italic: bool,
}

/// A piece of text with one style.
#[derive(Debug)]
pub struct StyledSpan {
    pub content: String,
    pub style: Style,
}

/// Content and style of a span.
pub type SpanView = (Seq<char>, Style);

pub open spec fn span_view(s: StyledSpan) -> SpanView {
    (s.content@, s.style)
}

pub open spec fn spans_view(v: Seq<StyledSpan>) -> Seq<SpanView> {
    v.map_values(|s: StyledSpan| span_view(s))
}

/// Plain style.
pub open spec fn plain() -> Style {
    Style { fg: None, bg: None, bold: false, italic: false }
}

/// Style with a foreground colour only.
pub open spec fn fg(c: Color) -> Style {
    Style { fg: Some(c), bg: None, bold: false, italic: false }
}

fn fg_style(c: Color) -> (r: Style)
    ensures
        r == fg(c),
{
    Style { fg: Some(c), bg: None, bold: false, italic: false }
}

fn span(content: String, style: Style) -> (r: StyledSpan)
    ensures
        span_view(r) == (content@, style),
{
    StyledSpan { content, style }
}

/// Colours of the graph lanes.
pub open spec fn palette(i: int) -> Color {
    if i == 0 {
        Color::Red
    } else if i == 1 {
        Color::Green
    } else if i == 2 {
        Color::Yellow
    } else if i == 3 {
        Color::Blue
    } else if i == 4 {
        Color::Magenta
    } else {
        Color::Cyan
    }
}

fn palette_color(i: usize) -> (r: Color)
    requires
        i < PALETTE_SIZE,
    ensures
        r == palette(i as int),
{
    if i == 0 {
        Color::Red
    } else if i == 1 {
        Color::Green
    } else if i == 2 {
        Color::Yellow
    } else if i == 3 {
        Color::Blue
    } else if i == 4 {
        Color::Magenta
    } else {
        Color::Cyan
    }
}

/// Glyph of a lane segment.
pub open spec fn glyph(s: LaneSegment) -> char {
    match s {
        LaneSegment::Empty => ' ',
        LaneSegment::Straight => '\u{2502}',
        LaneSegment::Commit => '\u{25cf}',
        LaneSegment::MergeLeft => '\u{256f}',
        LaneSegment::MergeRight => '\u{2570}',
        LaneSegment::ForkLeft => '\u{256e}',
        LaneSegment::ForkRight => '\u{256d}',
        LaneSegment::Horizontal => '\u{2500}',
        LaneSegment::CrossHorizontal => '\u{253c}',
        LaneSegment::RightTee => '\u{251c}',
        LaneSegment::LeftTee => '\u{2524}',
    }
}

fn glyph_char(s: LaneSegment) -> (r: char)
    ensures
        r == glyph(s),
{
    match s {
        LaneSegment::Empty => ' ',
        LaneSegment::Straight => '\u{2502}',
        LaneSegment::Commit => '\u{25cf}',
        LaneSegment::MergeLeft => '\u{256f}',
        LaneSegment::MergeRight => '\u{2570}',
        LaneSegment::ForkLeft => '\u{256e}',
        LaneSegment::ForkRight => '\u{256d}',
        LaneSegment::Horizontal => '\u{2500}',
        LaneSegment::CrossHorizontal => '\u{253c}',
        LaneSegment::RightTee => '\u{251c}',
        LaneSegment::LeftTee => '\u{2524}',
    }
}

/// Index of the first horizontal span from `k` on that covers `col`
/// (`inclusive`: its right end counts), or `spans.len()`.
pub open spec fn find_span(spans: Seq<Span3>, col: int, inclusive: bool, k: int) -> int
    decreases spans.len() - k,
{
    if k < 0 || k >= spans.len() {
        spans.len() as int
    } else if spans[k].0 <= col && (if inclusive { col <= spans[k].1 } else { col < spans[k].1 }) {
        k
    } else {
        find_span(spans, col, inclusive, k + 1)
    }
}

fn find_span_exec(spans: &Vec<Span3>, col: usize, inclusive: bool) -> (r: usize)
    ensures
        r == find_span(spans@, col as int, inclusive, 0),
        r <= spans@.len(),
{
    let mut k: usize = 0;
    while k < spans.len()
        invariant
            k <= spans@.len(),
            find_span(spans@, col as int, inclusive, 0) == find_span(spans@, col as int, inclusive, k as int),
        decreases spans@.len() - k,
    {
        let s = spans[k];
        if s.0 <= col && (if inclusive {
            col <= s.1
        } else {
            col < s.1
        }) {
            return k;
        }
        k = k + 1;
    }
    k
}

/// Whether every span's colour is a palette index.
pub open spec fn span_colors_ok(spans: Seq<Span3>) -> bool {
    forall|k: int| 0 <= k < spans.len() ==> (#[trigger] spans[k]).2 < PALETTE_SIZE
}

/// Colour of the glyph in column `col`: the commit dot is green once pushed
/// and red before; horizontal pieces take the colour of the span over them;
/// everything else the colour of its lane.
pub open spec fn glyph_color(row: GraphRow, col: int) -> Color {
    match row.lanes@[col] {
        LaneSegment::Commit => if row.is_pushed { Color::Green } else { Color::Red },
        LaneSegment::Horizontal | LaneSegment::CrossHorizontal | LaneSegment::RightTee | LaneSegment::LeftTee => {
            let k = find_span(row.horizontal_spans@, col, true, 0);
            if k < row.horizontal_spans@.len() {
                palette(row.horizontal_spans@[k].2 as int)
            } else {
                palette(lane_color_spec(col))
            }
        },
        _ => palette(lane_color_spec(col)),
    }
}

/// The two spans of column `col`: its glyph, then the gap to the next
/// column, a dash inside a horizontal span and a space elsewhere.
pub open spec fn column_spans(row: GraphRow, col: int) -> Seq<SpanView> {
    let k = find_span(row.horizontal_spans@, col, false, 0);
    let gap = if k < row.horizontal_spans@.len() {
        (seq!['\u{2500}'], fg(palette(row.horizontal_spans@[k].2 as int)))
    } else {
        (seq![' '], plain())
    };
    seq![(seq![glyph(row.lanes@[col])], fg(glyph_color(row, col))), gap]
}

/// Spans of the first `n` columns.
pub open spec fn prefix_spans(row: GraphRow, n: int) -> Seq<SpanView>
    decreases n,
{
    if n <= 0 {
        Seq::empty()
    } else {
        prefix_spans(row, n - 1) + column_spans(row, n - 1)
    }
}

/// The lane glyphs of a row, two spans per column.
pub fn render_graph_prefix(row: &GraphRow) -> (r: Vec<StyledSpan>)
    requires
        span_colors_ok(row.horizontal_spans@),
    ensures
        spans_view(r@) == prefix_spans(*row, row.lanes@.len() as int),
{
    let mut out: Vec<StyledSpan> = Vec::new();
    let mut col: usize = 0;
    while col < row.lanes.len()
        invariant
            col <= row.lanes@.len(),
            span_colors_ok(row.horizontal_spans@),
            spans_view(out@) == prefix_spans(*row, col as int),
        decreases row.lanes@.len() - col,
    {
        let seg = row.lanes[col];
        let color = match seg {
            LaneSegment::Commit => if row.is_pushed {
                Color::Green
            } else {
                Color::Red
            },
            LaneSegment::Horizontal | LaneSegment::CrossHorizontal | LaneSegment::RightTee | LaneSegment::LeftTee => {
                let k = find_span_exec(&row.horizontal_spans, col, true);
                if k < row.horizontal_spans.len() {
                    palette_color(row.horizontal_spans[k].2)
                } else {
                    palette_color(lane_color(col))
                }
            },
            _ => palette_color(lane_color(col)),
        };
        let g = vec![glyph_char(seg)];
        assert(g@ =~= seq![glyph(row.lanes@[col as int])]);
        let first = span(chars_to_string(g.as_slice()), fg_style(color));
        let k = find_span_exec(&row.horizontal_spans, col, false);
        let second = if k < row.horizontal_spans.len() {
            let dash = vec!['\u{2500}'];
            assert(dash@ =~= seq!['\u{2500}']);
            span(chars_to_string(dash.as_slice()), fg_style(palette_color(row.horizontal_spans[k].2)))
        } else {
            let sp = vec![' '];
            assert(sp@ =~= seq![' ']);
            span(chars_to_string(sp.as_slice()), Style { fg: None, bg: None, bold: false, italic: false })
        };
        let ghost before = out@;
        let ghost cs = column_spans(*row, col as int);
        assert(span_view(first) == cs[0]);
        assert(span_view(second) == cs[1]);
        out.push(first);
        out.push(second);
        proof {
            assert(spans_view(out@) =~= spans_view(before) + cs);
        }
        col = col + 1;
    }
    out
}

/// `c` repeated `n` times.
pub open spec fn repeat_char(c: char, n: nat) -> Seq<char> {
    Seq::new(n, |i: int| c)
}

/// A label name shortened to `max_len` characters followed by `…` when
/// longer.
pub open spec fn label_text(name: Seq<char>, max_len: int) -> Seq<char> {
    if name.len() > max_len { name.take(max_len) + seq!['\u{2026}'] } else { name }
}

/// Marker and colour of a label: `* ` for HEAD (green), `⌂ ` for a branch
/// checked out in a worktree (magenta); tags are light yellow, remote
/// branches red and local branches cyan.
pub open spec fn label_kind(l: BranchLabel) -> (Seq<char>, Color) {
    if l.is_head {
        (seq!['*', ' '], Color::Green)
    } else if l.is_worktree {
        (seq!['\u{2302}', ' '], Color::Magenta)
    } else if l.is_tag {
        (Seq::empty(), Color::LightYellow)
    } else if l.is_remote {
        (Seq::empty(), Color::Red)
    } else {
        (Seq::empty(), Color::Cyan)
    }
}

/// Spans of label `i` (with the separator before it when not first).
pub open spec fn label_spans(labels: Seq<BranchLabel>, i: int, max_len: int) -> Seq<SpanView> {
    let (prefix, color) = label_kind(labels[i]);
    let sep = if i > 0 { seq![(seq![',', ' '], fg(Color::Yellow))] } else { Seq::empty() };
    let pre = if prefix.len() > 0 { seq![(prefix, fg(color))] } else { Seq::empty() };
    sep + pre + seq![(label_text(labels[i].name@, max_len), fg(color))]
}

/// Spans of the first `n` labels.
pub open spec fn labels_upto(labels: Seq<BranchLabel>, n: int, max_len: int) -> Seq<SpanView>
    decreases n,
{
    if n <= 0 {
        Seq::empty()
    } else {
        labels_upto(labels, n - 1, max_len) + label_spans(labels, n - 1, max_len)
    }
}

/// `(name, name) ` in yellow parentheses; nothing for no labels.
pub open spec fn branch_labels_spec(labels: Seq<BranchLabel>, max_len: int) -> Seq<SpanView> {
    if labels.len() == 0 {
        Seq::empty()
    } else {
        seq![(seq!['('], fg(Color::Yellow))] + labels_upto(labels, labels.len() as int, max_len) + seq![
            (seq![')', ' '], fg(Color::Yellow)),
        ]
    }
}

fn label_name_text(name: &String, max_len: usize) -> (r: String)
    ensures
        r@ == label_text(name@, max_len as int),
{
    let v = str_chars(name.as_str());
    if v.len() > max_len {
        let mut t = sub_chars(v.as_slice(), 0, max_len);
        t.push('\u{2026}');
        assert(t@ =~= v@.take(max_len as int) + seq!['\u{2026}']);
        chars_to_string(t.as_slice())
    } else {
        name.clone()
    }
}

/// Branch and tag labels of a commit.
pub fn render_branch_labels(labels: &Vec<BranchLabel>, max_len: usize) -> (r: Vec<StyledSpan>)
    ensures
        spans_view(r@) == branch_labels_spec(labels@, max_len as int),
{
    if labels.len() == 0 {
        let r: Vec<StyledSpan> = Vec::new();
        assert(spans_view(r@) =~= Seq::<SpanView>::empty());
        return r;
    }
    let mut out: Vec<StyledSpan> = Vec::new();
    let open_paren = vec!['('];
    assert(open_paren@ =~= seq!['(']);
    out.push(span(chars_to_string(open_paren.as_slice()), fg_style(Color::Yellow)));
    assert(spans_view(out@) =~= seq![(seq!['('], fg(Color::Yellow))] + labels_upto(labels@, 0, max_len as int));
    let mut i: usize = 0;
    while i < labels.len()
        invariant
            i <= labels@.len(),
            spans_view(out@) == seq![(seq!['('], fg(Color::Yellow))] + labels_upto(labels@, i as int, max_len as int),
        decreases labels@.len() - i,
    {
        let ghost before = out@;
        if i > 0 {
            let sep = vec![',', ' '];
            assert(sep@ =~= seq![',', ' ']);
            out.push(span(chars_to_string(sep.as_slice()), fg_style(Color::Yellow)));
        }
        let ghost after_sep = out@;
        let label = &labels[i];
        let (prefix, color): (Vec<char>, Color) = if label.is_head {
            (vec!['*', ' '], Color::Green)
        } else if label.is_worktree {
            (vec!['\u{2302}', ' '], Color::Magenta)
        } else if label.is_tag {
            (Vec::new(), Color::LightYellow)
        } else if label.is_remote {
            (Vec::new(), Color::Red)
        } else {
            (Vec::new(), Color::Cyan)
        };
        assert(prefix@ =~= label_kind(labels@[i as int]).0);
        if prefix.len() > 0 {
            out.push(span(chars_to_string(prefix.as_slice()), fg_style(color)));
        }
        let ghost after_pre = out@;
        let name = label_name_text(&label.name, max_len);
        out.push(span(name, fg_style(color)));
        proof {
            let sep_s: Seq<SpanView> = if i > 0 { seq![(seq![',', ' '], fg(Color::Yellow))] } else { Seq::empty() };
            let pre_s: Seq<SpanView> = if prefix@.len() > 0 { seq![(prefix@, fg(color))] } else { Seq::empty() };
            assert(spans_view(after_sep) =~= spans_view(before) + sep_s);
            assert(spans_view(after_pre) =~= spans_view(after_sep) + pre_s);
            assert(spans_view(out@) =~= spans_view(after_pre) + seq![(label_text(labels@[i as int].name@, max_len as int), fg(color))]);
            assert(label_spans(labels@, i as int, max_len as int) =~= sep_s + pre_s + seq![(label_text(labels@[i as int].name@, max_len as int), fg(color))]);
            assert(spans_view(out@) =~= seq![(seq!['('], fg(Color::Yellow))] + labels_upto(labels@, i + 1, max_len as int));
        }
        i = i + 1;
    }
    let ghost before_close = out@;
    let close = vec![')', ' '];
    assert(close@ =~= seq![')', ' ']);
    out.push(span(chars_to_string(close.as_slice()), fg_style(Color::Yellow)));
    assert(spans_view(out@) =~= spans_view(before_close) + seq![(seq![')', ' '], fg(Color::Yellow))]);
    out
}

// ---------------------------------------------------------------------------
// Relative times and author colours
// ---------------------------------------------------------------------------

/// `{n}{unit} ago` for the largest unit that fits: seconds, minutes, hours,
/// days, weeks, months of 30 days and years of 365 days. Times in the
/// future count as 0 seconds.
pub open spec fn relative_time_spec(now: int, t: int) -> Seq<char> {
    let d = if now - t > 0 { now - t } else { 0 };
    if d < 60 {
        decimal(d as nat) + "s ago"@
    } else if d < 3600 {
        decimal((d / 60) as nat) + "m ago"@
    } else if d < 86400 {
        decimal((d / 3600) as nat) + "h ago"@
    } else if d < 604_800 {
        decimal((d / 86400) as nat) + "d ago"@
    } else if d < 2_592_000 {
        decimal((d / 604_800) as nat) + "w ago"@
    } else if d < 31_536_000 {
        decimal((d / 2_592_000) as nat) + "mo ago"@
    } else {
        decimal((d / 31_536_000) as nat) + "y ago"@
    }
}

/// How long before `now` the time `epoch_secs` was (both in seconds since
/// the Unix epoch).
pub fn format_relative_time_at(now: i64, epoch_secs: i64) -> (r: String)
    ensures
        r@ == relative_time_spec(now as int, epoch_secs as int),
{
    let d: i128 = now as i128 - epoch_secs as i128;
    let delta: u64 = if d < 0 {
        0
    } else {
        d as u64
    };
    let mut s = String::new();
    if delta < 60 {
        push_decimal(&mut s, delta);
        push_str(&mut s, "s ago");
    } else if delta < 3600 {
        push_decimal(&mut s, delta / 60);
        push_str(&mut s, "m ago");
    } else if delta < 86400 {
        push_decimal(&mut s, delta / 3600);
        push_str(&mut s, "h ago");
    } else if delta < 604_800 {
        push_decimal(&mut s, delta / 86400);
        push_str(&mut s, "d ago");
    } else if delta < 2_592_000 {
        push_decimal(&mut s, delta / 604_800);
        push_str(&mut s, "w ago");
    } else if delta < 31_536_000 {
        push_decimal(&mut s, delta / 2_592_000);
        push_str(&mut s, "mo ago");
    } else {
        push_decimal(&mut s, delta / 31_536_000);
        push_str(&mut s, "y ago");
    }
    s
}

#[verifier::external_type_specification]
#[verifier::external_body]
pub struct ExSystemTime(std::time::SystemTime);

#[verifier::external_type_specification]
#[verifier::external_body]
pub struct ExSystemTimeError(std::time::SystemTimeError);

/// The system clock's current time.
///
/// Trusted: calls `std::time::SystemTime::now`; the result depends on the
/// clock, so nothing is claimed of it.
#[verifier::external_body]
fn system_now() -> (r: std::time::SystemTime) {
    std::time::SystemTime::now()
}

/// Time elapsed from the Unix epoch to `t`, or an error when `t` is earlier.
///
/// Trusted: calls `SystemTime::duration_since` with `UNIX_EPOCH`; nothing is
/// claimed of the result, which depends on the clock reading.
#[verifier::external_body]
fn time_since_epoch(t: &std::time::SystemTime) -> (r: Result<core::time::Duration, std::time::SystemTimeError>) {
    t.duration_since(std::time::UNIX_EPOCH)
}

/// Whole seconds of a duration.
///
/// Trusted: calls `Duration::as_secs`; `Duration` is opaque here, so nothing
/// is claimed of the result.
#[verifier::external_body]
fn whole_seconds(d: &core::time::Duration) -> (r: u64) {
    d.as_secs()
}

/// Seconds since the Unix epoch by the system clock; 0 for a clock set
/// before the epoch.
fn now_epoch_secs() -> (r: i64) {
    let t = system_now();
    match time_since_epoch(&t) {
        Ok(d) => {
            let secs = whole_seconds(&d);
            secs as i64
        },
        Err(_) => 0,
    }
}

/// How long ago `epoch_secs` was, by the system clock.
pub fn format_relative_time(epoch_secs: i64) -> (r: String)
    ensures
        exists|now: i64| r@ == relative_time_spec(now as int, epoch_secs as int),
{
    let now = now_epoch_secs();
    format_relative_time_at(now, epoch_secs)
}

/// FNV-1a hash of a byte string.
pub open spec fn fnv1a(b: Seq<u8>) -> u32
    decreases b.len(),
{
    if b.len() == 0 {
        2_166_136_261u32
    } else {
        (((fnv1a(b.drop_last()) ^ (b.last() as u32)) as int * 16_777_619) % 0x1_0000_0000) as u32
    }
}

/// Colours given to authors.
pub open spec fn author_palette(i: int) -> Color {
    if i == 0 {
        Color::LightBlue
    } else if i == 1 {
        Color::LightGreen
    } else if i == 2 {
        Color::LightCyan
    } else if i == 3 {
        Color::LightMagenta
    } else if i == 4 {
        Color::LightRed
    } else if i == 5 {
        Color::LightYellow
    } else if i == 6 {
        Color::Rgb(255, 165, 0)
    } else {
        Color::Rgb(180, 150, 255)
    }
}

/// A colour for an author, from the FNV-1a hash of the name's bytes.
pub fn author_color(name: &str) -> (r: Color)
    ensures
        r == author_palette((fnv1a(encode_utf8(name@)) % 8) as int),
{
    let b = name.as_bytes();
    let mut hash: u32 = 2_166_136_261;
    let mut i: usize = 0;
    while i < b.len()
        invariant
            i <= b@.len(),
            b@ == encode_utf8(name@),
            hash == fnv1a(b@.take(i as int)),
        decreases b@.len() - i,
    {
        let x = hash ^ (b[i] as u32);
        hash = x.wrapping_mul(16_777_619);
        proof {
            assert(b@.take(i + 1).drop_last() =~= b@.take(i as int));
            assert(b@.take(i + 1).last() == b@[i as int]);
        }
        i = i + 1;
    }
    assert(b@.take(b@.len() as int) =~= b@);
    let k = hash % 8;
    if k == 0 {
        Color::LightBlue
    } else if k == 1 {
        Color::LightGreen
    } else if k == 2 {
        Color::LightCyan
    } else if k == 3 {
        Color::LightMagenta
    } else if k == 4 {
        Color::LightRed
    } else if k == 5 {
        Color::LightYellow
    } else if k == 6 {
        Color::Rgb(255, 165, 0)
    } else {
        Color::Rgb(180, 150, 255)
    }
}

// ---------------------------------------------------------------------------
// Cutting lines to the screen
// ---------------------------------------------------------------------------

/// Columns a character takes on screen, as the unicode-width tables give
/// them; a line's width is the sum of its characters' widths.
pub uninterp spec fn char_columns(c: char) -> usize;

/// Screen columns of a character.
///
/// Trusted: calls ratatui's `Span::width` on the one-character string,
/// which is unicode-width's `UnicodeWidthStr::width`. The result is named by
/// `char_columns`, a function of the character alone; the one fact stated
/// besides is that printable ASCII characters take one column, as
/// unicode-width's `width_in_str` gives every character up to U+00A0 one
/// column.
#[verifier::external_body]
fn columns_of(c: char) -> (r: usize)
    ensures
        r == char_columns(c),
        (' ' <= c && c <= '~') ==> r == 1,
{
    ratatui::text::Span::raw(String::from(c)).width()
}

/// Columns of a text: the sum of its characters' columns.
pub open spec fn text_cols(t: Seq<char>) -> int
    decreases t.len(),
{
    if t.len() == 0 {
        0
    } else {
        text_cols(t.drop_last()) + char_columns(t.last())
    }
}

/// Total columns of the first `n` spans.
pub open spec fn width_upto(s: Seq<SpanView>, n: int) -> int
    decreases n,
{
    if n <= 0 {
        0
    } else {
        width_upto(s, n - 1) + text_cols(s[n - 1].0)
    }
}

/// Text of a line: its spans' texts one after the other.
pub open spec fn line_text(s: Seq<SpanView>) -> Seq<char>
    decreases s.len(),
{
    if s.len() == 0 {
        Seq::empty()
    } else {
        line_text(s.drop_last()) + s.last().0
    }
}

/// Columns of a whole line.
pub open spec fn line_cols(s: Seq<SpanView>) -> int {
    width_upto(s, s.len() as int)
}

/// First span, from `i` on, that crosses `max` columns.
pub open spec fn cut_index(s: Seq<SpanView>, max: int, i: int) -> int
    decreases s.len() - i,
{
    if i < 0 || i >= s.len() {
        s.len() as int
    } else if width_upto(s, i) + text_cols(s[i].0) > max {
        i
    } else {
        cut_index(s, max, i + 1)
    }
}

/// Number of leading characters of `c` (from `i` on) that fit in `k`
/// columns.
pub open spec fn fit_from(c: Seq<char>, k: int, i: int) -> int
    decreases c.len() - i,
{
    if i < 0 || i >= c.len() {
        c.len() as int
    } else if text_cols(c.take(i + 1)) > k {
        i
    } else {
        fit_from(c, k, i + 1)
    }
}

/// Text cut to `r` columns ending in `..`: the longest start of it that
/// fits in `r - 2` columns, then two dots (only dots when `r < 2`).
pub open spec fn ellipsize(c: Seq<char>, r: int) -> Seq<char> {
    if r >= 2 { c.take(fit_from(c, r - 2, 0)) + seq!['.', '.'] } else { repeat_char('.', r as nat) }
}

/// A line of spans cut to `max` columns: unchanged when it fits, else kept
/// up to the span that crosses the limit, which is shortened to end in
/// `..`; when that span would keep nothing, the span before it is shortened
/// instead.
pub open spec fn truncate_spec(s: Seq<SpanView>, max: int) -> Seq<SpanView> {
    if max <= 0 {
        Seq::empty()
    } else if width_upto(s, s.len() as int) <= max {
        s
    } else {
        let cut = cut_index(s, max, 0);
        let rem = max - width_upto(s, cut);
        if rem >= 1 {
            s.take(cut) + seq![(ellipsize(s[cut].0, rem), s[cut].1)]
        } else if cut == 0 {
            Seq::empty()
        } else {
            s.take(cut - 1) + seq![(ellipsize(s[cut - 1].0, text_cols(s[cut - 1].0)), s[cut - 1].1)]
        }
    }
}

/// Columns of a text are never negative.
pub proof fn lemma_text_cols_nonneg(t: Seq<char>)
    ensures
        text_cols(t) >= 0,
    decreases t.len(),
{
    if t.len() > 0 {
        lemma_text_cols_nonneg(t.drop_last());
    }
}

/// Columns of one character more.
pub proof fn lemma_text_cols_take(c: Seq<char>, i: int)
    requires
        0 <= i < c.len(),
    ensures
        text_cols(c.take(i + 1)) == text_cols(c.take(i)) + char_columns(c[i]),
{
    assert(c.take(i + 1).drop_last() =~= c.take(i));
}

/// Columns of two texts put together.
pub proof fn lemma_text_cols_append(a: Seq<char>, b: Seq<char>)
    ensures
        text_cols(a + b) == text_cols(a) + text_cols(b),
    decreases b.len(),
{
    if b.len() == 0 {
        assert(a + b =~= a);
    } else {
        assert((a + b).drop_last() =~= a + b.drop_last());
        assert((a + b).last() == b.last());
        lemma_text_cols_append(a, b.drop_last());
    }
}

/// A start of a text takes no more columns than the text.
pub proof fn lemma_text_cols_prefix(c: Seq<char>, j: int)
    requires
        0 <= j <= c.len(),
    ensures
        text_cols(c.take(j)) <= text_cols(c),
{
    assert(c =~= c.take(j) + c.skip(j));
    lemma_text_cols_append(c.take(j), c.skip(j));
    lemma_text_cols_nonneg(c.skip(j));
}

/// The characters kept by [`fit_from`] fit.
pub proof fn lemma_fit(c: Seq<char>, k: int, i: int)
    requires
        0 <= i <= c.len(),
        text_cols(c.take(i)) <= k,
    ensures
        i <= fit_from(c, k, i) <= c.len(),
        text_cols(c.take(fit_from(c, k, i))) <= k,
    decreases c.len() - i,
{
    if i < c.len() && text_cols(c.take(i + 1)) <= k {
        lemma_fit(c, k, i + 1);
    }
}

/// `n` dots take `n` columns when a dot takes one.
pub proof fn lemma_dots_cols(n: nat)
    requires
        char_columns('.') == 1,
    ensures
        text_cols(repeat_char('.', n)) == n,
    decreases n,
{
    if n > 0 {
        assert(repeat_char('.', n).drop_last() =~= repeat_char('.', (n - 1) as nat));
        lemma_dots_cols((n - 1) as nat);
    }
}

/// A shortened text takes at most `r` columns (`r >= 0`) when a dot takes
/// one.
pub proof fn lemma_ellipsize_cols(c: Seq<char>, r: int)
    requires
        char_columns('.') == 1,
        r >= 0,
    ensures
        text_cols(ellipsize(c, r)) <= r,
{
    if r >= 2 {
        assert(c.take(0) =~= Seq::<char>::empty());
        lemma_fit(c, r - 2, 0);
        let f = fit_from(c, r - 2, 0);
        lemma_text_cols_append(c.take(f), seq!['.', '.']);
        assert(seq!['.', '.'].drop_last() =~= seq!['.']);
        assert(seq!['.'].drop_last() =~= Seq::<char>::empty());
        assert(text_cols(Seq::<char>::empty()) == 0);
        assert(text_cols(seq!['.']) == 1);
        assert(text_cols(seq!['.', '.']) == 2);
        assert(ellipsize(c, r) == c.take(f) + seq!['.', '.']);
    } else {
        lemma_dots_cols(r as nat);
    }
}

proof fn lemma_width_monotone(s: Seq<SpanView>, a: int, b: int)
    requires
        0 <= a <= b <= s.len(),
    ensures
        width_upto(s, a) <= width_upto(s, b),
    decreases b - a,
{
    if a < b {
        lemma_width_monotone(s, a, b - 1);
        lemma_text_cols_nonneg(s[b - 1].0);
    }
}

pub proof fn lemma_cut_index(s: Seq<SpanView>, max: int, i: int)
    requires
        0 <= i <= s.len(),
        width_upto(s, i) <= max,
        width_upto(s, s.len() as int) > max,
    ensures
        i <= cut_index(s, max, i) < s.len(),
        width_upto(s, cut_index(s, max, i)) <= max,
        width_upto(s, cut_index(s, max, i)) + text_cols(s[cut_index(s, max, i)].0) > max,
    decreases s.len() - i,
{
    if i < s.len() && width_upto(s, i) + text_cols(s[i].0) <= max {
        lemma_cut_index(s, max, i + 1);
    }
}

fn span_len(sp: &StyledSpan) -> (r: usize)
    ensures
        r == sp.content@.len(),
{
    sp.content.as_str().unicode_len()
}

/// Columns of `c`, when they are at most `k`.
fn cols_within(c: &[char], k: usize) -> (r: Option<usize>)
    ensures
        match r {
            Some(n) => n == text_cols(c@) && n <= k,
            None => text_cols(c@) > k,
        },
{
    let mut acc: usize = 0;
    let mut i: usize = 0;
    assert(c@.take(0) =~= Seq::<char>::empty());
    while i < c.len()
        invariant
            i <= c@.len(),
            acc == text_cols(c@.take(i as int)),
            acc <= k,
        decreases c@.len() - i,
    {
        let w = columns_of(c[i]);
        proof {
            lemma_text_cols_take(c@, i as int);
        }
        if w > k - acc {
            proof {
                lemma_text_cols_prefix(c@, i + 1);
            }
            return None;
        }
        acc = acc + w;
        i = i + 1;
    }
    assert(c@.take(i as int) =~= c@);
    Some(acc)
}

/// Number of leading characters of `c` that fit in `k` columns.
fn fit_len(c: &[char], k: usize) -> (r: usize)
    ensures
        r == fit_from(c@, k as int, 0),
        r <= c@.len(),
{
    let mut acc: usize = 0;
    let mut i: usize = 0;
    assert(c@.take(0) =~= Seq::<char>::empty());
    while i < c.len()
        invariant
            i <= c@.len(),
            acc == text_cols(c@.take(i as int)),
            acc <= k,
            fit_from(c@, k as int, 0) == fit_from(c@, k as int, i as int),
        decreases c@.len() - i,
    {
        let w = columns_of(c[i]);
        proof {
            lemma_text_cols_take(c@, i as int);
        }
        if w > k - acc {
            return i;
        }
        acc = acc + w;
        i = i + 1;
    }
    i
}

fn ellipsize_exec(c: &String, r: usize) -> (out: String)
    ensures
        out@ == ellipsize(c@, r as int),
{
    let v = str_chars(c.as_str());
    let mut w: Vec<char> = Vec::new();
    if r >= 2 {
        let n = fit_len(v.as_slice(), r - 2);
        w = sub_chars(v.as_slice(), 0, n);
        w.push('.');
        w.push('.');
        assert(w@ =~= c@.take(n as int) + seq!['.', '.']);
    } else {
        let mut k: usize = 0;
        while k < r
            invariant
                k <= r,
                w@ == repeat_char('.', k as nat),
            decreases r - k,
        {
            w.push('.');
            k = k + 1;
            assert(w@ =~= repeat_char('.', k as nat));
        }
    }
    chars_to_string(w.as_slice())
}

/// Whether `c` is a printable ASCII character.
pub open spec fn printable_ascii(c: char) -> bool {
    ' ' <= c && c <= '~'
}

/// Every printable ASCII character of the line takes one column.
pub open spec fn ascii_widths_known(s: Seq<SpanView>) -> bool {
    forall|j: int, k: int|
        0 <= j < s.len() && 0 <= k < s[j].0.len() && printable_ascii(#[trigger] s[j].0[k]) ==> char_columns(s[j].0[k]) == 1
}

/// Every character of the line is printable ASCII.
pub open spec fn plain_ascii_line(s: Seq<SpanView>) -> bool {
    forall|j: int, k: int| 0 <= j < s.len() && 0 <= k < s[j].0.len() ==> printable_ascii(#[trigger] s[j].0[k])
}

/// Looks up the columns of the line's printable ASCII characters.
fn learn_ascii_widths(spans: &Vec<StyledSpan>)
    ensures
        ascii_widths_known(spans_view(spans@)),
{
    let ghost s = spans_view(spans@);
    let mut j: usize = 0;
    while j < spans.len()
        invariant
            s == spans_view(spans@),
            j <= spans@.len(),
            forall|j2: int, k: int|
                0 <= j2 < j && 0 <= k < s[j2].0.len() && printable_ascii(#[trigger] s[j2].0[k]) ==> char_columns(s[j2].0[k]) == 1,
        decreases spans@.len() - j,
    {
        let cs = str_chars(spans[j].content.as_str());
        let mut k: usize = 0;
        while k < cs.len()
            invariant
                s == spans_view(spans@),
                j < spans@.len(),
                cs@ == s[j as int].0,
                k <= cs@.len(),
                forall|j2: int, k2: int|
                    0 <= j2 < j && 0 <= k2 < s[j2].0.len() && printable_ascii(#[trigger] s[j2].0[k2]) ==> char_columns(s[j2].0[k2]) == 1,
                forall|k2: int| 0 <= k2 < k && printable_ascii(#[trigger] cs@[k2]) ==> char_columns(cs@[k2]) == 1,
            decreases cs@.len() - k,
        {
            let c = cs[k];
            if ' ' <= c && c <= '~' {
                let _w = columns_of(c);
            }
            k = k + 1;
        }
        j = j + 1;
    }
}

/// A text of one-column characters takes as many columns as it has
/// characters.
pub proof fn lemma_plain_text_cols(t: Seq<char>)
    requires
        forall|i: int| 0 <= i < t.len() ==> char_columns(#[trigger] t[i]) == 1,
    ensures
        text_cols(t) == t.len(),
    decreases t.len(),
{
    if t.len() > 0 {
        let d = t.drop_last();
        assert forall|i: int| 0 <= i < d.len() implies char_columns(#[trigger] d[i]) == 1 by {
            assert(d[i] == t[i]);
        }
        lemma_plain_text_cols(d);
    }
}

/// In a line of printable ASCII whose widths are known, every span takes as
/// many columns as it has characters.
pub proof fn lemma_plain_span_cols(s: Seq<SpanView>, j: int)
    requires
        ascii_widths_known(s),
        plain_ascii_line(s),
        0 <= j < s.len(),
    ensures
        text_cols(s[j].0) == s[j].0.len(),
{
    assert forall|i: int| 0 <= i < s[j].0.len() implies char_columns(#[trigger] s[j].0[i]) == 1 by {
        assert(printable_ascii(s[j].0[i]));
    }
    lemma_plain_text_cols(s[j].0);
}

/// Cuts a line of spans to `max_width` screen columns, ending it in `..`
/// when it had to be cut; the result never takes more than `max_width`
/// columns.
pub fn truncate_line(spans: &mut Vec<StyledSpan>, max_width: usize)
    ensures
        spans_view(final(spans)@) == truncate_spec(spans_view(old(spans)@), max_width as int),
        line_cols(spans_view(final(spans)@)) <= max_width,
        ascii_widths_known(spans_view(old(spans)@)),
{
    learn_ascii_widths(spans);
    let ghost s = spans_view(spans@);
    let dot = columns_of('.');
    proof {
        crate::laws::law_truncate_fits(s, max_width as int);
    }
    if max_width == 0 {
        *spans = Vec::new();
        assert(spans_view(spans@) =~= Seq::<SpanView>::empty());
        return;
    }
    // spans that fit whole
    let mut used: usize = 0;
    let mut i: usize = 0;
    let mut last_w: usize = 0;
    let mut crossed = false;
    while i < spans.len() && !crossed
        invariant
            s == spans_view(spans@),
            i <= spans@.len(),
            used == width_upto(s, i as int),
            used <= max_width,
            i > 0 ==> last_w == text_cols(s[i - 1].0),
            crossed ==> i < spans@.len() && width_upto(s, i as int) + text_cols(s[i as int].0) > max_width,
            forall|j: int| 0 <= j < i ==> width_upto(s, j) + text_cols(s[j].0) <= max_width,
        decreases spans@.len() - i, if crossed { 0int } else { 1int },
    {
        let cs = str_chars(spans[i].content.as_str());
        match cols_within(cs.as_slice(), max_width - used) {
            Some(w) => {
                used = used + w;
                last_w = w;
                i = i + 1;
            },
            None => {
                crossed = true;
            },
        }
    }
    if !crossed {
        return;
    }
    proof {
        lemma_width_monotone(s, i + 1, s.len() as int);
        lemma_text_cols_nonneg(s[i as int].0);
        lemma_cut_index_first(s, max_width as int, 0, i as int);
    }
    let cut = i;
    let remaining = max_width - used;
    spans.truncate(cut + 1);
    if remaining >= 1 {
        let last = spans.pop().unwrap();
        let content = ellipsize_exec(&last.content, remaining);
        spans.push(StyledSpan { content, style: last.style });
        assert(spans_view(spans@) =~= s.take(cut as int) + seq![(ellipsize(s[cut as int].0, remaining as int), s[cut as int].1)]);
    } else {
        spans.pop();
        if cut == 0 {
            assert(spans_view(spans@) =~= Seq::<SpanView>::empty());
        } else {
            let prev = spans.pop().unwrap();
            let content = ellipsize_exec(&prev.content, last_w);
            spans.push(StyledSpan { content, style: prev.style });
            assert(spans_view(spans@) =~= s.take(cut - 1) + seq![
                (ellipsize(s[cut - 1].0, text_cols(s[cut - 1].0)), s[cut - 1].1),
            ]);
        }
    }
}

proof fn lemma_cut_index_first(s: Seq<SpanView>, max: int, k: int, i: int)
    requires
        0 <= k <= i < s.len(),
        width_upto(s, i) + text_cols(s[i].0) > max,
        forall|j: int| 0 <= j < i ==> width_upto(s, j) + text_cols(s[j].0) <= max,
    ensures
        cut_index(s, max, k) == i,
    decreases i - k,
{
    if k < i {
        lemma_cut_index_first(s, max, k + 1, i);
    }
}

/// Number of leading spans that `off` characters cover entirely, and the
/// characters left to skip in the next span, from span `i` on.
pub open spec fn skip_spans(s: Seq<SpanView>, off: int, i: int) -> (int, int)
    decreases s.len() - i,
{
    if i < 0 || i >= s.len() || off < s[i].0.len() {
        (i, off)
    } else {
        skip_spans(s, off - s[i].0.len(), i + 1)
    }
}

/// A line scrolled `off` characters to the left and cut to `max` columns.
pub open spec fn h_scroll_spec(s: Seq<SpanView>, off: int, max: int) -> Seq<SpanView> {
    if off == 0 {
        truncate_spec(s, max)
    } else {
        let (first, left) = skip_spans(s, off, 0);
        let rest = s.skip(first);
        let shifted = if left > 0 && rest.len() > 0 { rest.update(0, (rest[0].0.skip(left), rest[0].1)) } else { rest };
        truncate_spec(shifted, max)
    }
}

proof fn lemma_skip_spans(s: Seq<SpanView>, off: int, i: int)
    requires
        0 <= i <= s.len(),
        off >= 0,
    ensures
        i <= skip_spans(s, off, i).0 <= s.len(),
        0 <= skip_spans(s, off, i).1 <= off,
        skip_spans(s, off, i).0 < s.len() ==> skip_spans(s, off, i).1 < s[skip_spans(s, off, i).0].0.len(),
    decreases s.len() - i,
{
    if i < s.len() && off >= s[i].0.len() {
        lemma_skip_spans(s, off - s[i].0.len(), i + 1);
    }
}

/// Scrolls a line `offset` characters to the left, then cuts it to
/// `max_width` screen columns.
pub fn h_scroll_line(spans: &mut Vec<StyledSpan>, offset: usize, max_width: usize)
    ensures
        spans_view(final(spans)@) == h_scroll_spec(spans_view(old(spans)@), offset as int, max_width as int),
        line_cols(spans_view(final(spans)@)) <= max_width,
        ascii_widths_known(spans_view(old(spans)@)),
{
    learn_ascii_widths(spans);
    if offset == 0 {
        truncate_line(spans, max_width);
        return;
    }
    let ghost s = spans_view(spans@);
    let mut to_skip = offset;
    let mut first_kept: usize = 0;
    while first_kept < spans.len() && to_skip >= span_len(&spans[first_kept])
        invariant
            s == spans_view(spans@),
            first_kept <= spans@.len(),
            skip_spans(s, offset as int, 0) == skip_spans(s, to_skip as int, first_kept as int),
        decreases spans@.len() - first_kept,
    {
        let w = span_len(&spans[first_kept]);
        to_skip = to_skip - w;
        first_kept = first_kept + 1;
    }
    assert(skip_spans(s, to_skip as int, first_kept as int) == (first_kept as int, to_skip as int));
    proof {
        lemma_skip_spans(s, to_skip as int, first_kept as int);
    }
    let mut rest: Vec<StyledSpan> = Vec::new();
    let mut k = first_kept;
    while k < spans.len()
        invariant
            s == spans_view(spans@),
            first_kept <= k <= spans@.len(),
            spans_view(rest@) == s.subrange(first_kept as int, k as int),
        decreases spans@.len() - k,
    {
        let sp = &spans[k];
        let copy = StyledSpan { content: sp.content.clone(), style: sp.style };
        assert(span_view(copy) == s[k as int]);
        let ghost before = rest@;
        rest.push(copy);
        assert(spans_view(rest@) =~= spans_view(before).push(s[k as int]));
        k = k + 1;
        assert(spans_view(rest@) =~= s.subrange(first_kept as int, k as int));
    }
    assert(s.subrange(first_kept as int, s.len() as int) =~= s.skip(first_kept as int));
    if to_skip > 0 && rest.len() > 0 {
        let ghost r0 = rest@;
        assert(spans_view(r0)[0] == s[first_kept as int]);
        let first = rest.remove(0);
        assert(span_view(first) == s[first_kept as int]);
        let v = str_chars(first.content.as_str());
        let n = v.len();
        let tail = if to_skip <= n {
            sub_chars(v.as_slice(), to_skip, n)
        } else {
            Vec::new()
        };
        assert(tail@ =~= first.content@.skip(to_skip as int));
        rest.insert(0, StyledSpan { content: chars_to_string(tail.as_slice()), style: first.style });
        assert(spans_view(rest@) =~= s.skip(first_kept as int).update(0, (s.skip(first_kept as int)[0].0.skip(to_skip as int), s.skip(first_kept as int)[0].1)));
    }
    truncate_line(&mut rest, max_width);
    *spans = rest;
}

/// Colour of an author's name.
pub open spec fn author_color_spec(name: Seq<char>) -> Color {
    author_palette((fnv1a(encode_utf8(name)) % 8) as int)
}

/// Spans with every style replaced by dark grey.
pub open spec fn grey_out(s: Seq<SpanView>) -> Seq<SpanView> {
    s.map_values(|v: SpanView| (v.0, fg(Color::DarkGray)))
}

/// Style of a collapsed-branch placeholder's text.
pub open spec fn placeholder_style() -> Style {
    Style { fg: Some(Color::Rgb(130, 130, 130)), bg: None, bold: false, italic: true }
}

/// Diff-stat spans: added lines in green, removed lines in red, each only
/// when not zero.
pub open spec fn stat_spans(row: GraphRow, dimmed: bool) -> Seq<SpanView> {
    match row.diff_stat {
        Some(st) => if dimmed {
            Seq::empty()
        } else {
            (if st.additions > 0 { seq![(" +"@ + decimal(st.additions as nat), fg(Color::Green))] } else { Seq::empty() })
                + (if st.deletions > 0 { seq![(" -"@ + decimal(st.deletions as nat), fg(Color::Red))] } else { Seq::empty() })
        },
        None => Seq::empty(),
    }
}

/// A full commit line: lane glyphs, then for a placeholder its italic grey
/// text, else the short id, labels, message, author, relative time and
/// diff stats. A dimmed line (not matching a search) is grey and has no
/// labels or stats.
pub open spec fn commit_row_spec(row: GraphRow, label_max_len: int, dimmed: bool, now: int) -> Seq<SpanView> {
    let prefix = prefix_spans(row, row.lanes@.len() as int);
    let collapsed = row.collapsed is Some;
    let lanes = if dimmed || collapsed { grey_out(prefix) } else { prefix };
    if collapsed {
        lanes.push((row.message@, placeholder_style()))
    } else {
        lanes + summary_spec(row, label_max_len, dimmed, now)
    }
}

/// The part of a commit line after the lane glyphs.
pub open spec fn summary_spec(row: GraphRow, label_max_len: int, dimmed: bool, now: int) -> Seq<SpanView> {
    let id_style = if dimmed {
        fg(Color::DarkGray)
    } else {
        Style { fg: Some(Color::Yellow), bg: None, bold: true, italic: false }
    };
    let msg_color = if dimmed {
        Color::DarkGray
    } else if row.is_merge {
        Color::Rgb(130, 130, 130)
    } else {
        Color::White
    };
    let author_col = if dimmed { Color::DarkGray } else { author_color_spec(row.author@) };
    seq![(row.short_id@ + seq![' '], id_style)] + (if dimmed {
        Seq::empty()
    } else {
        branch_labels_spec(row.labels@, label_max_len)
    }) + seq![
        (row.message@, fg(msg_color)),
        ("  \u{2014} "@ + row.author@, fg(author_col)),
        (seq![' '] + relative_time_spec(now, row.time as int), fg(Color::DarkGray)),
    ] + stat_spans(row, dimmed)
}

fn append_spans(out: &mut Vec<StyledSpan>, more: Vec<StyledSpan>)
    ensures
        spans_view(final(out)@) == spans_view(old(out)@) + spans_view(more@),
{
    let mut more = more;
    let ghost m = more@;
    out.append(&mut more);
    assert(spans_view(out@) =~= spans_view(old(out)@) + spans_view(m));
}

/// Lane glyphs, greyed out when asked.
fn lane_spans(row: &GraphRow, grey: bool) -> (r: Vec<StyledSpan>)
    requires
        span_colors_ok(row.horizontal_spans@),
    ensures
        spans_view(r@) == (if grey {
            grey_out(prefix_spans(*row, row.lanes@.len() as int))
        } else {
            prefix_spans(*row, row.lanes@.len() as int)
        }),
{
    let prefix = render_graph_prefix(row);
    if !grey {
        return prefix;
    }
    let mut spans: Vec<StyledSpan> = Vec::new();
    let mut i: usize = 0;
    while i < prefix.len()
        invariant
            i <= prefix@.len(),
            spans_view(spans@) == grey_out(spans_view(prefix@)).take(i as int),
        decreases prefix@.len() - i,
    {
        let ghost before = spans@;
        let copy = StyledSpan { content: prefix[i].content.clone(), style: fg_style(Color::DarkGray) };
        assert(span_view(copy) == grey_out(spans_view(prefix@))[i as int]);
        spans.push(copy);
        assert(spans_view(spans@) =~= spans_view(before).push(grey_out(spans_view(prefix@))[i as int]));
        i = i + 1;
    }
    assert(grey_out(spans_view(prefix@)).take(prefix@.len() as int) =~= grey_out(spans_view(prefix@)));
    spans
}

/// Message, author and time spans.
fn message_spans(row: &GraphRow, dimmed: bool, now: i64) -> (r: Vec<StyledSpan>)
    ensures
        spans_view(r@) == seq![
            (row.message@, fg(if dimmed {
                Color::DarkGray
            } else if row.is_merge {
                Color::Rgb(130, 130, 130)
            } else {
                Color::White
            })),
            ("  \u{2014} "@ + row.author@, fg(if dimmed { Color::DarkGray } else { author_color_spec(row.author@) })),
            (seq![' '] + relative_time_spec(now as int, row.time as int), fg(Color::DarkGray)),
        ],
{
    let msg_color = if dimmed {
        Color::DarkGray
    } else if row.is_merge {
        Color::Rgb(130, 130, 130)
    } else {
        Color::White
    };
    let m = StyledSpan { content: row.message.clone(), style: fg_style(msg_color) };
    let author_col = if dimmed {
        Color::DarkGray
    } else {
        author_color(row.author.as_str())
    };
    let mut author_text = owned("  \u{2014} ");
    push_str(&mut author_text, row.author.as_str());
    let a = StyledSpan { content: author_text, style: fg_style(author_col) };
    let mut time_text = owned(" ");
    proof {
        reveal_strlit(" ");
    }
    let rel = format_relative_time_at(now, row.time);
    push_str(&mut time_text, rel.as_str());
    let t = StyledSpan { content: time_text, style: fg_style(Color::DarkGray) };
    assert(span_view(m) == (row.message@, fg(msg_color)));
    assert(span_view(a) == ("  \u{2014} "@ + row.author@, fg(author_col)));
    assert(span_view(t) == (seq![' '] + relative_time_spec(now as int, row.time as int), fg(Color::DarkGray)));
    let r = vec![m, a, t];
    assert(spans_view(r@) =~= seq![span_view(r@[0]), span_view(r@[1]), span_view(r@[2])]);
    r
}

/// Diff-stat spans of a row.
fn diff_stat_spans(row: &GraphRow, dimmed: bool) -> (r: Vec<StyledSpan>)
    ensures
        spans_view(r@) == stat_spans(*row, dimmed),
{
    let mut spans: Vec<StyledSpan> = Vec::new();
    match &row.diff_stat {
        Some(stat) => {
            if !dimmed {
                if stat.additions > 0 {
                    let mut t = owned(" +");
                    push_decimal(&mut t, stat.additions as u64);
                    spans.push(StyledSpan { content: t, style: fg_style(Color::Green) });
                }
                let ghost after_add = spans_view(spans@);
                if stat.deletions > 0 {
                    let mut t = owned(" -");
                    push_decimal(&mut t, stat.deletions as u64);
                    spans.push(StyledSpan { content: t, style: fg_style(Color::Red) });
                }
            }
        },
        None => {},
    }
    assert(spans_view(spans@) =~= stat_spans(*row, dimmed));
    spans
}

/// The part of a commit line after the lane glyphs.
fn summary_spans(row: &GraphRow, label_max_len: usize, dimmed: bool, now: i64) -> (r: Vec<StyledSpan>)
    ensures
        spans_view(r@) == summary_spec(*row, label_max_len as int, dimmed, now as int),
{
    let id_style = if dimmed {
        fg_style(Color::DarkGray)
    } else {
        Style { fg: Some(Color::Yellow), bg: None, bold: true, italic: false }
    };
    let mut id_text = row.short_id.clone();
    push_char(&mut id_text, ' ');
    assert(id_text@ =~= row.short_id@ + seq![' ']);
    let mut spans: Vec<StyledSpan> = Vec::new();
    let ghost id_view = (id_text@, id_style);
    spans.push(StyledSpan { content: id_text, style: id_style });
    let ghost after_id = spans_view(spans@);
    assert(after_id =~= seq![id_view]);
    if !dimmed {
        let labels = render_branch_labels(&row.labels, label_max_len);
        append_spans(&mut spans, labels);
    }
    let ghost after_labels = spans_view(spans@);
    assert(after_labels =~= after_id + (if dimmed {
        Seq::<SpanView>::empty()
    } else {
        branch_labels_spec(row.labels@, label_max_len as int)
    }));
    let msgs = message_spans(row, dimmed, now);
    append_spans(&mut spans, msgs);
    let ghost after_msgs = spans_view(spans@);
    let stats = diff_stat_spans(row, dimmed);
    append_spans(&mut spans, stats);
    assert(spans_view(spans@) =~= summary_spec(*row, label_max_len as int, dimmed, now as int));
    spans
}

/// The line of a commit (or of a collapsed-branch placeholder), with times
/// relative to `now`.
pub fn render_commit_row_at(row: &GraphRow, label_max_len: usize, dimmed: bool, now: i64) -> (r: Vec<StyledSpan>)
    requires
        span_colors_ok(row.horizontal_spans@),
    ensures
        spans_view(r@) == commit_row_spec(*row, label_max_len as int, dimmed, now as int),
{
    let is_collapsed = row.collapsed.is_some();
    let mut spans = lane_spans(row, dimmed || is_collapsed);
    if is_collapsed {
        let p = StyledSpan {
            content: row.message.clone(),
            style: Style { fg: Some(Color::Rgb(130, 130, 130)), bg: None, bold: false, italic: true },
        };
        let ghost before = spans_view(spans@);
        spans.push(p);
        assert(spans_view(spans@) =~= before.push((row.message@, placeholder_style())));
        return spans;
    }
    let rest = summary_spans(row, label_max_len, dimmed, now);
    append_spans(&mut spans, rest);
    spans
}

/// The line of a commit, with times relative to the system clock.
pub fn render_commit_row(row: &GraphRow, label_max_len: usize, dimmed: bool) -> (r: Vec<StyledSpan>)
    requires
        span_colors_ok(row.horizontal_spans@),
    ensures
        exists|now: i64| spans_view(r@) == commit_row_spec(*row, label_max_len as int, dimmed, now as int),
{
    let now = now_epoch_secs();
    render_commit_row_at(row, label_max_len, dimmed, now)
}

/// Colour of a one-letter file status label.
pub open spec fn status_color_spec(label: Seq<char>) -> Color {
    if label == "M"@ {
        Color::Yellow
    } else if label == "A"@ {
        Color::Green
    } else if label == "D"@ {
        Color::Red
    } else if label == "R"@ {
        Color::Blue
    } else if label == "C"@ {
        Color::LightRed
    } else {
        Color::DarkGray
    }
}

/// Colour of a file status label.
pub fn status_color(label: &str) -> (r: Color)
    ensures
        r == status_color_spec(label@),
{
    if crate::text::str_eq(label, "M") {
        Color::Yellow
    } else if crate::text::str_eq(label, "A") {
        Color::Green
    } else if crate::text::str_eq(label, "D") {
        Color::Red
    } else if crate::text::str_eq(label, "R") {
        Color::Blue
    } else if crate::text::str_eq(label, "C") {
        Color::LightRed
    } else {
        Color::DarkGray
    }
}

/// Colour of a line of a diff: added and removed lines (not the file
/// headers) green and red, hunk headers cyan, `diff`/`index` lines dark.
pub open spec fn diff_line_color_spec(line: Seq<char>) -> Color {
    if crate::text::starts_with(line, "+"@) && !crate::text::starts_with(line, "+++"@) {
        Color::Green
    } else if crate::text::starts_with(line, "-"@) && !crate::text::starts_with(line, "---"@) {
        Color::Red
    } else if crate::text::starts_with(line, "@@"@) {
        Color::Cyan
    } else if crate::text::starts_with(line, "diff "@) || crate::text::starts_with(line, "index "@) {
        Color::DarkGray
    } else {
        Color::White
    }
}

/// Colour of a line of a diff.
pub fn diff_line_color(line: &str) -> (r: Color)
    ensures
        r == diff_line_color_spec(line@),
{
    let cs = str_chars(line);
    let starts = |p: &str| -> (b: bool)
        ensures
            b == crate::text::starts_with(line@, p@),
        {
            let pc = str_chars(p);
            crate::text::starts_with_chars(cs.as_slice(), pc.as_slice())
        };
    if starts("+") && !starts("+++") {
        Color::Green
    } else if starts("-") && !starts("---") {
        Color::Red
    } else if starts("@@") {
        Color::Cyan
    } else if starts("diff ") || starts("index ") {
        Color::DarkGray
    } else {
        Color::White
    }
}

} // verus!
