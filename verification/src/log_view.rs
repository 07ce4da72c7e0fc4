//! The log viewer: the bounded buffer of log lines its tailer fills, the
//! scrolling state of the overlay, which lines the overlay shows, and how a
//! line with ANSI color codes splits into colored spans.

use vstd::prelude::*;
use crate::text::{chars_of, decimal, decimal_spec, append_str, parse_u32, parse_u32_spec, string_from_chars, utf8};

verus! {

/// The most bytes of log text the buffer keeps.
pub const MAX_BUFFER_BYTES: usize = 10485760;

/// The color of a span: the default log color, or one of the ANSI
/// foreground codes 30..=37 and 90..=97.
#[derive(Debug, Clone, Copy, PartialEq, Eq, Structural)]
pub enum AnsiColor {
    Default,
    Code(u8),
}

/// A piece of a log line in one color.
pub struct AnsiSpan {
    pub text: String,
    pub color: AnsiColor,
}

/// Whether `v` is one of the foreground color codes the viewer shows.
pub open spec fn is_color_code(v: int) -> bool {
    (30 <= v <= 37) || (90 <= v <= 97)
}

/// The color an ANSI code selects: its own for the foreground codes the
/// viewer knows, else the default.
pub fn ansi_code_color(code: u8) -> (r: AnsiColor)
    ensures
        r == (if is_color_code(code as int) { AnsiColor::Code(code) } else { AnsiColor::Default }),
{
    if (30 <= code && code <= 37) || (90 <= code && code <= 97) {
        AnsiColor::Code(code)
    } else {
        AnsiColor::Default
    }
}

/// The color after one `;`-separated part of an escape sequence: a part
/// that reads as a `u8` resets to the default on 0 and selects a known
/// foreground code; anything else leaves the color as it was.
pub open spec fn code_effect(cur: AnsiColor, part: Seq<char>) -> AnsiColor {
    match parse_u32_spec(part) {
        Some(v) => if v < 256 {
            if v == 0 {
                AnsiColor::Default
            } else if is_color_code(v as int) {
                AnsiColor::Code(v as u8)
            } else {
                cur
            }
        } else {
            cur
        },
        None => cur,
    }
}

/// The color after the parts of `seq` (split at `;`), read left to right,
/// with `part` the part read so far.
pub open spec fn parts_color(seq: Seq<char>, cur: AnsiColor, part: Seq<char>) -> AnsiColor
    decreases seq.len(),
{
    if seq.len() == 0 {
        code_effect(cur, part)
    } else if seq[0] == ';' {
        parts_color(seq.skip(1), code_effect(cur, part), Seq::empty())
    } else {
        parts_color(seq.skip(1), cur, part.push(seq[0]))
    }
}

/// The color after an escape sequence with body `seq`: an empty body or
/// `0` resets, else each part applies in turn.
pub open spec fn seq_color(seq: Seq<char>, cur: AnsiColor) -> AnsiColor {
    if seq.len() == 0 || seq == seq!['0'] {
        AnsiColor::Default
    } else {
        parts_color(seq, cur, Seq::empty())
    }
}

/// Characters that continue an escape sequence's body.
pub open spec fn is_seq_char(c: char) -> bool {
    ('0' <= c && c <= '9') || c == ';'
}

/// How many leading characters of `s` continue an escape sequence's body.
pub open spec fn run_len(s: Seq<char>) -> nat
    decreases s.len(),
{
    if s.len() > 0 && is_seq_char(s[0]) {
        1 + run_len(s.skip(1))
    } else {
        0
    }
}

/// A span as text and color.
pub open spec fn span_of(text: Seq<char>, color: AnsiColor) -> (Seq<char>, AnsiColor) {
    (text, color)
}

/// `buf` as a span in `color` when it is not empty.
pub open spec fn flush(buf: Seq<char>, color: AnsiColor) -> Seq<(Seq<char>, AnsiColor)> {
    if buf.len() > 0 { seq![span_of(buf, color)] } else { Seq::empty() }
}

/// The spans of the rest `s` of a line, in color `color` with pending text
/// `buf`. `ESC [` opens an escape: its body is the run of digits and `;`
/// after it; an `m` after the body closes it, any other character after the
/// body is dropped and the escape is kept as text. The pending text is
/// emitted before the color changes. Any other character, an `ESC` not
/// followed by `[` included, is text.
pub open spec fn spans_from(s: Seq<char>, color: AnsiColor, buf: Seq<char>) -> Seq<(Seq<char>, AnsiColor)>
    decreases s.len(),
{
    if s.len() == 0 {
        flush(buf, color)
    } else if s[0] == '\x1b' && s.len() > 1 && s[1] == '[' {
        let body = s.skip(2);
        let j = run_len(body) as int;
        let seq = body.take(j);
        let closed = j < body.len() && body[j] == 'm';
        let used = if j < body.len() { 2 + j + 1 } else { 2 + j };
        let text = if closed { buf } else { buf + seq!['\x1b', '['] + seq };
        proof {
            lemma_run_len_bound(body);
        }
        flush(text, color) + spans_from(s.skip(used), seq_color(seq, color), Seq::empty())
    } else {
        spans_from(s.skip(1), color, buf.push(s[0]))
    }
}

/// The colored spans of a log line; a line with no text is one empty span
/// in the default color.
pub open spec fn ansi_spans(line: Seq<char>) -> Seq<(Seq<char>, AnsiColor)> {
    let r = spans_from(line, AnsiColor::Default, Seq::empty());
    if r.len() == 0 { seq![span_of(Seq::empty(), AnsiColor::Default)] } else { r }
}

/// The spans as text and color.
pub open spec fn spans_view(v: Seq<AnsiSpan>) -> Seq<(Seq<char>, AnsiColor)> {
    v.map_values(|s: AnsiSpan| span_of(s.text@, s.color))
}

/// The body run of `s` is within `s`, made of body characters, and ends
/// at a character that is not one.
pub proof fn lemma_run_len_bound(s: Seq<char>)
    ensures
        run_len(s) <= s.len(),
        forall|k: int| 0 <= k < run_len(s) ==> is_seq_char(#[trigger] s[k]),
        run_len(s) < s.len() ==> !is_seq_char(s[run_len(s) as int]),
    decreases s.len(),
{
    if s.len() > 0 && is_seq_char(s[0]) {
        lemma_run_len_bound(s.skip(1));
        assert forall|k: int| 0 <= k < run_len(s) implies is_seq_char(#[trigger] s[k]) by {
            if k > 0 {
                assert(s[k] == s.skip(1)[k - 1]);
            }
        }
        if run_len(s) < s.len() {
            assert(s[run_len(s) as int] == s.skip(1)[run_len(s.skip(1)) as int]);
        }
    }
}

proof fn lemma_run_len_step(s: Seq<char>, a: int, j: int)
    requires
        0 <= a <= j < s.len(),
        is_seq_char(s[j]),
        run_len(s.skip(a)) == (j - a) + run_len(s.skip(j)),
    ensures
        run_len(s.skip(a)) == (j + 1 - a) + run_len(s.skip(j + 1)),
{
    assert(s.skip(j).skip(1) =~= s.skip(j + 1));
    assert(s.skip(j)[0] == s[j]);
}

/// The color after an escape sequence with body `seq`.
fn seq_color_exec(seq: &[char], cur: AnsiColor) -> (r: AnsiColor)
    ensures
        r == seq_color(seq@, cur),
{
    if seq.len() == 0 || (seq.len() == 1 && seq[0] == '0') {
        proof {
            if seq@.len() == 1 {
                assert(seq@ =~= seq!['0']);
            }
        }
        return AnsiColor::Default;
    }
    assert(seq@ != seq!['0']) by {
        if seq@.len() == 1 {
            assert(seq@[0] == seq!['0'][0] ==> seq@ =~= seq!['0']);
        }
    }
    let mut color = cur;
    let mut part: Vec<char> = Vec::new();
    let mut i: usize = 0;
    assert(seq@.skip(0) =~= seq@);
    while i < seq.len()
        invariant
            i <= seq@.len(),
            parts_color(seq@, cur, Seq::empty()) == parts_color(seq@.skip(i as int), color, part@),
        decreases seq@.len() - i,
    {
        assert(seq@.skip(i as int).skip(1) =~= seq@.skip(i + 1));
        assert(seq@.skip(i as int)[0] == seq@[i as int]);
        if seq[i] == ';' {
            color = code_effect_exec(part.as_slice(), color);
            part = Vec::new();
            assert(part@ =~= Seq::<char>::empty());
        } else {
            part.push(seq[i]);
        }
        i = i + 1;
    }
    assert(seq@.skip(i as int).len() == 0);
    code_effect_exec(part.as_slice(), color)
}

fn code_effect_exec(part: &[char], cur: AnsiColor) -> (r: AnsiColor)
    ensures
        r == code_effect(cur, part@),
{
    match parse_u32(part) {
        Some(v) => {
            if v < 256 {
                if v == 0 {
                    AnsiColor::Default
                } else if (30 <= v && v <= 37) || (90 <= v && v <= 97) {
                    AnsiColor::Code(v as u8)
                } else {
                    cur
                }
            } else {
                cur
            }
        },
        None => cur,
    }
}

/// Appends `buf` as a span in `color` when it is not empty.
fn push_span(out: &mut Vec<AnsiSpan>, buf: &Vec<char>, color: AnsiColor)
    ensures
        spans_view(final(out)@) == spans_view(old(out)@) + flush(buf@, color),
{
    if buf.len() > 0 {
        out.push(AnsiSpan { text: string_from_chars(buf.as_slice()), color });
        assert(spans_view(final(out)@) =~= spans_view(old(out)@) + flush(buf@, color));
    } else {
        assert(spans_view(out@) =~= spans_view(old(out)@) + flush(buf@, color));
    }
}

/// Splits a log line into colored spans, reading its ANSI color escapes.
pub fn parse_ansi_line(line: &str) -> (r: Vec<AnsiSpan>)
    ensures
        spans_view(r@) == ansi_spans(line@),
{
    let v = chars_of(line);
    let n = v.len();
    let mut out: Vec<AnsiSpan> = Vec::new();
    let mut color = AnsiColor::Default;
    let mut buf: Vec<char> = Vec::new();
    let mut i: usize = 0;
    assert(v@.skip(0) =~= v@);
    assert(spans_view(out@) =~= Seq::<(Seq<char>, AnsiColor)>::empty());
    while i < n
        invariant
            n == v@.len(),
            i <= n,
            spans_view(out@) + spans_from(v@.skip(i as int), color, buf@)
                == spans_from(v@, AnsiColor::Default, Seq::empty()),
        decreases n - i,
    {
        let ghost s = v@.skip(i as int);
        assert(s[0] == v@[i as int]);
        if v[i] == '\x1b' && i + 1 < n && v[i + 1] == '[' {
            assert(s[1] == v@[i + 1]);
            let start = i + 2;
            let mut j = start;
            assert(v@.skip(start as int) =~= s.skip(2));
            while j < n && (('0' <= v[j] && v[j] <= '9') || v[j] == ';')
                invariant
                    n == v@.len(),
                    start <= j <= n,
                    run_len(v@.skip(start as int)) == (j - start) + run_len(v@.skip(j as int)),
                decreases n - j,
            {
                proof {
                    lemma_run_len_step(v@, start as int, j as int);
                }
                j = j + 1;
            }
            proof {
                assert(v@.skip(j as int).len() == 0 || !is_seq_char(v@.skip(j as int)[0]));
                if j < n {
                    assert(v@.skip(j as int)[0] == v@[j as int]);
                }
                assert(run_len(v@.skip(j as int)) == 0);
                lemma_run_len_bound(s.skip(2));
            }
            let ghost body = s.skip(2);
            let ghost k = run_len(body) as int;
            assert(k == j - start);
            let seq = crate::text::sub_chars(v.as_slice(), start, j);
            assert(seq@ =~= body.take(k));
            let closed = j < n && v[j] == 'm';
            if j < n {
                assert(body[k] == v@[j as int]);
            }
            let ghost buf0 = buf@;
            let ghost out0 = spans_view(out@);
            let ghost color0 = color;
            if !closed {
                buf.push('\x1b');
                buf.push('[');
                let mut t: usize = 0;
                let ghost b0 = buf@;
                while t < seq.len()
                    invariant
                        t <= seq@.len(),
                        buf@ == b0 + seq@.take(t as int),
                    decreases seq@.len() - t,
                {
                    buf.push(seq[t]);
                    t = t + 1;
                    assert(buf@ =~= b0 + seq@.take(t as int));
                }
                assert(seq@.take(seq@.len() as int) =~= seq@);
                assert(buf@ =~= buf0 + seq!['\x1b', '['] + seq@);
            }
            let ghost used: int = if k < body.len() { 2 + k + 1 } else { 2 + k };
            let next = if j < n { j + 1 } else { j };
            assert(next == i + used);
            assert(s.skip(used) =~= v@.skip(next as int));
            push_span(&mut out, &buf, color);
            color = seq_color_exec(seq.as_slice(), color);
            buf = Vec::new();
            proof {
                assert(buf@ =~= Seq::<char>::empty());
                let text = if closed { buf0 } else { buf0 + seq!['\x1b', '['] + seq@ };
                assert(spans_from(s, color0, buf0) == flush(text, color0) + spans_from(s.skip(used), color, Seq::empty()));
                assert(spans_view(out@) == out0 + flush(text, color0));
                assert(out0 + spans_from(s, color0, buf0) =~= spans_view(out@) + spans_from(v@.skip(next as int), color, buf@));
            }
            i = next;
        } else {
            buf.push(v[i]);
            assert(s.skip(1) =~= v@.skip(i + 1));
            i = i + 1;
        }
    }
    assert(v@.skip(i as int).len() == 0);
    push_span(&mut out, &buf, color);
    if out.len() == 0 {
        out.push(AnsiSpan { text: String::new(), color: AnsiColor::Default });
        assert(spans_view(out@) =~= seq![span_of(Seq::empty(), AnsiColor::Default)]);
    }
    out
}

} // verus!

verus! {

/// The UTF-8 byte count of a list of lines.
pub open spec fn bytes_of(lines: Seq<String>) -> nat
    decreases lines.len(),
{
    if lines.len() == 0 {
        0
    } else {
        utf8(lines[0]@).len() + bytes_of(lines.drop_first())
    }
}

/// `lines` with its oldest lines dropped until it fits the byte budget.
pub open spec fn evict(lines: Seq<String>) -> Seq<String>
    decreases lines.len(),
{
    if lines.len() > 0 && bytes_of(lines) > MAX_BUFFER_BYTES {
        evict(lines.drop_first())
    } else {
        lines
    }
}

proof fn lemma_bytes_push(s: Seq<String>, x: String)
    ensures
        bytes_of(s.push(x)) == bytes_of(s) + utf8(x@).len(),
    decreases s.len(),
{
    assert(s.push(x)[0] == if s.len() > 0 { s[0] } else { x });
    if s.len() > 0 {
        lemma_bytes_push(s.drop_first(), x);
        assert(s.push(x).drop_first() =~= s.drop_first().push(x));
        assert(bytes_of(s.push(x)) == utf8(s[0]@).len() + bytes_of(s.drop_first().push(x)));
        assert(bytes_of(s) == utf8(s[0]@).len() + bytes_of(s.drop_first()));
    } else {
        assert(s.push(x).drop_first() =~= Seq::<String>::empty());
        assert(bytes_of(s.push(x)) == utf8(x@).len() + bytes_of(Seq::<String>::empty()));
        assert(bytes_of(s) == 0);
    }
}

proof fn lemma_bytes_skip(s: Seq<String>, k: int)
    requires
        0 <= k <= s.len(),
    ensures
        bytes_of(s.skip(k)) <= bytes_of(s),
    decreases k,
{
    if k > 0 {
        lemma_bytes_skip(s, k - 1);
        assert(s.skip(k - 1).drop_first() =~= s.skip(k));
    } else {
        assert(s.skip(0) =~= s);
    }
}

/// The log lines the tailer collected, with their byte count and a version
/// that grows with each line.
pub struct SharedLog {
    pub lines: std::collections::VecDeque<String>,
    pub total_bytes: usize,
    pub version: u64,
}

impl SharedLog {
    /// The byte count is that of the lines, within the budget.
    pub open spec fn wf(&self) -> bool {
        &&& self.total_bytes == bytes_of(self.lines@)
        &&& self.total_bytes <= MAX_BUFFER_BYTES
    }

    /// An empty buffer.
    pub fn new() -> (r: Self)
        ensures
            r.wf(),
            r.lines@.len() == 0,
            r.version == 0,
    {
        SharedLog { lines: std::collections::VecDeque::new(), total_bytes: 0, version: 0 }
    }

    /// Appends a line, then drops the oldest lines until the buffer is
    /// within its byte budget again, and counts a new version.
    pub fn push_line(&mut self, line: String)
        requires
            old(self).wf(),
            utf8(line@).len() + MAX_BUFFER_BYTES <= usize::MAX,
            old(self).version < u64::MAX,
        ensures
            final(self).wf(),
            final(self).lines@ == evict(old(self).lines@.push(line)),
            final(self).version == old(self).version + 1,
    {
        let ghost all = self.lines@.push(line);
        let line_bytes = line.as_str().len();
        proof {
            lemma_bytes_push(self.lines@, line);
        }
        self.total_bytes = self.total_bytes + line_bytes;
        self.lines.push_back(line);
        assert(self.lines@ == all);
        while self.total_bytes > MAX_BUFFER_BYTES && self.lines.len() > 0
            invariant
                self.total_bytes == bytes_of(self.lines@),
                evict(all) == evict(self.lines@),
                self.version == old(self).version,
                old(self).version < u64::MAX,
            decreases self.lines@.len(),
        {
            let ghost before = self.lines@;
            let old_line = self.lines.pop_front().unwrap();
            assert(self.lines@ =~= before.drop_first());
            let n = old_line.as_str().len();
            self.total_bytes = self.total_bytes - n;
        }
        assert(evict(self.lines@) == self.lines@);
        self.version = self.version + 1;
    }
}

/// The log overlay's state: whether it shows, its copy of the lines, how
/// far it is scrolled up from the newest line, and whether it follows new
/// lines.
pub struct LogViewerState {
    pub visible: bool,
    pub lines: Vec<String>,
    pub dirty: bool,
    pub scroll_offset: usize,
    pub auto_scroll: bool,
    pub version: u64,
    pub last_synced_version: u64,
}

/// The scroll offset after scrolling by `delta` lines over `total` lines
/// (up is positive), then kept within the lines.
pub open spec fn scrolled_offset(offset: usize, delta: i32, total: nat) -> int {
    let moved: int = if delta > 0 {
        if offset + delta > usize::MAX { usize::MAX as int } else { offset + delta }
    } else if delta < 0 {
        if offset + delta < 0 { 0 } else { offset + delta }
    } else {
        offset as int
    };
    let max: int = if total == 0 { 0 } else { total - 1 };
    if moved > max { max } else { moved }
}

/// Whether the view follows new lines after scrolling by `delta`: scrolling
/// up stops it, scrolling down to the newest line starts it.
pub open spec fn scrolled_auto(offset: usize, delta: i32, auto: bool) -> bool {
    if delta > 0 {
        false
    } else if delta < 0 {
        if offset + delta <= 0 { true } else { auto }
    } else {
        auto
    }
}

/// The scroll position, follow flag and redraw flag after scrolling by
/// `delta` lines over `total` lines; unchanged while there are none.
pub open spec fn scroll_by(v: (usize, bool, bool), delta: i32, total: nat) -> (usize, bool, bool) {
    if total == 0 {
        v
    } else {
        (scrolled_offset(v.0, delta, total) as usize, scrolled_auto(v.0, delta, v.1), true)
    }
}

/// The scroll position, follow flag and redraw flag after the keys of one
/// frame over `total` lines: Page Up and Page Down move 20 lines, the arrows
/// 3, then Home goes to the oldest line and End to the newest.
pub open spec fn scroll_keys(
    v: (usize, bool, bool),
    total: nat,
    page_up: bool,
    page_down: bool,
    up: bool,
    down: bool,
    home: bool,
    end: bool,
) -> (usize, bool, bool) {
    let v1 = if page_up { scroll_by(v, 20, total) } else { v };
    let v2 = if page_down { scroll_by(v1, -20i32, total) } else { v1 };
    let v3 = if up { scroll_by(v2, 3, total) } else { v2 };
    let v4 = if down { scroll_by(v3, -3i32, total) } else { v3 };
    let v5 = if home { ((if total == 0 { 0 } else { total - 1 }) as usize, false, true) } else { v4 };
    if end { (0, true, true) } else { v5 }
}

impl LogViewerState {
    /// A hidden viewer with no lines that follows new ones.
    pub fn new() -> (r: Self)
        ensures
            !r.visible,
            r.lines@.len() == 0,
            r.dirty,
            r.scroll_offset == 0,
            r.auto_scroll,
            r.version == 0,
            r.last_synced_version == 0,
    {
        LogViewerState {
            visible: false,
            lines: Vec::new(),
            dirty: true,
            scroll_offset: 0,
            auto_scroll: true,
            version: 0,
            last_synced_version: 0,
        }
    }

    /// Shows or hides the overlay, back at the newest line; returns whether
    /// it now shows.
    pub fn toggle(&mut self) -> (shown: bool)
        ensures
            shown == !old(self).visible,
            final(self).visible == shown,
            final(self).dirty,
            final(self).scroll_offset == 0,
            final(self).auto_scroll,
            final(self).lines == old(self).lines,
            final(self).version == old(self).version,
            final(self).last_synced_version == old(self).last_synced_version,
    {
        self.visible = !self.visible;
        self.dirty = true;
        self.scroll_offset = 0;
        self.auto_scroll = true;
        self.visible
    }

    /// Follows the saved visibility, then, while shown, takes in the lines
    /// of a newer version of the buffer (back at the newest line when the
    /// view follows new lines).
    pub fn sync(&mut self, config_visible: bool, shared: &SharedLog)
        ensures
            final(self).visible == config_visible,
            final(self).auto_scroll == old(self).auto_scroll,
            (config_visible && shared.version != old(self).last_synced_version) ==> {
                &&& final(self).lines@ == shared.lines@
                &&& final(self).version == shared.version
                &&& final(self).last_synced_version == shared.version
                &&& final(self).scroll_offset == (if old(self).auto_scroll { 0 } else { old(self).scroll_offset })
                &&& final(self).dirty
            },
            !(config_visible && shared.version != old(self).last_synced_version) ==> {
                &&& final(self).lines == old(self).lines
                &&& final(self).version == old(self).version
                &&& final(self).last_synced_version == old(self).last_synced_version
                &&& final(self).scroll_offset == old(self).scroll_offset
                &&& final(self).dirty == (old(self).dirty || config_visible != old(self).visible)
            },
    {
        if config_visible != self.visible {
            self.visible = config_visible;
            self.dirty = true;
        }
        if !self.visible {
            return;
        }
        if shared.version == self.last_synced_version {
            return;
        }
        let mut lines: Vec<String> = Vec::new();
        let mut i: usize = 0;
        while i < shared.lines.len()
            invariant
                i <= shared.lines@.len(),
                lines@ == shared.lines@.take(i as int),
            decreases shared.lines@.len() - i,
        {
            lines.push(shared.lines[i].clone());
            i = i + 1;
            assert(lines@ =~= shared.lines@.take(i as int));
        }
        assert(shared.lines@.take(i as int) =~= shared.lines@);
        self.lines = lines;
        self.version = shared.version;
        self.last_synced_version = shared.version;
        if self.auto_scroll {
            self.scroll_offset = 0;
        }
        self.dirty = true;
    }

    /// Scrolls by `delta` lines (up is positive) within the lines; nothing
    /// happens while there are no lines.
    pub fn apply_scroll(&mut self, delta: i32)
        requires
            delta != i32::MIN,
        ensures
            final(self).visible == old(self).visible,
            final(self).lines == old(self).lines,
            final(self).version == old(self).version,
            final(self).last_synced_version == old(self).last_synced_version,
            old(self).lines@.len() == 0 ==> *final(self) == *old(self),
            old(self).lines@.len() > 0 ==> {
                &&& final(self).scroll_offset == scrolled_offset(old(self).scroll_offset, delta, old(self).lines@.len())
                &&& final(self).auto_scroll == scrolled_auto(old(self).scroll_offset, delta, old(self).auto_scroll)
                &&& final(self).dirty
            },
    {
        let total = self.lines.len();
        if total == 0 {
            return;
        }
        if delta > 0 {
            self.scroll_offset = self.scroll_offset.saturating_add(delta as usize);
            self.auto_scroll = false;
        } else if delta < 0 {
            self.scroll_offset = self.scroll_offset.saturating_sub((-delta) as usize);
            if self.scroll_offset == 0 {
                self.auto_scroll = true;
            }
        }
        let max_scroll = total - 1;
        if self.scroll_offset > max_scroll {
            self.scroll_offset = max_scroll;
        }
        self.dirty = true;
    }

    /// Jumps to the oldest line and stops following new ones.
    pub fn scroll_home(&mut self)
        ensures
            final(self).scroll_offset == (if old(self).lines@.len() == 0 { 0 } else { old(self).lines@.len() - 1 }),
            !final(self).auto_scroll,
            final(self).dirty,
            final(self).lines == old(self).lines,
            final(self).visible == old(self).visible,
            final(self).version == old(self).version,
            final(self).last_synced_version == old(self).last_synced_version,
    {
        self.scroll_offset = self.lines.len().saturating_sub(1);
        self.auto_scroll = false;
        self.dirty = true;
    }

    /// Jumps to the newest line and follows new ones.
    pub fn scroll_end(&mut self)
        ensures
            final(self).scroll_offset == 0,
            final(self).auto_scroll,
            final(self).dirty,
            final(self).lines == old(self).lines,
            final(self).visible == old(self).visible,
            final(self).version == old(self).version,
            final(self).last_synced_version == old(self).last_synced_version,
    {
        self.scroll_offset = 0;
        self.auto_scroll = true;
        self.dirty = true;
    }

    /// The keys of one frame, while the overlay shows: page up and down move
    /// 20 lines, the arrows 3, Home goes to the oldest line and End to the
    /// newest, in that order.
    pub fn handle_scroll_keys(&mut self, page_up: bool, page_down: bool, up: bool, down: bool, home: bool, end: bool)
        ensures
            !old(self).visible ==> *final(self) == *old(self),
            final(self).lines == old(self).lines,
            final(self).visible == old(self).visible,
            final(self).version == old(self).version,
            final(self).last_synced_version == old(self).last_synced_version,
            old(self).visible ==> (final(self).scroll_offset, final(self).auto_scroll, final(self).dirty)
                == scroll_keys(
                    (old(self).scroll_offset, old(self).auto_scroll, old(self).dirty),
                    old(self).lines@.len(),
                    page_up,
                    page_down,
                    up,
                    down,
                    home,
                    end,
                ),
            old(self).visible && end ==> final(self).scroll_offset == 0 && final(self).auto_scroll,
            old(self).visible && home && !end ==> final(self).scroll_offset == (if old(self).lines@.len() == 0 { 0 } else { old(self).lines@.len() - 1 }) && !final(self).auto_scroll,
            old(self).visible && (home || end) ==> final(self).dirty,
    {
        if !self.visible {
            return;
        }
        if page_up {
            self.apply_scroll(20);
        }
        if page_down {
            self.apply_scroll(-20);
        }
        if up {
            self.apply_scroll(3);
        }
        if down {
            self.apply_scroll(-3);
        }
        if home {
            self.scroll_home();
        }
        if end {
            self.scroll_end();
        }
    }

    /// Takes the redraw flag: returns whether the overlay must be drawn
    /// again and clears it.
    pub fn take_dirty(&mut self) -> (r: bool)
        ensures
            r == old(self).dirty,
            !final(self).dirty,
            final(self).visible == old(self).visible,
            final(self).lines == old(self).lines,
            final(self).scroll_offset == old(self).scroll_offset,
            final(self).auto_scroll == old(self).auto_scroll,
    {
        let r = self.dirty;
        self.dirty = false;
        r
    }
}

/// The window of lines the overlay shows: at most `visible` lines, ending
/// `scroll` lines before the newest, where `scroll` is the offset kept so
/// that a full page shows.
pub open spec fn log_window_spec(total: nat, offset: nat, visible: nat) -> (int, int, int) {
    let max: int = if total >= visible { total - visible } else { 0 };
    let scroll: int = if offset < max { offset as int } else { max };
    let end: int = total - scroll;
    let start: int = if end >= visible { end - visible } else { 0 };
    (start, end, scroll)
}

/// The lines `[start, end)` the overlay shows and how far up it is.
pub fn log_window(total: usize, offset: usize, visible: usize) -> (r: (usize, usize, usize))
    ensures
        (r.0 as int, r.1 as int, r.2 as int) == log_window_spec(total as nat, offset as nat, visible as nat),
        r.0 <= r.1 <= total,
{
    let max = total.saturating_sub(visible);
    let scroll = if offset < max { offset } else { max };
    let end = total - scroll;
    let start = end.saturating_sub(visible);
    (start, end, scroll)
}

/// The note in the overlay's header: how many lines are above, or how to
/// close it.
pub open spec fn scroll_info_spec(scroll: nat) -> Seq<char> {
    if scroll > 0 {
        "["@ + decimal_spec(scroll) + " lines above | scroll to see more]"@
    } else {
        "[F12 to close]"@
    }
}

/// The note in the overlay's header.
pub fn scroll_info(scroll: usize) -> (r: String)
    ensures
        r@ == scroll_info_spec(scroll as nat),
{
    if scroll > 0 {
        let mut s = "[".to_owned();
        let d = decimal(scroll as u64);
        append_str(&mut s, d.as_str());
        append_str(&mut s, " lines above | scroll to see more]");
        s
    } else {
        "[F12 to close]".to_owned()
    }
}

/// The spans of the lines `[start, end)`.
pub fn window_spans(lines: &Vec<String>, start: usize, end: usize) -> (r: Vec<Vec<AnsiSpan>>)
    requires
        start <= end <= lines@.len(),
    ensures
        r@.len() == end - start,
        forall|k: int| 0 <= k < r@.len() ==> spans_view(#[trigger] r@[k]@) == ansi_spans(lines@[start + k]@),
{
    let mut r: Vec<Vec<AnsiSpan>> = Vec::new();
    let mut i = start;
    while i < end
        invariant
            start <= i <= end <= lines@.len(),
            r@.len() == i - start,
            forall|k: int| 0 <= k < r@.len() ==> spans_view(#[trigger] r@[k]@) == ansi_spans(lines@[start + k]@),
        decreases end - i,
    {
        r.push(parse_ansi_line(lines[i].as_str()));
        i = i + 1;
    }
    r
}

/// The byte count of the lines, for the overlay's header.
pub fn lines_bytes(lines: &Vec<String>) -> (r: usize)
    requires
        bytes_of(lines@) <= usize::MAX,
    ensures
        r == bytes_of(lines@),
{
    let mut sum: usize = 0;
    let mut i: usize = lines.len();
    assert(lines@.skip(i as int) =~= Seq::<String>::empty());
    while i > 0
        invariant
            i <= lines@.len(),
            sum == bytes_of(lines@.skip(i as int)),
            bytes_of(lines@) <= usize::MAX,
        decreases i,
    {
        assert(lines@.skip(i - 1).drop_first() =~= lines@.skip(i as int));
        assert(lines@.skip(i - 1)[0] == lines@[i - 1]);
        let n = lines[i - 1].as_str().len();
        proof {
            lemma_bytes_skip(lines@, i - 1);
        }
        sum = sum + n;
        i = i - 1;
    }
    assert(lines@.skip(0) =~= lines@);
    sum
}

} // verus!

verus! {

proof fn lemma_evict_suffix(s: Seq<String>)
    ensures
        exists|k: int| 0 <= k <= s.len() && evict(s) == #[trigger] s.skip(k),
        bytes_of(evict(s)) <= MAX_BUFFER_BYTES || evict(s).len() == 0,
        s.len() > 0 && utf8(s.last()@).len() <= MAX_BUFFER_BYTES ==> evict(s).len() > 0,
    decreases s.len(),
{
    if s.len() > 0 && bytes_of(s) > MAX_BUFFER_BYTES {
        lemma_evict_suffix(s.drop_first());
        let k = choose|k: int| 0 <= k <= s.drop_first().len() && evict(s.drop_first()) == #[trigger] s.drop_first().skip(k);
        assert(s.drop_first().skip(k) =~= s.skip(k + 1));
        if s.len() == 1 {
            assert(s.drop_first() =~= Seq::<String>::empty());
            assert(bytes_of(s) == utf8(s[0]@).len() + bytes_of(s.drop_first()));
            assert(s.last() == s[0]);
        } else {
            assert(s.drop_first().last() == s.last());
        }
    } else {
        assert(s.skip(0) =~= s);
    }
}

/// The buffer keeps the line just pushed whenever that line alone fits the
/// byte budget, and what it keeps is the newest lines.
pub proof fn law_push_keeps_newest(lines: Seq<String>, line: String)
    requires
        utf8(line@).len() <= MAX_BUFFER_BYTES,
    ensures
        evict(lines.push(line)).len() > 0,
        evict(lines.push(line)).last() == line,
        exists|k: int| 0 <= k <= lines.len() + 1 && evict(lines.push(line)) == #[trigger] lines.push(line).skip(k),
{
    let all = lines.push(line);
    lemma_evict_suffix(all);
    let k = choose|k: int| 0 <= k <= all.len() && evict(all) == #[trigger] all.skip(k);
    assert(all.skip(k).last() == all.last());
}

/// Scrolling keeps the offset on a line: never past the oldest line.
pub proof fn law_scroll_in_range(offset: usize, delta: i32, total: nat)
    requires
        total > 0,
    ensures
        0 <= scrolled_offset(offset, delta, total) < total,
{
}

} // verus!

verus! {

proof fn lemma_plain_spans(s: Seq<char>, buf: Seq<char>)
    requires
        forall|k: int| 0 <= k < s.len() ==> s[k] != '\x1b',
    ensures
        spans_from(s, AnsiColor::Default, buf) == flush(buf + s, AnsiColor::Default),
    decreases s.len(),
{
    lemma_plain_spans_in(s, AnsiColor::Default, buf);
}

proof fn lemma_plain_spans_in(s: Seq<char>, color: AnsiColor, buf: Seq<char>)
    requires
        forall|k: int| 0 <= k < s.len() ==> s[k] != '\x1b',
    ensures
        spans_from(s, color, buf) == flush(buf + s, color),
    decreases s.len(),
{
    if s.len() == 0 {
        assert(buf + s =~= buf);
    } else {
        assert(s[0] != '\x1b');
        assert forall|k: int| 0 <= k < s.skip(1).len() implies s.skip(1)[k] != '\x1b' by {
            assert(s.skip(1)[k] == s[k + 1]);
        }
        lemma_plain_spans_in(s.skip(1), color, buf.push(s[0]));
        assert(buf.push(s[0]) + s.skip(1) =~= buf + s);
    }
}

/// The reset law: an escape sequence with an empty body or the body `0`
/// resets the color, whatever it was; so whatever color and pending text
/// came before, plain text after `ESC [ m` is one span in the default
/// color, after the pending text in the old color.
pub proof fn law_reset_escape(color: AnsiColor, buf: Seq<char>, t: Seq<char>)
    requires
        t.len() > 0,
        forall|k: int| 0 <= k < t.len() ==> t[k] != '\x1b',
    ensures
        seq_color(Seq::empty(), color) == AnsiColor::Default,
        seq_color(seq!['0'], color) == AnsiColor::Default,
        spans_from(seq!['\x1b', '[', 'm'] + t, color, buf)
            == flush(buf, color) + seq![span_of(t, AnsiColor::Default)],
{
    let s = seq!['\x1b', '[', 'm'] + t;
    let body = s.skip(2);
    assert(body[0] == 'm');
    assert(run_len(body) == 0);
    assert(body.take(0) =~= Seq::<char>::empty());
    assert(s.skip(3) =~= t);
    lemma_plain_spans_in(t, AnsiColor::Default, Seq::empty());
    assert(Seq::<char>::empty() + t =~= t);
}

/// A line without escape characters is one span of itself in the default
/// color.
pub proof fn law_plain_line_one_span(line: Seq<char>)
    requires
        forall|k: int| 0 <= k < line.len() ==> line[k] != '\x1b',
    ensures
        ansi_spans(line) == seq![span_of(line, AnsiColor::Default)],
{
    lemma_plain_spans(line, Seq::empty());
    assert(Seq::<char>::empty() + line =~= line);
    if line.len() == 0 {
        assert(line =~= Seq::<char>::empty());
    }
}

} // verus!

verus! {

/// `p` is the log file: `.nightingale/nightingale.log` under some home directory.
pub open spec fn log_file_spec(p: Seq<char>) -> bool {
    exists|h: Seq<char>| #[trigger] crate::ytdlp::joined2(h, ".nightingale"@, "nightingale.log"@, p)
}

/// The log file under the home directory `home`:
/// `.nightingale/nightingale.log`.
pub fn log_file_in(home: &str) -> (r: String)
    ensures
        crate::ytdlp::joined2(home@, ".nightingale"@, "nightingale.log"@, r@),
{
    let a = crate::ytdlp::join_path(home, ".nightingale");
    let d = crate::ytdlp::join_path(a.as_str(), "nightingale.log");
    proof {
        crate::ytdlp::lemma_plain_literals();
        assert(crate::ytdlp::joined_path(home@, ".nightingale"@, a@));
    }
    d
}

/// The log file the viewer follows: `.nightingale/nightingale.log` under
/// the home directory, if there is one.
pub fn log_file_path() -> (r: Option<String>)
    ensures
        r matches Some(d) ==> log_file_spec(d@),
{
    match crate::ytdlp::home_dir() {
        Some(home) => {
            let d = log_file_in(home.as_str());
            proof {
                assert(crate::ytdlp::joined2(home@, ".nightingale"@, "nightingale.log"@, d@));
            }
            Some(d)
        },
        None => None,
    }
}

/// Where the tailer reads from next, given the file's length and the
/// position it read up to: from the start when the file shrank (it was
/// truncated or rotated), from where it was otherwise; nothing when there is
/// nothing new.
pub open spec fn tail_from_spec(file_len: u64, pos: u64) -> Option<u64> {
    let p = if file_len < pos { 0 } else { pos };
    if file_len == p { None } else { Some(p) }
}

/// Where the tailer reads from next.
pub fn tail_from(file_len: u64, pos: u64) -> (r: Option<u64>)
    ensures
        r == tail_from_spec(file_len, pos),
{
    let p = if file_len < pos { 0 } else { pos };
    if file_len == p { None } else { Some(p) }
}

} // verus!
