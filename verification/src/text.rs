//! Text layout: splitting a string into lines against a bounding size and
//! measuring the result.
//!
//! The layout walks the characters once, accumulating advance widths from the
//! font's metrics, and starts a new line at each newline or when the next
//! character would overflow the bound. Drawing the laid-out lines is the
//! drawing layer's job; everything here is measurement, verified against the
//! font descriptor's metric functions.

use crate::drawing::Size;
use crate::font::FontDescriptor;
use crate::font::FontFamily;
use crate::font::FontManager;
use vstd::prelude::*;

verus! {

/// How text behaves at the end of a line.
#[derive(Clone, Copy, Debug, PartialEq, Eq, Structural)]
pub enum LineBreakMode {
    CharWrapping,
    WordWrapping,
    TrancatingTail,
}

impl Default for LineBreakMode {
    /// Wrapping at any character is the default.
    fn default() -> (r: Self)
        ensures
            r == LineBreakMode::CharWrapping,
    {
        LineBreakMode::CharWrapping
    }
}

/// Horizontal placement of each line in its bounds.
#[derive(Clone, Copy, Debug, PartialEq, Eq, Structural)]
pub enum TextAlignment {
    Left,
    Center,
    Right,
    Leading,
    Trailing,
}

impl Default for TextAlignment {
    /// Leading-edge alignment is the default.
    fn default() -> (r: Self)
        ensures
            r == TextAlignment::Leading,
    {
        TextAlignment::Leading
    }
}

/// Vertical placement of the line block in its bounds.
#[derive(Clone, Copy, Debug, PartialEq, Eq, Structural)]
pub enum VerticalAlignment {
    Top,
    Bottom,
    Center,
}

impl Default for VerticalAlignment {
    /// Top alignment is the default.
    fn default() -> (r: Self)
        ensures
            r == VerticalAlignment::Top,
    {
        VerticalAlignment::Top
    }
}

/// One laid-out line: the character range it covers (end exclusive), its
/// advance width and its height.
#[derive(Clone, Copy, Debug, PartialEq, Eq, Structural)]
pub struct LineStatus {
    pub start_position: usize,
    pub end_position: usize,
    pub width: isize,
    pub height: isize,
}

impl LineStatus {
    fn empty() -> (r: Self)
        ensures
            r.start_position == 0,
            r.end_position == 0,
            r.width == 0,
            r.height == 0,
    {
        LineStatus { start_position: 0, end_position: 0, width: 0, height: 0 }
    }
}

/// The summed advance width of the characters of `s` in `[start, end)`.
pub open spec fn spec_width_sum(font: FontDescriptor, s: Seq<char>, start: int, end: int) -> int
    decreases end - start,
{
    if start >= end {
        0
    } else {
        spec_width_sum(font, s, start, end - 1) + font.spec_width_of(s[end - 1])
    }
}

proof fn lemma_width_sum_bounds(font: FontDescriptor, s: Seq<char>, start: int, end: int)
    requires
        font.wf(),
        0 <= start,
    ensures
        0 <= spec_width_sum(font, s, start, end) <= (if end - start >= 0 {
            (end - start) * 0x1000
        } else {
            0
        }),
    decreases end - start,
{
    if start < end {
        lemma_width_sum_bounds(font, s, start, end - 1);
        font.lemma_metric_bounds(s[end - 1]);
    }
}

/// What holds of every line the layout produces: a character range inside
/// the text, the font's line height, and a width that is exactly the summed
/// advance width of the covered characters.
pub open spec fn line_ok(font: FontDescriptor, s: Seq<char>, line: LineStatus) -> bool {
    &&& line.start_position <= line.end_position <= s.len()
    &&& line.height == font.spec_line_height()
    &&& line.width == spec_width_sum(font, s, line.start_position as int, line.end_position as int)
}

/// Line-measuring and line-breaking over plain strings.
pub struct TextProcessing {}

/// The layout state after some prefix of the text: the finished lines, the
/// line being filled, the stacked height including that line, and whether
/// the line or height cap has stopped the layout.
pub open spec fn spec_layout_start(font: FontDescriptor) -> (
    Seq<LineStatus>,
    LineStatus,
    int,
    bool,
) {
    (
        Seq::<LineStatus>::empty(),
        LineStatus {
            start_position: 0,
            end_position: 0,
            width: 0,
            height: font.spec_line_height(),
        },
        font.spec_line_height() as int,
        false,
    )
}

/// One character of the layout: a newline always ends the line; otherwise
/// the character joins the line unless its advance would push a non-empty
/// line past the width bound, which ends the line and starts a new one with
/// this character. Ending a line past the line cap or the height bound stops
/// the layout.
pub open spec fn spec_layout_step(
    font: FontDescriptor,
    size: Size,
    max_eff: int,
    s: Seq<char>,
    st: (Seq<LineStatus>, LineStatus, int, bool),
    index: int,
) -> (Seq<LineStatus>, LineStatus, int, bool) {
    if st.3 {
        st
    } else {
        let c = s[index];
        let lh = font.spec_line_height();
        if c == '\n' {
            let done = LineStatus { end_position: index as usize, ..st.1 };
            let lines2 = st.0.push(done);
            let h2 = st.2 + done.height;
            if lines2.len() >= max_eff || h2 >= size.height {
                (
                    lines2,
                    LineStatus {
                        start_position: index as usize,
                        end_position: 0,
                        width: 0,
                        height: lh,
                    },
                    h2,
                    true,
                )
            } else {
                (
                    lines2,
                    LineStatus {
                        start_position: (index + 1) as usize,
                        end_position: 0,
                        width: 0,
                        height: lh,
                    },
                    h2,
                    false,
                )
            }
        } else {
            let cw = font.spec_width_of(c);
            let nw = st.1.width + cw;
            if st.1.width > 0 && nw > size.width {
                let done = LineStatus { end_position: index as usize, ..st.1 };
                let lines2 = st.0.push(done);
                let h2 = st.2 + done.height;
                if lines2.len() >= max_eff || h2 >= size.height {
                    (
                        lines2,
                        LineStatus {
                            start_position: index as usize,
                            end_position: 0,
                            width: 0,
                            height: lh,
                        },
                        h2,
                        true,
                    )
                } else {
                    (
                        lines2,
                        LineStatus {
                            start_position: index as usize,
                            end_position: index as usize,
                            width: cw,
                            height: lh,
                        },
                        h2,
                        false,
                    )
                }
            } else {
                (
                    st.0,
                    LineStatus { end_position: index as usize, width: nw as isize, ..st.1 },
                    st.2,
                    st.3,
                )
            }
        }
    }
}

/// The layout state after the first `upto` characters.
pub open spec fn spec_layout(
    font: FontDescriptor,
    size: Size,
    max_eff: int,
    s: Seq<char>,
    upto: int,
) -> (Seq<LineStatus>, LineStatus, int, bool)
    decreases upto,
{
    if upto <= 0 {
        spec_layout_start(font)
    } else {
        spec_layout_step(font, size, max_eff, s, spec_layout(font, size, max_eff, s, upto - 1), upto - 1)
    }
}

/// Once the layout stops, later characters change nothing.
proof fn lemma_layout_stopped_absorbs(
    font: FontDescriptor,
    size: Size,
    max_eff: int,
    s: Seq<char>,
    from: int,
    upto: int,
)
    requires
        0 <= from <= upto,
        spec_layout(font, size, max_eff, s, from).3,
    ensures
        spec_layout(font, size, max_eff, s, upto) == spec_layout(font, size, max_eff, s, from),
    decreases upto - from,
{
    if from < upto {
        lemma_layout_stopped_absorbs(font, size, max_eff, s, from, upto - 1);
    }
}

/// The lines the layout produces for `s` against `size` and the line cap
/// (zero meaning no limit): the finished lines, plus the line in progress
/// when it holds at least one character of positive advance and the cap
/// leaves room.
pub open spec fn spec_line_statuses(
    font: FontDescriptor,
    s: Seq<char>,
    size: Size,
    max_lines: usize,
) -> Seq<LineStatus> {
    let max_eff: int = if max_lines == 0 {
        usize::MAX as int
    } else {
        max_lines as int
    };
    let fin = spec_layout(font, size, max_eff, s, s.len() as int);
    if fin.0.len() < max_eff && fin.1.width > 0 {
        fin.0.push(LineStatus { end_position: (fin.1.end_position + 1) as usize, ..fin.1 })
    } else {
        fin.0
    }
}

/// The widest advance among the lines; zero when there are none.
pub open spec fn spec_max_width(lines: Seq<LineStatus>) -> int
    decreases lines.len(),
{
    if lines.len() == 0 {
        0
    } else {
        let rest = spec_max_width(lines.drop_last());
        if lines.last().width > rest {
            lines.last().width as int
        } else {
            rest
        }
    }
}

/// Through the whole layout, the finished lines sit in text order — each
/// starting no earlier than the previous one ended, the first at position
/// zero — and the line being filled starts after the last finished line.
proof fn lemma_layout_ordered(
    font: FontDescriptor,
    size: Size,
    max_eff: int,
    s: Seq<char>,
    upto: int,
)
    requires
        0 <= upto <= s.len(),
        s.len() <= usize::MAX,
        max_eff >= 1,
    ensures
        ({
            let st = spec_layout(font, size, max_eff, s, upto);
            &&& st.1.start_position <= upto + 1
            &&& forall|k: int|
                0 <= k < st.0.len() - 1 ==> (#[trigger] st.0[k]).end_position
                    <= st.0[k + 1].start_position
            &&& st.0.len() > 0 ==> st.0[0].start_position == 0
            &&& st.0.len() > 0 ==> st.0.last().end_position <= st.1.start_position
            &&& (st.0.len() == 0 && !st.3 ==> st.1.start_position == 0)
            &&& (!st.3 ==> st.1.start_position <= upto)
            &&& (st.3 ==> st.0.len() > 0)
        }),
    decreases upto,
{
    if upto > 0 {
        lemma_layout_ordered(font, size, max_eff, s, upto - 1);
        let prev = spec_layout(font, size, max_eff, s, upto - 1);
        let st = spec_layout(font, size, max_eff, s, upto);
        if !prev.3 {
            let index = upto - 1;
            let c = s[index];
            let cw = font.spec_width_of(c);
            let nw = prev.1.width + cw;
            let pushes = c == '\n' || (prev.1.width > 0 && nw > size.width);
            if pushes {
                let done = LineStatus { end_position: index as usize, ..prev.1 };
                assert(st.0 == prev.0.push(done));
                assert(st.0.last() == done);
                assert(st.1.start_position >= index as usize);
                assert(done.end_position == index as usize);
                assert forall|k: int|
                    0 <= k < st.0.len() - 1 implies (#[trigger] st.0[k]).end_position
                    <= st.0[k + 1].start_position by {
                    if k < prev.0.len() - 1 {
                        assert(st.0[k] == prev.0[k]);
                        assert(st.0[k + 1] == prev.0[k + 1]);
                    } else {
                        assert(st.0[k] == prev.0.last());
                        assert(st.0[k + 1] == done);
                        assert(prev.0.last().end_position <= prev.1.start_position);
                        assert(done.start_position == prev.1.start_position);
                    }
                }
                assert(st.0[0].start_position == 0) by {
                    if prev.0.len() == 0 {
                        assert(st.0[0] == done);
                        assert(prev.1.start_position == 0);
                    } else {
                        assert(st.0[0] == prev.0[0]);
                    }
                }
            } else {
                assert(st.0 == prev.0);
                assert(st.1.start_position == prev.1.start_position);
            }
        }
    }
}

/// Lines fit the box: under positive advance widths, every line of
/// `spec_line_statuses` holding two or more characters has width at most
/// `size.width`; only a line of a single over-wide character can exceed it.
pub proof fn lemma_lines_fit_the_width(
    font: FontDescriptor,
    s: Seq<char>,
    size: Size,
    max_lines: usize,
    k: int,
)
    requires
        font.wf(),
        (s.len() + 2) * 0x1000 <= isize::MAX,
        s.len() <= usize::MAX,
        forall|c: char| #[trigger] font.spec_width_of(c) >= 1,
        0 <= k < spec_line_statuses(font, s, size, max_lines).len(),
        spec_line_statuses(font, s, size, max_lines)[k].start_position + 2
            <= spec_line_statuses(font, s, size, max_lines)[k].end_position,
    ensures
        spec_line_statuses(font, s, size, max_lines)[k].width <= size.width,
{
    let max_eff: int = if max_lines == 0 {
        usize::MAX as int
    } else {
        max_lines as int
    };
    lemma_layout_fits(font, size, max_eff, s, s.len() as int);
    lemma_layout_ordered(font, size, max_eff, s, s.len() as int);
    let fin = spec_layout(font, size, max_eff, s, s.len() as int);
    let lines = spec_line_statuses(font, s, size, max_lines);
    if k < fin.0.len() {
        assert(lines[k] == fin.0[k]);
    } else {
        // The trailing line in progress: it was pushed, so it holds at least
        // one positive-width character; two or more bring it under the cap.
        assert(fin.0.len() < max_eff && fin.1.width > 0);
        assert(!fin.3);
        assert(lines[k] == LineStatus {
            end_position: (fin.1.end_position + 1) as usize,
            ..fin.1
        });
        assert(fin.1.end_position + 1 == s.len());
        assert(fin.1.start_position + 2 <= fin.1.end_position + 1 ==> fin.1.width <= size.width);
    }
}

/// Through the whole layout, under positive advance widths: the line being
/// filled is non-empty as soon as it covers a character, ends at the
/// character just consumed, and fits the width bound once it holds two or
/// more characters — a line only ever exceeds the bound by a single
/// over-wide character. The same holds of every finished line.
proof fn lemma_layout_fits(
    font: FontDescriptor,
    size: Size,
    max_eff: int,
    s: Seq<char>,
    upto: int,
)
    requires
        0 <= upto <= s.len(),
        font.wf(),
        (s.len() + 2) * 0x1000 <= isize::MAX,
        s.len() <= usize::MAX,
        max_eff >= 1,
        forall|c: char| #[trigger] font.spec_width_of(c) >= 1,
    ensures
        ({
            let st = spec_layout(font, size, max_eff, s, upto);
            &&& (st.3 ==> st.1.width == 0)
            &&& (!st.3 ==> 0 <= st.1.width <= upto * 0x1000)
            &&& (!st.3 && st.1.width > 0 ==> st.1.end_position + 1 == upto
                && st.1.start_position <= st.1.end_position)
            &&& (!st.3 && st.1.start_position < upto ==> st.1.width > 0)
            &&& (!st.3 && st.1.start_position + 2 <= upto ==> st.1.width <= size.width)
            &&& forall|k: int|
                0 <= k < st.0.len() && (#[trigger] st.0[k]).start_position + 2 <= st.0[
                    k
                ].end_position ==> st.0[k].width <= size.width
        }),
    decreases upto,
{
    if upto > 0 {
        lemma_layout_fits(font, size, max_eff, s, upto - 1);
        lemma_layout_ordered(font, size, max_eff, s, upto - 1);
        assert(upto * 0x1000 >= 0) by (nonlinear_arith)
            requires
                upto >= 0,
        ;
        assert((upto - 1) * 0x1000 + 0x1000 == upto * 0x1000) by (nonlinear_arith);
        assert(upto * 0x1000 <= s.len() * 0x1000 + 0x2000) by (nonlinear_arith)
            requires
                upto <= s.len(),
        ;
        assert((s.len() + 2) * 0x1000 == s.len() * 0x1000 + 0x2000) by (nonlinear_arith);
        assert((upto - 1) * 0x1000 >= 0) by (nonlinear_arith)
            requires
                upto >= 1,
        ;
        let prev = spec_layout(font, size, max_eff, s, upto - 1);
        let st = spec_layout(font, size, max_eff, s, upto);
        if !prev.3 {
            let index = upto - 1;
            let c = s[index];
            let cw = font.spec_width_of(c);
            font.lemma_metric_bounds(c);
            let nw = prev.1.width + cw;
            let pushes = c == '\n' || (prev.1.width > 0 && nw > size.width);
            if !pushes && c != '\n' {
                assert(0 <= nw && nw <= upto * 0x1000);
                assert(nw as isize == nw);
            }
            if pushes {
                let done = LineStatus { end_position: index as usize, ..prev.1 };
                assert(st.0 == prev.0.push(done));
                assert forall|k: int|
                    0 <= k < st.0.len() && (#[trigger] st.0[k]).start_position + 2 <= st.0[
                    k
                ].end_position implies st.0[k].width <= size.width by {
                    if k < prev.0.len() {
                        assert(st.0[k] == prev.0[k]);
                    } else {
                        assert(st.0[k] == done);
                        // The finished line's end is the index just consumed,
                        // so two or more characters mean the width-cap
                        // implication of the line in progress applies.
                        assert(done.start_position + 2 <= index + 1 ==> done.width <= size.width);
                    }
                }
            }
        }
    }
}

impl TextProcessing {


    /// Split `s` into lines no wider than `size.width` and no taller
    /// together than `size.height`, stopping after `max_lines` lines (zero
    /// meaning no limit). A newline always ends a line; otherwise a line
    /// breaks before the character that would overflow the width. Every
    /// returned line covers a range of `s`, carries the font's line height,
    /// and its width is exactly the summed advance width of its characters.
    /// Split `s` into lines no wider than `size.width` and no taller
    /// together than `size.height`, stopping after `max_lines` lines (zero
    /// meaning no limit). A newline always ends a line; otherwise a line
    /// breaks before the character that would overflow the width. The result
    /// is pinned exactly: it is `spec_line_statuses`, the functional
    /// rendering of this layout. Every line covers a range of `s` with the
    /// font's line height and the summed advance width of its characters,
    /// the lines sit in text order starting at position zero, and an empty
    /// text yields no lines. The length bound is the machine limit on the
    /// width and height accumulators.
    pub fn line_statuses(
        font: FontDescriptor,
        s: &str,
        size: Size,
        max_lines: usize,
        line_break: LineBreakMode,
    ) -> (lines: Vec<LineStatus>)
        requires
            font.wf(),
            (s@.len() + 2) * 0x1000 <= isize::MAX,
        ensures
            lines@ == spec_line_statuses(font, s@, size, max_lines),
            forall|k: int| 0 <= k < lines@.len() ==> line_ok(font, s@, #[trigger] lines@[k]),
            max_lines != 0 ==> lines@.len() <= max_lines,
            lines@.len() <= s@.len() + 1,
            s@.len() == 0 ==> lines@.len() == 0,
            lines@.len() > 0 ==> lines@[0].start_position == 0,
            forall|k: int|
                0 <= k < lines@.len() - 1 ==> (#[trigger] lines@[k]).end_position <= lines@[k
                    + 1].start_position,
    {
        let max_lines_eff: usize = if max_lines == 0 {
            usize::MAX
        } else {
            max_lines
        };
        let ghost meff: int = max_lines_eff as int;
        let _ = line_break;
        let mut vec: Vec<LineStatus> = Vec::new();
        let mut current = LineStatus::empty();
        current.height = font.line_height();
        let mut current_height = current.height;
        let n = s.unicode_len();
        let mut index: usize = 0;
        proof {
            font.lemma_metric_bounds(' ');
            assert(spec_layout(font, size, meff, s@, 0) == spec_layout_start(font));
        }
        while index < n
            invariant_except_break
                vec@.len() <= index,
                vec@.len() < max_lines_eff,
                1 <= current_height <= (index + 2) * 0x1000,
                !spec_layout(font, size, meff, s@, index as int).3,
                vec@ == spec_layout(font, size, meff, s@, index as int).0,
                current == spec_layout(font, size, meff, s@, index as int).1,
                current_height as int == spec_layout(font, size, meff, s@, index as int).2,
            invariant
                font.wf(),
                n == s@.len(),
                (n + 2) * 0x1000 <= isize::MAX,
                index <= n,
                max_lines_eff >= 1,
                meff == max_lines_eff as int,
                forall|k: int| 0 <= k < vec@.len() ==> line_ok(font, s@, #[trigger] vec@[k]),
                current.height == font.spec_line_height(),
                current.start_position <= index,
                current.width == spec_width_sum(
                    font,
                    s@,
                    current.start_position as int,
                    index as int,
                ),
                current.width >= 0,
                current.width > 0 ==> current.start_position <= current.end_position
                    && current.end_position + 1 == index,
            ensures
                n == s@.len(),
                vec@.len() <= max_lines_eff,
                vec@.len() <= n,
                forall|k: int| 0 <= k < vec@.len() ==> line_ok(font, s@, #[trigger] vec@[k]),
                current.height == font.spec_line_height(),
                current.width >= 0,
                current.width > 0 ==> current.start_position <= current.end_position
                    && current.end_position + 1 <= n && current.width == spec_width_sum(
                    font,
                    s@,
                    current.start_position as int,
                    current.end_position + 1,
                ),
                vec@ == spec_layout(font, size, meff, s@, n as int).0,
                current == spec_layout(font, size, meff, s@, n as int).1,
            decreases n - index,
        {
            let ghost pre_state = spec_layout(font, size, meff, s@, index as int);
            let c = s.get_char(index);
            proof {
                font.lemma_metric_bounds(c);
                lemma_width_sum_bounds(font, s@, current.start_position as int, index as int);
                assert(spec_layout(font, size, meff, s@, index + 1) == spec_layout_step(
                    font,
                    size,
                    meff,
                    s@,
                    pre_state,
                    index as int,
                ));
            }
            if c == '\n' {
                current.end_position = index;
                proof {
                    assert(spec_width_sum(
                        font,
                        s@,
                        current.start_position as int,
                        index as int,
                    ) == current.width);
                    assert(line_ok(
                        font,
                        s@,
                        (LineStatus {
                            end_position: index,
                            ..current
                        }),
                    ));
                }
                current_height = current_height + current.height;
                vec.push(current);
                current = LineStatus::empty();
                current.height = font.line_height();
                if vec.len() >= max_lines_eff || current_height >= size.height {
                    current.start_position = index;
                    proof {
                        assert(spec_layout(font, size, meff, s@, index + 1).3);
                        assert(vec@ == spec_layout(font, size, meff, s@, index + 1).0);
                        assert(current == spec_layout(font, size, meff, s@, index + 1).1);
                        lemma_layout_stopped_absorbs(font, size, meff, s@, index + 1, n as int);
                    }
                    break ;
                }
                current.start_position = index + 1;
            } else {
                let cw = font.width_of(c);
                let new_width = current.width + cw;
                if current.width > 0 && new_width > size.width {
                    current.end_position = index;
                    proof {
                        assert(line_ok(
                            font,
                            s@,
                            (LineStatus {
                                end_position: index,
                                ..current
                            }),
                        ));
                    }
                    current_height = current_height + current.height;
                    vec.push(current);
                    current = LineStatus::empty();
                    current.height = font.line_height();
                    if vec.len() >= max_lines_eff || current_height >= size.height {
                        current.start_position = index;
                        proof {
                            assert(spec_layout(font, size, meff, s@, index + 1).3);
                            assert(vec@ == spec_layout(font, size, meff, s@, index + 1).0);
                            assert(current == spec_layout(font, size, meff, s@, index + 1).1);
                            lemma_layout_stopped_absorbs(
                                font,
                                size,
                                meff,
                                s@,
                                index + 1,
                                n as int,
                            );
                        }
                        break ;
                    }
                    current.start_position = index;
                    current.width = cw;
                    current.end_position = index;
                } else {
                    current.width = new_width;
                    current.end_position = index;
                }
                proof {
                    assert(spec_width_sum(font, s@, current.start_position as int, index + 1)
                        == spec_width_sum(font, s@, current.start_position as int, index as int)
                        + font.spec_width_of(s@[index as int]));
                }
            }
            proof {
                assert(vec@ == spec_layout(font, size, meff, s@, index + 1).0);
                assert(current == spec_layout(font, size, meff, s@, index + 1).1);
                assert(current_height as int == spec_layout(font, size, meff, s@, index + 1).2);
                assert(!spec_layout(font, size, meff, s@, index + 1).3);
            }
            index = index + 1;
        }
        proof {
            lemma_layout_ordered(font, size, meff, s@, n as int);
        }
        let ghost fin = spec_layout(font, size, meff, s@, n as int);
        if vec.len() < max_lines_eff && current.width > 0 {
            current.end_position = current.end_position + 1;
            vec.push(current);
            proof {
                assert(vec@ == spec_line_statuses(font, s@, size, max_lines));
                assert(vec@.last().start_position == fin.1.start_position);
                if fin.0.len() > 0 {
                    assert(fin.0.last().end_position <= fin.1.start_position);
                }
                assert forall|k: int|
                    0 <= k < vec@.len() - 1 implies (#[trigger] vec@[k]).end_position <= vec@[k
                    + 1].start_position by {
                    if k < fin.0.len() - 1 {
                        assert(vec@[k] == fin.0[k]);
                        assert(vec@[k + 1] == fin.0[k + 1]);
                    } else {
                        assert(vec@[k] == fin.0.last());
                        assert(vec@[k + 1] == vec@.last());
                    }
                }
                if vec@.len() > 0 {
                    assert(vec@[0].start_position == 0) by {
                        if fin.0.len() == 0 {
                            assert(!fin.3);
                            assert(vec@[0].start_position == fin.1.start_position);
                        } else {
                            assert(vec@[0] == fin.0[0]);
                        }
                    }
                }
            }
        } else {
            proof {
                assert(vec@ == spec_line_statuses(font, s@, size, max_lines));
            }
        }
        proof {
            if n == 0 {
                assert(fin == spec_layout_start(font));
                assert(vec@.len() == 0);
            }
        }
        vec
    }

    /// The box the laid-out lines occupy, exactly: the widest line of
    /// `spec_line_statuses` by the line count times the font's line height.
    /// An empty text measures zero by zero.
    pub fn bounding_size(
        font: FontDescriptor,
        s: &str,
        size: Size,
        max_lines: usize,
        line_break: LineBreakMode,
    ) -> (r: Size)
        requires
            font.wf(),
            (s@.len() + 2) * 0x1000 <= isize::MAX,
        ensures
            r.width == spec_max_width(spec_line_statuses(font, s@, size, max_lines)),
            r.height == spec_line_statuses(font, s@, size, max_lines).len()
                * font.spec_line_height(),
            s@.len() == 0 ==> r.width == 0 && r.height == 0,
            r.width >= 0,
            r.height >= 0,
            r.height as int % (font.spec_line_height() as int) == 0,
    {
        let lines = Self::line_statuses(font, s, size, max_lines, line_break);
        let mut max_width: isize = 0;
        let mut total_height: isize = 0;
        let mut i: usize = 0;
        proof {
            font.lemma_metric_bounds(' ');
            assert(total_height == 0int * font.spec_line_height());
            assert(lines@.take(0) =~= Seq::<LineStatus>::empty());
        }
        while i < lines.len()
            invariant
                font.wf(),
                i <= lines@.len(),
                lines@.len() <= s@.len() + 1,
                (s@.len() + 2) * 0x1000 <= isize::MAX,
                forall|k: int| 0 <= k < lines@.len() ==> line_ok(font, s@, #[trigger] lines@[k]),
                max_width >= 0,
                max_width as int == spec_max_width(lines@.take(i as int)),
                total_height == i as int * font.spec_line_height(),
                0 <= total_height <= i as int * 0x1000,
            decreases lines@.len() - i,
        {
            proof {
                assert(line_ok(font, s@, lines@[i as int]));
                lemma_width_sum_bounds(
                    font,
                    s@,
                    lines@[i as int].start_position as int,
                    lines@[i as int].end_position as int,
                );
                font.lemma_metric_bounds(' ');
                assert((i + 1) as int * 0x1000 == i as int * 0x1000 + 0x1000) by (nonlinear_arith);
                assert((i + 1) as int * font.spec_line_height() == i as int
                    * font.spec_line_height() + font.spec_line_height()) by (nonlinear_arith);
                assert(lines@.take(i + 1).drop_last() =~= lines@.take(i as int));
                assert(lines@.take(i + 1).last() == lines@[i as int]);
            }
            let line = &lines[i];
            if line.width > max_width {
                max_width = line.width;
            }
            total_height = total_height + line.height;
            i = i + 1;
        }
        proof {
            assert(lines@.take(lines@.len() as int) =~= lines@);
            assert(total_height == lines@.len() as int * font.spec_line_height());
            assert((lines@.len() as int * font.spec_line_height()) % (
            font.spec_line_height() as int) == 0) by (nonlinear_arith)
                requires
                    font.spec_line_height() >= 1,
            ;
        }
        Size::new(max_width, total_height)
    }
}

/// A string with its layout attributes: the font, color, line breaking and
/// alignment the drawing layer will apply.
pub struct AttributedString<'a> {
    pub text: &'a str,
    pub font: FontDescriptor,
    pub color: crate::drawing::SomeColor,
    pub line_break_mode: LineBreakMode,
    pub align: TextAlignment,
    pub valign: VerticalAlignment,
}

impl<'a> AttributedString<'a> {
    /// Start building an attributed string from the manager's interface
    /// font.
    pub fn new(mgr: &FontManager) -> (r: AttributedStringBuilder)
        requires
            mgr.wf(),
            mgr.spec_has_family(FontFamily::FixedSystem),
        ensures
            r.font.wf(),
            FontDescriptor::spec_matches_driver(r.font, mgr.spec_ui_driver()->Some_0),
            r.align == TextAlignment::Leading,
            r.valign == VerticalAlignment::Center,
            r.line_break_mode == LineBreakMode::CharWrapping,
    {
        AttributedStringBuilder::new(mgr)
    }

    /// The text.
    pub fn text(&self) -> (r: &str)
        ensures
            r@ == self.text@,
    {
        self.text
    }

    /// The font the text is measured with.
    pub fn font(&self) -> (r: &FontDescriptor)
        ensures
            *r == self.font,
    {
        &self.font
    }

    /// The drawing color.
    pub fn color(&self) -> (r: crate::drawing::SomeColor)
        ensures
            r == self.color,
    {
        self.color
    }

    /// The line-breaking behavior.
    pub fn line_break_mode(&self) -> (r: LineBreakMode)
        ensures
            r == self.line_break_mode,
    {
        self.line_break_mode
    }

    /// The horizontal alignment.
    pub fn align(&self) -> (r: TextAlignment)
        ensures
            r == self.align,
    {
        self.align
    }

    /// The vertical alignment.
    pub fn valign(&self) -> (r: VerticalAlignment)
        ensures
            r == self.valign,
    {
        self.valign
    }

    /// The box the text occupies when laid out into `size`: exactly
    /// `TextProcessing::bounding_size` over this string's font, text and
    /// line-breaking mode.
    pub fn bounding_size(&self, size: Size, max_lines: usize) -> (r: Size)
        requires
            self.font.wf(),
            (self.text@.len() + 2) * 0x1000 <= isize::MAX,
        ensures
            r.width == spec_max_width(spec_line_statuses(self.font, self.text@, size, max_lines)),
            r.height == spec_line_statuses(self.font, self.text@, size, max_lines).len()
                * self.font.spec_line_height(),
            self.text@.len() == 0 ==> r.width == 0 && r.height == 0,
            r.width >= 0,
            r.height >= 0,
            r.height as int % (self.font.spec_line_height() as int) == 0,
    {
        TextProcessing::bounding_size(self.font, self.text, size, max_lines, self.line_break_mode)
    }
}

/// Builder for an attributed string: attributes first, text last.
pub struct AttributedStringBuilder {
    pub font: FontDescriptor,
    pub color: crate::drawing::SomeColor,
    pub line_break_mode: LineBreakMode,
    pub align: TextAlignment,
    pub valign: VerticalAlignment,
}

impl AttributedStringBuilder {
    /// Default attributes: the interface font, black, character wrapping,
    /// leading alignment, vertically centered.
    pub fn new(mgr: &FontManager) -> (r: Self)
        requires
            mgr.wf(),
            mgr.spec_has_family(FontFamily::FixedSystem),
        ensures
            r.font.wf(),
            FontDescriptor::spec_matches_driver(r.font, mgr.spec_ui_driver()->Some_0),
            r.align == TextAlignment::Leading,
            r.valign == VerticalAlignment::Center,
            r.line_break_mode == LineBreakMode::CharWrapping,
            r.color == crate::drawing::SomeColor(0xFF00_0000u32),
    {
        let font = match mgr.ui_font() {
            Some(f) => f,
            None => vstd::pervasive::unreached(),
        };
        AttributedStringBuilder {
            font,
            color: crate::drawing::SomeColor::black(),
            line_break_mode: LineBreakMode::CharWrapping,
            align: TextAlignment::Leading,
            valign: VerticalAlignment::Center,
        }
    }

    /// Attach the text, finishing the build.
    pub fn text<'a>(self, text: &'a str) -> (r: AttributedString<'a>)
        ensures
            r.text@ == text@,
            r.font == self.font,
            r.color == self.color,
            r.line_break_mode == self.line_break_mode,
            r.align == self.align,
            r.valign == self.valign,
    {
        AttributedString {
            text,
            font: self.font,
            color: self.color,
            line_break_mode: self.line_break_mode,
            align: self.align,
            valign: self.valign,
        }
    }

    /// Use this font.
    pub fn font(self, font: FontDescriptor) -> (r: Self)
        ensures
            r == (Self { font, ..self }),
    {
        Self { font, ..self }
    }

    /// Use this color.
    pub fn color(self, color: crate::drawing::SomeColor) -> (r: Self)
        ensures
            r == (Self { color, ..self }),
    {
        Self { color, ..self }
    }

    /// Use this line-breaking behavior.
    pub fn line_break_mode(self, line_break_mode: LineBreakMode) -> (r: Self)
        ensures
            r == (Self { line_break_mode, ..self }),
    {
        Self { line_break_mode, ..self }
    }

    /// Use this horizontal alignment.
    pub fn align(self, align: TextAlignment) -> (r: Self)
        ensures
            r == (Self { align, ..self }),
    {
        Self { align, ..self }
    }

    /// Center each line.
    pub fn center(self) -> (r: Self)
        ensures
            r == (Self { align: TextAlignment::Center, ..self }),
    {
        Self { align: TextAlignment::Center, ..self }
    }

    /// Align each line to the trailing edge.
    pub fn trailing(self) -> (r: Self)
        ensures
            r == (Self { align: TextAlignment::Trailing, ..self }),
    {
        Self { align: TextAlignment::Trailing, ..self }
    }

    /// Use this vertical alignment.
    pub fn valign(self, valign: VerticalAlignment) -> (r: Self)
        ensures
            r == (Self { valign, ..self }),
    {
        Self { valign, ..self }
    }

    /// Anchor at the top left.
    pub fn top_left(self) -> (r: Self)
        ensures
            r.valign == VerticalAlignment::Top,
            r.align == TextAlignment::Left,
            r == (Self { valign: VerticalAlignment::Top, align: TextAlignment::Left, ..self }),
    {
        Self { valign: VerticalAlignment::Top, align: TextAlignment::Left, ..self }
    }

    /// Anchor at the top center.
    pub fn top_center(self) -> (r: Self)
        ensures
            r == (Self { valign: VerticalAlignment::Top, align: TextAlignment::Center, ..self }),
    {
        Self { valign: VerticalAlignment::Top, align: TextAlignment::Center, ..self }
    }

    /// Anchor at the top right.
    pub fn top_right(self) -> (r: Self)
        ensures
            r == (Self { valign: VerticalAlignment::Top, align: TextAlignment::Right, ..self }),
    {
        Self { valign: VerticalAlignment::Top, align: TextAlignment::Right, ..self }
    }

    /// Anchor at the middle left.
    pub fn middle_left(self) -> (r: Self)
        ensures
            r == (Self { valign: VerticalAlignment::Center, align: TextAlignment::Left, ..self }),
    {
        Self { valign: VerticalAlignment::Center, align: TextAlignment::Left, ..self }
    }

    /// Anchor at the middle center.
    pub fn middle_center(self) -> (r: Self)
        ensures
            r == (Self { valign: VerticalAlignment::Center, align: TextAlignment::Center, ..self }),
    {
        Self { valign: VerticalAlignment::Center, align: TextAlignment::Center, ..self }
    }

    /// Anchor at the middle right.
    pub fn middle_right(self) -> (r: Self)
        ensures
            r == (Self { valign: VerticalAlignment::Center, align: TextAlignment::Right, ..self }),
    {
        Self { valign: VerticalAlignment::Center, align: TextAlignment::Right, ..self }
    }

    /// Anchor at the bottom left.
    pub fn bottom_left(self) -> (r: Self)
        ensures
            r == (Self { valign: VerticalAlignment::Bottom, align: TextAlignment::Left, ..self }),
    {
        Self { valign: VerticalAlignment::Bottom, align: TextAlignment::Left, ..self }
    }

    /// Anchor at the bottom center.
    pub fn bottom_center(self) -> (r: Self)
        ensures
            r == (Self { valign: VerticalAlignment::Bottom, align: TextAlignment::Center, ..self }),
    {
        Self { valign: VerticalAlignment::Bottom, align: TextAlignment::Center, ..self }
    }

    /// Anchor at the bottom right.
    pub fn bottom_right(self) -> (r: Self)
        ensures
            r == (Self { valign: VerticalAlignment::Bottom, align: TextAlignment::Right, ..self }),
    {
        Self { valign: VerticalAlignment::Bottom, align: TextAlignment::Right, ..self }
    }
}

} // verus!
