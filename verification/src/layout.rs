//! Where the texts of a widget stand. How high a line is and how wide a value
//! is, only the typeface knows; both are given.
use crate::screens::{arrow_tint, field_shows, field_text, toggle_state, Tint, Widget, WidgetView};
use crate::text::copy_text;
use crate::widgets::{Rect, UI_HEIGHT};
use vstd::prelude::*;

verus! {

/// A line of text on the screen. It starts at `x`, or ends there if it is
/// `right`-aligned; its top is at `y`.
#[derive(Debug, Clone, PartialEq, Eq)]
pub struct TextRun {
    pub text: String,
    pub x: i32,
    pub y: i32,
    pub px: u16,
    pub tint: Tint,
    pub right: bool,
}

/// What a [`TextRun`] holds.
#[verifier::ext_equal]
pub struct RunView {
    pub text: Seq<char>,
    pub x: int,
    pub y: int,
    pub px: u16,
    pub tint: Tint,
    pub right: bool,
}

impl View for TextRun {
    type V = RunView;

    open spec fn view(&self) -> RunView {
        RunView {
            text: self.text@,
            x: self.x as int,
            y: self.y as int,
            px: self.px,
            tint: self.tint,
            right: self.right,
        }
    }
}

/// The views of some lines.
pub open spec fn run_views(runs: Seq<TextRun>) -> Seq<RunView> {
    Seq::new(runs.len(), |i: int| runs[i]@)
}

/// Half of a difference, rounded towards zero.
pub open spec fn half(d: int) -> int {
    if d >= 0 {
        d / 2
    } else {
        -((-d) / 2)
    }
}

/// Where a line is in the middle of a row.
pub open spec fn centered(rect: Rect, line: int) -> int {
    rect.top() + half(rect.high() - line)
}

/// Where the texts at the right of a row end.
pub open spec fn right_end(rect: Rect) -> int {
    rect.left() + rect.wide() - 16
}

/// The label of a row.
pub open spec fn label_run(rect: Rect, label: Seq<char>, line: int) -> RunView {
    RunView {
        text: label,
        x: rect.left() + 16,
        y: centered(rect, line),
        px: 22,
        tint: Tint::Text,
        right: false,
    }
}

/// A text that ends at `x` in a row.
pub open spec fn right_run(
    rect: Rect,
    text: Seq<char>,
    x: int,
    px: u16,
    tint: Tint,
    line: int,
) -> RunView {
    RunView { text, x, y: centered(rect, line), px, tint, right: true }
}

/// The lines of a widget, of rows with lines `line` high and a value `width`
/// wide.
pub open spec fn runs_of(w: WidgetView, line: int, width: int) -> Seq<RunView> {
    match w {
        WidgetView::Label { text, x, y, px, tint } => seq![
            RunView { text, x: x as int, y: y as int, px, tint, right: false },
        ],
        WidgetView::HostRow { rect, label, details, .. } => seq![
            label_run(rect, label, line),
            right_run(rect, details, right_end(rect), 18, Tint::TextDim, line),
        ],
        WidgetView::Button { rect, label, .. } => seq![label_run(rect, label, line)],
        WidgetView::Toggle { rect, label, value, .. } => seq![
            label_run(rect, label, line),
            if value {
                right_run(rect, "on"@, right_end(rect), 22, Tint::Accent, line)
            } else {
                right_run(rect, "off"@, right_end(rect), 22, Tint::TextDim, line)
            },
        ],
        WidgetView::Choice { rect, label, value, focused } => {
            let arrows = if focused {
                Tint::OutlineFocus
            } else {
                Tint::TextDim
            };
            seq![
                label_run(rect, label, line),
                right_run(rect, ">"@, right_end(rect), 22, arrows, line),
                right_run(rect, value, right_end(rect) - 24, 22, Tint::Text, line),
                right_run(rect, "<"@, right_end(rect) - 32 - width, 22, arrows, line),
            ]
        },
        WidgetView::Field { rect, label, value, editing, .. } => seq![
            label_run(rect, label, line),
            right_run(
                rect,
                field_shows(value, editing),
                right_end(rect),
                22,
                if value.len() == 0 && !editing {
                    Tint::TextDim
                } else {
                    Tint::Text
                },
                line,
            ),
        ],
        WidgetView::Banner { text, foreground, .. } => seq![
            RunView { text, x: 16, y: 10, px: 18, tint: foreground, right: false },
        ],
        WidgetView::Hint { text } => seq![
            RunView {
                text,
                x: 24,
                y: UI_HEIGHT - 40,
                px: 16,
                tint: Tint::TextDim,
                right: false,
            },
        ],
    }
}

/// The number is a coordinate.
pub open spec fn is_coordinate(v: int) -> bool {
    i32::MIN <= v <= i32::MAX
}

/// The lines of a widget have coordinates.
pub open spec fn runs_fit(w: WidgetView, line: int, width: int) -> bool {
    forall|i: int|
        0 <= i < runs_of(w, line, width).len() ==> is_coordinate(
            (#[trigger] runs_of(w, line, width)[i]).x,
        ) && is_coordinate(runs_of(w, line, width)[i].y)
}

/// Where a line `line` high is in the middle of a row.
fn center(rect: &Rect, line: i32) -> (y: i64)
    ensures
        y == centered(*rect, line as int),
{
    let top: i64 = rect.y() as i64;
    let d: i64 = rect.height() as i64 - line as i64;
    if d >= 0 {
        top + d / 2
    } else {
        top - (-d) / 2
    }
}

/// Where the texts at the right of a row end.
fn right_of(rect: &Rect) -> (x: i32)
    ensures
        x == right_end(*rect),
        is_coordinate(x - 24),
{
    rect.x() + rect.width() as i32 - 16
}

fn row_fits(rect: &Rect, line: i32) -> (r: bool)
    ensures
        r == is_coordinate(centered(*rect, line as int)),
{
    let y: i64 = center(rect, line);
    i32::MIN as i64 <= y && y <= i32::MAX as i64
}

/// Whether the lines of a widget have coordinates.
pub fn can_place(widget: &Widget, line: i32, width: i32) -> (r: bool)
    ensures
        r == runs_fit(widget@, line as int, width as int),
{
    let ghost runs = runs_of(widget@, line as int, width as int);
    match widget {
        Widget::HostRow { rect, .. } | Widget::Button { rect, .. } | Widget::Toggle { rect, .. }
        | Widget::Field { rect, .. } => {
            let _x: i32 = rect.x();
            let _right: i32 = right_of(rect);
            let r = row_fits(rect, line);
            assert(runs[0].y == centered(*rect, line as int));
            r
        },
        Widget::Choice { rect, .. } => {
            let _x: i32 = rect.x();
            let left: i64 = right_of(rect) as i64 - 32 - width as i64;
            let r = row_fits(rect, line) && i32::MIN as i64 <= left && left <= i32::MAX as i64;
            assert(runs[0].y == centered(*rect, line as int));
            assert(runs[3].x == left);
            r
        },
        Widget::Label { .. } | Widget::Banner { .. } | Widget::Hint { .. } => true,
    }
}

fn push_label(out: &mut Vec<TextRun>, rect: &Rect, label: &str, line: i32)
    requires
        is_coordinate(centered(*rect, line as int)),
    ensures
        run_views(final(out)@) == run_views(old(out)@).push(label_run(*rect, label@, line as int)),
{
    out.push(
        TextRun {
            text: copy_text(label),
            x: rect.x() + 16,
            y: center(rect, line) as i32,
            px: 22,
            tint: Tint::Text,
            right: false,
        },
    );
    assert(run_views(out@) =~= run_views(old(out)@).push(label_run(*rect, label@, line as int)));
}

fn push_right(
    out: &mut Vec<TextRun>,
    rect: &Rect,
    text: &str,
    x: i32,
    px: u16,
    tint: Tint,
    line: i32,
)
    requires
        is_coordinate(centered(*rect, line as int)),
    ensures
        run_views(final(out)@) == run_views(old(out)@).push(
            right_run(*rect, text@, x as int, px, tint, line as int),
        ),
{
    out.push(TextRun { text: copy_text(text), x, y: center(rect, line) as i32, px, tint, right: true });
    assert(run_views(out@) =~= run_views(old(out)@).push(
        right_run(*rect, text@, x as int, px, tint, line as int),
    ));
}

fn push_plain(out: &mut Vec<TextRun>, text: &str, x: i32, y: i32, px: u16, tint: Tint)
    ensures
        run_views(final(out)@) == run_views(old(out)@).push(
            RunView { text: text@, x: x as int, y: y as int, px, tint, right: false },
        ),
{
    out.push(TextRun { text: copy_text(text), x, y, px, tint, right: false });
    assert(run_views(out@) =~= run_views(old(out)@).push(
        RunView { text: text@, x: x as int, y: y as int, px, tint, right: false },
    ));
}

/// The lines of a widget, in the order in which they are drawn. A line of a
/// row is `line` high, and the value of a choice is `width` wide.
pub fn text_runs(widget: &Widget, line: i32, width: i32) -> (out: Vec<TextRun>)
    requires
        runs_fit(widget@, line as int, width as int),
    ensures
        run_views(out@) == runs_of(widget@, line as int, width as int),
{
    let mut out: Vec<TextRun> = Vec::new();
    let ghost runs = runs_of(widget@, line as int, width as int);
    assert(is_coordinate(runs[0].y));
    match widget {
        Widget::Label { text, x, y, px, tint } => {
            push_plain(&mut out, text.as_str(), *x, *y, *px, *tint);
        },
        Widget::HostRow { rect, label, details, .. } => {
            push_label(&mut out, rect, label.as_str(), line);
            push_right(&mut out, rect, details.as_str(), right_of(rect), 18, Tint::TextDim, line);
        },
        Widget::Button { rect, label, .. } => {
            push_label(&mut out, rect, label.as_str(), line);
        },
        Widget::Toggle { rect, label, value, .. } => {
            let (state, tint) = toggle_state(*value);
            push_label(&mut out, rect, label.as_str(), line);
            push_right(&mut out, rect, state, right_of(rect), 22, tint, line);
        },
        Widget::Choice { rect, label, value, focused } => {
            let arrows = arrow_tint(*focused);
            let right: i32 = right_of(rect);
            let left: i64 = right as i64 - 32 - width as i64;
            assert(runs[3].x == left);
            push_label(&mut out, rect, label.as_str(), line);
            push_right(&mut out, rect, ">", right, 22, arrows, line);
            push_right(&mut out, rect, value.as_str(), right - 24, 22, Tint::Text, line);
            push_right(&mut out, rect, "<", left as i32, 22, arrows, line);
        },
        Widget::Field { rect, label, value, editing, .. } => {
            let (shown, tint) = field_text(value.as_str(), *editing);
            push_label(&mut out, rect, label.as_str(), line);
            push_right(&mut out, rect, shown.as_str(), right_of(rect), 22, tint, line);
        },
        Widget::Banner { text, foreground, .. } => {
            push_plain(&mut out, text.as_str(), 16, 10, 18, *foreground);
        },
        Widget::Hint { text } => {
            push_plain(&mut out, text.as_str(), 24, UI_HEIGHT as i32 - 40, 16, Tint::TextDim);
        },
    }
    assert(run_views(out@) =~= runs_of(widget@, line as int, width as int));
    out
}

/// The arrows of a choice stand on either side of its value: the left one
/// ends before the value begins, and the right one begins after it ends.
pub proof fn law_arrows_beside_value(
    rect: Rect,
    label: Seq<char>,
    value: Seq<char>,
    focused: bool,
    line: int,
    width: int,
)
    requires
        0 <= width,
    ensures
        ({
            let runs = runs_of(WidgetView::Choice { rect, label, value, focused }, line, width);
            &&& runs.len() == 4
            &&& runs[3].x < runs[2].x - width
            &&& runs[2].x < runs[1].x
        }),
{
}

} // verus!
