//! Focus, geometry and navigation primitives of the launcher.
//!
//! Layout happens in a logical 1280x800 space. Layout functions return the
//! widget rectangles, so drawing and pointer hit-testing share one geometry.
use crate::text::same_text;
use vstd::prelude::*;

verus! {

/// Logical UI width all layout code targets.
pub const UI_WIDTH: u32 = 1280;

/// Logical UI height.
pub const UI_HEIGHT: u32 = 800;

/// The largest size and position of a [`Rect`].
pub const MAX_EXTENT: i32 = 1073741823;

/// The smallest position of a [`Rect`].
pub const MIN_POSITION: i32 = -1073741824;

/// A non-empty rectangle.
#[derive(Debug, Clone, Copy, PartialEq, Eq, Structural)]
pub struct Rect {
    x: i32,
    y: i32,
    width: u32,
    height: u32,
}

/// A position held within the allowed range.
pub open spec fn held_position(v: i32) -> i32 {
    if v > MAX_EXTENT {
        MAX_EXTENT
    } else if v < MIN_POSITION {
        MIN_POSITION
    } else {
        v
    }
}

/// A size held within the allowed range; an empty one becomes 1.
pub open spec fn held_size(v: u32) -> u32 {
    if v == 0 {
        1
    } else if v > MAX_EXTENT {
        MAX_EXTENT as u32
    } else {
        v
    }
}

fn hold_position(v: i32) -> (r: i32)
    ensures
        r == held_position(v),
{
    if v > MAX_EXTENT {
        MAX_EXTENT
    } else if v < MIN_POSITION {
        MIN_POSITION
    } else {
        v
    }
}

fn hold_size(v: u32) -> (r: u32)
    ensures
        r == held_size(v),
{
    if v == 0 {
        1
    } else if v > MAX_EXTENT as u32 {
        MAX_EXTENT as u32
    } else {
        v
    }
}

impl Rect {
    /// Positions and sizes are within the allowed range.
    #[verifier::type_invariant]
    spec fn in_range(self) -> bool {
        &&& MIN_POSITION <= self.x <= MAX_EXTENT
        &&& MIN_POSITION <= self.y <= MAX_EXTENT
        &&& 1 <= self.width <= MAX_EXTENT
        &&& 1 <= self.height <= MAX_EXTENT
    }

    pub closed spec fn left(self) -> i32 {
        self.x
    }

    pub closed spec fn top(self) -> i32 {
        self.y
    }

    pub closed spec fn wide(self) -> u32 {
        self.width
    }

    pub closed spec fn high(self) -> u32 {
        self.height
    }

    /// A rectangle with its position and size held within the allowed range.
    pub fn new(x: i32, y: i32, width: u32, height: u32) -> (r: Rect)
        ensures
            r == rect_of(x, y, width, height),
            r.left() == held_position(x),
            r.top() == held_position(y),
            r.wide() == held_size(width),
            r.high() == held_size(height),
    {
        Rect {
            x: hold_position(x),
            y: hold_position(y),
            width: hold_size(width),
            height: hold_size(height),
        }
    }

    /// The horizontal position.
    pub fn x(&self) -> (r: i32)
        ensures
            r == self.left(),
            MIN_POSITION <= r <= MAX_EXTENT,
    {
        proof {
            use_type_invariant(self);
        }
        self.x
    }

    /// The vertical position.
    pub fn y(&self) -> (r: i32)
        ensures
            r == self.top(),
            MIN_POSITION <= r <= MAX_EXTENT,
    {
        proof {
            use_type_invariant(self);
        }
        self.y
    }

    /// The width.
    pub fn width(&self) -> (r: u32)
        ensures
            r == self.wide(),
            1 <= r <= MAX_EXTENT,
    {
        proof {
            use_type_invariant(self);
        }
        self.width
    }

    /// The height.
    pub fn height(&self) -> (r: u32)
        ensures
            r == self.high(),
            1 <= r <= MAX_EXTENT,
    {
        proof {
            use_type_invariant(self);
        }
        self.height
    }

    /// The point lies in the rectangle; its right and bottom edges do not
    /// belong to it.
    pub open spec fn contains(self, x: i32, y: i32) -> bool {
        &&& self.left() <= x < self.left() + self.wide()
        &&& self.top() <= y < self.top() + self.high()
    }

    /// Whether the point lies in the rectangle.
    pub fn contains_point(&self, x: i32, y: i32) -> (r: bool)
        ensures
            r == self.contains(x, y),
    {
        self.x <= x && (x as i64) < self.x as i64 + self.width as i64 && self.y <= y && (y as i64)
            < self.y as i64 + self.height as i64
    }
}

/// The rectangle with its position and size held within the allowed range.
pub closed spec fn rect_of(x: i32, y: i32, width: u32, height: u32) -> Rect {
    Rect {
        x: held_position(x),
        y: held_position(y),
        width: held_size(width),
        height: held_size(height),
    }
}

/// A rectangle lies where it was asked for, as far as it can be held.
pub proof fn law_rect_held(x: i32, y: i32, width: u32, height: u32)
    ensures
        rect_of(x, y, width, height).left() == held_position(x),
        rect_of(x, y, width, height).top() == held_position(y),
        rect_of(x, y, width, height).wide() == held_size(width),
        rect_of(x, y, width, height).high() == held_size(height),
{
}

/// A device-independent navigation event. Pointer coordinates are logical.
#[derive(Debug, PartialEq, Eq)]
pub enum NavEvent {
    /// Move focus up.
    Up,
    /// Move focus down.
    Down,
    /// Decrease / previous value.
    Left,
    /// Increase / next value.
    Right,
    /// Activate the focused widget.
    Activate,
    /// Leave the screen / cancel.
    Back,
    /// Delete the focused item.
    Delete,
    /// Edit the focused item.
    Edit,
    /// Connect to the focused or default host.
    ConnectShortcut,
    /// Text input.
    Text(String),
    /// Backspace in a text field.
    Backspace,
    /// Pointer moved (hover focuses).
    PointerMove(i32, i32),
    /// Pointer pressed (click activates).
    PointerClick(i32, i32),
}

/// What a [`NavEvent`] holds.
pub enum NavView {
    Up,
    Down,
    Left,
    Right,
    Activate,
    Back,
    Delete,
    Edit,
    ConnectShortcut,
    Text(Seq<char>),
    Backspace,
    PointerMove(i32, i32),
    PointerClick(i32, i32),
}

impl View for NavEvent {
    type V = NavView;

    open spec fn view(&self) -> NavView {
        match self {
            NavEvent::Up => NavView::Up,
            NavEvent::Down => NavView::Down,
            NavEvent::Left => NavView::Left,
            NavEvent::Right => NavView::Right,
            NavEvent::Activate => NavView::Activate,
            NavEvent::Back => NavView::Back,
            NavEvent::Delete => NavView::Delete,
            NavEvent::Edit => NavView::Edit,
            NavEvent::ConnectShortcut => NavView::ConnectShortcut,
            NavEvent::Text(s) => NavView::Text(s@),
            NavEvent::Backspace => NavView::Backspace,
            NavEvent::PointerMove(x, y) => NavView::PointerMove(*x, *y),
            NavEvent::PointerClick(x, y) => NavView::PointerClick(*x, *y),
        }
    }
}

impl Clone for NavEvent {
    fn clone(&self) -> (r: NavEvent)
        ensures
            r@ == self@,
    {
        match self {
            NavEvent::Up => NavEvent::Up,
            NavEvent::Down => NavEvent::Down,
            NavEvent::Left => NavEvent::Left,
            NavEvent::Right => NavEvent::Right,
            NavEvent::Activate => NavEvent::Activate,
            NavEvent::Back => NavEvent::Back,
            NavEvent::Delete => NavEvent::Delete,
            NavEvent::Edit => NavEvent::Edit,
            NavEvent::ConnectShortcut => NavEvent::ConnectShortcut,
            NavEvent::Text(s) => NavEvent::Text(s.clone()),
            NavEvent::Backspace => NavEvent::Backspace,
            NavEvent::PointerMove(x, y) => NavEvent::PointerMove(*x, *y),
            NavEvent::PointerClick(x, y) => NavEvent::PointerClick(*x, *y),
        }
    }
}

/// Whether two events are the same.
pub fn same_nav(a: &NavEvent, b: &NavEvent) -> (r: bool)
    ensures
        r == (a@ == b@),
{
    match (a, b) {
        (NavEvent::Up, NavEvent::Up) => true,
        (NavEvent::Down, NavEvent::Down) => true,
        (NavEvent::Left, NavEvent::Left) => true,
        (NavEvent::Right, NavEvent::Right) => true,
        (NavEvent::Activate, NavEvent::Activate) => true,
        (NavEvent::Back, NavEvent::Back) => true,
        (NavEvent::Delete, NavEvent::Delete) => true,
        (NavEvent::Edit, NavEvent::Edit) => true,
        (NavEvent::ConnectShortcut, NavEvent::ConnectShortcut) => true,
        (NavEvent::Text(s), NavEvent::Text(t)) => same_text(s.as_str(), t.as_str()),
        (NavEvent::Backspace, NavEvent::Backspace) => true,
        (NavEvent::PointerMove(x, y), NavEvent::PointerMove(u, v)) => *x == *u && *y == *v,
        (NavEvent::PointerClick(x, y), NavEvent::PointerClick(u, v)) => *x == *u && *y == *v,
        _ => false,
    }
}

/// Focus position within a screen's widget list.
#[derive(Debug, Clone, Copy, PartialEq, Eq, Structural)]
pub struct FocusList {
    /// Number of focusable widgets.
    pub count: usize,
    /// Index of the focused widget.
    pub focus: usize,
}

impl FocusList {
    /// The focus lies on a widget, or at 0 when there is none.
    pub open spec fn wf(self) -> bool {
        self.focus < self.count || self.focus == 0
    }

    /// The list with its focus one widget up, if there is one above.
    pub open spec fn moved_up(self) -> FocusList {
        FocusList {
            focus: if self.focus > 0 {
                (self.focus - 1) as usize
            } else {
                0
            },
            ..self
        }
    }

    /// The list with its focus one widget down, if there is one below.
    pub open spec fn moved_down(self) -> FocusList {
        FocusList {
            focus: if self.focus + 1 < self.count {
                (self.focus + 1) as usize
            } else {
                self.focus
            },
            ..self
        }
    }

    /// The list over another number of widgets, its focus kept if possible.
    pub open spec fn resized(self, count: usize) -> FocusList {
        FocusList {
            count,
            focus: if count == 0 {
                0
            } else if self.focus >= count {
                (count - 1) as usize
            } else {
                self.focus
            },
        }
    }

    /// The list with its focus on the widget at the point, if there is one.
    pub open spec fn focused_at(self, rects: Seq<Rect>, x: i32, y: i32) -> FocusList {
        match self.hit(rects, x, y) {
            Some(i) => FocusList { focus: i as usize, ..self },
            None => self,
        }
    }

    /// The widget of the list at the point, if there is one.
    pub open spec fn hit(self, rects: Seq<Rect>, x: i32, y: i32) -> Option<int> {
        match first_hit(rects, x, y) {
            Some(i) => if i < self.count {
                Some(i)
            } else {
                None
            },
            None => None,
        }
    }

    /// A focus list over `count` widgets, focused on the first.
    pub fn new(count: usize) -> (r: FocusList)
        ensures
            r == (FocusList { count, focus: 0 }),
            r.wf(),
    {
        FocusList { count, focus: 0 }
    }

    /// Moves focus up, saturating at the top.
    pub fn up(&mut self)
        ensures
            *final(self) == old(self).moved_up(),
            old(self).wf() ==> final(self).wf(),
    {
        if self.focus > 0 {
            self.focus = self.focus - 1;
        }
    }

    /// Moves focus down, saturating at the bottom.
    pub fn down(&mut self)
        ensures
            *final(self) == old(self).moved_down(),
            old(self).wf() ==> final(self).wf(),
    {
        if self.count > 0 && self.focus < self.count - 1 {
            self.focus = self.focus + 1;
        }
    }

    /// Clamps focus after the widget count changed (e.g. host deleted).
    pub fn resize(&mut self, count: usize)
        ensures
            *final(self) == old(self).resized(count),
            final(self).wf(),
    {
        self.count = count;
        if count == 0 {
            self.focus = 0;
        } else if self.focus >= count {
            self.focus = count - 1;
        }
    }

    /// Focuses the widget whose rectangle contains the point, if any.
    /// Returns its index.
    pub fn focus_at(&mut self, rects: &[Rect], x: i32, y: i32) -> (r: Option<usize>)
        ensures
            *final(self) == old(self).focused_at(rects@, x, y),
            old(self).wf() ==> final(self).wf(),
            match r {
                Some(i) => old(self).hit(rects@, x, y) == Some(i as int),
                None => old(self).hit(rects@, x, y) is None,
            },
    {
        match hit_test(rects, x, y) {
            Some(hit) => if hit < self.count {
                self.focus = hit;
                Some(hit)
            } else {
                None
            },
            None => None,
        }
    }
}

/// The index of the first rectangle that contains the point.
pub open spec fn first_hit(rects: Seq<Rect>, x: i32, y: i32) -> Option<int>
    decreases rects.len(),
{
    if rects.len() == 0 {
        None
    } else {
        match first_hit(rects.drop_last(), x, y) {
            Some(i) => Some(i),
            None => if rects.last().contains(x, y) {
                Some(rects.len() - 1)
            } else {
                None
            },
        }
    }
}

/// A hit is the first rectangle with the point; without one, no rectangle
/// has it.
pub proof fn lemma_first_hit(rects: Seq<Rect>, x: i32, y: i32)
    ensures
        match first_hit(rects, x, y) {
            Some(i) => {
                &&& 0 <= i < rects.len()
                &&& rects[i].contains(x, y)
                &&& forall|j: int| 0 <= j < i ==> !(#[trigger] rects[j]).contains(x, y)
            },
            None => forall|j: int|
                0 <= j < rects.len() ==> !(#[trigger] rects[j]).contains(x, y),
        },
    decreases rects.len(),
{
    if rects.len() > 0 {
        let front = rects.drop_last();
        lemma_first_hit(front, x, y);
        assert forall|j: int| 0 <= j < front.len() implies front[j] == #[trigger] rects[j] by {}
        match first_hit(front, x, y) {
            Some(i) => {
                assert(front[i] == rects[i]);
            },
            None => {
                assert forall|j: int| 0 <= j < front.len() implies !(#[trigger] rects[j]).contains(
                    x,
                    y,
                ) by {
                    assert(!front[j].contains(x, y));
                }
            },
        }
    }
}

/// Index of the first rectangle that contains the point.
pub fn hit_test(rects: &[Rect], x: i32, y: i32) -> (r: Option<usize>)
    ensures
        match r {
            Some(i) => first_hit(rects@, x, y) == Some(i as int),
            None => first_hit(rects@, x, y) is None,
        },
{
    let mut n: usize = 0;
    assert(rects@.take(0) =~= Seq::empty());
    while n < rects.len()
        invariant
            n <= rects.len(),
            first_hit(rects@.take(n as int), x, y) is None,
        decreases rects.len() - n,
    {
        proof {
            assert(rects@.take(n + 1).drop_last() =~= rects@.take(n as int));
            assert(rects@.take(n + 1).last() == rects@[n as int]);
        }
        if rects[n].contains_point(x, y) {
            proof {
                lemma_hit_kept(rects@, n + 1, x, y);
            }
            return Some(n);
        }
        n = n + 1;
    }
    assert(rects@.take(n as int) =~= rects@);
    None
}

proof fn lemma_hit_kept(rects: Seq<Rect>, n: int, x: i32, y: i32)
    requires
        0 <= n <= rects.len(),
        first_hit(rects.take(n), x, y) is Some,
    ensures
        first_hit(rects, x, y) == first_hit(rects.take(n), x, y),
    decreases rects.len() - n,
{
    if n == rects.len() {
        assert(rects.take(n) =~= rects);
    } else {
        assert(rects.take(n + 1).drop_last() =~= rects.take(n));
        lemma_hit_kept(rects, n + 1, x, y);
    }
}

/// A column of `count` full-width rows, from the top down.
pub open spec fn column(count: nat, top: i32, height: u32, gap: u32, margin: i32) -> Seq<Rect> {
    Seq::new(
        count,
        |i: int|
            rect_of(
                margin,
                (top + i * (height + gap)) as i32,
                ((UI_WIDTH - 2 * margin) as i32) as u32,
                height,
            ),
    )
}

/// Lays out `count` full-width rows starting at `top`, `height` tall with
/// `gap` between them, inside horizontal `margin`. The rows must have
/// coordinates.
pub fn layout_rows(count: usize, top: i32, height: u32, gap: u32, margin: i32) -> (rects: Vec<
    Rect,
>)
    requires
        height + gap <= i32::MAX,
        i32::MIN <= UI_WIDTH - 2 * margin <= i32::MAX,
        i32::MIN <= 2 * margin <= i32::MAX,
        count <= i32::MAX,
        count > 0 ==> top + (count - 1) * (height + gap) <= i32::MAX,
    ensures
        rects@ == column(count as nat, top, height, gap, margin),
{
    let width: i32 = UI_WIDTH as i32 - 2 * margin;
    let step: i64 = (height + gap) as i64;
    let mut rects: Vec<Rect> = Vec::new();
    let mut n: usize = 0;
    while n < count
        invariant
            n <= count,
            count <= i32::MAX,
            step == height + gap,
            step <= i32::MAX,
            width == UI_WIDTH - 2 * margin,
            count > 0 ==> top + (count - 1) * (height + gap) <= i32::MAX,
            rects@ == column(n as nat, top, height, gap, margin),
        decreases count - n,
    {
        assert(0 <= n * step <= (count - 1) * step) by (nonlinear_arith)
            requires
                n < count,
                0 <= step,
        ;
        assert(n * step <= i32::MAX * i32::MAX) by (nonlinear_arith)
            requires
                n <= i32::MAX,
                0 <= step <= i32::MAX,
        ;
        let y: i64 = top as i64 + n as i64 * step;
        let row = Rect::new(margin, y as i32, width as u32, height);
        rects.push(row);
        assert(rects@ =~= column((n + 1) as nat, top, height, gap, margin));
        n = n + 1;
    }
    rects
}

/// Rows do not overlap: a point in a row of a column that fits hits exactly
/// that row.
pub proof fn law_point_hits_its_row(
    count: nat,
    top: i32,
    height: u32,
    gap: u32,
    margin: i32,
    i: int,
    x: i32,
    y: i32,
)
    requires
        0 < height <= MAX_EXTENT,
        MIN_POSITION <= top,
        0 <= i < count,
        top + (count - 1) * (height + gap) <= MAX_EXTENT,
        column(count, top, height, gap, margin)[i].contains(x, y),
    ensures
        first_hit(column(count, top, height, gap, margin), x, y) == Some(i),
{
    let rects = column(count, top, height, gap, margin);
    lemma_first_hit(rects, x, y);
    let step = height + gap;
    assert(0 <= i * step <= (count - 1) * step) by (nonlinear_arith)
        requires
            0 <= i <= count - 1,
            0 <= step,
    ;
    match first_hit(rects, x, y) {
        Some(j) => {
            assert(0 <= j * step <= (count - 1) * step) by (nonlinear_arith)
                requires
                    0 <= j <= count - 1,
                    0 <= step,
            ;
            if j < i {
                assert(j * step + step <= i * step) by (nonlinear_arith)
                    requires
                        j + 1 <= i,
                        0 <= step,
                ;
            }
            if i < j {
                assert(i * step + step <= j * step) by (nonlinear_arith)
                    requires
                        i + 1 <= j,
                        0 <= step,
                ;
            }
        },
        None => {},
    }
}

} // verus!
