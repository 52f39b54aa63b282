//! What the launcher shows: the widgets of each screen from top to bottom,
//! and the texts and colours in them.
use crate::config::{HostEntry, HostView};
use crate::launch::shown_name;
use crate::launcher::{
    row_rects, rows, Model, ModelView, Screen, ScreenView, EDIT_FIELDS, HOST_LIST_EXTRA,
    ROW_MARGIN, ROW_TOP, SETTINGS_ROWS,
};
use crate::text::{copy_text, decimal, decimal_text, push_decimal};
use crate::widgets::{FocusList, Rect};
use vstd::prelude::*;

verus! {

/// A colour of the launcher.
#[derive(Debug, Clone, Copy, PartialEq, Eq, Structural)]
pub enum Tint {
    /// Window background.
    Background,
    /// Unfocused widget background.
    Widget,
    /// Focused widget background.
    WidgetFocus,
    /// Focused widget outline.
    OutlineFocus,
    /// Primary text.
    Text,
    /// Secondary text.
    TextDim,
    /// Enabled state.
    Accent,
    /// Error banner background.
    ErrorBackground,
    /// Error banner text.
    ErrorText,
}

impl Tint {
    /// Red, green and blue of the colour.
    pub fn rgb(self) -> (r: (u8, u8, u8))
        ensures
            r == (match self {
                Tint::Background => (16u8, 18u8, 26u8),
                Tint::Widget => (32, 36, 48),
                Tint::WidgetFocus => (56, 64, 92),
                Tint::OutlineFocus => (120, 150, 255),
                Tint::Text => (230, 232, 240),
                Tint::TextDim => (140, 145, 160),
                Tint::Accent => (110, 200, 130),
                Tint::ErrorBackground => (96, 32, 36),
                Tint::ErrorText => (255, 200, 200),
            }),
    {
        match self {
            Tint::Background => (16, 18, 26),
            Tint::Widget => (32, 36, 48),
            Tint::WidgetFocus => (56, 64, 92),
            Tint::OutlineFocus => (120, 150, 255),
            Tint::Text => (230, 232, 240),
            Tint::TextDim => (140, 145, 160),
            Tint::Accent => (110, 200, 130),
            Tint::ErrorBackground => (96, 32, 36),
            Tint::ErrorText => (255, 200, 200),
        }
    }
}

/// The background of a widget, and its outline if it has one.
pub fn box_tints(focused: bool) -> (r: (Tint, Option<Tint>))
    ensures
        r == (if focused {
            (Tint::WidgetFocus, Some(Tint::OutlineFocus))
        } else {
            (Tint::Widget, None)
        }),
{
    if focused {
        (Tint::WidgetFocus, Some(Tint::OutlineFocus))
    } else {
        (Tint::Widget, None)
    }
}

/// The state of a toggle and its colour.
pub fn toggle_state(value: bool) -> (r: (&'static str, Tint))
    ensures
        r.0@ == (if value {
            "on"@
        } else {
            "off"@
        }),
        r.1 == (if value {
            Tint::Accent
        } else {
            Tint::TextDim
        }),
{
    if value {
        ("on", Tint::Accent)
    } else {
        ("off", Tint::TextDim)
    }
}

/// The colour of the arrows beside a choice.
pub fn arrow_tint(focused: bool) -> (r: Tint)
    ensures
        r == (if focused {
            Tint::OutlineFocus
        } else {
            Tint::TextDim
        }),
{
    if focused {
        Tint::OutlineFocus
    } else {
        Tint::TextDim
    }
}

/// What a text field shows: its value, with a cursor while it is edited, or
/// a dash if it is empty.
pub open spec fn field_shows(value: Seq<char>, editing: bool) -> Seq<char> {
    if editing {
        value + "_"@
    } else if value.len() == 0 {
        "—"@
    } else {
        value
    }
}

/// What a text field shows, and in which colour.
pub fn field_text(value: &str, editing: bool) -> (r: (String, Tint))
    ensures
        r.0@ == field_shows(value@, editing),
        r.1 == (if value@.len() == 0 && !editing {
            Tint::TextDim
        } else {
            Tint::Text
        }),
{
    let empty = value.is_empty();
    let shown = if editing {
        let mut s = copy_text(value);
        s.append("_");
        s
    } else if empty {
        copy_text("—")
    } else {
        copy_text(value)
    };
    let tint = if empty && !editing {
        Tint::TextDim
    } else {
        Tint::Text
    };
    (shown, tint)
}

/// Something on the screen.
#[derive(Debug, Clone)]
pub enum Widget {
    /// A line of text at a place, of a size.
    Label { text: String, x: i32, y: i32, px: u16, tint: Tint },
    /// A saved host with its details at the right.
    HostRow { rect: Rect, label: String, details: String, focused: bool },
    Button { rect: Rect, label: String, focused: bool },
    Toggle { rect: Rect, label: String, value: bool, focused: bool },
    Choice { rect: Rect, label: String, value: String, focused: bool },
    Field { rect: Rect, label: String, value: String, focused: bool, editing: bool },
    /// A banner across the top.
    Banner { text: String, background: Tint, foreground: Tint },
    /// The legend at the bottom.
    Hint { text: String },
}

/// What a [`Widget`] holds.
#[verifier::ext_equal]
pub enum WidgetView {
    Label { text: Seq<char>, x: i32, y: i32, px: u16, tint: Tint },
    HostRow { rect: Rect, label: Seq<char>, details: Seq<char>, focused: bool },
    Button { rect: Rect, label: Seq<char>, focused: bool },
    Toggle { rect: Rect, label: Seq<char>, value: bool, focused: bool },
    Choice { rect: Rect, label: Seq<char>, value: Seq<char>, focused: bool },
    Field { rect: Rect, label: Seq<char>, value: Seq<char>, focused: bool, editing: bool },
    Banner { text: Seq<char>, background: Tint, foreground: Tint },
    Hint { text: Seq<char> },
}

impl View for Widget {
    type V = WidgetView;

    open spec fn view(&self) -> WidgetView {
        match self {
            Widget::Label { text, x, y, px, tint } => WidgetView::Label {
                text: text@,
                x: *x,
                y: *y,
                px: *px,
                tint: *tint,
            },
            Widget::HostRow { rect, label, details, focused } => WidgetView::HostRow {
                rect: *rect,
                label: label@,
                details: details@,
                focused: *focused,
            },
            Widget::Button { rect, label, focused } => WidgetView::Button {
                rect: *rect,
                label: label@,
                focused: *focused,
            },
            Widget::Toggle { rect, label, value, focused } => WidgetView::Toggle {
                rect: *rect,
                label: label@,
                value: *value,
                focused: *focused,
            },
            Widget::Choice { rect, label, value, focused } => WidgetView::Choice {
                rect: *rect,
                label: label@,
                value: value@,
                focused: *focused,
            },
            Widget::Field { rect, label, value, focused, editing } => WidgetView::Field {
                rect: *rect,
                label: label@,
                value: value@,
                focused: *focused,
                editing: *editing,
            },
            Widget::Banner { text, background, foreground } => WidgetView::Banner {
                text: text@,
                background: *background,
                foreground: *foreground,
            },
            Widget::Hint { text } => WidgetView::Hint { text: text@ },
        }
    }
}

/// The views of some widgets.
pub open spec fn widget_views(widgets: Seq<Widget>) -> Seq<WidgetView> {
    Seq::new(widgets.len(), |i: int| widgets[i]@)
}

/// The details of a host: where it is, and the quality asked of it.
pub open spec fn host_details(host: HostView) -> Seq<char> {
    host.address + ":"@ + decimal(host.port as nat) + "   "@ + host.resolution.text() + " @ "@
        + decimal(host.framerate as nat) + "fps "@ + host.codec.text()
}

/// The heading of a screen.
pub open spec fn heading(text: Seq<char>) -> WidgetView {
    WidgetView::Label {
        text,
        x: ROW_MARGIN,
        y: (ROW_TOP - 40) as i32,
        px: 18,
        tint: Tint::TextDim,
    }
}

/// The row of a saved host.
pub open spec fn host_row(hosts: Seq<HostView>, focus: usize, i: int) -> WidgetView {
    WidgetView::HostRow {
        rect: rows(hosts.len() + HOST_LIST_EXTRA as nat)[i],
        label: shown_name(hosts[i]),
        details: host_details(hosts[i]),
        focused: focus == i,
    }
}

/// The button in a row.
pub open spec fn row_button(count: nat, row: int, label: Seq<char>, focus: usize) -> WidgetView {
    WidgetView::Button { rect: rows(count)[row], label, focused: focus == row }
}

/// The host list.
pub open spec fn host_list_widgets(hosts: Seq<HostView>, focus: usize) -> Seq<WidgetView> {
    let n = hosts.len() as int;
    let count = hosts.len() + HOST_LIST_EXTRA as nat;
    seq![heading("Hosts"@)] + Seq::new(hosts.len(), |i: int| host_row(hosts, focus, i)) + seq![
        row_button(count, n, "Add host…"@, focus),
        row_button(count, n + 1, "Settings"@, focus),
        row_button(count, n + 2, "Quit"@, focus),
        WidgetView::Hint { text: "A/Enter connect   X/E edit   Y/Del delete   B/Esc quit"@ },
    ]
}

/// A text field in a row.
pub open spec fn row_field(
    row: int,
    label: Seq<char>,
    value: Seq<char>,
    focus: usize,
    editing: bool,
) -> WidgetView {
    WidgetView::Field {
        rect: rows(EDIT_FIELDS as nat)[row],
        label,
        value,
        focused: focus == row,
        editing: editing && focus == row,
    }
}

/// A choice in a row.
pub open spec fn row_choice(row: int, label: Seq<char>, value: Seq<char>, focus: usize) -> WidgetView {
    WidgetView::Choice {
        rect: rows(EDIT_FIELDS as nat)[row],
        label,
        value,
        focused: focus == row,
    }
}

/// The host editor.
pub open spec fn host_edit_widgets(
    adding: bool,
    draft: HostView,
    port_text: Seq<char>,
    focus: usize,
    editing: bool,
) -> Seq<WidgetView> {
    seq![
        heading(
            if adding {
                "Add host"@
            } else {
                "Edit host"@
            },
        ),
        row_field(0, "Name"@, draft.name, focus, editing),
        row_field(1, "Address"@, draft.address, focus, editing),
        row_field(2, "Port"@, port_text, focus, editing),
        row_choice(3, "Resolution"@, draft.resolution.text(), focus),
        row_choice(4, "Framerate"@, decimal(draft.framerate as nat), focus),
        row_choice(5, "Codec"@, draft.codec.text(), focus),
        row_button(EDIT_FIELDS as nat, 6, "Save"@, focus),
        row_button(EDIT_FIELDS as nat, 7, "Cancel"@, focus),
        WidgetView::Hint { text: "A/Enter edit or apply   ◄ ► change value   B/Esc back"@ },
    ]
}

/// A toggle in a row.
pub open spec fn row_toggle(row: int, label: Seq<char>, value: bool, focus: usize) -> WidgetView {
    WidgetView::Toggle {
        rect: rows(SETTINGS_ROWS as nat)[row],
        label,
        value,
        focused: focus == row,
    }
}

/// The settings.
pub open spec fn settings_widgets(m: ModelView, focus: usize) -> Seq<WidgetView> {
    seq![
        heading("Settings"@),
        row_toggle(0, "Fullscreen"@, m.cfg.fullscreen, focus),
        row_toggle(1, "Gamepad pass-through"@, m.cfg.gamepad_passthrough, focus),
        row_toggle(2, "USB forward (Valve hardware)"@, m.cfg.usb_forward, focus),
        row_toggle(3, "Microphone forward"@, m.cfg.mic_forward.enabled, focus),
        row_button(SETTINGS_ROWS as nat, 4, "Back"@, focus),
        WidgetView::Hint { text: "A/Enter toggle   B/Esc back"@ },
    ]
}

/// The banner on top of the screen: the host being connected to, else the
/// error that was left.
pub open spec fn banner_widgets(error: Option<Seq<char>>, connecting: Option<Seq<char>>) -> Seq<
    WidgetView,
> {
    match connecting {
        Some(host) => seq![
            WidgetView::Banner {
                text: "Connecting to "@ + host + "…  (B / Esc to cancel)"@,
                background: Tint::WidgetFocus,
                foreground: Tint::Text,
            },
        ],
        None => match error {
            Some(text) => seq![
                WidgetView::Banner {
                    text,
                    background: Tint::ErrorBackground,
                    foreground: Tint::ErrorText,
                },
            ],
            None => seq![],
        },
    }
}

/// The widgets of the screen that a model shows.
pub open spec fn screen_widgets(m: ModelView) -> Seq<WidgetView> {
    match m.screen {
        ScreenView::HostList { focus } => host_list_widgets(m.cfg.hosts, focus.focus),
        ScreenView::HostEdit { index, draft, port_text, focus, editing } => host_edit_widgets(
            index is None,
            draft,
            port_text,
            focus.focus,
            editing,
        ),
        ScreenView::Settings { focus } => settings_widgets(m, focus.focus),
    }
}

/// Everything that is shown, in the order in which it is drawn.
pub open spec fn shown(m: ModelView, connecting: Option<Seq<char>>) -> Seq<WidgetView> {
    seq![
        WidgetView::Label {
            text: "Stargaze"@,
            x: ROW_MARGIN,
            y: 48,
            px: 40,
            tint: Tint::Text,
        },
    ] + screen_widgets(m) + banner_widgets(m.error, connecting)
}

fn details_text(host: &HostEntry) -> (s: String)
    ensures
        s@ == host_details(host@),
{
    let mut s = copy_text(host.address.as_str());
    s.append(":");
    push_decimal(&mut s, host.port as u64);
    s.append("   ");
    s.append(host.resolution.to_string().as_str());
    s.append(" @ ");
    push_decimal(&mut s, host.framerate as u64);
    s.append("fps ");
    s.append(host.codec.to_string().as_str());
    s
}

fn push_heading(out: &mut Vec<Widget>, text: &str)
    ensures
        widget_views(final(out)@) == widget_views(old(out)@).push(heading(text@)),
{
    out.push(
        Widget::Label {
            text: copy_text(text),
            x: ROW_MARGIN,
            y: ROW_TOP - 40,
            px: 18,
            tint: Tint::TextDim,
        },
    );
    assert(widget_views(out@) =~= widget_views(old(out)@).push(heading(text@)));
}

fn push_button(out: &mut Vec<Widget>, rects: &Vec<Rect>, row: usize, label: &str, focus: usize)
    requires
        row < rects@.len(),
        rects@ == rows(rects@.len()),
    ensures
        widget_views(final(out)@) == widget_views(old(out)@).push(
            row_button(rects@.len(), row as int, label@, focus),
        ),
{
    out.push(
        Widget::Button { rect: rects[row], label: copy_text(label), focused: focus == row },
    );
    assert(widget_views(out@) =~= widget_views(old(out)@).push(
        row_button(rects@.len(), row as int, label@, focus),
    ));
}

fn push_hint(out: &mut Vec<Widget>, text: &str)
    ensures
        widget_views(final(out)@) == widget_views(old(out)@).push(
            WidgetView::Hint { text: text@ },
        ),
{
    out.push(Widget::Hint { text: copy_text(text) });
    assert(widget_views(out@) =~= widget_views(old(out)@).push(WidgetView::Hint { text: text@ }));
}

fn push_field(
    out: &mut Vec<Widget>,
    rects: &Vec<Rect>,
    row: usize,
    label: &str,
    value: &str,
    focus: usize,
    editing: bool,
)
    requires
        row < rects@.len(),
        rects@ == rows(EDIT_FIELDS as nat),
    ensures
        widget_views(final(out)@) == widget_views(old(out)@).push(
            row_field(row as int, label@, value@, focus, editing),
        ),
{
    out.push(
        Widget::Field {
            rect: rects[row],
            label: copy_text(label),
            value: copy_text(value),
            focused: focus == row,
            editing: editing && focus == row,
        },
    );
    assert(widget_views(out@) =~= widget_views(old(out)@).push(
        row_field(row as int, label@, value@, focus, editing),
    ));
}

fn push_choice(
    out: &mut Vec<Widget>,
    rects: &Vec<Rect>,
    row: usize,
    label: &str,
    value: String,
    focus: usize,
)
    requires
        row < rects@.len(),
        rects@ == rows(EDIT_FIELDS as nat),
    ensures
        widget_views(final(out)@) == widget_views(old(out)@).push(
            row_choice(row as int, label@, value@, focus),
        ),
{
    out.push(
        Widget::Choice { rect: rects[row], label: copy_text(label), value, focused: focus == row },
    );
    assert(widget_views(out@) =~= widget_views(old(out)@).push(
        row_choice(row as int, label@, value@, focus),
    ));
}

fn push_toggle(
    out: &mut Vec<Widget>,
    rects: &Vec<Rect>,
    row: usize,
    label: &str,
    value: bool,
    focus: usize,
)
    requires
        row < rects@.len(),
        rects@ == rows(SETTINGS_ROWS as nat),
    ensures
        widget_views(final(out)@) == widget_views(old(out)@).push(
            row_toggle(row as int, label@, value, focus),
        ),
{
    out.push(
        Widget::Toggle { rect: rects[row], label: copy_text(label), value, focused: focus == row },
    );
    assert(widget_views(out@) =~= widget_views(old(out)@).push(
        row_toggle(row as int, label@, value, focus),
    ));
}

/// The widgets of the host list.
pub fn draw_host_list(model: &Model, focus: &FocusList) -> (out: Vec<Widget>)
    requires
        model@.wf(),
    ensures
        widget_views(out@) == host_list_widgets(model@.cfg.hosts, focus.focus),
{
    let rects = model.host_list_rects();
    let hosts = &model.cfg.hosts;
    let ghost views = model@.cfg.hosts;
    let f: usize = focus.focus;
    let mut out: Vec<Widget> = Vec::new();
    push_heading(&mut out, "Hosts");
    let mut n: usize = 0;
    assert(widget_views(out@) =~= seq![heading("Hosts"@)] + Seq::new(
        0,
        |i: int| host_row(views, f, i),
    ));
    while n < hosts.len()
        invariant
            n <= hosts.len(),
            views == model@.cfg.hosts,
            hosts == model.cfg.hosts,
            rects@ == rows(views.len() + HOST_LIST_EXTRA as nat),
            rects@.len() == views.len() + HOST_LIST_EXTRA,
            widget_views(out@) == seq![heading("Hosts"@)] + Seq::new(
                n as nat,
                |i: int| host_row(views, f, i),
            ),
        decreases hosts.len() - n,
    {
        let ghost before = out@;
        let host = &hosts[n];
        assert(views[n as int] == host@);
        let label = copy_text(host.display_name());
        let details = details_text(host);
        out.push(Widget::HostRow { rect: rects[n], label, details, focused: f == n });
        assert(widget_views(out@) =~= widget_views(before).push(host_row(views, f, n as int)));
        assert(widget_views(out@) =~= seq![heading("Hosts"@)] + Seq::new(
            (n + 1) as nat,
            |i: int| host_row(views, f, i),
        ));
        n = n + 1;
    }
    push_button(&mut out, &rects, n, "Add host…", f);
    push_button(&mut out, &rects, n + 1, "Settings", f);
    push_button(&mut out, &rects, n + 2, "Quit", f);
    push_hint(&mut out, "A/Enter connect   X/E edit   Y/Del delete   B/Esc quit");
    assert(widget_views(out@) =~= host_list_widgets(views, f));
    out
}

/// The widgets of the host editor.
pub fn draw_host_edit(
    index: Option<usize>,
    draft: &HostEntry,
    port_text: &str,
    focus: &FocusList,
    editing: bool,
) -> (out: Vec<Widget>)
    ensures
        widget_views(out@) == host_edit_widgets(
            index is None,
            draft@,
            port_text@,
            focus.focus,
            editing,
        ),
{
    let rects = row_rects(EDIT_FIELDS);
    let f: usize = focus.focus;
    let mut out: Vec<Widget> = Vec::new();
    if index.is_some() {
        push_heading(&mut out, "Edit host");
    } else {
        push_heading(&mut out, "Add host");
    }
    push_field(&mut out, &rects, 0, "Name", draft.name.as_str(), f, editing);
    push_field(&mut out, &rects, 1, "Address", draft.address.as_str(), f, editing);
    push_field(&mut out, &rects, 2, "Port", port_text, f, editing);
    push_choice(&mut out, &rects, 3, "Resolution", draft.resolution.to_string(), f);
    push_choice(&mut out, &rects, 4, "Framerate", decimal_text(draft.framerate as u64), f);
    push_choice(&mut out, &rects, 5, "Codec", draft.codec.to_string(), f);
    push_button(&mut out, &rects, 6, "Save", f);
    push_button(&mut out, &rects, 7, "Cancel", f);
    push_hint(&mut out, "A/Enter edit or apply   ◄ ► change value   B/Esc back");
    assert(widget_views(out@) =~= host_edit_widgets(
        index is None,
        draft@,
        port_text@,
        focus.focus,
        editing,
    ));
    out
}

/// The widgets of the settings.
pub fn draw_settings(model: &Model, focus: &FocusList) -> (out: Vec<Widget>)
    ensures
        widget_views(out@) == settings_widgets(model@, focus.focus),
{
    let rects = row_rects(SETTINGS_ROWS);
    let f: usize = focus.focus;
    let cfg = &model.cfg;
    let mut out: Vec<Widget> = Vec::new();
    push_heading(&mut out, "Settings");
    push_toggle(&mut out, &rects, 0, "Fullscreen", cfg.fullscreen, f);
    push_toggle(&mut out, &rects, 1, "Gamepad pass-through", cfg.gamepad_passthrough, f);
    push_toggle(&mut out, &rects, 2, "USB forward (Valve hardware)", cfg.usb_forward, f);
    push_toggle(&mut out, &rects, 3, "Microphone forward", cfg.mic_forward.enabled, f);
    push_button(&mut out, &rects, 4, "Back", f);
    push_hint(&mut out, "A/Enter toggle   B/Esc back");
    assert(widget_views(out@) =~= settings_widgets(model@, focus.focus));
    out
}

/// Everything that the launcher shows, in the order in which it is drawn;
/// `connecting` names the host being connected to.
pub fn draw(model: &Model, connecting: Option<&str>) -> (out: Vec<Widget>)
    requires
        model@.wf(),
    ensures
        widget_views(out@) == shown(
            model@,
            match connecting {
                Some(host) => Some(host@),
                None => None,
            },
        ),
{
    let mut out: Vec<Widget> = Vec::new();
    out.push(
        Widget::Label {
            text: copy_text("Stargaze"),
            x: ROW_MARGIN,
            y: 48,
            px: 40,
            tint: Tint::Text,
        },
    );
    let ghost title = out@;
    let mut body = match &model.screen {
        Screen::HostList { focus } => draw_host_list(model, focus),
        Screen::HostEdit { index, draft, port_text, focus, editing } => draw_host_edit(
            *index,
            draft,
            port_text.as_str(),
            focus,
            *editing,
        ),
        Screen::Settings { focus } => draw_settings(model, focus),
    };
    let ghost shown_body = body@;
    out.append(&mut body);
    let ghost before = out@;
    proof {
        assert(widget_views(before) =~= widget_views(title) + widget_views(shown_body));
        assert(widget_views(title) =~= seq![
            WidgetView::Label {
                text: "Stargaze"@,
                x: ROW_MARGIN,
                y: 48,
                px: 40,
                tint: Tint::Text,
            },
        ]);
    }
    match connecting {
        Some(host) => {
            let mut text = copy_text("Connecting to ");
            text.append(host);
            text.append("…  (B / Esc to cancel)");
            out.push(
                Widget::Banner { text, background: Tint::WidgetFocus, foreground: Tint::Text },
            );
            assert(widget_views(out@) =~= widget_views(before) + banner_widgets(
                model@.error,
                Some(host@),
            ));
        },
        None => {
            if let Some(error) = &model.error {
                out.push(
                    Widget::Banner {
                        text: error.clone(),
                        background: Tint::ErrorBackground,
                        foreground: Tint::ErrorText,
                    },
                );
            }
            assert(widget_views(out@) =~= widget_views(before) + banner_widgets(
                model@.error,
                None,
            ));
        },
    }
    out
}

/// The pixels of a glyph: white, as opaque as it is covered.
pub fn glyph_pixels(coverage: &[u8]) -> (pixels: Vec<u8>)
    ensures
        pixels@ == Seq::new(
            4 * coverage@.len(),
            |i: int|
                if i % 4 == 3 {
                    coverage@[i / 4]
                } else {
                    255u8
                },
        ),
{
    let mut pixels: Vec<u8> = Vec::new();
    let mut n: usize = 0;
    while n < coverage.len()
        invariant
            n <= coverage.len(),
            pixels@.len() == 4 * n,
            forall|i: int|
                0 <= i < 4 * n ==> #[trigger] pixels@[i] == (if i % 4 == 3 {
                    coverage@[i / 4]
                } else {
                    255u8
                }),
        decreases coverage.len() - n,
    {
        pixels.push(255);
        pixels.push(255);
        pixels.push(255);
        pixels.push(coverage[n]);
        n = n + 1;
    }
    assert(pixels@ =~= Seq::new(
        4 * coverage@.len(),
        |i: int|
            if i % 4 == 3 {
                coverage@[i / 4]
            } else {
                255u8
            },
    ));
    pixels
}

/// Exactly the focused row of a screen is shown focused: each widget that can
/// have the focus shows it if it stands in that row.
pub proof fn law_one_row_focused(m: ModelView, i: int, j: int)
    requires
        m.wf(),
        0 <= i < screen_widgets(m).len(),
        0 <= j < screen_widgets(m).len(),
        is_focused(screen_widgets(m)[i]),
        is_focused(screen_widgets(m)[j]),
    ensures
        i == j,
{
}

/// The widget is shown focused.
pub open spec fn is_focused(w: WidgetView) -> bool {
    match w {
        WidgetView::HostRow { focused, .. } => focused,
        WidgetView::Button { focused, .. } => focused,
        WidgetView::Toggle { focused, .. } => focused,
        WidgetView::Choice { focused, .. } => focused,
        WidgetView::Field { focused, .. } => focused,
        _ => false,
    }
}

} // verus!
