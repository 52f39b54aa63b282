//! What the screens of the launcher show.
use crate::config::{Codec, ConfigView, HostView, Resolution};
use crate::launcher::{rows, ModelView};
use crate::layout::{runs_of, RunView};
use crate::media_laws::{lemma_has_text_add, lemma_has_text_end};
use crate::screens::{
    banner_widgets, field_shows, host_details, host_edit_widgets, host_list_widgets,
    settings_widgets, shown, Tint, WidgetView,
};
use crate::text::{decimal, has_text};
use crate::widgets::Rect;
use vstd::prelude::*;

verus! {

/// A button with a label in a row.
pub open spec fn is_button(
    w: WidgetView,
    count: nat,
    row: int,
    label: Seq<char>,
    focus: usize,
) -> bool {
    w == (WidgetView::Button { rect: rows(count)[row], label, focused: focus == row })
}

/// The host list shows each saved host in its own row, by its name or else its
/// address, with its details; below stand the rows to add a host, to open the
/// settings and to quit. The row that has the focus is the one shown so.
pub proof fn law_host_list_shows_the_hosts(hosts: Seq<HostView>, focus: usize, i: int)
    requires
        0 <= i < hosts.len(),
    ensures
        ({
            let w = host_list_widgets(hosts, focus);
            let n = hosts.len() as int;
            &&& w.len() == n + 5
            &&& w[1 + i] == (WidgetView::HostRow {
                rect: rows(hosts.len() + 3)[i],
                label: if hosts[i].name.len() > 0 {
                    hosts[i].name
                } else {
                    hosts[i].address
                },
                details: host_details(hosts[i]),
                focused: focus == i,
            })
            &&& is_button(w[n + 1], hosts.len() + 3, n, "Add host…"@, focus)
            &&& is_button(w[n + 2], hosts.len() + 3, n + 1, "Settings"@, focus)
            &&& is_button(w[n + 3], hosts.len() + 3, n + 2, "Quit"@, focus)
        }),
{
}

/// The details of a host tell where it is and what is asked of it.
pub proof fn law_details_tell_the_host(host: HostView)
    ensures
        has_text(host_details(host), host.address + ":"@ + decimal(host.port as nat)),
        has_text(
            host_details(host),
            decimal(host.resolution.width as nat) + seq!['x'] + decimal(
                host.resolution.height as nat,
            ),
        ),
        has_text(host_details(host), " @ "@ + decimal(host.framerate as nat) + "fps "@),
        has_text(
            host_details(host),
            if host.codec == Codec::H265 {
                "h265"@
            } else {
                "av1"@
            },
        ),
{
    let e = Seq::<char>::empty();
    let a = host.address + ":"@ + decimal(host.port as nat);
    let r = host.resolution.text();
    let f = " @ "@ + decimal(host.framerate as nat) + "fps "@;
    let c = host.codec.text();
    let t1 = a + "   "@ + r;
    let t2 = t1 + " @ "@ + decimal(host.framerate as nat) + "fps "@;
    assert(t2 =~= t1 + f);
    let t3 = t2 + c;
    assert(t3 == host_details(host));
    assert(e + a =~= a);
    lemma_has_text_end(e, a);
    lemma_has_text_add(a, a, "   "@);
    lemma_has_text_add(a + "   "@, a, r);
    lemma_has_text_add(t1, a, f);
    lemma_has_text_add(t2, a, c);
    lemma_has_text_end(a + "   "@, r);
    lemma_has_text_add(t1, r, f);
    lemma_has_text_add(t2, r, c);
    lemma_has_text_end(t1, f);
    lemma_has_text_add(t2, f, c);
    lemma_has_text_end(t2, c);
}

/// A text field of the editor in a row.
pub open spec fn is_field(
    w: WidgetView,
    row: int,
    label: Seq<char>,
    value: Seq<char>,
    focus: usize,
    editing: bool,
) -> bool {
    w == (WidgetView::Field {
        rect: rows(8)[row],
        label,
        value,
        focused: focus == row,
        editing: editing && focus == row,
    })
}

/// A choice of the editor in a row.
pub open spec fn is_choice(
    w: WidgetView,
    row: int,
    label: Seq<char>,
    value: Seq<char>,
    focus: usize,
) -> bool {
    w == (WidgetView::Choice { rect: rows(8)[row], label, value, focused: focus == row })
}

/// The editor shows every value of the host behind its own name.
pub proof fn law_editor_shows_the_host(
    adding: bool,
    draft: HostView,
    port_text: Seq<char>,
    focus: usize,
    editing: bool,
)
    ensures
        ({
            let w = host_edit_widgets(adding, draft, port_text, focus, editing);
            &&& w.len() == 10
            &&& is_field(w[1], 0, "Name"@, draft.name, focus, editing)
            &&& is_field(w[2], 1, "Address"@, draft.address, focus, editing)
            &&& is_field(w[3], 2, "Port"@, port_text, focus, editing)
            &&& is_choice(
                w[4],
                3,
                "Resolution"@,
                decimal(draft.resolution.width as nat) + seq!['x'] + decimal(
                    draft.resolution.height as nat,
                ),
                focus,
            )
            &&& is_choice(w[5], 4, "Framerate"@, decimal(draft.framerate as nat), focus)
            &&& is_choice(
                w[6],
                5,
                "Codec"@,
                if draft.codec == Codec::H265 {
                    "h265"@
                } else {
                    "av1"@
                },
                focus,
            )
            &&& is_button(w[7], 8, 6, "Save"@, focus)
            &&& is_button(w[8], 8, 7, "Cancel"@, focus)
            &&& w[0] matches WidgetView::Label { text, .. } && text == if adding {
                "Add host"@
            } else {
                "Edit host"@
            }
        }),
{
}

/// A toggle of the settings in a row.
pub open spec fn is_toggle(
    w: WidgetView,
    row: int,
    label: Seq<char>,
    value: bool,
    focus: usize,
) -> bool {
    w == (WidgetView::Toggle { rect: rows(5)[row], label, value, focused: focus == row })
}

/// The settings show every toggle as it stands.
pub proof fn law_settings_show_the_toggles(m: ModelView, focus: usize)
    ensures
        ({
            let w = settings_widgets(m, focus);
            &&& w.len() == 7
            &&& is_toggle(w[1], 0, "Fullscreen"@, m.cfg.fullscreen, focus)
            &&& is_toggle(w[2], 1, "Gamepad pass-through"@, m.cfg.gamepad_passthrough, focus)
            &&& is_toggle(w[3], 2, "USB forward (Valve hardware)"@, m.cfg.usb_forward, focus)
            &&& is_toggle(w[4], 3, "Microphone forward"@, m.cfg.mic_forward.enabled, focus)
            &&& is_button(w[5], 5, 4, "Back"@, focus)
        }),
{
}

/// A banner lies on top: the host that is being connected to, or else the
/// error; without either there is none.
pub proof fn law_banner_tells_what_goes_on(
    m: ModelView,
    error: Seq<char>,
    host: Seq<char>,
)
    ensures
        banner_widgets(m.error, Some(host)).len() == 1,
        banner_widgets(m.error, Some(host))[0] matches WidgetView::Banner { text, .. } && text
            == "Connecting to "@ + host + "…  (B / Esc to cancel)"@,
        banner_widgets(Some(error), None) == seq![
            WidgetView::Banner {
                text: error,
                background: Tint::ErrorBackground,
                foreground: Tint::ErrorText,
            },
        ],
        banner_widgets(None, None).len() == 0,
        shown(m, Some(host)).last() == banner_widgets(m.error, Some(host))[0],
{
}

/// A field shows its value, with a cursor behind it while it is typed into; an
/// empty one shows a dash.
pub proof fn law_field_shows_its_value(value: Seq<char>)
    ensures
        field_shows(value, true) == value + "_"@,
        value.len() > 0 ==> field_shows(value, false) == value,
        field_shows(Seq::empty(), false) == "—"@,
{
}

/// The label of a row stands at its left and its value at its right: the
/// details of a host, the state of a toggle, the text of a field.
pub proof fn law_rows_show_label_and_value(
    rect: Rect,
    label: Seq<char>,
    value: Seq<char>,
    on: bool,
    focused: bool,
    editing: bool,
    line: int,
    width: int,
)
    ensures
        ({
            let host = runs_of(
                WidgetView::HostRow { rect, label, details: value, focused },
                line,
                width,
            );
            let button = runs_of(WidgetView::Button { rect, label, focused }, line, width);
            let toggle = runs_of(
                WidgetView::Toggle { rect, label, value: on, focused },
                line,
                width,
            );
            let field = runs_of(
                WidgetView::Field { rect, label, value, focused, editing },
                line,
                width,
            );
            let choice = runs_of(
                WidgetView::Choice { rect, label, value, focused },
                line,
                width,
            );
            &&& labelled(host[0], rect, label) && labelled(button[0], rect, label) && labelled(
                toggle[0],
                rect,
                label,
            ) && labelled(field[0], rect, label) && labelled(choice[0], rect, label)
            &&& valued(host[1], rect, value)
            &&& valued(
                toggle[1],
                rect,
                if on {
                    "on"@
                } else {
                    "off"@
                },
            )
            &&& valued(field[1], rect, field_shows(value, editing))
            &&& choice[2].text == value && choice[2].right
            &&& choice[1].text == ">"@ && choice[3].text == "<"@
            &&& button.len() == 1
        }),
{
}

/// A text starts at the left of a row.
pub open spec fn labelled(run: RunView, rect: Rect, label: Seq<char>) -> bool {
    run.text == label && !run.right && run.x == rect.left() + 16
}

/// A text ends at the right of a row.
pub open spec fn valued(run: RunView, rect: Rect, value: Seq<char>) -> bool {
    run.text == value && run.right && run.x == rect.left() + rect.wide() - 16
}

/// The names of codecs and resolutions are what a user writes for them.
pub proof fn law_names_are_what_users_write(r: Resolution)
    ensures
        Codec::H265.text() == "h265"@,
        Codec::Av1.text() == "av1"@,
        r.text() == decimal(r.width as nat) + seq!['x'] + decimal(r.height as nat),
{
}

/// A client that was never configured is in fullscreen, passes gamepads
/// through and forwards USB devices, and asks for 1080p at 60 frames per
/// second on port 9000.
pub proof fn law_defaults_are_sensible()
    ensures
        ({
            let c = ConfigView::initial();
            &&& c.server_address.len() == 0 && c.hosts.len() == 0
            &&& c.port == 9000
            &&& c.fullscreen && c.gamepad_passthrough && c.usb_forward
            &&& !c.forward_builtin_controller && !c.mic_forward.enabled
            &&& c.mic_forward.port == 9001
            &&& c.mic_forward.rsonance_binary == "rsonance"@
            &&& c.resolution == (Resolution { width: 1920, height: 1080 })
            &&& c.framerate == 60
            &&& c.codec == Codec::H265
        }),
{
}

/// The text of a row stands halfway between its top and its bottom.
pub open spec fn halfway(run: RunView, rect: Rect, line: int) -> bool {
    -1 <= 2 * (run.y - rect.top()) + line - rect.high() <= 1
}

/// The label of a row stands 16 from its left edge and its value 16 from its
/// right edge, both halfway down.
pub proof fn law_texts_stand_in_their_row(
    rect: Rect,
    label: Seq<char>,
    value: Seq<char>,
    on: bool,
    focused: bool,
    line: int,
    width: int,
)
    ensures
        ({
            let rows = seq![
                runs_of(WidgetView::HostRow { rect, label, details: value, focused }, line, width),
                runs_of(WidgetView::Button { rect, label, focused }, line, width),
                runs_of(WidgetView::Toggle { rect, label, value: on, focused }, line, width),
                runs_of(WidgetView::Choice { rect, label, value, focused }, line, width),
                runs_of(
                    WidgetView::Field { rect, label, value, focused, editing: on },
                    line,
                    width,
                ),
            ];
            let edge = rect.left() + rect.wide() - 16;
            &&& forall|i: int|
                0 <= i < 5 ==> {
                    let run = #[trigger] rows[i][0];
                    &&& run.text == label
                    &&& run.x == rect.left() + 16
                    &&& !run.right
                    &&& halfway(run, rect, line)
                }
            &&& rows[0].len() == 2 && rows[1].len() == 1 && rows[2].len() == 2 && rows[3].len() == 4
                && rows[4].len() == 2
            &&& rows[0][1].x == edge && rows[0][1].right && halfway(rows[0][1], rect, line)
            &&& rows[2][1].x == edge && rows[2][1].right && halfway(rows[2][1], rect, line)
            &&& rows[3][1].x == edge && rows[3][1].right && halfway(rows[3][1], rect, line)
            &&& rows[3][2].x == edge - 24 && rows[3][2].right && halfway(rows[3][2], rect, line)
            &&& rows[3][3].x == edge - 32 - width && rows[3][3].right && halfway(
                rows[3][3],
                rect,
                line,
            )
            &&& rows[4][1].x == edge && rows[4][1].right && halfway(rows[4][1], rect, line)
        }),
{
}

} // verus!
