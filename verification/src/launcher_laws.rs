//! What the launcher is for: what is typed and chosen is what is saved, shown
//! and asked of the server.
use crate::config::{shown_hosts, Codec, ConfigView, HostView, Resolution};
use crate::launch::{
    attempt_action, attempt_banner, batch, direct_view, request_for, shown_name, Attempt,
    AttemptAction,
};
use crate::launcher::{
    next_codec, next_framerate, next_resolution, rows, session_view, typed, Effect, ModelView,
    ScreenView, MAX_HOSTS,
};
use crate::text::{
    byte_len, decimal, digits_value, is_control, lemma_decimal_reads_back, parse_uint,
};
use crate::widgets::{first_hit, law_rect_held, FocusList, NavView};
use vstd::prelude::*;

verus! {

/// The number that a row of digits shows.
pub open spec fn number_shown(digits: Seq<char>) -> nat
    decreases digits.len(),
{
    if digits.len() == 0 {
        0
    } else {
        number_shown(digits.drop_last()) * 10 + (digits.last() as nat - '0' as nat) as nat
    }
}

/// The text is a row of digits.
pub open spec fn all_digits(text: Seq<char>) -> bool {
    forall|i: int| 0 <= i < text.len() ==> '0' <= #[trigger] text[i] <= '9'
}

proof fn lemma_digits_shown(text: Seq<char>)
    requires
        all_digits(text),
    ensures
        digits_value(text, 10) == Some(number_shown(text)),
    decreases text.len(),
{
    if text.len() > 0 {
        let front = text.drop_last();
        assert forall|i: int| 0 <= i < front.len() implies '0' <= #[trigger] front[i] <= '9' by {
            assert(front[i] == text[i]);
        }
        lemma_digits_shown(front);
        assert('0' <= text[text.len() - 1] <= '9');
    }
}

/// The digits that a number is written with show that number.
pub proof fn law_decimal_shows_its_number(n: nat)
    ensures
        decimal(n).len() > 0,
        all_digits(decimal(n)),
        number_shown(decimal(n)) == n,
{
    lemma_decimal_reads_back(n);
    lemma_digits_shown(decimal(n));
}

/// A row of digits is read as the number that it shows, if that is in range.
pub proof fn law_digits_read_as_shown(text: Seq<char>, max: nat)
    requires
        all_digits(text),
    ensures
        parse_uint(text, 10, max) == (if text.len() > 0 && number_shown(text) <= max {
            Some(number_shown(text))
        } else {
            None
        }),
{
    lemma_digits_shown(text);
    if text.len() > 0 {
        assert('0' <= text[0] <= '9');
    }
}

/// A screen that edits a host, without a field being typed into.
pub open spec fn editing_host(
    m: ModelView,
    index: Option<usize>,
    draft: HostView,
    port_text: Seq<char>,
    row: usize,
) -> bool {
    m.screen == (ScreenView::HostEdit {
        index,
        draft,
        port_text,
        focus: FocusList { count: 8, focus: row },
        editing: false,
    })
}

/// The row that a saved host gets: the one it was opened from, or a new one at
/// the end.
pub open spec fn saved_row(m: ModelView, index: Option<usize>) -> int {
    match index {
        Some(i) => i as int,
        None => m.cfg.hosts.len() as int,
    }
}

/// Saving keeps exactly what the editor shows: name, address, resolution,
/// frame rate and codec as they stand in it, as port the number that the port
/// field shows, and the bitrate that the host had. No other host changes, nor
/// any setting. It is refused exactly without an address or without a port
/// number.
pub proof fn law_save_keeps_what_is_shown(
    m: ModelView,
    index: Option<usize>,
    draft: HostView,
    port_text: Seq<char>,
)
    requires
        m.wf(),
        editing_host(m, index, draft, port_text, 6),
        all_digits(port_text),
    ensures
        ({
            let (after, effect) = m.step(NavView::Activate);
            let row = saved_row(m, index);
            let accepted = draft.address.len() > 0 && port_text.len() > 0 && number_shown(
                port_text,
            ) <= 65535;
            &&& accepted <==> effect == Effect::Save
            &&& accepted ==> {
                &&& after.cfg.hosts.len() == if index is Some {
                    m.cfg.hosts.len()
                } else {
                    m.cfg.hosts.len() + 1
                }
                &&& after.cfg.hosts[row].port == number_shown(port_text)
                &&& after.cfg.hosts[row].name == draft.name
                &&& after.cfg.hosts[row].address == draft.address
                &&& after.cfg.hosts[row].resolution == draft.resolution
                &&& after.cfg.hosts[row].framerate == draft.framerate
                &&& after.cfg.hosts[row].codec == draft.codec
                &&& after.cfg.hosts[row].bitrate == draft.bitrate
                &&& forall|i: int|
                    0 <= i < m.cfg.hosts.len() && i != row ==> #[trigger] after.cfg.hosts[i]
                        == m.cfg.hosts[i]
                &&& after.cfg == (ConfigView { hosts: after.cfg.hosts, ..m.cfg })
                &&& after.screen matches ScreenView::HostList { focus } && focus.focus == row
                &&& after.error is None
            }
            &&& !accepted ==> {
                &&& after.cfg == m.cfg
                &&& after.screen == m.screen
                &&& after.error is Some
                &&& effect == Effect::Nothing
            }
        }),
{
    law_digits_read_as_shown(port_text, 65535);
}

/// What was saved opens in the editor as it was: the same values in every
/// field, and the port as its number is written. So a number that was typed
/// without leading zeros shows as it was typed.
pub proof fn law_saved_host_opens_as_saved(
    m: ModelView,
    index: Option<usize>,
    draft: HostView,
    port: u16,
)
    requires
        m.wf(),
        editing_host(m, index, draft, decimal(port as nat), 6),
        draft.address.len() > 0,
    ensures
        ({
            let saved = m.step(NavView::Activate).0;
            let (opened, effect) = saved.step(NavView::Edit);
            &&& effect == Effect::Nothing
            &&& opened.cfg == saved.cfg
            &&& editing_host(
                opened,
                Some(saved_row(m, index) as usize),
                HostView { port, ..draft },
                decimal(port as nat),
                0,
            )
        }),
{
    law_decimal_shows_its_number(port as nat);
    law_save_keeps_what_is_shown(m, index, draft, decimal(port as nat));
    let saved = m.step(NavView::Activate).0;
    assert(saved.cfg.hosts[saved_row(m, index)] == HostView { port, ..draft });
}

/// Opening a host and saving it at once changes nothing.
pub proof fn law_open_and_save_changes_nothing(m: ModelView, row: usize)
    requires
        m.wf(),
        m.screen == (ScreenView::HostList {
            focus: FocusList { count: (m.cfg.hosts.len() + 3) as usize, focus: row },
        }),
        row < m.cfg.hosts.len(),
        m.cfg.hosts[row as int].address.len() > 0,
    ensures
        ({
            let host = m.cfg.hosts[row as int];
            let opened = m.step(NavView::Edit).0;
            let at_save = opened.with_screen(
                ScreenView::HostEdit {
                    index: Some(row),
                    draft: host,
                    port_text: decimal(host.port as nat),
                    focus: FocusList { count: 8, focus: 6 },
                    editing: false,
                },
            );
            &&& editing_host(opened, Some(row), host, decimal(host.port as nat), 0)
            &&& at_save.step(NavView::Activate).0.cfg == m.cfg
        }),
{
    let host = m.cfg.hosts[row as int];
    let opened = m.step(NavView::Edit).0;
    let at_save = opened.with_screen(
        ScreenView::HostEdit {
            index: Some(row),
            draft: host,
            port_text: decimal(host.port as nat),
            focus: FocusList { count: 8, focus: 6 },
            editing: false,
        },
    );
    law_decimal_shows_its_number(host.port as nat);
    law_save_keeps_what_is_shown(at_save, Some(row), host, decimal(host.port as nat));
    let after = at_save.step(NavView::Activate).0;
    assert(after.cfg.hosts[row as int] == host);
    assert(after.cfg.hosts =~= m.cfg.hosts);
}

/// Typed text is appended as it is, as long as it is printable and fits: 64
/// bytes in all, or five digits for a port.
pub proof fn law_typed_text_is_appended(field: usize, text: Seq<char>, input: Seq<char>)
    requires
        field <= 2,
        field < 2 ==> byte_len(text + input) <= 64 && forall|i: int|
            0 <= i < input.len() ==> !is_control(#[trigger] input[i]),
        field == 2 ==> all_digits(text) && all_digits(input) && text.len() + input.len() <= 5,
    ensures
        typed(field, text, input) == text + input,
    decreases input.len(),
{
    if input.len() == 0 {
        assert(text + input =~= text);
    } else {
        let front = input.drop_last();
        let c = input.last();
        assert forall|i: int| 0 <= i < front.len() implies #[trigger] front[i] == input[i] by {}
        assert(text + input =~= (text + front).push(c));
        lemma_push_longer(text + front, c);
        law_typed_text_is_appended(field, text, front);
        assert(input[input.len() - 1] == c);
        if field == 2 {
            assert(all_digits(text + front)) by {
                assert forall|i: int| 0 <= i < (text + front).len() implies '0'
                    <= #[trigger] (text + front)[i] <= '9' by {
                    if i >= text.len() {
                        assert((text + front)[i] == front[i - text.len()]);
                    }
                }
            }
            assert(vstd::utf8::is_ascii_chars(text + front));
            vstd::utf8::is_ascii_chars_encode_utf8(text + front);
        }
    }
}

/// A character takes bytes.
proof fn lemma_push_longer(text: Seq<char>, c: char)
    ensures
        byte_len(text) < byte_len(text.push(c)),
    decreases text.len(),
{
    let s = text.push(c);
    assert(s.len() > 0);
    if text.len() == 0 {
        assert(s.drop_first() =~= Seq::empty());
    } else {
        assert(s.drop_first() =~= text.drop_first().push(c));
        assert(s[0] == text[0]);
        lemma_push_longer(text.drop_first(), c);
    }
}

/// A screen on which a field is typed into.
pub open spec fn typing(
    m: ModelView,
    index: Option<usize>,
    draft: HostView,
    port_text: Seq<char>,
    row: usize,
) -> bool {
    m.screen == (ScreenView::HostEdit {
        index,
        draft,
        port_text,
        focus: FocusList { count: 8, focus: row },
        editing: true,
    })
}

/// Text goes into the field that has the focus and into no other: the name in
/// the first row, the address in the second, the port in the third. Erasing
/// takes the last character of that field.
pub proof fn law_text_goes_to_its_field(
    m: ModelView,
    index: Option<usize>,
    draft: HostView,
    port_text: Seq<char>,
    row: usize,
    s: Seq<char>,
)
    requires
        typing(m, index, draft, port_text, row),
        row <= 2,
    ensures
        ({
            let after = m.step(NavView::Text(s)).0;
            let erased = m.step(NavView::Backspace).0;
            &&& after.cfg == m.cfg && erased.cfg == m.cfg
            &&& row == 0 ==> {
                &&& typing(
                    after,
                    index,
                    HostView { name: typed(0, draft.name, s), ..draft },
                    port_text,
                    0,
                )
                &&& draft.name.len() > 0 ==> typing(
                    erased,
                    index,
                    HostView { name: draft.name.drop_last(), ..draft },
                    port_text,
                    0,
                )
            }
            &&& row == 1 ==> {
                &&& typing(
                    after,
                    index,
                    HostView { address: typed(1, draft.address, s), ..draft },
                    port_text,
                    1,
                )
                &&& draft.address.len() > 0 ==> typing(
                    erased,
                    index,
                    HostView { address: draft.address.drop_last(), ..draft },
                    port_text,
                    1,
                )
            }
            &&& row == 2 ==> {
                &&& typing(after, index, draft, typed(2, port_text, s), 2)
                &&& port_text.len() > 0 ==> typing(erased, index, draft, port_text.drop_last(), 2)
            }
        }),
{
}

/// Activating a text field starts typing into it, and activating it again, or
/// going back, ends that; nothing else changes.
pub proof fn law_typing_starts_and_ends(
    m: ModelView,
    index: Option<usize>,
    draft: HostView,
    port_text: Seq<char>,
    row: usize,
)
    requires
        editing_host(m, index, draft, port_text, row),
        row <= 2,
    ensures
        ({
            let (inside, started) = m.step(NavView::Activate);
            let (outside, ended) = inside.step(NavView::Activate);
            &&& typing(inside, index, draft, port_text, row)
            &&& started == Effect::EditingChanged(true)
            &&& editing_host(outside, index, draft, port_text, row)
            &&& ended == Effect::EditingChanged(false)
            &&& outside == inside.step(NavView::Back).0
            &&& inside.cfg == m.cfg && outside.cfg == m.cfg
        }),
{
}

/// Left and right step the choice that has the focus and no other value: the
/// resolution in the fourth row, the frame rate in the fifth, the codec in the
/// sixth. Activating steps it forward.
pub proof fn law_choices_change_their_value(
    m: ModelView,
    index: Option<usize>,
    draft: HostView,
    port_text: Seq<char>,
    row: usize,
)
    requires
        editing_host(m, index, draft, port_text, row),
        3 <= row <= 5,
    ensures
        ({
            let right = m.step(NavView::Right).0;
            let left = m.step(NavView::Left).0;
            &&& right == m.step(NavView::Activate).0
            &&& right.cfg == m.cfg && left.cfg == m.cfg
            &&& row == 3 ==> editing_host(
                right,
                index,
                HostView { resolution: next_resolution(draft.resolution, true), ..draft },
                port_text,
                3,
            ) && editing_host(
                left,
                index,
                HostView { resolution: next_resolution(draft.resolution, false), ..draft },
                port_text,
                3,
            )
            &&& row == 4 ==> editing_host(
                right,
                index,
                HostView { framerate: next_framerate(draft.framerate, true), ..draft },
                port_text,
                4,
            ) && editing_host(
                left,
                index,
                HostView { framerate: next_framerate(draft.framerate, false), ..draft },
                port_text,
                4,
            )
            &&& row == 5 ==> editing_host(
                right,
                index,
                HostView { codec: next_codec(draft.codec), ..draft },
                port_text,
                5,
            ) && left.screen == right.screen
        }),
{
}

/// The presets go from small to large and start over behind the largest; a
/// value that is none goes to the default. Two codecs take turns.
pub proof fn law_presets_grow(r: Resolution, f: u32, c: Codec)
    ensures
        next_framerate(f, true) == (if f == 30 {
            60u32
        } else if f == 60 {
            90
        } else if f == 90 {
            120
        } else if f == 120 {
            30
        } else {
            60
        }),
        ({
            let n = next_resolution(r, true);
            if r == (Resolution { width: 1280, height: 800 }) {
                n.width == 1920 && n.height == 1080
            } else if r == (Resolution { width: 1920, height: 1080 }) {
                n.width == 2560 && n.height == 1440
            } else if r == (Resolution { width: 2560, height: 1440 }) {
                n.width == 3440 && n.height == 1440
            } else if r == (Resolution { width: 3440, height: 1440 }) {
                n.width == 3840 && n.height == 2160
            } else {
                n.width == 1280 && n.height == 800
            }
        }),
        next_codec(c) != c,
        next_codec(next_codec(c)) == c,
{
    let fs = crate::launcher::framerate_presets();
    let rs = crate::launcher::resolution_presets();
    assert(fs[0] == 30 && fs[1] == 60 && fs[2] == 90 && fs[3] == 120);
    if fs.contains(f) {
        let i = fs.index_of(f);
        assert(fs[i] == f);
    }
    assert(fs.contains(30) && fs.contains(60) && fs.contains(90) && fs.contains(120)) by {
        assert(fs.contains(fs[0]) && fs.contains(fs[1]) && fs.contains(fs[2]) && fs.contains(
            fs[3],
        ));
    }
    assert(rs.contains(rs[0]) && rs.contains(rs[1]) && rs.contains(rs[2]) && rs.contains(rs[3])
        && rs.contains(rs[4]));
    if rs.contains(r) {
        let i = rs.index_of(r);
        assert(rs[i] == r);
    }
}

/// The host list with the focus on a row.
pub open spec fn listing(m: ModelView, row: usize) -> bool {
    m.screen == (ScreenView::HostList {
        focus: FocusList { count: (m.cfg.hosts.len() + 3) as usize, focus: row },
    })
}

/// On the host list, activating a host connects to it; the rows below add a
/// host, open the settings, and quit. Editing opens the host of the row with
/// its values; deleting takes out that host and no other; going back quits.
pub proof fn law_rows_of_the_host_list(m: ModelView, row: usize)
    requires
        m.wf(),
        listing(m, row),
    ensures
        ({
            let hosts = m.cfg.hosts;
            let (activated, effect) = m.step(NavView::Activate);
            let (edited, edit) = m.step(NavView::Edit);
            let (deleted, delete) = m.step(NavView::Delete);
            &&& activated.cfg == m.cfg && edited.cfg == m.cfg
            &&& m.step(NavView::Back).1 == Effect::Quit
            &&& row < hosts.len() ==> {
                &&& effect == Effect::Connect(row)
                &&& m.step(NavView::ConnectShortcut).1 == Effect::Connect(row)
                &&& editing_host(
                    edited,
                    Some(row),
                    hosts[row as int],
                    decimal(hosts[row as int].port as nat),
                    0,
                )
                &&& delete == Effect::Save
                &&& deleted.cfg.hosts.len() == hosts.len() - 1
                &&& forall|i: int|
                    0 <= i < row ==> #[trigger] deleted.cfg.hosts[i] == hosts[i]
                &&& forall|i: int|
                    row <= i < hosts.len() - 1 ==> #[trigger] deleted.cfg.hosts[i] == hosts[i + 1]
            }
            &&& row >= hosts.len() ==> {
                &&& deleted.cfg == m.cfg && delete == Effect::Nothing
                &&& edit == Effect::Nothing
                &&& m.step(NavView::ConnectShortcut).1 == if hosts.len() > 0 {
                    Effect::Connect(0)
                } else {
                    Effect::Nothing
                }
            }
            &&& row == hosts.len() ==> effect == Effect::Nothing && editing_host(
                activated,
                None,
                HostView {
                    name: Seq::empty(),
                    address: Seq::empty(),
                    port: 9000,
                    resolution: Resolution { width: 1920, height: 1080 },
                    framerate: 60,
                    codec: Codec::H265,
                    bitrate: 0,
                },
                decimal(9000),
                0,
            )
            &&& row == hosts.len() + 1 ==> activated.screen is Settings && effect
                == Effect::Nothing
            &&& row == hosts.len() + 2 ==> effect == Effect::Quit
        }),
{
}

/// Up and down move the focus by one row and stop at the ends.
pub proof fn law_focus_moves_by_one(m: ModelView, row: usize)
    requires
        m.wf(),
        listing(m, row),
    ensures
        row > 0 ==> listing(m.step(NavView::Up).0, (row - 1) as usize),
        row == 0 ==> listing(m.step(NavView::Up).0, 0),
        row < m.cfg.hosts.len() + 2 ==> listing(m.step(NavView::Down).0, (row + 1) as usize),
        row == m.cfg.hosts.len() + 2 ==> listing(m.step(NavView::Down).0, row),
{
}

/// The screen with the focus on another row.
pub open spec fn focused_on(m: ModelView, row: usize) -> ModelView {
    m.with_screen(
        match m.screen {
            ScreenView::HostList { focus } => ScreenView::HostList {
                focus: FocusList { focus: row, ..focus },
            },
            ScreenView::HostEdit { index, draft, port_text, focus, editing } => {
                ScreenView::HostEdit {
                    index,
                    draft,
                    port_text,
                    focus: FocusList { focus: row, ..focus },
                    editing,
                }
            },
            ScreenView::Settings { focus } => ScreenView::Settings {
                focus: FocusList { focus: row, ..focus },
            },
        },
    )
}

/// How many rows a screen has.
pub open spec fn row_count(m: ModelView) -> nat {
    match m.screen {
        ScreenView::HostList { .. } => m.cfg.hosts.len() + 3,
        ScreenView::HostEdit { .. } => 8,
        ScreenView::Settings { .. } => 5,
    }
}

/// A click on a row does what moving the focus there and activating it does.
pub proof fn law_click_is_focus_and_activate(m: ModelView, x: i32, y: i32, row: int)
    requires
        m.wf(),
        !(m.screen is HostEdit && m.screen->editing),
        first_hit(rows(row_count(m)), x, y) == Some(row),
        0 <= row < row_count(m),
    ensures
        m.step(NavView::PointerClick(x, y)) == focused_on(m, row as usize).step(
            NavView::Activate,
        ),
        m.step(NavView::PointerMove(x, y)).0 == focused_on(m, row as usize),
        m.step(NavView::PointerMove(x, y)).1 == Effect::Nothing,
{
}

/// The session with a saved host goes to that host and is set up and asked for
/// with that host's resolution, frame rate and codec; what is asked agrees
/// with what is set up, and the bitrate is the host's.
pub proof fn law_request_matches_session(cfg: ConfigView, host: HostView)
    ensures
        ({
            let session = session_view(cfg, host);
            let request = request_for(host);
            &&& session.server_address == host.address
            &&& session.port == host.port
            &&& session.resolution == host.resolution
            &&& session.framerate == host.framerate
            &&& session.codec == host.codec
            &&& request.width == session.resolution.width
            &&& request.height == session.resolution.height
            &&& request.framerate == session.framerate
            &&& request.codec == session.codec
            &&& request.bitrate_mbps == host.bitrate
        }),
{
}

/// A host that is made of the direct-connection fields is asked for the same
/// as a direct connection is: the resolution, frame rate and codec of the
/// configuration, and the server's own bitrate.
pub proof fn law_direct_request_is_the_hosts(cfg: ConfigView)
    requires
        cfg.hosts.len() == 0,
        cfg.server_address.len() > 0,
    ensures
        ({
            let host = shown_hosts(cfg)[0];
            &&& request_for(host) == direct_view(cfg)
            &&& session_view(cfg, host) == cfg
            &&& shown_name(host) == cfg.server_address
            &&& direct_view(cfg).width == cfg.resolution.width
            &&& direct_view(cfg).height == cfg.resolution.height
            &&& direct_view(cfg).framerate == cfg.framerate
            &&& direct_view(cfg).codec == cfg.codec
            &&& direct_view(cfg).bitrate_mbps == 0
        }),
{
}

/// Connecting ends in a session exactly if it succeeded and nobody cancelled;
/// a failure is shown with its reason, and a cancelled attempt as cancelled.
pub proof fn law_attempt_ends_as_it_went(cancelled: bool, e: String)
    ensures
        attempt_action(cancelled, Attempt::Connected) == AttemptAction::StartSession
            <==> !cancelled,
        attempt_action(true, Attempt::Connected) == AttemptAction::CloseSession,
        attempt_action(true, Attempt::Pending) == AttemptAction::Abort,
        attempt_action(false, Attempt::Pending) == AttemptAction::Wait,
        attempt_action(cancelled, Attempt::Failed(e)) == AttemptAction::Over,
        attempt_action(cancelled, Attempt::Died) == AttemptAction::Over,
        attempt_banner(false, Attempt::Pending) is None,
        attempt_banner(cancelled, Attempt::Connected) is None,
        attempt_banner(false, Attempt::Failed(e)) == Some("Connection failed: "@ + e@),
        attempt_banner(true, Attempt::Failed(e)) == attempt_banner(true, Attempt::Pending),
        attempt_banner(true, Attempt::Pending) == Some("Connection cancelled"@),
{
}

/// Cancelling does what going back does: the list comes back with the focus on
/// the host, and no host has changed.
pub proof fn law_cancel_is_back(
    m: ModelView,
    index: Option<usize>,
    draft: HostView,
    port_text: Seq<char>,
)
    requires
        m.wf(),
        editing_host(m, index, draft, port_text, 7),
    ensures
        m.step(NavView::Activate) == m.step(NavView::Back),
        m.step(NavView::Back).0.cfg == m.cfg,
        m.step(NavView::Back).0.screen is HostList,
        index matches Some(i) ==> listing(m.step(NavView::Back).0, i),
{
}

/// The rows of a screen stand below each other: 56 high, 10 apart, from 150 on
/// and 80 from either side, as far as there are coordinates.
pub proof fn law_rows_stand_in_a_column(count: nat, i: int)
    requires
        0 <= i < count,
        count <= MAX_HOSTS,
    ensures
        rows(count).len() == count,
        rows(count)[i].left() == 80,
        rows(count)[i].top() == if 150 + i * 66 <= 1073741823 {
            150 + i * 66
        } else {
            1073741823
        },
        rows(count)[i].wide() == 1120,
        rows(count)[i].high() == 56,
{
    law_rect_held(80, (150 + i * 66) as i32, 1120, 56);
}

/// Two batches one after the other do what the whole does, unless the first
/// already connects or quits; nothing behind that counts.
pub proof fn law_batches_add_up(m: ModelView, a: Seq<NavView>, b: Seq<NavView>)
    ensures
        ({
            let (mid, first) = batch(m, a);
            let (end, second) = batch(mid, b);
            let ended = first.len() > 0 && (first.last() is Connect || first.last() is Quit);
            &&& !ended ==> batch(m, a + b) == (end, first + second)
            &&& ended ==> batch(m, a + b) == (mid, first)
            &&& !ended ==> first.len() == a.len()
        }),
    decreases a.len(),
{
    if a.len() == 0 {
        assert(a + b =~= b);
        assert(batch(m, a).1 + batch(m, b).1 =~= batch(m, b).1);
    } else {
        let (next, effect) = m.step(a[0]);
        let rest = a.skip(1);
        assert((a + b).skip(1) =~= rest + b);
        assert((a + b)[0] == a[0]);
        if effect is Connect || effect is Quit {
            assert(batch(m, a).1.last() == effect);
        } else {
            law_batches_add_up(next, rest, b);
            let (mid, first) = batch(next, rest);
            let whole = seq![effect] + first;
            assert(batch(m, a) == (mid, whole));
            if first.len() == 0 {
                assert(whole.last() == effect);
            } else {
                assert(whole.last() == first.last());
            }
            let second = batch(mid, b).1;
            assert(whole + second =~= seq![effect] + (first + second));
        }
    }
}

/// One event is a batch of one.
pub proof fn law_batch_of_one(m: ModelView, event: NavView)
    ensures
        batch(m, seq![event]) == (m.step(event).0, seq![m.step(event).1]),
{
    assert(seq![event].skip(1) =~= Seq::<NavView>::empty());
    assert(seq![event][0] == event);
    assert(seq![m.step(event).1] + Seq::<Effect>::empty() =~= seq![m.step(event).1]);
    reveal_with_fuel(batch, 2);
}

} // verus!
