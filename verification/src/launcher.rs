//! The launcher's state machine: host list, host editor and settings.
//!
//! [`Model`] consumes [`NavEvent`]s and emits [`Effect`]s. Whoever owns the
//! window draws the model and carries the effects out.
use crate::config::{
    effective_hosts, host_views, shown_hosts, ClientConfig, Codec, ConfigView, HostEntry, HostView,
    MicForwardView, Resolution, DEFAULT_PORT,
};
use crate::text::{
    byte_len, chars_of, control_char, copy_text, decimal, decimal_text, is_control, parse_number,
    parse_uint, text_len,
};
use crate::widgets::{column, layout_rows, lemma_first_hit, FocusList, NavEvent, NavView, Rect};
use vstd::prelude::*;

verus! {

/// Extra rows below the hosts on the main screen: add host, settings, quit.
pub const HOST_LIST_EXTRA: usize = 3;

/// Fields on the host-edit screen: name, address, port, resolution, frame
/// rate, codec, save, cancel.
pub const EDIT_FIELDS: usize = 8;

/// Rows on the settings screen: four toggles and back.
pub const SETTINGS_ROWS: usize = 5;

/// Top of the first row.
pub const ROW_TOP: i32 = 150;

/// Height of a row.
pub const ROW_HEIGHT: u32 = 56;

/// Gap between rows.
pub const ROW_GAP: u32 = 10;

/// Horizontal margin of the rows.
pub const ROW_MARGIN: i32 = 80;

/// The host list that fills the coordinates of the screen.
pub const MAX_HOSTS: usize = 32537626;

/// Field of the host editor.
pub const FIELD_NAME: usize = 0;

/// Field of the host editor.
pub const FIELD_ADDRESS: usize = 1;

/// Field of the host editor.
pub const FIELD_PORT: usize = 2;

/// Field of the host editor.
pub const FIELD_RESOLUTION: usize = 3;

/// Field of the host editor.
pub const FIELD_FPS: usize = 4;

/// Field of the host editor.
pub const FIELD_CODEC: usize = 5;

/// Field of the host editor.
pub const FIELD_SAVE: usize = 6;

/// Field of the host editor.
pub const FIELD_CANCEL: usize = 7;

/// The launcher screen being shown.
#[derive(Debug)]
pub enum Screen {
    /// Main screen: saved hosts and the add/settings/quit rows.
    HostList { focus: FocusList },
    /// Add or edit a host.
    HostEdit {
        /// `None` = adding a new host.
        index: Option<usize>,
        draft: HostEntry,
        /// Port edited as text (digits only).
        port_text: String,
        focus: FocusList,
        /// A text field is in editing mode.
        editing: bool,
    },
    /// Global toggles.
    Settings { focus: FocusList },
}

/// What a [`Screen`] holds.
#[verifier::ext_equal]
pub enum ScreenView {
    HostList { focus: FocusList },
    HostEdit {
        index: Option<usize>,
        draft: HostView,
        port_text: Seq<char>,
        focus: FocusList,
        editing: bool,
    },
    Settings { focus: FocusList },
}

impl View for Screen {
    type V = ScreenView;

    open spec fn view(&self) -> ScreenView {
        match self {
            Screen::HostList { focus } => ScreenView::HostList { focus: *focus },
            Screen::HostEdit { index, draft, port_text, focus, editing } => ScreenView::HostEdit {
                index: *index,
                draft: draft@,
                port_text: port_text@,
                focus: *focus,
                editing: *editing,
            },
            Screen::Settings { focus } => ScreenView::Settings { focus: *focus },
        }
    }
}

/// Side effects that the owner of the window carries out for the model.
#[derive(Debug, Clone, Copy, PartialEq, Eq, Structural)]
pub enum Effect {
    /// Nothing to do.
    Nothing,
    /// Persist the config to disk.
    Save,
    /// Open a connection to a host of the list.
    Connect(usize),
    /// Exit the launcher (and the client).
    Quit,
    /// A text field entered/left editing mode.
    EditingChanged(bool),
}

/// Launcher state: the config being edited and the screen.
#[derive(Debug)]
pub struct Model {
    pub cfg: ClientConfig,
    pub screen: Screen,
    pub error: Option<String>,
}

/// What a [`Model`] holds.
#[verifier::ext_equal]
pub struct ModelView {
    pub cfg: ConfigView,
    pub screen: ScreenView,
    pub error: Option<Seq<char>>,
}

/// The text of an error banner.
pub open spec fn banner_view(error: Option<String>) -> Option<Seq<char>> {
    match error {
        Some(s) => Some(s@),
        None => None,
    }
}

impl View for Model {
    type V = ModelView;

    open spec fn view(&self) -> ModelView {
        ModelView { cfg: self.cfg@, screen: self.screen@, error: banner_view(self.error) }
    }
}

/// The rows of a screen.
pub open spec fn rows(count: nat) -> Seq<Rect> {
    column(count, ROW_TOP, ROW_HEIGHT, ROW_GAP, ROW_MARGIN)
}

/// The preset behind a value in a cycle of presets, or the one before it;
/// the fallback if the value is no preset.
pub open spec fn cycled_preset<T>(presets: Seq<T>, current: T, forward: bool, fallback: T) -> T {
    if presets.contains(current) {
        let i = presets.index_of(current);
        let n = presets.len() as int;
        presets[if forward {
            (i + 1) % n
        } else {
            (i + n - 1) % n
        }]
    } else {
        fallback
    }
}

/// The resolutions that the editor cycles through.
pub open spec fn resolution_presets() -> Seq<Resolution> {
    seq![
        Resolution { width: 1280, height: 800 },
        Resolution { width: 1920, height: 1080 },
        Resolution { width: 2560, height: 1440 },
        Resolution { width: 3440, height: 1440 },
        Resolution { width: 3840, height: 2160 },
    ]
}

/// The frame rates that the editor cycles through.
pub open spec fn framerate_presets() -> Seq<u32> {
    seq![30u32, 60u32, 90u32, 120u32]
}

/// The next of the resolution presets, or the previous one; the first if
/// the resolution is none of them.
pub open spec fn next_resolution(r: Resolution, forward: bool) -> Resolution {
    cycled_preset(resolution_presets(), r, forward, Resolution { width: 1280, height: 800 })
}

/// The next of the frame rate presets, or the previous one; 60 if the rate
/// is none of them.
pub open spec fn next_framerate(f: u32, forward: bool) -> u32 {
    cycled_preset(framerate_presets(), f, forward, 60)
}

/// The other codec.
pub open spec fn next_codec(c: Codec) -> Codec {
    match c {
        Codec::H265 => Codec::Av1,
        Codec::Av1 => Codec::H265,
    }
}

/// A field takes the character: the port five digits, the others 64 bytes
/// without control characters.
pub open spec fn takes_char(field: usize, text: Seq<char>, c: char) -> bool {
    if field == FIELD_PORT {
        '0' <= c <= '9' && byte_len(text) < 5
    } else {
        !is_control(c) && byte_len(text) < 64
    }
}

/// A field's text after some typing.
pub open spec fn typed(field: usize, text: Seq<char>, input: Seq<char>) -> Seq<char>
    decreases input.len(),
{
    if input.len() == 0 {
        text
    } else {
        let before = typed(field, text, input.drop_last());
        if takes_char(field, before, input.last()) {
            before.push(input.last())
        } else {
            before
        }
    }
}

/// A text without its last character.
pub open spec fn erased(text: Seq<char>) -> Seq<char> {
    if text.len() == 0 {
        text
    } else {
        text.drop_last()
    }
}

/// What the host editor holds.
#[verifier::ext_equal]
pub struct EditView {
    pub index: Option<usize>,
    pub draft: HostView,
    pub port_text: Seq<char>,
    pub focus: FocusList,
    pub editing: bool,
}

impl EditView {
    pub open spec fn screen(self) -> ScreenView {
        ScreenView::HostEdit {
            index: self.index,
            draft: self.draft,
            port_text: self.port_text,
            focus: self.focus,
            editing: self.editing,
        }
    }

    /// The text of the focused text field.
    pub open spec fn field(self) -> Seq<char> {
        if self.focus.focus == FIELD_NAME {
            self.draft.name
        } else if self.focus.focus == FIELD_ADDRESS {
            self.draft.address
        } else {
            self.port_text
        }
    }

    /// The editor with another text in the focused text field.
    pub open spec fn with_field(self, text: Seq<char>) -> EditView {
        if self.focus.focus == FIELD_NAME {
            EditView { draft: HostView { name: text, ..self.draft }, ..self }
        } else if self.focus.focus == FIELD_ADDRESS {
            EditView { draft: HostView { address: text, ..self.draft }, ..self }
        } else {
            EditView { port_text: text, ..self }
        }
    }

    /// The editor with the value of the focused choice changed.
    pub open spec fn cycled(self, forward: bool) -> EditView {
        if self.focus.focus == FIELD_RESOLUTION {
            EditView {
                draft: HostView {
                    resolution: next_resolution(self.draft.resolution, forward),
                    ..self.draft
                },
                ..self
            }
        } else if self.focus.focus == FIELD_FPS {
            EditView {
                draft: HostView {
                    framerate: next_framerate(self.draft.framerate, forward),
                    ..self.draft
                },
                ..self
            }
        } else if self.focus.focus == FIELD_CODEC {
            EditView {
                draft: HostView { codec: next_codec(self.draft.codec), ..self.draft },
                ..self
            }
        } else {
            self
        }
    }

    /// The row that the host takes in the list.
    pub open spec fn row(self, hosts: nat) -> int {
        match self.index {
            Some(i) => i as int,
            None => hosts as int,
        }
    }
}

/// The editor for a host.
pub open spec fn edit_of(index: Option<usize>, draft: HostView) -> EditView {
    EditView {
        index,
        draft,
        port_text: decimal(draft.port as nat),
        focus: FocusList { count: EDIT_FIELDS, focus: 0 },
        editing: false,
    }
}

/// A host that has not been filled in.
pub open spec fn blank_host() -> HostView {
    HostView {
        name: Seq::empty(),
        address: Seq::empty(),
        port: DEFAULT_PORT,
        resolution: Resolution { width: 1920, height: 1080 },
        framerate: 60,
        codec: Codec::H265,
        bitrate: 0,
    }
}

impl ModelView {
    /// The model of a launcher that opens with a configuration.
    pub open spec fn opened(cfg: ConfigView, error: Option<Seq<char>>) -> ModelView {
        let hosts = shown_hosts(cfg);
        ModelView {
            cfg: ConfigView { hosts, ..cfg },
            screen: ScreenView::HostList {
                focus: FocusList { count: (hosts.len() + HOST_LIST_EXTRA) as usize, focus: 0 },
            },
            error,
        }
    }

    /// Every screen has its rows, the focus lies on one of them, and only a
    /// text field is in editing mode.
    pub open spec fn wf(self) -> bool {
        &&& self.cfg.hosts.len() <= MAX_HOSTS
        &&& match self.screen {
            ScreenView::HostList { focus } => focus.count == self.cfg.hosts.len() + HOST_LIST_EXTRA
                && focus.focus < focus.count,
            ScreenView::HostEdit { index, draft, port_text, focus, editing } => {
                &&& focus.count == EDIT_FIELDS
                &&& focus.focus < focus.count
                &&& editing ==> focus.focus <= FIELD_PORT
                &&& index matches Some(i) ==> i < self.cfg.hosts.len()
            },
            ScreenView::Settings { focus } => focus.count == SETTINGS_ROWS && focus.focus
                < focus.count,
        }
    }

    pub open spec fn with_screen(self, screen: ScreenView) -> ModelView {
        ModelView { screen, ..self }
    }

    /// The host list with the focus on a row, or on the last one.
    pub open spec fn at_host_list(self, row: int) -> ModelView {
        let count = self.cfg.hosts.len() + HOST_LIST_EXTRA;
        self.with_screen(
            ScreenView::HostList {
                focus: FocusList {
                    count: count as usize,
                    focus: if row < count - 1 {
                        row as usize
                    } else {
                        (count - 1) as usize
                    },
                },
            },
        )
    }

    /// Activating a row of the host list.
    pub open spec fn host_row_activated(self, focus: FocusList) -> (ModelView, Effect) {
        let hosts = self.cfg.hosts.len();
        let here = self.with_screen(ScreenView::HostList { focus });
        if focus.focus < hosts {
            (here, Effect::Connect(focus.focus))
        } else if focus.focus == hosts {
            (self.with_screen(edit_of(None, blank_host()).screen()), Effect::Nothing)
        } else if focus.focus == hosts + 1 {
            (
                self.with_screen(
                    ScreenView::Settings { focus: FocusList { count: SETTINGS_ROWS, focus: 0 } },
                ),
                Effect::Nothing,
            )
        } else if focus.focus == hosts + 2 {
            (here, Effect::Quit)
        } else {
            (here, Effect::Nothing)
        }
    }

    /// An event on the host list.
    pub open spec fn host_list_step(self, focus: FocusList, event: NavView) -> (ModelView, Effect) {
        let hosts = self.cfg.hosts.len();
        let rects = rows(hosts + HOST_LIST_EXTRA as nat);
        let here = self.with_screen(ScreenView::HostList { focus });
        match event {
            NavView::Up => (
                self.with_screen(ScreenView::HostList { focus: focus.moved_up() }),
                Effect::Nothing,
            ),
            NavView::Down => (
                self.with_screen(ScreenView::HostList { focus: focus.moved_down() }),
                Effect::Nothing,
            ),
            NavView::PointerMove(x, y) => (
                self.with_screen(ScreenView::HostList { focus: focus.focused_at(rects, x, y) }),
                Effect::Nothing,
            ),
            NavView::PointerClick(x, y) => if focus.hit(rects, x, y) is Some {
                self.host_row_activated(focus.focused_at(rects, x, y))
            } else {
                (here, Effect::Nothing)
            },
            NavView::Activate => self.host_row_activated(focus),
            NavView::ConnectShortcut => (
                here,
                if focus.focus < hosts {
                    Effect::Connect(focus.focus)
                } else if hosts > 0 {
                    Effect::Connect(0)
                } else {
                    Effect::Nothing
                },
            ),
            NavView::Edit => if focus.focus < hosts {
                (
                    self.with_screen(
                        edit_of(Some(focus.focus), self.cfg.hosts[focus.focus as int]).screen(),
                    ),
                    Effect::Nothing,
                )
            } else {
                (here, Effect::Nothing)
            },
            NavView::Delete => if focus.focus < hosts {
                (
                    ModelView {
                        cfg: ConfigView {
                            hosts: self.cfg.hosts.remove(focus.focus as int),
                            ..self.cfg
                        },
                        screen: ScreenView::HostList {
                            focus: focus.resized((hosts - 1 + HOST_LIST_EXTRA) as usize),
                        },
                        ..self
                    },
                    Effect::Save,
                )
            } else {
                (here, Effect::Nothing)
            },
            NavView::Back => (here, Effect::Quit),
            _ => (here, Effect::Nothing),
        }
    }

    /// Saving the edited host: it needs an address and a port.
    pub open spec fn saved(self, edit: EditView) -> (ModelView, Effect) {
        let hosts = self.cfg.hosts.len();
        if edit.draft.address.len() == 0 {
            (
                ModelView {
                    screen: edit.screen(),
                    error: Some("Host address must not be empty"@),
                    ..self
                },
                Effect::Nothing,
            )
        } else {
            match parse_uint(edit.port_text, 10, u16::MAX as nat) {
                None => (
                    ModelView {
                        screen: edit.screen(),
                        error: Some("Invalid port: "@ + edit.port_text),
                        ..self
                    },
                    Effect::Nothing,
                ),
                Some(port) => {
                    let host = HostView { port: port as u16, ..edit.draft };
                    let list = match edit.index {
                        Some(i) => self.cfg.hosts.update(i as int, host),
                        None => self.cfg.hosts.push(host),
                    };
                    (
                        (ModelView {
                            cfg: ConfigView { hosts: list, ..self.cfg },
                            ..self
                        }).at_host_list(edit.row(hosts)),
                        Effect::Save,
                    )
                },
            }
        }
    }

    /// Activating a field of the host editor.
    pub open spec fn field_activated(self, edit: EditView) -> (ModelView, Effect) {
        let field = edit.focus.focus;
        if field <= FIELD_PORT {
            (
                self.with_screen((EditView { editing: true, ..edit }).screen()),
                Effect::EditingChanged(true),
            )
        } else if field == FIELD_SAVE {
            self.saved(edit)
        } else if field == FIELD_CANCEL {
            (self.at_host_list(edit.row(self.cfg.hosts.len())), Effect::Nothing)
        } else {
            (self.with_screen(edit.cycled(true).screen()), Effect::Nothing)
        }
    }

    /// An event on the host editor while a text field is being edited: it
    /// takes all input until it is left.
    pub open spec fn typing_step(self, edit: EditView, event: NavView) -> (ModelView, Effect) {
        let left = EditView { editing: false, ..edit };
        match event {
            NavView::Text(s) => (
                self.with_screen(
                    edit.with_field(typed(edit.focus.focus, edit.field(), s)).screen(),
                ),
                Effect::Nothing,
            ),
            NavView::Backspace => (
                self.with_screen(edit.with_field(erased(edit.field())).screen()),
                Effect::Nothing,
            ),
            NavView::Activate | NavView::Back => (
                self.with_screen(left.screen()),
                Effect::EditingChanged(false),
            ),
            NavView::Up => (
                self.with_screen((EditView { focus: edit.focus.moved_up(), ..left }).screen()),
                Effect::EditingChanged(false),
            ),
            NavView::Down => (
                self.with_screen((EditView { focus: edit.focus.moved_down(), ..left }).screen()),
                Effect::EditingChanged(false),
            ),
            _ => (self.with_screen(edit.screen()), Effect::Nothing),
        }
    }

    /// An event on the host editor.
    pub open spec fn host_edit_step(self, edit: EditView, event: NavView) -> (ModelView, Effect) {
        let rects = rows(EDIT_FIELDS as nat);
        if edit.editing {
            self.typing_step(edit, event)
        } else {
            match event {
                NavView::Up => (
                    self.with_screen((EditView { focus: edit.focus.moved_up(), ..edit }).screen()),
                    Effect::Nothing,
                ),
                NavView::Down => (
                    self.with_screen(
                        (EditView { focus: edit.focus.moved_down(), ..edit }).screen(),
                    ),
                    Effect::Nothing,
                ),
                NavView::PointerMove(x, y) => (
                    self.with_screen(
                        (EditView { focus: edit.focus.focused_at(rects, x, y), ..edit }).screen(),
                    ),
                    Effect::Nothing,
                ),
                NavView::PointerClick(x, y) => if edit.focus.hit(rects, x, y) is Some {
                    self.field_activated(
                        EditView { focus: edit.focus.focused_at(rects, x, y), ..edit },
                    )
                } else {
                    (self.with_screen(edit.screen()), Effect::Nothing)
                },
                NavView::Left => (self.with_screen(edit.cycled(false).screen()), Effect::Nothing),
                NavView::Right => (self.with_screen(edit.cycled(true).screen()), Effect::Nothing),
                NavView::Activate => self.field_activated(edit),
                NavView::Back => (
                    self.at_host_list(edit.row(self.cfg.hosts.len())),
                    Effect::Nothing,
                ),
                _ => (self.with_screen(edit.screen()), Effect::Nothing),
            }
        }
    }

    /// Flipping the toggle of a settings row.
    pub open spec fn toggled(self, row: usize) -> ModelView {
        if row == 0 {
            ModelView {
                cfg: ConfigView { fullscreen: !self.cfg.fullscreen, ..self.cfg },
                ..self
            }
        } else if row == 1 {
            ModelView {
                cfg: ConfigView { gamepad_passthrough: !self.cfg.gamepad_passthrough, ..self.cfg },
                ..self
            }
        } else if row == 2 {
            ModelView {
                cfg: ConfigView { usb_forward: !self.cfg.usb_forward, ..self.cfg },
                ..self
            }
        } else {
            ModelView {
                cfg: ConfigView {
                    mic_forward: MicForwardView {
                        enabled: !self.cfg.mic_forward.enabled,
                        ..self.cfg.mic_forward
                    },
                    ..self.cfg
                },
                ..self
            }
        }
    }

    /// A settings row is flipped, or left if it is the last one and was
    /// activated.
    pub open spec fn settings_row(self, focus: FocusList, activated: bool) -> (ModelView, Effect) {
        let here = self.with_screen(ScreenView::Settings { focus });
        if focus.focus < 4 {
            (here.toggled(focus.focus), Effect::Save)
        } else if activated {
            (self.at_host_list(0), Effect::Nothing)
        } else {
            (here, Effect::Nothing)
        }
    }

    /// An event on the settings screen.
    pub open spec fn settings_step(self, focus: FocusList, event: NavView) -> (ModelView, Effect) {
        let rects = rows(SETTINGS_ROWS as nat);
        match event {
            NavView::Up => (
                self.with_screen(ScreenView::Settings { focus: focus.moved_up() }),
                Effect::Nothing,
            ),
            NavView::Down => (
                self.with_screen(ScreenView::Settings { focus: focus.moved_down() }),
                Effect::Nothing,
            ),
            NavView::PointerMove(x, y) => (
                self.with_screen(ScreenView::Settings { focus: focus.focused_at(rects, x, y) }),
                Effect::Nothing,
            ),
            NavView::PointerClick(x, y) => if focus.hit(rects, x, y) is Some {
                self.settings_row(focus.focused_at(rects, x, y), true)
            } else {
                (self.with_screen(ScreenView::Settings { focus }), Effect::Nothing)
            },
            NavView::Activate => self.settings_row(focus, true),
            NavView::Left | NavView::Right => self.settings_row(focus, false),
            NavView::Back => (self.at_host_list(0), Effect::Nothing),
            _ => (self.with_screen(ScreenView::Settings { focus }), Effect::Nothing),
        }
    }

    /// One event: any but a pointer movement dismisses the error banner,
    /// then the screen takes it.
    pub open spec fn step(self, event: NavView) -> (ModelView, Effect) {
        let m = if event is PointerMove {
            self
        } else {
            ModelView { error: None, ..self }
        };
        match self.screen {
            ScreenView::HostList { focus } => m.host_list_step(focus, event),
            ScreenView::HostEdit { index, draft, port_text, focus, editing } => m.host_edit_step(
                EditView { index, draft, port_text, focus, editing },
                event,
            ),
            ScreenView::Settings { focus } => m.settings_step(focus, event),
        }
    }
}

/// Where to go from a place in a cycle of `len` places.
fn cycle_from(at: usize, len: usize, forward: bool) -> (next: usize)
    requires
        at < len,
        len <= 16,
    ensures
        next < len,
        next == (if forward {
            (at + 1) % len as int
        } else {
            (at + len - 1) % len as int
        }),
{
    if forward {
        (at + 1) % len
    } else {
        (at + len - 1) % len
    }
}

/// Changes a resolution to the next preset, or to the previous one. A
/// resolution that is no preset becomes the first.
pub fn cycle_resolution(resolution: &mut Resolution, forward: bool)
    ensures
        *final(resolution) == next_resolution(*old(resolution), forward),
{
    let presets: Vec<Resolution> = vec![
        Resolution { width: 1280, height: 800 },
        Resolution { width: 1920, height: 1080 },
        Resolution { width: 2560, height: 1440 },
        Resolution { width: 3440, height: 1440 },
        Resolution { width: 3840, height: 2160 },
    ];
    assert(presets@ =~= resolution_presets());
    let mut n: usize = 0;
    while n < presets.len()
        invariant
            n <= presets.len(),
            presets@ == resolution_presets(),
            *resolution == *old(resolution),
            forall|i: int| 0 <= i < n ==> presets@[i] != *resolution,
        decreases presets.len() - n,
    {
        if presets[n] == *resolution {
            proof {
                let i = presets@.index_of(*resolution);
                assert(presets@.contains(*resolution));
                assert(presets@[i] == presets@[n as int]);
                assert(i == n);
            }
            *resolution = presets[cycle_from(n, presets.len(), forward)];
            return ;
        }
        n = n + 1;
    }
    assert(!presets@.contains(*resolution));
    *resolution = presets[0];
}

/// Changes a frame rate to the next preset, or to the previous one. A rate
/// that is no preset becomes 60.
pub fn cycle_framerate(framerate: &mut u32, forward: bool)
    ensures
        *final(framerate) == next_framerate(*old(framerate), forward),
{
    let presets: Vec<u32> = vec![30u32, 60u32, 90u32, 120u32];
    assert(presets@ =~= framerate_presets());
    let mut n: usize = 0;
    while n < presets.len()
        invariant
            n <= presets.len(),
            presets@ == framerate_presets(),
            *framerate == *old(framerate),
            forall|i: int| 0 <= i < n ==> presets@[i] != *framerate,
        decreases presets.len() - n,
    {
        if presets[n] == *framerate {
            proof {
                let i = presets@.index_of(*framerate);
                assert(presets@.contains(*framerate));
                assert(presets@[i] == presets@[n as int]);
                assert(i == n);
            }
            *framerate = presets[cycle_from(n, presets.len(), forward)];
            return ;
        }
        n = n + 1;
    }
    assert(!presets@.contains(*framerate));
    *framerate = 60;
}

/// Changes to the other codec; with two of them either direction does.
pub fn cycle_codec(codec: &mut Codec, forward: bool)
    ensures
        *final(codec) == next_codec(*old(codec)),
{
    *codec = match *codec {
        Codec::H265 => Codec::Av1,
        Codec::Av1 => Codec::H265,
    };
}

/// The editor for a host.
pub fn new_host_edit(index: Option<usize>, draft: HostEntry) -> (screen: Screen)
    ensures
        screen@ == edit_of(index, draft@).screen(),
{
    let port_text = decimal_text(draft.port as u64);
    Screen::HostEdit {
        index,
        draft,
        port_text,
        focus: FocusList::new(EDIT_FIELDS),
        editing: false,
    }
}

/// The rectangles of a screen with so many rows.
pub fn row_rects(count: usize) -> (rects: Vec<Rect>)
    requires
        count <= MAX_HOSTS + HOST_LIST_EXTRA,
    ensures
        rects@ == rows(count as nat),
{
    layout_rows(count, ROW_TOP, ROW_HEIGHT, ROW_GAP, ROW_MARGIN)
}

/// Whether a field takes a character.
fn accepts_char(field: usize, text: &str, c: char) -> (r: bool)
    ensures
        r == takes_char(field, text@, c),
{
    if field == FIELD_PORT {
        '0' <= c && c <= '9' && text_len(text) < 5
    } else {
        !control_char(c) && text_len(text) < 64
    }
}

/// Types into a field.
fn type_into(field: usize, text: &mut String, input: &str)
    ensures
        final(text)@ == typed(field, old(text)@, input@),
{
    let chars = chars_of(input);
    let mut n: usize = 0;
    assert(chars@.take(0) =~= Seq::empty());
    while n < chars.len()
        invariant
            n <= chars.len(),
            text@ == typed(field, old(text)@, chars@.take(n as int)),
        decreases chars.len() - n,
    {
        proof {
            assert(chars@.take(n + 1).drop_last() =~= chars@.take(n as int));
            assert(chars@.take(n + 1).last() == chars@[n as int]);
        }
        let c: char = chars[n];
        if accepts_char(field, text.as_str(), c) {
            text.push(c);
        }
        n = n + 1;
    }
    assert(chars@.take(n as int) =~= chars@);
}

/// What the host editor holds, taken off the screen.
struct Editor {
    index: Option<usize>,
    draft: HostEntry,
    port_text: String,
    focus: FocusList,
    editing: bool,
}

impl View for Editor {
    type V = EditView;

    closed spec fn view(&self) -> EditView {
        EditView {
            index: self.index,
            draft: self.draft@,
            port_text: self.port_text@,
            focus: self.focus,
            editing: self.editing,
        }
    }
}

impl Editor {
    fn into_screen(self) -> (screen: Screen)
        ensures
            screen@ == self@.screen(),
    {
        Screen::HostEdit {
            index: self.index,
            draft: self.draft,
            port_text: self.port_text,
            focus: self.focus,
            editing: self.editing,
        }
    }

    fn type_text(&mut self, input: &str)
        requires
            old(self).focus.focus <= FIELD_PORT,
        ensures
            final(self)@ == old(self)@.with_field(
                typed(old(self).focus.focus, old(self)@.field(), input@),
            ),
    {
        if self.focus.focus == FIELD_NAME {
            type_into(FIELD_NAME, &mut self.draft.name, input);
        } else if self.focus.focus == FIELD_ADDRESS {
            type_into(FIELD_ADDRESS, &mut self.draft.address, input);
        } else {
            type_into(FIELD_PORT, &mut self.port_text, input);
        }
    }

    fn erase(&mut self)
        ensures
            final(self)@ == old(self)@.with_field(erased(old(self)@.field())),
    {
        if self.focus.focus == FIELD_NAME {
            let _ = self.draft.name.pop();
        } else if self.focus.focus == FIELD_ADDRESS {
            let _ = self.draft.address.pop();
        } else {
            let _ = self.port_text.pop();
        }
    }

    fn cycle(&mut self, forward: bool)
        ensures
            final(self)@ == old(self)@.cycled(forward),
    {
        if self.focus.focus == FIELD_RESOLUTION {
            cycle_resolution(&mut self.draft.resolution, forward);
        } else if self.focus.focus == FIELD_FPS {
            cycle_framerate(&mut self.draft.framerate, forward);
        } else if self.focus.focus == FIELD_CODEC {
            cycle_codec(&mut self.draft.codec, forward);
        }
    }
}

impl Model {
    /// A launcher that opens on the host list. A configuration without saved
    /// hosts contributes its direct-connection host, which the first save
    /// persists.
    pub fn new(cfg: ClientConfig, error: Option<String>) -> (model: Model)
        requires
            cfg@.hosts.len() <= MAX_HOSTS,
        ensures
            model@ == ModelView::opened(cfg@, banner_view(error)),
            model@.wf(),
    {
        let mut cfg = cfg;
        let hosts = effective_hosts(&cfg);
        let ghost shown = host_views(hosts@);
        assert(shown.len() == hosts@.len());
        let count: usize = hosts.len() + HOST_LIST_EXTRA;
        cfg.hosts = hosts;
        Model { cfg, screen: Screen::HostList { focus: FocusList::new(count) }, error }
    }

    /// The rectangles of the host list.
    pub fn host_list_rects(&self) -> (rects: Vec<Rect>)
        requires
            self@.wf(),
        ensures
            rects@ == rows(self@.cfg.hosts.len() + HOST_LIST_EXTRA as nat),
    {
        row_rects(self.cfg.hosts.len() + HOST_LIST_EXTRA)
    }

    /// The rectangles of the screen being shown.
    pub fn screen_rects(&self) -> (rects: Vec<Rect>)
        requires
            self@.wf(),
        ensures
            rects@ == rows(
                match self@.screen {
                    ScreenView::HostList { focus } => self@.cfg.hosts.len()
                        + HOST_LIST_EXTRA as nat,
                    ScreenView::HostEdit { .. } => EDIT_FIELDS as nat,
                    ScreenView::Settings { focus } => SETTINGS_ROWS as nat,
                },
            ),
    {
        let count: usize = match &self.screen {
            Screen::HostList { focus: _ } => self.cfg.hosts.len() + HOST_LIST_EXTRA,
            Screen::HostEdit { index: _, draft: _, port_text: _, focus: _, editing: _ } => {
                EDIT_FIELDS
            },
            Screen::Settings { focus: _ } => SETTINGS_ROWS,
        };
        row_rects(count)
    }

    /// Feeds one navigation event through the state machine.
    pub fn update(&mut self, event: &NavEvent) -> (effect: Effect)
        requires
            old(self)@.wf(),
            old(self)@.cfg.hosts.len() < MAX_HOSTS,
        ensures
            (final(self)@, effect) == old(self)@.step(event@),
            final(self)@.wf(),
    {
        match event {
            NavEvent::PointerMove(_, _) => {},
            _ => {
                self.error = None;
            },
        }
        proof {
            law_step_keeps_wf(old(self)@, event@);
        }
        let mut screen = Screen::Settings { focus: FocusList::new(SETTINGS_ROWS) };
        std::mem::swap(&mut self.screen, &mut screen);
        match screen {
            Screen::HostList { focus } => self.update_host_list(focus, event),
            Screen::HostEdit { index, draft, port_text, focus, editing } => self.update_host_edit(
                Editor { index, draft, port_text, focus, editing },
                event,
            ),
            Screen::Settings { focus } => self.update_settings(focus, event),
        }
    }

    fn activate_host_row(&mut self, focus: FocusList) -> (effect: Effect)
        requires
            old(self)@.cfg.hosts.len() <= MAX_HOSTS,
        ensures
            (final(self)@, effect) == old(self)@.host_row_activated(focus),
    {
        let hosts: usize = self.cfg.hosts.len();
        let row: usize = focus.focus;
        self.screen = Screen::HostList { focus };
        if row < hosts {
            return Effect::Connect(row);
        } else if row == hosts {
            self.screen = new_host_edit(None, HostEntry::default());
            assert(self.screen@->draft =~= blank_host());
        } else if row == hosts + 1 {
            self.screen = Screen::Settings { focus: FocusList::new(SETTINGS_ROWS) };
        } else if row == hosts + 2 {
            return Effect::Quit;
        }
        Effect::Nothing
    }

    fn update_host_list(&mut self, focus: FocusList, event: &NavEvent) -> (effect: Effect)
        requires
            old(self)@.with_screen(ScreenView::HostList { focus }).wf(),
        ensures
            (final(self)@, effect) == old(self)@.host_list_step(focus, event@),
    {
        let hosts: usize = self.cfg.hosts.len();
        let mut focus = focus;
        match event {
            NavEvent::Up => focus.up(),
            NavEvent::Down => focus.down(),
            NavEvent::PointerMove(x, y) => {
                let rects = row_rects(hosts + HOST_LIST_EXTRA);
                let _ = focus.focus_at(rects.as_slice(), *x, *y);
            },
            NavEvent::PointerClick(x, y) => {
                let rects = row_rects(hosts + HOST_LIST_EXTRA);
                if focus.focus_at(rects.as_slice(), *x, *y).is_some() {
                    return self.activate_host_row(focus);
                }
            },
            NavEvent::Activate => return self.activate_host_row(focus),
            NavEvent::ConnectShortcut => {
                self.screen = Screen::HostList { focus };
                if focus.focus < hosts {
                    return Effect::Connect(focus.focus);
                } else if hosts > 0 {
                    return Effect::Connect(0);
                }
            },
            NavEvent::Edit => {
                if focus.focus < hosts {
                    let host = self.cfg.hosts[focus.focus].clone();
                    self.screen = new_host_edit(Some(focus.focus), host);
                    return Effect::Nothing;
                }
            },
            NavEvent::Delete => {
                if focus.focus < hosts {
                    let ghost before = self.cfg.hosts@;
                    let _ = self.cfg.hosts.remove(focus.focus);
                    assert(host_views(self.cfg.hosts@) =~= host_views(before).remove(
                        focus.focus as int,
                    ));
                    focus.resize(self.cfg.hosts.len() + HOST_LIST_EXTRA);
                    self.screen = Screen::HostList { focus };
                    return Effect::Save;
                }
            },
            NavEvent::Back => {
                self.screen = Screen::HostList { focus };
                return Effect::Quit;
            },
            _ => {},
        }
        self.screen = Screen::HostList { focus };
        Effect::Nothing
    }

    /// Saves the edited host, if it has an address and a port.
    fn save_host(&mut self, edit: Editor) -> (effect: Effect)
        requires
            old(self)@.cfg.hosts.len() < MAX_HOSTS,
            edit.index matches Some(i) ==> i < old(self)@.cfg.hosts.len(),
        ensures
            (final(self)@, effect) == old(self)@.saved(edit@),
    {
        let hosts: usize = self.cfg.hosts.len();
        if edit.draft.address.as_str().is_empty() {
            self.screen = edit.into_screen();
            self.error = Some(copy_text("Host address must not be empty"));
            return Effect::Nothing;
        }
        let digits = chars_of(edit.port_text.as_str());
        let port: u16 = match parse_number(digits.as_slice(), 10, 65535) {
            Some(port) => port as u16,
            None => {
                let mut message = copy_text("Invalid port: ");
                message.append(edit.port_text.as_str());
                self.screen = edit.into_screen();
                self.error = Some(message);
                return Effect::Nothing;
            },
        };
        let ghost before = self.cfg.hosts@;
        let mut committed = edit.draft;
        committed.port = port;
        let ghost host = committed@;
        let row: usize = match edit.index {
            Some(i) => {
                self.cfg.hosts.set(i, committed);
                assert(host_views(self.cfg.hosts@) =~= host_views(before).update(i as int, host));
                i
            },
            None => {
                self.cfg.hosts.push(committed);
                assert(host_views(self.cfg.hosts@) =~= host_views(before).push(host));
                hosts
            },
        };
        self.show_host_list(row);
        Effect::Save
    }

    fn activate_field(&mut self, edit: Editor) -> (effect: Effect)
        requires
            old(self)@.cfg.hosts.len() < MAX_HOSTS,
            edit.focus.focus < EDIT_FIELDS,
            edit.index matches Some(i) ==> i < old(self)@.cfg.hosts.len(),
        ensures
            (final(self)@, effect) == old(self)@.field_activated(edit@),
    {
        let field: usize = edit.focus.focus;
        let mut edit = edit;
        if field <= FIELD_PORT {
            edit.editing = true;
            self.screen = edit.into_screen();
            return Effect::EditingChanged(true);
        }
        if field == FIELD_SAVE {
            return self.save_host(edit);
        }
        if field == FIELD_CANCEL {
            let row: usize = match edit.index {
                Some(i) => i,
                None => self.cfg.hosts.len(),
            };
            self.show_host_list(row);
            return Effect::Nothing;
        }
        edit.cycle(true);
        self.screen = edit.into_screen();
        Effect::Nothing
    }

    /// Takes an event while a text field is being edited.
    fn update_typing(&mut self, edit: Editor, event: &NavEvent) -> (effect: Effect)
        requires
            edit.focus.focus <= FIELD_PORT,
        ensures
            (final(self)@, effect) == old(self)@.typing_step(edit@, event@),
    {
        let mut edit = edit;
        let mut effect = Effect::Nothing;
        match event {
            NavEvent::Text(s) => edit.type_text(s.as_str()),
            NavEvent::Backspace => edit.erase(),
            NavEvent::Activate | NavEvent::Back => {
                edit.editing = false;
                effect = Effect::EditingChanged(false);
            },
            NavEvent::Up => {
                edit.editing = false;
                edit.focus.up();
                effect = Effect::EditingChanged(false);
            },
            NavEvent::Down => {
                edit.editing = false;
                edit.focus.down();
                effect = Effect::EditingChanged(false);
            },
            _ => {},
        }
        self.screen = edit.into_screen();
        effect
    }

    fn update_host_edit(&mut self, edit: Editor, event: &NavEvent) -> (effect: Effect)
        requires
            old(self)@.with_screen(edit@.screen()).wf(),
            old(self)@.cfg.hosts.len() < MAX_HOSTS,
        ensures
            (final(self)@, effect) == old(self)@.host_edit_step(edit@, event@),
    {
        if edit.editing {
            return self.update_typing(edit, event);
        }
        let mut edit = edit;
        match event {
            NavEvent::Up => edit.focus.up(),
            NavEvent::Down => edit.focus.down(),
            NavEvent::PointerMove(x, y) => {
                let rects = row_rects(EDIT_FIELDS);
                let _ = edit.focus.focus_at(rects.as_slice(), *x, *y);
            },
            NavEvent::PointerClick(x, y) => {
                let rects = row_rects(EDIT_FIELDS);
                if edit.focus.focus_at(rects.as_slice(), *x, *y).is_some() {
                    return self.activate_field(edit);
                }
            },
            NavEvent::Left => edit.cycle(false),
            NavEvent::Right => edit.cycle(true),
            NavEvent::Activate => return self.activate_field(edit),
            NavEvent::Back => {
                let row: usize = match edit.index {
                    Some(i) => i,
                    None => self.cfg.hosts.len(),
                };
                self.show_host_list(row);
                return Effect::Nothing;
            },
            _ => {},
        }
        self.screen = edit.into_screen();
        Effect::Nothing
    }

    fn change_setting(&mut self, focus: FocusList, activated: bool) -> (effect: Effect)
        requires
            old(self)@.cfg.hosts.len() <= MAX_HOSTS,
        ensures
            (final(self)@, effect) == old(self)@.settings_row(focus, activated),
    {
        self.screen = Screen::Settings { focus };
        if focus.focus == 0 {
            self.cfg.fullscreen = !self.cfg.fullscreen;
            return Effect::Save;
        } else if focus.focus == 1 {
            self.cfg.gamepad_passthrough = !self.cfg.gamepad_passthrough;
            return Effect::Save;
        } else if focus.focus == 2 {
            self.cfg.usb_forward = !self.cfg.usb_forward;
            return Effect::Save;
        } else if focus.focus == 3 {
            self.cfg.mic_forward.enabled = !self.cfg.mic_forward.enabled;
            return Effect::Save;
        }
        if activated {
            self.show_host_list(0);
        }
        Effect::Nothing
    }

    fn update_settings(&mut self, focus: FocusList, event: &NavEvent) -> (effect: Effect)
        requires
            old(self)@.with_screen(ScreenView::Settings { focus }).wf(),
        ensures
            (final(self)@, effect) == old(self)@.settings_step(focus, event@),
    {
        let mut focus = focus;
        match event {
            NavEvent::Up => focus.up(),
            NavEvent::Down => focus.down(),
            NavEvent::PointerMove(x, y) => {
                let rects = row_rects(SETTINGS_ROWS);
                let _ = focus.focus_at(rects.as_slice(), *x, *y);
            },
            NavEvent::PointerClick(x, y) => {
                let rects = row_rects(SETTINGS_ROWS);
                if focus.focus_at(rects.as_slice(), *x, *y).is_some() {
                    return self.change_setting(focus, true);
                }
            },
            NavEvent::Activate => return self.change_setting(focus, true),
            NavEvent::Left | NavEvent::Right => return self.change_setting(focus, false),
            NavEvent::Back => {
                self.show_host_list(0);
                return Effect::Nothing;
            },
            _ => {},
        }
        self.screen = Screen::Settings { focus };
        Effect::Nothing
    }

    /// Shows the host list with the focus on a row, or on the last one.
    fn show_host_list(&mut self, focus_row: usize)
        requires
            old(self)@.cfg.hosts.len() <= MAX_HOSTS,
        ensures
            final(self)@ == old(self)@.at_host_list(focus_row as int),
    {
        let mut focus = FocusList::new(self.cfg.hosts.len() + HOST_LIST_EXTRA);
        focus.focus = if focus_row < focus.count - 1 {
            focus_row
        } else {
            focus.count - 1
        };
        self.screen = Screen::HostList { focus };
    }
}

/// The configuration that a session with a host runs with: the global
/// toggles, and address and quality of the host.
pub open spec fn session_view(cfg: ConfigView, host: HostView) -> ConfigView {
    ConfigView {
        server_address: host.address,
        port: host.port,
        resolution: host.resolution,
        framerate: host.framerate,
        codec: host.codec,
        ..cfg
    }
}

/// Builds the configuration that a session with a host runs with.
pub fn session_config(cfg: &ClientConfig, host: &HostEntry) -> (session: ClientConfig)
    ensures
        session@ == session_view(cfg@, host@),
{
    let mut session = cfg.clone();
    session.server_address = host.address.clone();
    session.port = host.port;
    session.resolution = host.resolution;
    session.framerate = host.framerate;
    session.codec = host.codec;
    session
}

/// The focus stays on a row wherever the pointer is.
proof fn lemma_focus_stays(focus: FocusList, rects: Seq<Rect>, x: i32, y: i32)
    requires
        focus.focus < focus.count,
    ensures
        focus.focused_at(rects, x, y).focus < focus.count,
        focus.focused_at(rects, x, y).count == focus.count,
{
    lemma_first_hit(rects, x, y);
}

proof fn lemma_host_list_wf(m: ModelView, focus: FocusList, event: NavView)
    requires
        m.with_screen(ScreenView::HostList { focus }).wf(),
    ensures
        m.host_list_step(focus, event).0.wf(),
        m.host_list_step(focus, event).0.cfg.hosts.len() <= m.cfg.hosts.len(),
{
    let rects = rows(m.cfg.hosts.len() + HOST_LIST_EXTRA as nat);
    match event {
        NavView::PointerMove(x, y) => lemma_focus_stays(focus, rects, x, y),
        NavView::PointerClick(x, y) => lemma_focus_stays(focus, rects, x, y),
        _ => {},
    }
}

proof fn lemma_saved_wf(m: ModelView, edit: EditView)
    requires
        m.with_screen(edit.screen()).wf(),
        m.cfg.hosts.len() < MAX_HOSTS,
    ensures
        m.saved(edit).0.wf(),
        m.saved(edit).0.cfg.hosts.len() <= m.cfg.hosts.len() + 1,
{
}

proof fn lemma_host_edit_wf(m: ModelView, edit: EditView, event: NavView)
    requires
        m.with_screen(edit.screen()).wf(),
        m.cfg.hosts.len() < MAX_HOSTS,
    ensures
        m.host_edit_step(edit, event).0.wf(),
        m.host_edit_step(edit, event).0.cfg.hosts.len() <= m.cfg.hosts.len() + 1,
{
    let rects = rows(EDIT_FIELDS as nat);
    lemma_saved_wf(m, edit);
    match event {
        NavView::PointerMove(x, y) => lemma_focus_stays(edit.focus, rects, x, y),
        NavView::PointerClick(x, y) => {
            lemma_focus_stays(edit.focus, rects, x, y);
            if !edit.editing {
                lemma_saved_wf(m, EditView { focus: edit.focus.focused_at(rects, x, y), ..edit });
            }
        },
        _ => {},
    }
}

proof fn lemma_settings_wf(m: ModelView, focus: FocusList, event: NavView)
    requires
        m.with_screen(ScreenView::Settings { focus }).wf(),
    ensures
        m.settings_step(focus, event).0.wf(),
        m.settings_step(focus, event).0.cfg.hosts.len() == m.cfg.hosts.len(),
{
    let rects = rows(SETTINGS_ROWS as nat);
    match event {
        NavView::PointerMove(x, y) => lemma_focus_stays(focus, rects, x, y),
        NavView::PointerClick(x, y) => lemma_focus_stays(focus, rects, x, y),
        _ => {},
    }
}

/// Whatever happens, the launcher stays in a consistent state, and an event
/// adds at most one host.
pub proof fn law_step_keeps_wf(m: ModelView, event: NavView)
    requires
        m.wf(),
        m.cfg.hosts.len() < MAX_HOSTS,
    ensures
        m.step(event).0.wf(),
        m.step(event).0.cfg.hosts.len() <= m.cfg.hosts.len() + 1,
{
    let cleared = if event is PointerMove {
        m
    } else {
        ModelView { error: None, ..m }
    };
    match m.screen {
        ScreenView::HostList { focus } => lemma_host_list_wf(cleared, focus, event),
        ScreenView::HostEdit { index, draft, port_text, focus, editing } => lemma_host_edit_wf(
            cleared,
            EditView { index, draft, port_text, focus, editing },
            event,
        ),
        ScreenView::Settings { focus } => lemma_settings_wf(cleared, focus, event),
    }
}

proof fn lemma_pointer_focus(m: ModelView, x: i32, y: i32)
    requires
        m.wf(),
    ensures
        m.screen matches ScreenView::HostList { focus } ==> {
            let to = focus.focused_at(rows(m.cfg.hosts.len() + HOST_LIST_EXTRA as nat), x, y);
            to.focus < to.count && to.count == focus.count
        },
        m.screen matches ScreenView::HostEdit { index, draft, port_text, focus, editing } ==> {
            let to = focus.focused_at(rows(EDIT_FIELDS as nat), x, y);
            to.focus < to.count && to.count == focus.count
        },
        m.screen matches ScreenView::Settings { focus } ==> {
            let to = focus.focused_at(rows(SETTINGS_ROWS as nat), x, y);
            to.focus < to.count && to.count == focus.count
        },
{
    match m.screen {
        ScreenView::HostList { focus } => {
            lemma_focus_stays(focus, rows(m.cfg.hosts.len() + HOST_LIST_EXTRA as nat), x, y);
        },
        ScreenView::HostEdit { index, draft, port_text, focus, editing } => {
            lemma_focus_stays(focus, rows(EDIT_FIELDS as nat), x, y);
        },
        ScreenView::Settings { focus } => {
            lemma_focus_stays(focus, rows(SETTINGS_ROWS as nat), x, y);
        },
    }
}

/// No change of the configuration goes unsaved: an event that changes it
/// asks for a save.
pub proof fn law_changes_are_saved(m: ModelView, event: NavView)
    ensures
        m.step(event).0.cfg != m.cfg ==> m.step(event).1 == Effect::Save,
{
}

/// A request to connect names a host of the list.
pub proof fn law_connect_names_a_host(m: ModelView, event: NavView)
    requires
        m.wf(),
    ensures
        m.step(event).1 matches Effect::Connect(row) ==> row < m.cfg.hosts.len()
            && m.step(event).0.cfg == m.cfg,
{
    if let NavView::PointerClick(x, y) = event {
        lemma_pointer_focus(m, x, y);
    }
}

/// Any event but a pointer movement dismisses the error banner; a save that
/// is refused puts up a new one.
#[verifier::rlimit(30)]
#[verifier::spinoff_prover]
pub proof fn law_errors_are_dismissed(m: ModelView, event: NavView)
    requires
        event !is PointerMove,
        m.step(event).0.error is Some,
    ensures
        m.screen is HostEdit,
        m.step(event).0.screen is HostEdit,
        m.step(event).0.cfg == m.cfg,
{
    let cleared = ModelView { error: None, ..m };
    match m.screen {
        ScreenView::HostList { focus } => {
            assert(cleared.host_list_step(focus, event).0.error is None);
        },
        ScreenView::HostEdit { index, draft, port_text, focus, editing } => {},
        ScreenView::Settings { focus } => {
            assert(cleared.settings_step(focus, event).0.error is None);
        },
    }
}

/// Leaving the editor without saving changes no host.
pub proof fn law_back_discards_draft(m: ModelView)
    requires
        m.wf(),
        m.screen is HostEdit,
        !m.screen->editing,
    ensures
        m.step(NavView::Back).0.cfg == m.cfg,
        m.step(NavView::Back).0.screen is HostList,
        m.step(NavView::Back).1 == Effect::Nothing,
{
}

/// The port field holds at most five digits and nothing else.
pub open spec fn port_digits(text: Seq<char>) -> bool {
    text.len() <= 5 && forall|i: int| 0 <= i < text.len() ==> '0' <= #[trigger] text[i] <= '9'
}

/// Typing into the port field keeps it to at most five digits.
pub proof fn law_port_takes_digits_only(text: Seq<char>, input: Seq<char>)
    requires
        port_digits(text),
    ensures
        port_digits(typed(FIELD_PORT, text, input)),
    decreases input.len(),
{
    if input.len() > 0 {
        law_port_takes_digits_only(text, input.drop_last());
        let before = typed(FIELD_PORT, text, input.drop_last());
        vstd::utf8::is_ascii_chars_encode_utf8(before);
    }
}

/// Stepping a preset forward and back leaves it as it was, and so does
/// stepping it back and forward.
pub proof fn law_presets_cycle_both_ways(r: Resolution, f: u32)
    ensures
        resolution_presets().contains(r) ==> next_resolution(next_resolution(r, true), false) == r
            && next_resolution(next_resolution(r, false), true) == r,
        framerate_presets().contains(f) ==> next_framerate(next_framerate(f, true), false) == f
            && next_framerate(next_framerate(f, false), true) == f,
{
    if resolution_presets().contains(r) {
        lemma_cycle_back(resolution_presets(), r, Resolution { width: 1280, height: 800 });
    }
    if framerate_presets().contains(f) {
        lemma_cycle_back(framerate_presets(), f, 60);
    }
}

proof fn lemma_cycle_back<T>(presets: Seq<T>, current: T, fallback: T)
    requires
        presets.no_duplicates(),
        presets.contains(current),
    ensures
        cycled_preset(
            presets,
            cycled_preset(presets, current, true, fallback),
            false,
            fallback,
        ) == current,
        cycled_preset(
            presets,
            cycled_preset(presets, current, false, fallback),
            true,
            fallback,
        ) == current,
{
    let n = presets.len() as int;
    let i = presets.index_of(current);
    assert(presets[i] == current);
    let up = (i + 1) % n;
    let down = (i + n - 1) % n;
    assert(0 <= up < n && 0 <= down < n && (up + n - 1) % n == i && (down + 1) % n == i) by {
        if i + 1 < n {
            vstd::arithmetic::div_mod::lemma_small_mod((i + 1) as nat, n as nat);
            vstd::arithmetic::div_mod::lemma_mod_add_multiples_vanish(i, n);
        } else {
            vstd::arithmetic::div_mod::lemma_mod_self_0(n);
            vstd::arithmetic::div_mod::lemma_small_mod((n - 1) as nat, n as nat);
        }
        if i > 0 {
            vstd::arithmetic::div_mod::lemma_mod_add_multiples_vanish(i - 1, n);
            vstd::arithmetic::div_mod::lemma_small_mod((i - 1) as nat, n as nat);
            vstd::arithmetic::div_mod::lemma_small_mod(i as nat, n as nat);
        } else {
            vstd::arithmetic::div_mod::lemma_small_mod((n - 1) as nat, n as nat);
            vstd::arithmetic::div_mod::lemma_mod_self_0(n);
        }
        vstd::arithmetic::div_mod::lemma_small_mod(i as nat, n as nat);
    }
    assert(presets.contains(presets[up]));
    assert(presets.contains(presets[down]));
    let j = presets.index_of(presets[up]);
    let k = presets.index_of(presets[down]);
    assert(j == up);
    assert(k == down);
}

/// A setting that is flipped twice is as it was.
pub proof fn law_toggle_twice(m: ModelView, row: usize)
    ensures
        m.toggled(row).toggled(row) == m,
{
}

/// The toggles of the settings, in the order of their rows.
pub open spec fn toggles(cfg: ConfigView) -> Seq<bool> {
    seq![cfg.fullscreen, cfg.gamepad_passthrough, cfg.usb_forward, cfg.mic_forward.enabled]
}

/// Working a settings row flips exactly its toggle, saves, and stays; the
/// same again undoes it. The last row changes nothing, and only activating
/// it leaves the settings.
pub proof fn law_settings_row_flips_its_toggle(m: ModelView, event: NavView)
    requires
        m.wf(),
        m.screen is Settings,
        event is Activate || event is Left || event is Right,
    ensures
        ({
            let row = m.screen->Settings_focus.focus;
            let (after, effect) = m.step(event);
            if row < SETTINGS_ROWS - 1 {
                &&& effect == Effect::Save
                &&& after.screen == m.screen
                &&& toggles(after.cfg) == toggles(m.cfg).update(
                    row as int,
                    !toggles(m.cfg)[row as int],
                )
                &&& after.cfg == (ConfigView {
                    fullscreen: after.cfg.fullscreen,
                    gamepad_passthrough: after.cfg.gamepad_passthrough,
                    usb_forward: after.cfg.usb_forward,
                    mic_forward: MicForwardView {
                        enabled: after.cfg.mic_forward.enabled,
                        ..m.cfg.mic_forward
                    },
                    ..m.cfg
                })
                &&& after.step(event).0.cfg == m.cfg
            } else {
                &&& effect == Effect::Nothing
                &&& after.cfg == m.cfg
                &&& if event is Activate {
                    after.screen is HostList
                } else {
                    after.screen == m.screen
                }
            }
        }),
{
    let row = m.screen->Settings_focus.focus;
    let (after, effect) = m.step(event);
    if row < SETTINGS_ROWS - 1 {
        assert(toggles(after.cfg) =~= toggles(m.cfg).update(
            row as int,
            !toggles(m.cfg)[row as int],
        ));
        assert(after.step(event).0.cfg =~= m.cfg);
    }
}

/// A session uses the toggles of the configuration and nothing of a host
/// but its address and quality.
pub proof fn law_session_keeps_toggles(cfg: ConfigView, host: HostView)
    ensures
        session_view(cfg, host).fullscreen == cfg.fullscreen,
        session_view(cfg, host).gamepad_passthrough == cfg.gamepad_passthrough,
        session_view(cfg, host).usb_forward == cfg.usb_forward,
        session_view(cfg, host).forward_builtin_controller == cfg.forward_builtin_controller,
        session_view(cfg, host).mic_forward == cfg.mic_forward,
        session_view(cfg, host).hosts == cfg.hosts,
{
}

/// A configuration that names only a server to connect to directly opens with
/// that server as its one host; a session with it runs as the direct one
/// would. What the launcher saves opens again as it was.
pub proof fn law_direct_server_becomes_host(cfg: ConfigView, error: Option<Seq<char>>)
    ensures
        ({
            let opened = ModelView::opened(cfg, error).cfg;
            &&& cfg.hosts.len() == 0 && cfg.server_address.len() > 0 ==> {
                &&& opened.hosts.len() == 1
                &&& opened.hosts[0].address == cfg.server_address
                &&& opened.hosts[0].port == cfg.port
                &&& session_view(opened, opened.hosts[0]) == ConfigView {
                    hosts: opened.hosts,
                    ..cfg
                }
            }
            &&& ModelView::opened(opened, error).cfg == opened
        }),
{
}

} // verus!
