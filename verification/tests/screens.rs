use stargaze::config::{ClientConfig, HostEntry};
use stargaze::launcher::Model;
use stargaze::layout::{can_place, text_runs, TextRun};
use stargaze::screens::{
    arrow_tint, box_tints, draw, field_text, glyph_pixels, toggle_state, Tint, Widget,
};
use stargaze::widgets::{NavEvent, Rect};

fn model(hosts: usize) -> Model {
    let cfg = ClientConfig {
        hosts: (0..hosts)
            .map(|i| HostEntry {
                address: format!("10.0.0.{i}"),
                ..HostEntry::default()
            })
            .collect(),
        ..ClientConfig::default()
    };
    Model::new(cfg, None)
}

fn focused(widget: &Widget) -> Option<bool> {
    match widget {
        Widget::HostRow { focused, .. }
        | Widget::Button { focused, .. }
        | Widget::Toggle { focused, .. }
        | Widget::Choice { focused, .. }
        | Widget::Field { focused, .. } => Some(*focused),
        _ => None,
    }
}

#[test]
fn host_list_shows_hosts_and_buttons() {
    let mut model = model(2);
    model.update(&NavEvent::Down);
    let shown = draw(&model, None);
    assert_eq!(shown.len(), 1 + 1 + 2 + 3 + 1);
    assert!(matches!(&shown[0], Widget::Label { text, px: 40, .. } if text == "Stargaze"));
    assert!(matches!(&shown[1], Widget::Label { text, x: 80, y: 110, .. } if text == "Hosts"));
    let Widget::HostRow { rect, label, details, focused } = &shown[3] else {
        panic!("expected a host");
    };
    assert_eq!(*rect, model.host_list_rects()[1]);
    assert_eq!(label, "10.0.0.1");
    assert_eq!(details, "10.0.0.1:9000   1920x1080 @ 60fps h265");
    assert!(focused);
    assert!(matches!(&shown[4], Widget::Button { label, .. } if label == "Add host…"));
    assert!(matches!(&shown[6], Widget::Button { label, .. } if label == "Quit"));
    assert!(matches!(&shown[7], Widget::Hint { text } if text.starts_with("A/Enter connect")));
}

#[test]
fn one_row_has_the_focus_on_every_screen() {
    for open in [vec![], vec![NavEvent::Edit], vec![NavEvent::Down, NavEvent::Down, NavEvent::Activate]] {
        let mut model = model(1);
        for event in &open {
            model.update(event);
        }
        for _ in 0..4 {
            let shown = draw(&model, None);
            let count = shown.iter().filter(|w| focused(w) == Some(true)).count();
            assert_eq!(count, 1);
            model.update(&NavEvent::Down);
        }
    }
}

#[test]
fn editor_shows_the_draft() {
    let mut model = model(1);
    model.update(&NavEvent::Edit);
    model.update(&NavEvent::Down);
    model.update(&NavEvent::Activate);
    let shown = draw(&model, None);
    assert!(matches!(&shown[1], Widget::Label { text, .. } if text == "Edit host"));
    assert!(matches!(
        &shown[3],
        Widget::Field { label, value, focused: true, editing: true, .. }
            if label == "Address" && value == "10.0.0.0"
    ));
    assert!(matches!(&shown[4], Widget::Field { value, editing: false, .. } if value == "9000"));
    assert!(matches!(&shown[5], Widget::Choice { value, .. } if value == "1920x1080"));
}

#[test]
fn settings_show_the_toggles() {
    let mut model = model(0);
    model.update(&NavEvent::Down);
    model.update(&NavEvent::Activate);
    let shown = draw(&model, None);
    let toggles: Vec<(String, bool)> = shown
        .iter()
        .filter_map(|w| match w {
            Widget::Toggle { label, value, .. } => Some((label.clone(), *value)),
            _ => None,
        })
        .collect();
    assert_eq!(toggles.len(), 4);
    assert_eq!(toggles[0], ("Fullscreen".to_string(), true));
    assert_eq!(toggles[3], ("Microphone forward".to_string(), false));
}

#[test]
fn connecting_hides_the_error() {
    let mut model = model(1);
    model.error = Some("Connection failed: x".to_string());
    let shown = draw(&model, None);
    assert!(matches!(
        shown.last().unwrap(),
        Widget::Banner { text, background: Tint::ErrorBackground, foreground: Tint::ErrorText }
            if text == "Connection failed: x"
    ));
    let shown = draw(&model, Some("zeus"));
    assert!(matches!(
        shown.last().unwrap(),
        Widget::Banner { text, background: Tint::WidgetFocus, .. }
            if text == "Connecting to zeus…  (B / Esc to cancel)"
    ));
}

#[test]
fn texts_and_colours_of_widgets() {
    assert_eq!(field_text("ab", true), ("ab_".to_string(), Tint::Text));
    assert_eq!(field_text("", true), ("_".to_string(), Tint::Text));
    assert_eq!(field_text("", false), ("—".to_string(), Tint::TextDim));
    assert_eq!(field_text("ab", false), ("ab".to_string(), Tint::Text));
    assert_eq!(toggle_state(true), ("on", Tint::Accent));
    assert_eq!(toggle_state(false), ("off", Tint::TextDim));
    assert_eq!(arrow_tint(true), Tint::OutlineFocus);
    assert_eq!(arrow_tint(false), Tint::TextDim);
    assert_eq!(box_tints(true), (Tint::WidgetFocus, Some(Tint::OutlineFocus)));
    assert_eq!(box_tints(false), (Tint::Widget, None));
    assert_eq!(Tint::Background.rgb(), (16, 18, 26));
}

#[test]
fn glyphs_are_white() {
    assert_eq!(glyph_pixels(&[0, 7]), vec![255, 255, 255, 0, 255, 255, 255, 7]);
}

fn run(text: &str, x: i32, y: i32, px: u16, tint: Tint, right: bool) -> TextRun {
    TextRun { text: text.to_string(), x, y, px, tint, right }
}

#[test]
fn texts_stand_in_the_middle_of_their_row() {
    let rect = Rect::new(80, 150, 1120, 56);
    let label = "Codec".to_string();
    let choice = Widget::Choice { rect, label: label.clone(), value: "av1".to_string(), focused: true };
    assert_eq!(
        text_runs(&choice, 26, 40),
        vec![
            run("Codec", 96, 165, 22, Tint::Text, false),
            run(">", 1184, 165, 22, Tint::OutlineFocus, true),
            run("av1", 1160, 165, 22, Tint::Text, true),
            run("<", 1112, 165, 22, Tint::OutlineFocus, true),
        ]
    );
    assert!(can_place(&choice, 26, 40));
    assert!(can_place(&choice, -9, i32::MAX));
    assert!(!can_place(&choice, 26, i32::MIN));
    // A line higher than the row rounds towards it.
    let button = Widget::Button { rect, label: label.clone(), focused: false };
    assert_eq!(text_runs(&button, 59, 0), vec![run("Codec", 96, 149, 22, Tint::Text, false)]);
    let toggle = Widget::Toggle { rect, label: label.clone(), value: false, focused: false };
    assert_eq!(text_runs(&toggle, 56, 0)[1], run("off", 1184, 150, 22, Tint::TextDim, true));
    let field =
        Widget::Field { rect, label, value: String::new(), focused: true, editing: true };
    assert_eq!(text_runs(&field, 56, 0)[1], run("_", 1184, 150, 22, Tint::Text, true));
    let hint = Widget::Hint { text: "B/Esc back".to_string() };
    assert_eq!(text_runs(&hint, 56, 0), vec![run("B/Esc back", 24, 760, 16, Tint::TextDim, false)]);
}
