use gurk::dispatch::{dispatch, Dispatch};
use gurk::event::{translate_input, Event, RawInput};
use gurk::frame::{FrameAction, FrameLimiter};

type Ev = Event<char, (u16, u16), &'static str, String>;
type Raw = RawInput<char, (u16, u16)>;

#[test]
fn quit_without_error_exits_with_success() {
    let mut l = FrameLimiter::new(0);
    assert_eq!(dispatch(&mut l, Some(Ev::Quit(None))), Dispatch::Exit(None));
}

#[test]
fn closed_channel_exits_with_success() {
    let mut l = FrameLimiter::new(0);
    assert_eq!(dispatch::<char, (u16, u16), &str, String>(&mut l, None), Dispatch::Exit(None));
}

#[test]
fn quit_with_error_exits_with_it() {
    let mut l = FrameLimiter::new(0);
    assert_eq!(
        dispatch(&mut l, Some(Ev::Quit(Some("unlinked".to_string())))),
        Dispatch::Exit(Some("unlinked".to_string()))
    );
}

#[test]
fn events_go_to_update_in_order() {
    let mut l = FrameLimiter::new(0);
    let events = vec![
        Ev::Input('a'),
        Ev::Message("m1"),
        Ev::Resize { cols: 80, rows: 24 },
        Ev::Click((3, 4)),
        Ev::Message("m2"),
        Ev::Input('b'),
    ];
    let mut handed = Vec::new();
    let mut items: Vec<Option<Ev>> = events.iter().cloned().map(Some).collect();
    items.push(Some(Ev::Quit(None)));
    items.push(Some(Ev::Input('z')));
    let mut exit = None;
    for item in items {
        match dispatch(&mut l, item) {
            Dispatch::Update(ev) => handed.push(ev),
            Dispatch::Exit(err) => {
                exit = Some(err);
                break;
            }
        }
    }
    assert_eq!(handed, events);
    assert_eq!(exit, Some(None));
    assert!(!l.is_redraw_pending());
}

#[test]
fn redraw_clears_pending_timer() {
    let mut l = FrameLimiter::new(0);
    assert_eq!(l.poll(1), FrameAction::ScheduleRedraw(l.budget_ns - 1));
    assert!(l.is_redraw_pending());
    assert_eq!(dispatch(&mut l, Some(Ev::Message("m"))), Dispatch::Update(Ev::Message("m")));
    assert!(l.is_redraw_pending());
    assert_eq!(dispatch(&mut l, Some(Ev::Redraw)), Dispatch::Update(Ev::Redraw));
    assert!(!l.is_redraw_pending());
    assert_eq!(l.last_render_ns, 0);
}

#[test]
fn raw_input_is_translated() {
    let k: Option<Ev> = translate_input(Raw::Key('q'));
    assert_eq!(k, Some(Ev::Input('q')));
    let r: Option<Ev> = translate_input(Raw::Resize(120, 40));
    assert_eq!(r, Some(Ev::Resize { cols: 120, rows: 40 }));
    let m: Option<Ev> = translate_input(Raw::Mouse((1, 2)));
    assert_eq!(m, Some(Ev::Click((1, 2))));
    let o: Option<Ev> = translate_input(Raw::Other);
    assert_eq!(o, None);
}
