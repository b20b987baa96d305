use gurk::frame::{FrameAction, FrameLimiter, FRAME_BUDGET_NS, TARGET_FPS};

const MS: u64 = 1_000_000;

#[test]
fn budget_is_one_frame_at_target_rate() {
    assert_eq!(TARGET_FPS, 144);
    assert_eq!(FRAME_BUDGET_NS, 6_944_444);
    let l = FrameLimiter::new(5);
    assert_eq!(l.budget_ns, 6_944_444);
    assert_eq!(l.last_render_ns, 5);
    assert!(!l.is_redraw_pending());
}

#[test]
fn early_request_defers_to_end_of_interval() {
    let mut l = FrameLimiter::new(100 * MS);
    let action = l.poll(102 * MS);
    assert_eq!(action, FrameAction::ScheduleRedraw(4_944_444));
    match action {
        FrameAction::ScheduleRedraw(delay) => assert!(delay >= 4_940_000),
        _ => panic!("expected a deferred redraw"),
    }
    assert!(l.is_redraw_pending());
}

#[test]
fn late_request_renders_at_once() {
    let mut l = FrameLimiter::new(100 * MS);
    assert_eq!(l.poll(110 * MS), FrameAction::Render);
    assert!(!l.is_redraw_pending());
}

#[test]
fn request_at_exact_interval_renders() {
    let mut l = FrameLimiter::with_budget(10, 0);
    assert_eq!(l.poll(10), FrameAction::Render);
    assert_eq!(l.poll(9), FrameAction::ScheduleRedraw(1));
}

#[test]
fn burst_collapses_to_one_redraw() {
    let mut l = FrameLimiter::new(0);
    let mut scheduled = 0;
    let mut skipped = 0;
    for t in 0..200u64 {
        match l.poll(t * 30_000) {
            FrameAction::ScheduleRedraw(delay) => {
                assert_eq!(delay, FRAME_BUDGET_NS);
                scheduled += 1;
            }
            FrameAction::Skip => skipped += 1,
            FrameAction::Render => panic!("rendered inside the interval"),
        }
    }
    assert_eq!(scheduled, 1);
    assert_eq!(skipped, 199);
}

#[test]
fn timer_firing_allows_a_new_deferral() {
    let mut l = FrameLimiter::new(0);
    assert_eq!(l.poll(MS), FrameAction::ScheduleRedraw(FRAME_BUDGET_NS - MS));
    assert_eq!(l.poll(2 * MS), FrameAction::Skip);
    l.redraw_fired();
    assert!(!l.is_redraw_pending());
    assert_eq!(l.poll(7 * MS), FrameAction::Render);
    l.mark_rendered(7 * MS);
    assert_eq!(l.last_render_ns, 7 * MS);
    assert_eq!(l.poll(8 * MS), FrameAction::ScheduleRedraw(FRAME_BUDGET_NS - MS));
}

#[test]
fn clock_before_last_render_counts_as_no_time() {
    let mut l = FrameLimiter::with_budget(100, 1000);
    assert_eq!(l.poll(500), FrameAction::ScheduleRedraw(100));
}

#[test]
fn zero_budget_always_renders() {
    let mut l = FrameLimiter::with_budget(0, 1000);
    assert_eq!(l.poll(1000), FrameAction::Render);
    assert_eq!(l.poll(0), FrameAction::Render);
}
