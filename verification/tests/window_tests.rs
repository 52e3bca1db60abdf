use tvb::window::{
    acquire_backbuffer, backbuffer_acquire_step, ensure_swapchain, finish_poll, on_event, opened, poll_into,
    present_backbuffer, present_index, run, run_action, select_present_family, surface_acquire_step,
    swapchain_extent, swapchain_image_count, swapchain_outdated, convert_event, update_on_event,
    AcquireBackbuffer, AcquireError, AcquireStep, Event, Events, PresentBackbuffer, RunAction, RunOutcome,
    Settings, Status, WindowEvent, BACKBUFFER_ACQUIRE_ATTEMPTS, SURFACE_ACQUIRE_ATTEMPTS,
    swapchain_settings, SurfaceSwapchain, SwapchainSettings,
};
use tvb::graphics::{PresentMode, BGRA8_UNORM};
use tvb::Size;

#[test]
fn settings_default_is_nova_640_by_360() {
    let s = Settings::default();
    assert_eq!(s.title, "Nova");
    assert!(s.resizable);
    assert!(!s.fullscreen);
    assert_eq!(s.size, Size::new(640, 360));
}

#[test]
fn settings_set_title_replaces_only_title() {
    let mut s = Settings::default();
    s.fullscreen = true;
    s.set_title("Project TVB");
    assert_eq!(s.title, "Project TVB");
    assert!(s.fullscreen);
    assert!(s.resizable);
    assert_eq!(s.size, Size::new(640, 360));
    s.set_title("");
    assert_eq!(s.title, "");
}

#[test]
fn size_accessors() {
    let s = Size::new(3, 4);
    assert_eq!(s.width(), 3);
    assert_eq!(s.height(), 4);
}

#[test]
fn convert_keeps_close_and_resize_only() {
    assert_eq!(convert_event(WindowEvent::CloseRequested), Some(Event::CloseRequested));
    assert_eq!(convert_event(WindowEvent::Resized), Some(Event::Resized));
    assert_eq!(convert_event(WindowEvent::Other), None);
}

#[test]
fn poll_into_appends_converted_events_in_order() {
    let mut events = Events::default();
    events.latest.push(Event::Resized);
    let polled = vec![WindowEvent::Other, WindowEvent::CloseRequested, WindowEvent::Other, WindowEvent::Resized];
    poll_into(&polled, &mut events.latest);
    assert_eq!(events.latest, vec![Event::Resized, Event::CloseRequested, Event::Resized]);
    poll_into(&Vec::new(), &mut events.latest);
    assert_eq!(events.latest.len(), 3);
}

#[test]
fn update_on_event_tracks_resize_and_exit() {
    let u = update_on_event(WindowEvent::Resized, false);
    assert!(u.refresh_size && !u.exit_requested);
    let u = update_on_event(WindowEvent::CloseRequested, false);
    assert!(!u.refresh_size && u.exit_requested);
    let u = update_on_event(WindowEvent::Other, true);
    assert!(!u.refresh_size && u.exit_requested);
}

#[test]
fn run_action_follows_status() {
    assert_eq!(run_action(Status::Opening), RunAction::Open);
    assert_eq!(run_action(Status::Open), RunAction::Poll);
    assert_eq!(run_action(Status::Closing), RunAction::Poll);
    assert_eq!(run_action(Status::Closed), RunAction::Idle);
}

#[test]
fn opening_succeeds_or_closes() {
    assert_eq!(opened(true), Status::Open);
    assert_eq!(opened(false), Status::Closed);
    assert_eq!(run(Status::Opening, true, &RunOutcome::Opened(true)), Status::Open);
    assert_eq!(run(Status::Opening, true, &RunOutcome::Opened(false)), Status::Closed);
}

#[test]
fn close_request_starts_closing_then_closes() {
    let events = vec![WindowEvent::Resized, WindowEvent::CloseRequested, WindowEvent::Other];
    let s = run(Status::Open, true, &RunOutcome::Polled(events.clone()));
    assert_eq!(s, Status::Closing);
    let s = run(s, true, &RunOutcome::Polled(Vec::new()));
    assert_eq!(s, Status::Closed);
    // Once closed, nothing reopens the window.
    assert_eq!(run(s, true, &RunOutcome::Opened(true)), Status::Closed);
    assert_eq!(run(s, true, &RunOutcome::Polled(events)), Status::Closed);
}

#[test]
fn close_request_ignored_when_not_closing_on_request() {
    let events = vec![WindowEvent::CloseRequested];
    assert_eq!(run(Status::Open, false, &RunOutcome::Polled(events)), Status::Open);
    assert_eq!(on_event(Status::Open, false, WindowEvent::CloseRequested), Status::Open);
    assert_eq!(on_event(Status::Open, true, WindowEvent::CloseRequested), Status::Closing);
    assert_eq!(on_event(Status::Open, true, WindowEvent::Resized), Status::Open);
}

#[test]
fn finish_poll_closes_windows_that_were_closing() {
    assert_eq!(finish_poll(Status::Closing, true), Status::Closed);
    assert_eq!(finish_poll(Status::Closing, false), Status::Closing);
    assert_eq!(finish_poll(Status::Open, false), Status::Open);
}

#[test]
fn unasked_answers_change_nothing() {
    assert_eq!(run(Status::Opening, true, &RunOutcome::Idle), Status::Opening);
    assert_eq!(run(Status::Open, true, &RunOutcome::Opened(false)), Status::Open);
}

#[test]
fn backbuffer_system_constructors() {
    let _a: AcquireBackbuffer = acquire_backbuffer();
    let _p: PresentBackbuffer = present_backbuffer();
}

#[test]
fn backbuffer_acquire_retries_once_on_out_of_date() {
    assert_eq!(BACKBUFFER_ACQUIRE_ATTEMPTS, 2);
    assert_eq!(backbuffer_acquire_step(0, Ok(1)), AcquireStep::Use(1));
    assert_eq!(backbuffer_acquire_step(0, Err(AcquireError::OutOfDate)), AcquireStep::Retry);
    assert_eq!(backbuffer_acquire_step(1, Err(AcquireError::OutOfDate)), AcquireStep::Abort);
    assert_eq!(backbuffer_acquire_step(0, Err(AcquireError::NotReady)), AcquireStep::Abort);
    assert_eq!(backbuffer_acquire_step(0, Err(AcquireError::SurfaceLost)), AcquireStep::Abort);
}

#[test]
fn surface_acquire_retries_four_times() {
    assert_eq!(SURFACE_ACQUIRE_ATTEMPTS, 5);
    assert_eq!(surface_acquire_step(3, Ok(0)), AcquireStep::Use(0));
    for attempt in 0..4 {
        assert_eq!(surface_acquire_step(attempt, Err(AcquireError::OutOfDate)), AcquireStep::Retry);
        assert_eq!(surface_acquire_step(attempt, Err(AcquireError::NotReady)), AcquireStep::Retry);
    }
    assert_eq!(surface_acquire_step(4, Err(AcquireError::OutOfDate)), AcquireStep::Abort);
    assert_eq!(surface_acquire_step(0, Err(AcquireError::SurfaceLost)), AcquireStep::Abort);
}

#[test]
fn present_only_with_swapchain_and_image() {
    assert_eq!(present_index(true, Some(2)), Some(2));
    assert_eq!(present_index(false, Some(2)), None);
    assert_eq!(present_index(true, None), None);
}

#[test]
fn present_family_is_first_supporting_one() {
    assert_eq!(select_present_family(&vec![false, true, true]), Some(1));
    assert_eq!(select_present_family(&vec![false, false]), None);
    assert_eq!(select_present_family(&Vec::new()), None);
}

#[test]
fn swapchain_extent_clamps_each_dimension() {
    let min = Size::new(100, 100);
    let max = Size::new(1920, 1080);
    assert_eq!(swapchain_extent(min, max, Size::new(640, 360)), Size::new(640, 360));
    assert_eq!(swapchain_extent(min, max, Size::new(4000, 50)), Size::new(1920, 100));
    // Inconsistent limits: the lower limit wins.
    assert_eq!(swapchain_extent(Size::new(500, 0), Size::new(400, 0), Size::new(450, 7)), Size::new(500, 0));
}

#[test]
fn swapchain_image_count_prefers_two() {
    assert_eq!(swapchain_image_count(0), 2);
    assert_eq!(swapchain_image_count(1), 1);
    assert_eq!(swapchain_image_count(2), 2);
    assert_eq!(swapchain_image_count(8), 2);
}

#[test]
fn swapchain_outdated_on_any_size_change() {
    assert!(!swapchain_outdated(Size::new(1, 2), Size::new(1, 2)));
    assert!(swapchain_outdated(Size::new(1, 2), Size::new(1, 3)));
    assert!(swapchain_outdated(Size::new(2, 2), Size::new(1, 2)));
}

#[test]
fn ensure_swapchain_decisions() {
    let a = Size::new(640, 360);
    let b = Size::new(800, 600);
    let e = ensure_swapchain(a, a, true);
    assert!(!e.drop_current && !e.create && e.size == a);
    let e = ensure_swapchain(a, a, false);
    assert!(!e.drop_current && e.create);
    let e = ensure_swapchain(a, b, true);
    assert!(e.drop_current && e.create && e.size == b);
    let e = ensure_swapchain(a, b, false);
    assert!(!e.drop_current && e.create);
}

#[test]
fn clamping_an_extent_twice_changes_nothing() {
    let min = Size::new(100, 50);
    let max = Size::new(800, 600);
    for size in [Size::new(0, 0), Size::new(640, 360), Size::new(5000, 5000)] {
        let once = swapchain_extent(min, max, size);
        assert_eq!(swapchain_extent(min, max, once), once);
        assert!(once.width >= 100 && once.width <= 800);
        assert!(once.height >= 50 && once.height <= 600);
    }
}

#[test]
fn settings_equality_compares_every_setting() {
    let a = Settings::default();
    let mut b = Settings::default();
    assert!(a == b);
    b.set_title("Other");
    assert!(a != b);
    b.set_title("Nova");
    assert!(a == b);
    b.resizable = false;
    assert!(a != b);
}

#[test]
fn acquisition_ends_within_allowed_attempts() {
    // Every attempt out of date: the backbuffer gives up after its second
    // attempt, a surface after its fifth.
    let mut steps = Vec::new();
    let mut attempt = 0;
    loop {
        let step = surface_acquire_step(attempt, Err(AcquireError::OutOfDate));
        steps.push(step);
        if step != AcquireStep::Retry {
            break;
        }
        attempt += 1;
    }
    assert_eq!(steps.len(), 5);
    assert_eq!(steps[4], AcquireStep::Abort);
    let mut attempt = 0;
    while backbuffer_acquire_step(attempt, Err(AcquireError::OutOfDate)) == AcquireStep::Retry {
        attempt += 1;
    }
    assert_eq!(attempt + 1, 2);
}

#[test]
fn window_exists_between_opening_and_closing() {
    let s = run(Status::Opening, true, &RunOutcome::Opened(true));
    assert!(s == Status::Open || s == Status::Closing);
    let s = run(Status::Opening, true, &RunOutcome::Opened(false));
    assert_eq!(s, Status::Closed);
    let s = run(Status::Closing, true, &RunOutcome::Polled(vec![]));
    assert_eq!(s, Status::Closed);
}

#[test]
fn window_swapchain_settings_are_fixed_but_extent_and_count() {
    let s = swapchain_settings(Size::new(10, 10), Size::new(100, 50), 0, Size::new(640, 20));
    assert_eq!(
        s,
        SwapchainSettings {
            format: BGRA8_UNORM,
            present_mode: PresentMode::Fifo,
            extent: Size::new(100, 20),
            image_count: 2,
            image_layers: 1,
        }
    );
    let s = swapchain_settings(Size::new(1, 1), Size::new(4096, 4096), 1, Size::new(640, 360));
    assert_eq!(s.extent, Size::new(640, 360));
    assert_eq!(s.image_count, 1);
}

#[test]
fn surface_swapchain_is_created_maintained_and_reset() {
    let min = Size::new(1, 1);
    let max = Size::new(4096, 4096);
    let mut s = SurfaceSwapchain::new(Size::new(640, 360));
    assert!(!s.alive);
    let created = s.ensure(min, max, 3).unwrap();
    assert_eq!(created.extent, Size::new(640, 360));
    assert_eq!(created.image_count, 2);
    assert!(s.alive);
    assert_eq!(s.ensure(min, max, 3), None);
    s.maintain(Size::new(640, 360));
    assert!(s.alive);
    s.presented(true);
    assert!(s.alive);
    s.presented(false);
    assert!(!s.alive);
    assert!(s.ensure(min, max, 3).is_some());
    assert!(s.alive);
    s.maintain(Size::new(800, 600));
    assert!(!s.alive);
    assert_eq!(s.size, Size::new(640, 360));
}

#[test]
fn surface_swapchain_size_becomes_the_clamped_extent() {
    let mut s = SurfaceSwapchain::new(Size::new(640, 360));
    let created = s.ensure(Size::new(1, 1), Size::new(320, 200), 0).unwrap();
    assert_eq!(created.extent, Size::new(320, 200));
    assert_eq!(s.size, Size::new(320, 200));
    s.maintain(Size::new(640, 360));
    assert!(!s.alive);
}
