use std::cell::RefCell;

use pixbuf::backends::{Backend, Event, SessionState, SystemEvent};
use pixbuf::pixel::PixelType;
use pixbuf::pixmap::{Pixmap, PixelStore, MAX_DIM};
use pixbuf::progress::bridge;
use pixbuf::GfxError;

#[test]
fn scenario_view_gates_resize() {
    let (mut root, mut st) = Pixmap::new(100, 200, PixelType::Rgb888, 0).expect("alloc failed");
    let v = root.sub_pixmap(&mut st, 1, 1, 98, 198).expect("view failed");

    assert_eq!(v.w(), 98);
    assert_eq!(v.h(), 198);

    match root.resize(&mut st, 10, 10) {
        Err(GfxError::OwnershipConflict) => {}
        other => panic!("expected OwnershipConflict, got {:?}", other),
    }

    v.close(&mut st);

    assert!(root.resize(&mut st, 10, 10).is_ok());
    assert_eq!(root.w(), 10);
    assert_eq!(root.h(), 10);
}

#[test]
fn scenario_progress_success() {
    let seen: RefCell<Vec<u8>> = RefCell::new(Vec::new());
    let checkpoints: Vec<u8> = vec![0, 25, 50, 75, 100];

    let r = bridge(&checkpoints, Ok::<u32, GfxError>(42), |p: u8| {
        seen.borrow_mut().push(p);
        true
    });

    assert_eq!(r, Ok(42));
    // the predicate observed exactly five calls, in non-decreasing order
    assert_eq!(seen.into_inner(), vec![0, 25, 50, 75, 100]);
}

#[test]
fn scenario_progress_cancellation() {
    let seen: RefCell<Vec<u8>> = RefCell::new(Vec::new());
    let checkpoints: Vec<u8> = vec![0, 25, 50, 75, 100];

    // cancel on the first call whose percentage is above zero
    let r = bridge(&checkpoints, Ok::<u32, GfxError>(7), |p: u8| {
        seen.borrow_mut().push(p);
        p == 0
    });

    assert_eq!(r, Err(GfxError::OperationCancelled));
    // no percentage is observed after the cancelling call
    assert_eq!(seen.into_inner(), vec![0, 25]);
}

#[test]
fn scenario_backend_state_machine() {
    let mut b = Backend::init("", 320, 240, "caption").expect("no backend");
    assert!(b.render_allowed());

    b.push_event(Event::System(SystemEvent::RenderStop));
    let ev = b.wait_ev().expect("no event");
    assert_eq!(ev, Event::System(SystemEvent::RenderStop));

    // after a RenderStop and before render_stopped(), rendering into the
    // front buffer is disallowed by the state machine contract
    assert!(!b.render_allowed());
    assert_eq!(b.state, SessionState::Stopped { acked: false, restart_seen: false });

    b.render_stopped();
    assert!(b.render_allowed());

    b.push_event(Event::System(SystemEvent::RenderStart));
    b.wait_ev().expect("no event");
    assert_eq!(b.state, SessionState::Active);
    assert!(b.render_allowed());
}

#[test]
fn backend_quit_is_terminal() {
    let mut b = Backend::init("", 16, 16, "t").expect("no backend");

    b.push_event(Event::System(SystemEvent::Quit));
    b.wait_ev().expect("no event");
    assert_eq!(b.state, SessionState::Closed);
    assert!(!b.render_allowed());

    // a closed session stays closed on any further event
    b.push_event(Event::System(SystemEvent::RenderStart));
    b.wait_ev().expect("no event");
    assert_eq!(b.state, SessionState::Closed);
}

#[test]
fn backend_events_fifo() {
    let mut b = Backend::init("", 8, 8, "t").expect("no backend");
    assert_eq!(b.wait_ev(), None);

    b.push_event(Event::System(SystemEvent::RenderResize(64, 32)));
    b.push_event(Event::System(SystemEvent::RenderPixelTypeChange(PixelType::G8)));

    let first = b.wait_ev().expect("no event");
    assert_eq!(first, Event::System(SystemEvent::RenderResize(64, 32)));
    assert_eq!(first.ev_type(), 1);
    assert_eq!(first.new_w(), 64);
    assert_eq!(first.new_h(), 32);
    // metadata events do not change the lifecycle state
    assert_eq!(b.state, SessionState::Active);

    let second = b.wait_ev().expect("no event");
    assert_eq!(second.pixel_type(), Some(PixelType::G8));
    assert_eq!(b.wait_ev(), None);
}

#[test]
fn backend_update_preserves_content() {
    let mut b = Backend::init("", 32, 32, "t").expect("no backend");
    let red = b.pixmap.rgb_to_pixel(0xff, 0, 0);
    b.pixmap.put_pixel(&mut b.store, 3, 4, red);

    b.update();
    assert_eq!(b.pixmap.get_pixel(&b.store, 3, 4), red);

    b.update_rect(0, 0, 7, 7);
    assert_eq!(b.pixmap.get_pixel(&b.store, 3, 4), red);

    // flip swaps storage with the presented block, preserving nothing
    b.flip();
    assert_eq!(b.pixmap.get_pixel(&b.store, 3, 4), red);
    b.pixmap.put_pixel(&mut b.store, 3, 4, 0);
    b.flip();
    assert_eq!(b.pixmap.get_pixel(&b.store, 3, 4), red);
}

#[test]
fn update_rect_presents_only_the_rect() {
    let mut b = Backend::init("", 8, 8, "t").expect("no backend");
    let red = b.pixmap.rgb_to_pixel(0xff, 0, 0);
    let blue = b.pixmap.rgb_to_pixel(0, 0, 0xff);
    b.pixmap.put_pixel(&mut b.store, 1, 1, red);
    b.pixmap.put_pixel(&mut b.store, 6, 6, blue);

    b.update_rect(0, 0, 3, 3);
    let snap = PixelStore { bytes: b.screen.clone(), holders: 1, external: false };
    assert_eq!(b.pixmap.get_pixel(&snap, 1, 1), red);
    // outside the presented rectangle the screen still shows its initial zeros
    assert_eq!(b.pixmap.get_pixel(&snap, 6, 6), 0);

    b.update();
    let snap = PixelStore { bytes: b.screen.clone(), holders: 1, external: false };
    assert_eq!(b.pixmap.get_pixel(&snap, 6, 6), blue);
}

#[test]
fn init_yields_absence_when_no_buffer_can_be_had() {
    assert!(Backend::init("", MAX_DIM, MAX_DIM, "t").is_none());
    assert!(Backend::init("", 1, 1, "t").is_some());
}

#[test]
fn bridge_passes_errors_through() {
    let checkpoints: Vec<u8> = vec![50];
    let r = bridge(&checkpoints, Err::<u32, GfxError>(GfxError::IoError), |_p: u8| true);
    assert_eq!(r, Err(GfxError::IoError));

    let none: Vec<u8> = Vec::new();
    let r = bridge(&none, Ok::<u32, GfxError>(9), |_p: u8| false);
    assert_eq!(r, Ok(9));
}
