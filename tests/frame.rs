use vkwh::frame::{FrameAction, FrameCycle, FrameEvent, FrameState};

#[test]
fn zero_extent_after_recreate_signal() {
    let mut f = FrameCycle::new();
    f.recreate_swapchain();
    assert_eq!(f.step(FrameEvent::Redraw { width: 0, height: 0 }), FrameAction::Done);
    assert_eq!(f.state(), FrameState::Idle);
    assert!(f.needs_recreate());
    assert_eq!(f.step(FrameEvent::Redraw { width: 640, height: 0 }), FrameAction::Done);
    assert_eq!(
        f.step(FrameEvent::Redraw { width: 640, height: 480 }),
        FrameAction::RecreateSurface { width: 640, height: 480 }
    );
    assert_eq!(f.step(FrameEvent::Recreated), FrameAction::AcquireImage);
    assert!(!f.needs_recreate());
}

#[test]
fn full_cycle_presents_acquired_image() {
    let mut f = FrameCycle::new();
    assert_eq!(f.step(FrameEvent::Redraw { width: 800, height: 600 }), FrameAction::AcquireImage);
    assert_eq!(f.state(), FrameState::Acquiring);
    assert_eq!(
        f.step(FrameEvent::Acquired { index: 2, suboptimal: false }),
        FrameAction::Record { index: 2 }
    );
    assert_eq!(f.step(FrameEvent::Recorded), FrameAction::Submit);
    assert_eq!(f.step(FrameEvent::Submitted), FrameAction::Present { index: 2 });
    assert_eq!(f.step(FrameEvent::Presented { suboptimal: false }), FrameAction::Done);
    assert_eq!(f.state(), FrameState::Idle);
    assert!(!f.needs_recreate());
}

#[test]
fn out_of_date_drops_frame_and_recreates_next() {
    let mut f = FrameCycle::new();
    f.step(FrameEvent::Redraw { width: 10, height: 10 });
    assert_eq!(f.step(FrameEvent::OutOfDate), FrameAction::Done);
    assert_eq!(f.state(), FrameState::Idle);
    assert!(f.needs_recreate());
    assert_eq!(
        f.step(FrameEvent::Redraw { width: 20, height: 30 }),
        FrameAction::RecreateSurface { width: 20, height: 30 }
    );
    assert_eq!(f.step(FrameEvent::RecreateFailed), FrameAction::Done);
    assert!(f.needs_recreate());
}

#[test]
fn suboptimal_acquire_keeps_frame_and_flags_recreate() {
    let mut f = FrameCycle::new();
    f.step(FrameEvent::Redraw { width: 10, height: 10 });
    assert_eq!(
        f.step(FrameEvent::Acquired { index: 0, suboptimal: true }),
        FrameAction::Record { index: 0 }
    );
    assert!(f.needs_recreate());
    f.step(FrameEvent::Recorded);
    f.step(FrameEvent::Submitted);
    assert_eq!(f.step(FrameEvent::OutOfDate), FrameAction::Done);
    assert!(f.needs_recreate());
}

#[test]
fn stray_event_is_ignored() {
    let mut f = FrameCycle::new();
    assert_eq!(f.step(FrameEvent::Recorded), FrameAction::Ignore);
    assert_eq!(f.state(), FrameState::Idle);
    f.step(FrameEvent::Redraw { width: 1, height: 1 });
    assert_eq!(f.step(FrameEvent::Presented { suboptimal: false }), FrameAction::Ignore);
    assert_eq!(f.state(), FrameState::Acquiring);
}
