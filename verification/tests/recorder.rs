use wl_screenrec::protocol::{BufferRequest, DrmFrame, PlaneRequest};
use wl_screenrec::setup::{MapRequest, PixelFormat};
use wl_screenrec::state::{self, After, FrameEvent, Phase, State, VaSurface};

type Event = state::Event<&'static str, u64>;
type Action = state::Action<&'static str, u64>;

const FRAME: DrmFrame = DrmFrame { fd: 5, modifier: 0x0000_0007_0000_0009, pitch: 7680 };

const MAP: Action = Action::MapSurface(MapRequest {
    format: PixelFormat::DrmPrime,
    read: true,
    write: true,
});

const READY: Event =
    Event::Frame(FrameEvent::Ready { tv_sec_hi: 0, tv_sec_lo: 12, tv_nsec: 34 });

const PACKET: u64 = 77;

const CURRENT: Event = Event::Mode { flags: 1, width: 1920, height: 1080 };

fn step(state: &mut State<u32>, event: Event) -> Action {
    assert!(state.accepts(&event), "{:?} in {:?}", event, state.phase());
    state.step(event)
}

fn run(state: &mut State<u32>, events: &[Event]) -> Vec<Action> {
    events.iter().map(|event| step(state, *event)).collect()
}

fn recorder(surfaces: u32) -> State<u32> {
    let mut state = State::new(3);
    assert_eq!(step(&mut state, CURRENT), Action::Resume);
    for f in 0..surfaces {
        state.add_surface(VaSurface { f });
    }
    assert_eq!(step(&mut state, Event::Started), Action::CheckRunning);
    state
}

/// Answers the requests of one copy; returns the surface and the actions.
fn copy(state: &mut State<u32>) -> (u32, Vec<Action>) {
    let surface = state.surface_in_hand().unwrap().f;
    let events = [Event::Mapped(FRAME), Event::Done, Event::Done, Event::Done, Event::Done];
    (surface, run(state, &events))
}

#[test]
fn copy_makes_its_requests_in_order() {
    let mut state = recorder(1);
    assert_eq!(step(&mut state, Event::Running(true)), MAP);
    let (surface, actions) = copy(&mut state);
    assert_eq!(surface, 0);
    assert_eq!(
        actions,
        vec![
            Action::AddPlane(PlaneRequest {
                fd: 5,
                plane_idx: 0,
                offset: 0,
                stride: 7680,
                modifier_hi: 7,
                modifier_lo: 9,
            }),
            Action::CaptureOutput { overlay_cursor: 1 },
            Action::CreateBuffer(BufferRequest {
                width: 1920,
                height: 1080,
                format: 875713112,
                flags: 0,
            }),
            Action::CopyWithDamage,
            Action::Dispatch,
        ]
    );
    assert_eq!(state.surface_counts(), (1, 0, 0));
    assert!(state.surface_in_hand().is_none());
}

#[test]
fn free_surfaces_are_all_submitted_before_events_are_dispatched() {
    let mut state = recorder(3);
    let mut action = step(&mut state, Event::Running(true));
    let mut submitted = Vec::new();
    while action == MAP {
        let (surface, actions) = copy(&mut state);
        submitted.push(surface);
        action = *actions.last().unwrap();
    }
    assert_eq!(action, Action::Dispatch);
    assert_eq!(submitted, vec![2, 1, 0]);
    assert_eq!(state.surface_counts(), (3, 0, 0));
    assert_eq!(state.phase(), Phase::Dispatching);
}

#[test]
fn without_a_free_surface_events_are_dispatched_at_once() {
    let mut state = recorder(0);
    assert_eq!(step(&mut state, Event::Running(true)), Action::Dispatch);
    assert_eq!(step(&mut state, Event::Dispatched), Action::CheckRunning);
}

#[test]
fn ready_frame_goes_through_filter_and_encoder() {
    let mut state = recorder(1);
    step(&mut state, Event::Running(true));
    copy(&mut state);
    let actions = run(&mut state, &[READY]);
    assert_eq!(actions, vec![Action::AddToFilter]);
    assert_eq!(state.surface_in_hand().unwrap().f, 0);
    assert_eq!(state.surface_counts(), (0, 0, 0));
    let actions = run(
        &mut state,
        &[
            Event::Done,
            Event::Pulled(Some("frame")),
            Event::Done,
            Event::Pulled(None),
            Event::Received(Some(PACKET)),
            Event::Done,
            Event::Received(Some(PACKET)),
            Event::Done,
            Event::Received(None),
        ],
    );
    assert_eq!(
        actions,
        vec![
            Action::PullFrame,
            Action::SendFrame("frame"),
            Action::PullFrame,
            Action::ReceivePacket,
            Action::WritePacket { stream: 3, packet: PACKET },
            Action::ReceivePacket,
            Action::WritePacket { stream: 3, packet: PACKET },
            Action::ReceivePacket,
            Action::Resume,
        ]
    );
    assert_eq!(state.surface_counts(), (0, 0, 1));
    assert_eq!(state.phase(), Phase::Dispatching);
    let actions = run(&mut state, &[Event::Dispatched, Event::Running(true)]);
    assert_eq!(actions, vec![Action::CheckRunning, MAP]);
}

#[test]
fn surface_stays_with_the_filter_until_a_frame_comes_out() {
    let mut state = recorder(2);
    step(&mut state, Event::Running(true));
    copy(&mut state);
    copy(&mut state);
    let quiet = [READY, Event::Done, Event::Pulled(None), Event::Received(None)];
    run(&mut state, &quiet);
    assert_eq!(state.surface_counts(), (1, 1, 0));
    run(&mut state, &[READY, Event::Done, Event::Pulled(Some("frame")), Event::Done]);
    run(&mut state, &[Event::Pulled(Some("frame")), Event::Done]);
    assert!(!state.accepts(&Event::Pulled(Some("frame"))));
    run(&mut state, &[Event::Pulled(None), Event::Received(None)]);
    assert_eq!(state.surface_counts(), (0, 0, 2));
}

#[test]
fn surfaces_come_back_in_the_order_of_their_submission() {
    let mut state = recorder(3);
    step(&mut state, Event::Running(true));
    let submitted = [copy(&mut state).0, copy(&mut state).0, copy(&mut state).0];
    for surface in submitted {
        assert_eq!(step(&mut state, READY), Action::AddToFilter);
        assert_eq!(state.surface_in_hand().unwrap().f, surface);
        run(&mut state, &[Event::Done, Event::Pulled(None), Event::Received(None)]);
    }
    assert_eq!(state.surface_counts(), (0, 3, 0));
}

#[test]
fn no_surface_is_lost() {
    let mut state = recorder(4);
    let mut action = step(&mut state, Event::Running(true));
    let mut turns = 0;
    while turns < 200 {
        let (compositor, filter, free) = state.surface_counts();
        let hand = usize::from(state.surface_in_hand().is_some());
        assert_eq!(compositor + filter + free + hand, 4);
        let event = match action {
            Action::CheckRunning => Event::Running(true),
            Action::MapSurface(_) => Event::Mapped(FRAME),
            Action::Dispatch | Action::Resume if turns % 3 == 0 && compositor > 0 => READY,
            Action::Dispatch | Action::Resume => Event::Dispatched,
            Action::PullFrame => Event::Pulled((filter > 0 && turns % 2 == 0).then_some("frame")),
            Action::ReceivePacket => Event::Received((turns % 5 == 0).then_some(PACKET)),
            _ => Event::Done,
        };
        action = step(&mut state, event);
        turns += 1;
    }
}

#[test]
fn current_mode_sets_the_size() {
    let mut state: State<u32> = State::new(0);
    assert_eq!(state.dims(), None);
    step(&mut state, Event::Mode { flags: 2, width: 800, height: 600 });
    assert_eq!(state.dims(), None);
    step(&mut state, Event::Mode { flags: 0, width: 640, height: 480 });
    assert_eq!(state.dims(), None);
    step(&mut state, Event::Mode { flags: 3, width: 2560, height: 1440 });
    assert_eq!(state.dims(), Some((2560, 1440)));
    step(&mut state, Event::Mode { flags: 2, width: 1, height: 1 });
    assert_eq!(state.dims(), Some((2560, 1440)));
    step(&mut state, Event::Mode { flags: 0xffff_fffd, width: 1280, height: 720 });
    assert_eq!(state.dims(), Some((1280, 720)));
    step(&mut state, Event::Mode { flags: 0xffff_fffe, width: 1, height: 1 });
    assert_eq!(state.dims(), Some((1280, 720)));
}

#[test]
fn buffers_follow_a_change_of_mode() {
    let mut state = recorder(1);
    step(&mut state, Event::Running(true));
    copy(&mut state);
    step(&mut state, Event::Mode { flags: 1, width: 3840, height: 2160 });
    run(&mut state, &[READY, Event::Done, Event::Pulled(Some("frame")), Event::Done]);
    run(&mut state, &[Event::Pulled(None), Event::Received(None)]);
    run(&mut state, &[Event::Dispatched, Event::Running(true)]);
    let (_, actions) = copy(&mut state);
    assert_eq!(
        actions[2],
        Action::CreateBuffer(BufferRequest {
            width: 3840,
            height: 2160,
            format: 875713112,
            flags: 0,
        })
    );
}

#[test]
fn other_frame_events_change_nothing() {
    let mut state = recorder(1);
    step(&mut state, Event::Running(true));
    copy(&mut state);
    assert_eq!(step(&mut state, Event::Frame(FrameEvent::Other)), Action::Resume);
    assert_eq!(state.surface_counts(), (1, 0, 0));
    assert_eq!(state.phase(), Phase::Dispatching);
}

#[test]
fn recording_starts_only_with_a_known_size() {
    let mut state: State<u32> = State::new(0);
    assert!(!state.accepts(&Event::Started));
    step(&mut state, Event::Frame(FrameEvent::Other));
    assert!(!state.accepts(&Event::Started));
    step(&mut state, CURRENT);
    assert!(state.accepts(&Event::Started));
}

#[test]
fn ready_needs_an_outstanding_copy() {
    let mut state = recorder(1);
    assert!(!state.accepts(&READY));
    step(&mut state, Event::Running(true));
    assert!(!state.accepts(&READY));
    copy(&mut state);
    assert!(state.accepts(&READY));
    run(&mut state, &[READY, Event::Done, Event::Pulled(None), Event::Received(None)]);
    assert!(!state.accepts(&READY));
}

#[test]
fn shutdown_drains_ends_and_writes_the_trailer() {
    let mut state = recorder(1);
    let actions = run(
        &mut state,
        &[
            Event::Running(false),
            Event::Done,
            Event::Received(Some(PACKET)),
            Event::Done,
            Event::Received(None),
            Event::Done,
            Event::Received(Some(PACKET)),
            Event::Done,
            Event::Received(Some(PACKET)),
            Event::Done,
            Event::Received(None),
            Event::Done,
        ],
    );
    assert_eq!(
        actions,
        vec![
            Action::FlushFilter,
            Action::ReceivePacket,
            Action::WritePacket { stream: 3, packet: PACKET },
            Action::ReceivePacket,
            Action::SendEof,
            Action::ReceivePacket,
            Action::WritePacket { stream: 3, packet: PACKET },
            Action::ReceivePacket,
            Action::WritePacket { stream: 3, packet: PACKET },
            Action::ReceivePacket,
            Action::WriteTrailer,
            Action::Stop,
        ]
    );
    assert_eq!(state.phase(), Phase::Stopped);
    assert_eq!(state.surface_counts(), (0, 0, 1));
}

#[test]
fn shutdown_without_packets() {
    let mut state = recorder(0);
    step(&mut state, Event::Running(false));
    step(&mut state, Event::Done);
    assert_eq!(state.phase(), Phase::Receiving { after: After::SendEof });
    assert_eq!(step(&mut state, Event::Received(None)), Action::SendEof);
    step(&mut state, Event::Done);
    assert_eq!(state.phase(), Phase::Receiving { after: After::WriteTrailer });
    assert_eq!(step(&mut state, Event::Received(None)), Action::WriteTrailer);
    assert_eq!(step(&mut state, Event::Done), Action::Stop);
}

#[test]
fn stopped_recorder_takes_no_event() {
    let mut state = recorder(1);
    run(&mut state, &[Event::Running(false), Event::Done, Event::Received(None)]);
    run(&mut state, &[Event::Done, Event::Received(None), Event::Done]);
    for event in [
        CURRENT,
        READY,
        Event::Frame(FrameEvent::Other),
        Event::Started,
        Event::Running(true),
        Event::Mapped(FRAME),
        Event::Dispatched,
        Event::Pulled(None),
        Event::Received(None),
        Event::Done,
    ] {
        assert!(!state.accepts(&event));
    }
}

#[test]
fn queued_copy_takes_the_last_free_surface() {
    let mut state = recorder(2);
    assert_eq!(state.queue_copy::<&'static str, u64>(), MAP);
    assert_eq!(state.surface_in_hand().unwrap().f, 1);
    assert_eq!(state.surface_counts(), (0, 0, 1));
    assert_eq!(state.phase(), Phase::Mapping);
}

#[test]
fn second_drain_writes_nothing() {
    let mut state = recorder(1);
    step(&mut state, Event::Running(true));
    copy(&mut state);
    run(&mut state, &[READY, Event::Done, Event::Pulled(None)]);
    run(&mut state, &[Event::Received(Some(PACKET)), Event::Done, Event::Received(None)]);
    let action: Action = state.process_ready(After::Resume);
    assert_eq!(action, Action::ReceivePacket);
    assert_eq!(step(&mut state, Event::Received(None)), Action::Resume);
    assert_eq!(state.phase(), Phase::Dispatching);
    assert_eq!(state.surface_counts(), (0, 1, 0));
}

#[test]
fn flush_begins_with_the_filter() {
    let mut state = recorder(1);
    let action: Action = state.eof_flush();
    assert_eq!(action, Action::FlushFilter);
    assert_eq!(state.phase(), Phase::Flushing);
    assert_eq!(step(&mut state, Event::Done), Action::ReceivePacket);
}

#[test]
fn frames_and_packets_are_passed_on_in_order() {
    let mut state = recorder(2);
    step(&mut state, Event::Running(true));
    copy(&mut state);
    copy(&mut state);
    run(&mut state, &[READY, Event::Done, Event::Pulled(None), Event::Received(None)]);
    run(&mut state, &[READY, Event::Done]);
    let actions = run(
        &mut state,
        &[
            Event::Pulled(Some("first")),
            Event::Done,
            Event::Pulled(Some("second")),
            Event::Done,
            Event::Pulled(None),
            Event::Received(Some(1)),
            Event::Done,
            Event::Received(Some(2)),
        ],
    );
    assert_eq!(
        actions,
        vec![
            Action::SendFrame("first"),
            Action::PullFrame,
            Action::SendFrame("second"),
            Action::PullFrame,
            Action::ReceivePacket,
            Action::WritePacket { stream: 3, packet: 1 },
            Action::ReceivePacket,
            Action::WritePacket { stream: 3, packet: 2 },
        ]
    );
}

#[test]
fn flush_and_drain_can_begin_at_any_time() {
    let mut state: State<u32> = State::new(0);
    let action: Action = state.process_ready(After::SendEof);
    assert_eq!(action, Action::ReceivePacket);
    assert_eq!(state.phase(), Phase::Receiving { after: After::SendEof });
    let action: Action = state.eof_flush();
    assert_eq!(action, Action::FlushFilter);
}
