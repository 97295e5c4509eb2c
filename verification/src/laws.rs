//! What holds of every run of the recorder, whatever the compositor, the filter graph and the
//! encoder answer.
use crate::protocol::DrmFrame;
use crate::state::{Action, After, Event, FrameEvent, Phase, StateView, VaSurface};
use vstd::prelude::*;

verus! {

/// The state after `events`, taken one after the other.
pub open spec fn run<F, V, K>(start: StateView<F>, events: Seq<Event<V, K>>) -> StateView<F>
    decreases events.len(),
{
    if events.len() == 0 {
        start
    } else {
        run(start, events.drop_last()).step(events.last()).0
    }
}

/// The actions that answer `events`.
pub open spec fn actions<F, V, K>(
    start: StateView<F>,
    events: Seq<Event<V, K>>,
) -> Seq<Action<V, K>>
    decreases events.len(),
{
    if events.len() == 0 {
        Seq::empty()
    } else {
        actions(start, events.drop_last()).push(run(start, events.drop_last()).step(events.last()).1)
    }
}

/// Whether each of `events` is accepted when its turn comes.
pub open spec fn all_accepted<F, V, K>(start: StateView<F>, events: Seq<Event<V, K>>) -> bool
    decreases events.len(),
{
    events.len() == 0 || {
        &&& all_accepted(start, events.drop_last())
        &&& run(start, events.drop_last()).accepts(events.last())
    }
}

/// The surfaces whose copy has been requested, in that order.
pub open spec fn submitted<F, V, K>(
    start: StateView<F>,
    events: Seq<Event<V, K>>,
) -> Seq<VaSurface<F>>
    decreases events.len(),
{
    if events.len() == 0 {
        Seq::empty()
    } else {
        let before = run(start, events.drop_last());
        let earlier = submitted(start, events.drop_last());
        if before.phase == Phase::Copying && events.last() is Done {
            earlier.push(before.hand->0)
        } else {
            earlier
        }
    }
}

/// The surfaces that the filter graph has released, in that order.
pub open spec fn recycled<F, V, K>(
    start: StateView<F>,
    events: Seq<Event<V, K>>,
) -> Seq<VaSurface<F>>
    decreases events.len(),
{
    if events.len() == 0 {
        Seq::empty()
    } else {
        let before = run(start, events.drop_last());
        let earlier = recycled(start, events.drop_last());
        if events.last() matches Event::Pulled(Some(_)) {
            earlier.push(before.filter.first())
        } else {
            earlier
        }
    }
}

/// Whether `event` says that the compositor has filled a surface.
pub open spec fn is_ready<V, K>(event: Event<V, K>) -> bool {
    event matches Event::Frame(FrameEvent::Ready { .. })
}

/// The surfaces between the request of their copy and their release, the oldest first.
pub open spec fn pipeline<F>(state: StateView<F>) -> Seq<VaSurface<F>> {
    state.filter + (if state.phase == Phase::Filtering {
        seq![state.hand->0]
    } else {
        Seq::empty()
    }) + state.compositor
}

/// The size that the last current mode among `events` announces, or `dims` without one.
pub open spec fn last_current_mode<V, K>(
    dims: Option<(i32, i32)>,
    events: Seq<Event<V, K>>,
) -> Option<(i32, i32)>
    decreases events.len(),
{
    if events.len() == 0 {
        dims
    } else {
        match events.last() {
            Event::Mode { flags, width, height } if crate::protocol::is_current_mode(flags) => {
                Some((width, height))
            },
            _ => last_current_mode(dims, events.drop_last()),
        }
    }
}

/// Every event that is accepted keeps the recorder's invariant.
pub proof fn law_invariant_kept<F, V, K>(start: StateView<F>, events: Seq<Event<V, K>>)
    requires
        start.wf(),
        all_accepted(start, events),
    ensures
        run(start, events).wf(),
    decreases events.len(),
{
    if events.len() > 0 {
        law_invariant_kept(start, events.drop_last());
    }
}

/// No surface is lost and none is used twice: whatever happens, the recorder holds the
/// surfaces that it started with.
pub proof fn law_surfaces_conserved<F, V, K>(start: StateView<F>, events: Seq<Event<V, K>>)
    requires
        start.wf(),
        all_accepted(start, events),
    ensures
        run(start, events).surfaces() == start.surfaces(),
    decreases events.len(),
{
    if events.len() > 0 {
        law_surfaces_conserved(start, events.drop_last());
        law_invariant_kept(start, events.drop_last());
        crate::state::lemma_step_conserves(run(start, events.drop_last()), events.last());
    }
}

/// Surfaces leave the pipeline in the order in which they entered it: those that were in it
/// and those submitted since are those released, followed by those that are in it now.
pub proof fn law_surfaces_in_order<F, V, K>(start: StateView<F>, events: Seq<Event<V, K>>)
    requires
        start.wf(),
        all_accepted(start, events),
    ensures
        pipeline(start) + submitted(start, events) == recycled(start, events) + pipeline(
            run(start, events),
        ),
    decreases events.len(),
{
    if events.len() > 0 {
        let earlier = events.drop_last();
        law_surfaces_in_order(start, earlier);
        law_invariant_kept(start, earlier);
        let before = run(start, earlier);
        let after = run(start, events);
        let event = events.last();
        let entered = submitted(start, earlier);
        let left = recycled(start, earlier);
        if before.phase == Phase::Copying && event is Done {
            assert(pipeline(after) =~= pipeline(before).push(before.hand->0));
            assert(pipeline(start) + entered.push(before.hand->0) =~= (pipeline(start) + entered).push(
                before.hand->0,
            ));
            assert(left + pipeline(after) =~= (left + pipeline(before)).push(before.hand->0));
        } else if event matches Event::Pulled(Some(_)) {
            assert(seq![before.filter.first()] + pipeline(after) =~= pipeline(before));
            assert(left.push(before.filter.first()) + pipeline(after) =~= left + (seq![
                before.filter.first(),
            ] + pipeline(after)));
        } else {
            assert(pipeline(after) =~= pipeline(before));
        }
    } else {
        assert(pipeline(start) + submitted(start, events) =~= recycled(start, events) + pipeline(start));
    }
}

/// The number of surfaces that have reached the filter graph or are on their way into it.
pub open spec fn filter_count<F>(state: StateView<F>) -> nat {
    state.filter.len() + (if state.phase == Phase::Filtering {
        1nat
    } else {
        0
    })
}

/// The compositor owns as many surfaces as copies were requested and not reported ready, and
/// the filter graph as many as were reported ready and not released.
pub proof fn law_surface_counts<F, V, K>(start: StateView<F>, events: Seq<Event<V, K>>)
    requires
        start.wf(),
        all_accepted(start, events),
    ensures
        run(start, events).compositor.len() + events.filter(|e: Event<V, K>| is_ready(e)).len()
            == start.compositor.len() + submitted(start, events).len(),
        filter_count(run(start, events)) + recycled(start, events).len() == filter_count(start)
            + events.filter(|e: Event<V, K>| is_ready(e)).len(),
    decreases events.len(),
{
    reveal(Seq::filter);
    if events.len() > 0 {
        law_surface_counts(start, events.drop_last());
        law_invariant_kept(start, events.drop_last());
    }
}

/// During a dispatch, the news that a frame is ready is accepted exactly while a copy is
/// outstanding; and after a surface was added to the filter graph, a converted frame is
/// accepted exactly while the filter graph has released fewer surfaces than it was given.
pub proof fn law_outstanding_work_accepted<F, V, K>(
    start: StateView<F>,
    events: Seq<Event<V, K>>,
    tv_sec_hi: u32,
    tv_sec_lo: u32,
    tv_nsec: u32,
    frame: V,
)
    requires
        start.wf(),
        all_accepted(start, events),
    ensures
        run(start, events).phase == Phase::Dispatching ==> (run(start, events).accepts(
            Event::<V, K>::Frame(FrameEvent::Ready { tv_sec_hi, tv_sec_lo, tv_nsec }),
        ) <==> events.filter(|e: Event<V, K>| is_ready(e)).len() < start.compositor.len() + submitted(
            start,
            events,
        ).len()),
        run(start, events).phase == Phase::Pulling ==> (run(start, events).accepts(
            Event::<V, K>::Pulled(Some(frame)),
        ) <==> recycled(start, events).len() < filter_count(start) + events.filter(
            |e: Event<V, K>| is_ready(e),
        ).len()),
{
    law_surface_counts(start, events);
}

/// The converted frames among the answers of the filter graph, in that order.
pub open spec fn frames_pulled<V, K>(events: Seq<Event<V, K>>) -> Seq<V>
    decreases events.len(),
{
    if events.len() == 0 {
        Seq::empty()
    } else {
        match events.last() {
            Event::Pulled(Some(frame)) => frames_pulled(events.drop_last()).push(frame),
            _ => frames_pulled(events.drop_last()),
        }
    }
}

/// The packets among the answers of the encoder, in that order.
pub open spec fn packets_received<V, K>(events: Seq<Event<V, K>>) -> Seq<K>
    decreases events.len(),
{
    if events.len() == 0 {
        Seq::empty()
    } else {
        match events.last() {
            Event::Received(Some(packet)) => packets_received(events.drop_last()).push(packet),
            _ => packets_received(events.drop_last()),
        }
    }
}

/// The encoder is sent the frames that the filter graph hands out: each of them once, and in
/// that order.
pub proof fn law_frames_sent_once<F, V, K>(start: StateView<F>, events: Seq<Event<V, K>>)
    ensures
        actions(start, events).filter(|a: Action<V, K>| a is SendFrame) == frames_pulled(
            events,
        ).map_values(|frame: V| Action::<V, K>::SendFrame(frame)),
    decreases events.len(),
{
    reveal(Seq::filter);
    let sent = actions(start, events).filter(|a: Action<V, K>| a is SendFrame);
    if events.len() > 0 {
        law_frames_sent_once(start, events.drop_last());
        assert(actions(start, events).drop_last() =~= actions(start, events.drop_last()));
    }
    assert(sent =~= frames_pulled(events).map_values(|frame: V| Action::<V, K>::SendFrame(frame)));
}

/// One surface is released for each frame that the filter graph hands out.
pub proof fn law_one_surface_per_frame<F, V, K>(start: StateView<F>, events: Seq<Event<V, K>>)
    ensures
        recycled(start, events).len() == frames_pulled(events).len(),
    decreases events.len(),
{
    if events.len() > 0 {
        law_one_surface_per_frame(start, events.drop_last());
    }
}

/// The packets that the encoder hands out are written to the recorder's stream: each of them
/// once, and in that order.
pub proof fn law_packets_written_once<F, V, K>(start: StateView<F>, events: Seq<Event<V, K>>)
    ensures
        actions(start, events).filter(|a: Action<V, K>| a is WritePacket) == packets_received(
            events,
        ).map_values(
            |packet: K| Action::<V, K>::WritePacket { stream: start.ost_index, packet },
        ),
    decreases events.len(),
{
    reveal(Seq::filter);
    let written = actions(start, events).filter(|a: Action<V, K>| a is WritePacket);
    if events.len() > 0 {
        law_packets_written_once(start, events.drop_last());
        law_stream_fixed(start, events.drop_last());
        assert(actions(start, events).drop_last() =~= actions(start, events.drop_last()));
    }
    assert(written =~= packets_received(events).map_values(
        |packet: K| Action::<V, K>::WritePacket { stream: start.ost_index, packet },
    ));
}

/// The stream that packets are written to never changes.
pub proof fn law_stream_fixed<F, V, K>(start: StateView<F>, events: Seq<Event<V, K>>)
    ensures
        run(start, events).ost_index == start.ost_index,
    decreases events.len(),
{
    if events.len() > 0 {
        law_stream_fixed(start, events.drop_last());
    }
}

/// The recorder's idea of the output's size is what the last current mode announced; no other
/// event changes it.
pub proof fn law_dims_follow_current_mode<F, V, K>(start: StateView<F>, events: Seq<Event<V, K>>)
    ensures
        run(start, events).dims == last_current_mode(start.dims, events),
    decreases events.len(),
{
    if events.len() > 0 {
        law_dims_follow_current_mode(start, events.drop_last());
    }
}

/// Events are dispatched only when every surface is in use.
pub proof fn law_dispatch_without_free_surface<F, V, K>(state: StateView<F>, event: Event<V, K>)
    ensures
        state.step(event).1 is Dispatch ==> state.step(event).0.free.len() == 0,
{
}

/// Until it has stopped, the recorder can always be told something.
pub proof fn law_never_stuck<F, V, K>(state: StateView<F>)
    ensures
        (exists|event: Event<V, K>| state.accepts(event)) <==> state.phase != Phase::Stopped,
{
    let frame = DrmFrame { fd: 0, modifier: 0, pitch: 0 };
    match state.phase {
        Phase::Setup | Phase::Dispatching => assert(state.accepts(
            Event::<V, K>::Frame(FrameEvent::Other),
        )),
        Phase::Checking => assert(state.accepts(Event::<V, K>::Running(true))),
        Phase::Mapping => assert(state.accepts(Event::<V, K>::Mapped(frame))),
        Phase::Pulling => assert(state.accepts(Event::<V, K>::Pulled(None))),
        Phase::Receiving { .. } => assert(state.accepts(Event::<V, K>::Received(None))),
        Phase::Stopped => assert forall|event: Event<V, K>| !state.accepts(event) by {},
        _ => assert(state.accepts(Event::<V, K>::Done)),
    }
}

/// Every event is answered by one action.
proof fn lemma_one_action_per_event<F, V, K>(start: StateView<F>, events: Seq<Event<V, K>>)
    ensures
        actions(start, events).len() == events.len(),
    decreases events.len(),
{
    if events.len() > 0 {
        lemma_one_action_per_event(start, events.drop_last());
    }
}

/// Between a dispatch and the next question whether the recording goes on, the recorder is in
/// one of the phases of that dispatch.
proof fn lemma_in_dispatch<F, V, K>(start: StateView<F>, events: Seq<Event<V, K>>, i: int)
    requires
        all_accepted(start, events),
        0 <= i < actions(start, events).len(),
        actions(start, events)[i] is Dispatch,
        forall|k: int|
            i < k < actions(start, events).len() ==> !(#[trigger] actions(start, events)[k]
                is CheckRunning),
    ensures
        match run(start, events).phase {
            Phase::Dispatching | Phase::Filtering | Phase::Pulling | Phase::Encoding => true,
            Phase::Receiving { after } => after == After::Resume,
            Phase::Writing { after } => after == After::Resume,
            _ => false,
        },
    decreases events.len(),
{
    let earlier = actions(start, events.drop_last());
    assert(actions(start, events).drop_last() =~= earlier);
    if i < earlier.len() {
        assert(earlier[i] is Dispatch);
        assert forall|k: int| i < k < earlier.len() implies !(#[trigger] earlier[k]
            is CheckRunning) by {
            assert(earlier[k] == actions(start, events)[k]);
        }
        lemma_in_dispatch(start, events.drop_last(), i);
        assert(!(actions(start, events)[earlier.len() as int] is CheckRunning));
    }
}

/// Before events are dispatched again, it is asked whether the recording goes on: an
/// interruption is noticed after the dispatch during which it came, whatever surfaces are
/// outstanding.
pub proof fn law_running_asked_between_dispatches<F, V, K>(
    start: StateView<F>,
    events: Seq<Event<V, K>>,
    i: int,
    j: int,
)
    requires
        all_accepted(start, events),
        0 <= i < j < actions(start, events).len(),
        actions(start, events)[i] is Dispatch,
        actions(start, events)[j] is Dispatch,
    ensures
        exists|k: int| i < k < j && #[trigger] actions(start, events)[k] is CheckRunning,
    decreases events.len(),
{
    let all = actions(start, events);
    let earlier = actions(start, events.drop_last());
    assert(all.drop_last() =~= earlier);
    if j < earlier.len() {
        law_running_asked_between_dispatches(start, events.drop_last(), i, j);
        let k = choose|k: int| i < k < j && #[trigger] earlier[k] is CheckRunning;
        assert(all[k] is CheckRunning);
    } else {
        assert(earlier[i] is Dispatch);
        if forall|k: int| i < k < earlier.len() ==> !(#[trigger] earlier[k] is CheckRunning) {
            lemma_in_dispatch(start, events.drop_last(), i);
        } else {
            let k = choose|k: int| i < k < earlier.len() && #[trigger] earlier[k] is CheckRunning;
            assert(all[k] is CheckRunning);
        }
    }
}

/// Whether an action belongs to the end of a recording.
pub open spec fn ends_recording<V, K>(action: Action<V, K>) -> bool {
    action is FlushFilter || action is SendEof || action is WriteTrailer || action is Stop
}

/// A recording is brought to its end only if the answer to the question whether it goes on was
/// no: no other event, and no size of the output, leads there.
pub proof fn law_end_only_when_told<F, V, K>(start: StateView<F>, events: Seq<Event<V, K>>)
    requires
        !is_ending(start.phase),
        all_accepted(start, events),
    ensures
        is_ending(run(start, events).phase) ==> exists|j: int|
            0 <= j < events.len() && #[trigger] events[j] == Event::<V, K>::Running(false),
        forall|i: int|
            0 <= i < actions(start, events).len() && ends_recording(
                #[trigger] actions(start, events)[i],
            ) ==> exists|j: int|
                0 <= j <= i && #[trigger] events[j] == Event::<V, K>::Running(false),
    decreases events.len(),
{
    if events.len() > 0 {
        let fewer = events.drop_last();
        let all = actions(start, events);
        let last = events.len() - 1;
        law_end_only_when_told(start, fewer);
        lemma_one_action_per_event(start, fewer);
        assert(all.drop_last() =~= actions(start, fewer));
        let told = exists|j: int|
            0 <= j < fewer.len() && #[trigger] fewer[j] == Event::<V, K>::Running(false);
        if told {
            let j = choose|j: int|
                0 <= j < fewer.len() && #[trigger] fewer[j] == Event::<V, K>::Running(false);
            assert(events[j] == Event::<V, K>::Running(false));
        } else {
            assert(events[last] == events.last());
        }
        assert forall|i: int| 0 <= i < all.len() && ends_recording(#[trigger] all[i]) implies exists|
            j: int,
        | 0 <= j <= i && #[trigger] events[j] == Event::<V, K>::Running(false) by {
            if i < last {
                assert(actions(start, fewer)[i] == all[i]);
                let j = choose|j: int|
                    0 <= j <= i && #[trigger] fewer[j] == Event::<V, K>::Running(false);
                assert(events[j] == Event::<V, K>::Running(false));
            }
        }
    }
}

/// Every buffer that is created has the width and the height that the last current mode before
/// it announced.
pub proof fn law_buffers_follow_current_mode<F, V, K>(
    start: StateView<F>,
    events: Seq<Event<V, K>>,
    i: int,
)
    requires
        start.wf(),
        all_accepted(start, events),
        0 <= i < events.len(),
        actions(start, events)[i] is CreateBuffer,
    ensures
        last_current_mode(start.dims, events.take(i)) == Some(
            (
                actions(start, events)[i]->CreateBuffer_0.width,
                actions(start, events)[i]->CreateBuffer_0.height,
            ),
        ),
    decreases events.len(),
{
    let fewer = events.drop_last();
    lemma_one_action_per_event(start, fewer);
    assert(actions(start, events).drop_last() =~= actions(start, fewer));
    if i < fewer.len() {
        assert(actions(start, fewer)[i] == actions(start, events)[i]);
        law_buffers_follow_current_mode(start, fewer, i);
        assert(fewer.take(i) =~= events.take(i));
    } else {
        let before = run(start, fewer);
        assert(events.take(i) =~= fewer);
        law_invariant_kept(start, fewer);
        law_dims_follow_current_mode(start, fewer);
        crate::protocol::law_buffer_has_the_size_of_the_output(before.dims->0);
    }
}

/// Each surface counts once for every place that it is in.
pub proof fn law_surfaces_counted<F>(state: StateView<F>, surface: VaSurface<F>)
    ensures
        state.surfaces().count(surface) == state.free.to_multiset().count(surface)
            + state.compositor.to_multiset().count(surface) + state.filter.to_multiset().count(
            surface,
        ) + (if state.hand == Some(surface) {
            1nat
        } else {
            0
        }),
{
}

/// A run over two stretches of events is the run over the second from where the first ends.
proof fn lemma_run_concat<F, V, K>(
    start: StateView<F>,
    first: Seq<Event<V, K>>,
    second: Seq<Event<V, K>>,
)
    ensures
        run(start, first + second) == run(run(start, first), second),
        actions(start, first + second) == actions(start, first) + actions(run(start, first), second),
        all_accepted(start, first + second) <==> all_accepted(start, first) && all_accepted(
            run(start, first),
            second,
        ),
    decreases second.len(),
{
    if second.len() == 0 {
        assert(first + second =~= first);
    } else {
        lemma_run_concat(start, first, second.drop_last());
        assert((first + second).drop_last() =~= first + second.drop_last());
        assert((first + second).last() == second.last());
    }
}

/// A run over one event is a step.
proof fn lemma_run_one<F, V, K>(start: StateView<F>, event: Event<V, K>)
    ensures
        run(start, seq![event]) == start.step(event).0,
        actions(start, seq![event]) =~= seq![start.step(event).1],
        all_accepted(start, seq![event]) <==> start.accepts(event),
{
    reveal_with_fuel(run, 2);
    reveal_with_fuel(actions, 2);
    reveal_with_fuel(all_accepted, 2);
    assert(seq![event].drop_last() =~= Seq::<Event<V, K>>::empty());
}

/// The answers of a surface that is mapped as `frame` and copied into.
pub open spec fn copy_events<V, K>(frame: DrmFrame) -> Seq<Event<V, K>> {
    seq![Event::Mapped(frame), Event::Done, Event::Done, Event::Done, Event::Done]
}

/// The requests of a copy into a surface that is mapped as `frame`, on an output of `dims`: the
/// plane of the surface, the capture of the output with its cursor, a buffer of the output's
/// size, and the copy itself.
pub open spec fn copy_requests<V, K>(dims: (i32, i32), frame: DrmFrame) -> Seq<Action<V, K>> {
    seq![
        Action::AddPlane(crate::protocol::plane_of(frame)),
        Action::CaptureOutput { overlay_cursor: 1 },
        Action::CreateBuffer(crate::protocol::buffer_of(dims)),
        Action::CopyWithDamage,
    ]
}

/// A copy makes its requests in order. The surface then belongs to the compositor, and the
/// next free surface has its turn.
pub proof fn law_copy<F, V, K>(state: StateView<F>, frame: DrmFrame)
    requires
        state.wf(),
        state.phase == Phase::Mapping,
    ensures
        all_accepted(state, copy_events::<V, K>(frame)),
        actions(state, copy_events::<V, K>(frame)) == copy_requests(state.dims->0, frame).push(
            state.surface_submitted().refill::<V, K>().1,
        ),
        run(state, copy_events::<V, K>(frame)) == state.surface_submitted().refill::<V, K>().0,
{
    let events = copy_events::<V, K>(frame);
    let e4 = events.drop_last();
    let e3 = e4.drop_last();
    let e2 = e3.drop_last();
    let e1 = e2.drop_last();
    reveal_with_fuel(actions, 5);
    reveal_with_fuel(all_accepted, 5);
    assert(e1 =~= seq![Event::<V, K>::Mapped(frame)]);
    lemma_run_one(state, Event::<V, K>::Mapped(frame));
    assert(run(state, e2) == state.at(Phase::Capturing));
    assert(run(state, e3) == state.at(Phase::CreatingBuffer));
    assert(run(state, e4) == state.at(Phase::Copying));
    assert(state.at(Phase::Copying).surface_submitted().refill::<V, K>()
        == state.surface_submitted().refill::<V, K>());
    assert(actions(state, events) =~= copy_requests(state.dims->0, frame).push(
        state.surface_submitted().refill::<V, K>().1,
    ));
}

/// The answers of surfaces that are mapped as `frames` and copied into, one after the other.
pub open spec fn refill_events<V, K>(frames: Seq<DrmFrame>) -> Seq<Event<V, K>>
    decreases frames.len(),
{
    if frames.len() == 0 {
        Seq::empty()
    } else {
        copy_events(frames.first()) + refill_events(frames.drop_first())
    }
}

/// The actions of copies into surfaces that are mapped as `frames`, one after the other, on an
/// output of `dims`, up to the dispatch that follows them.
pub open spec fn refill_actions<V, K>(
    dims: (i32, i32),
    frames: Seq<DrmFrame>,
) -> Seq<Action<V, K>>
    decreases frames.len(),
{
    if frames.len() == 0 {
        seq![Action::Dispatch]
    } else {
        seq![Action::MapSurface(crate::setup::compositor_mapping())] + copy_requests(
            dims,
            frames.first(),
        ) + refill_actions(dims, frames.drop_first())
    }
}

/// The state in which every free surface has gone to the compositor, the last one first.
pub open spec fn refilled<F>(state: StateView<F>) -> StateView<F> {
    StateView {
        compositor: state.compositor + state.free.reverse(),
        free: Seq::empty(),
        phase: Phase::Dispatching,
        ..state
    }
}

/// The loop over free surfaces, from one of its turns on.
proof fn lemma_refill<F, V, K>(state: StateView<F>, frames: Seq<DrmFrame>)
    requires
        state.hand is None,
        state.dims is Some,
        frames.len() == state.free.len(),
    ensures
        all_accepted(state.refill::<V, K>().0, refill_events::<V, K>(frames)),
        run(state.refill::<V, K>().0, refill_events::<V, K>(frames)) == refilled(state),
        seq![state.refill::<V, K>().1] + actions(
            state.refill::<V, K>().0,
            refill_events::<V, K>(frames),
        ) == refill_actions::<V, K>(state.dims->0, frames),
    decreases frames.len(),
{
    let (first, action) = state.refill::<V, K>();
    if frames.len() == 0 {
        assert(state.free.reverse() =~= Seq::empty());
        assert(refilled(state) =~= first);
    } else {
        let next = first.surface_submitted();
        let rest = frames.drop_first();
        law_copy::<F, V, K>(first, frames.first());
        lemma_refill::<F, V, K>(next, rest);
        lemma_run_concat(first, copy_events::<V, K>(frames.first()), refill_events::<V, K>(rest));
        assert(state.compositor + state.free.reverse() =~= next.compositor + next.free.reverse());
        assert(refilled(state) =~= refilled(next));
    }
    assert(seq![action] + actions(first, refill_events::<V, K>(frames)) =~= refill_actions::<V, K>(
        state.dims->0,
        frames,
    ));
}

/// The loop over free surfaces makes one copy for each of them.
proof fn lemma_refill_copies<V, K>(dims: (i32, i32), frames: Seq<DrmFrame>)
    ensures
        refill_actions::<V, K>(dims, frames).filter(|a: Action<V, K>| a is MapSurface).len()
            == frames.len(),
    decreases frames.len(),
{
    let copies = |a: Action<V, K>| a is MapSurface;
    reveal_with_fuel(Seq::filter, 5);
    if frames.len() == 0 {
        let last = seq![Action::<V, K>::Dispatch];
        assert(last.drop_last() =~= Seq::empty());
    } else {
        let map = seq![Action::<V, K>::MapSurface(crate::setup::compositor_mapping())];
        let requests = copy_requests::<V, K>(dims, frames.first());
        let rest = refill_actions::<V, K>(dims, frames.drop_first());
        lemma_refill_copies::<V, K>(dims, frames.drop_first());
        Seq::filter_distributes_over_add(map + requests, rest, copies);
        Seq::filter_distributes_over_add(map, requests, copies);
        assert(map.drop_last() =~= Seq::empty());
    }
}

/// While the recording goes on, every free surface is handed to the compositor before events
/// are dispatched, the last one first; that takes exactly one copy for each of them.
pub proof fn law_refill<F, V, K>(state: StateView<F>, frames: Seq<DrmFrame>)
    requires
        state.wf(),
        state.phase == Phase::Checking,
        frames.len() == state.free.len(),
    ensures
        ({
            let events = seq![Event::<V, K>::Running(true)] + refill_events(frames);
            &&& all_accepted(state, events)
            &&& run(state, events) == refilled(state)
            &&& actions(state, events) == refill_actions::<V, K>(state.dims->0, frames)
            &&& actions(state, events).filter(|a: Action<V, K>| a is MapSurface).len()
                == state.free.len()
        }),
{
    lemma_refill::<F, V, K>(state, frames);
    lemma_run_one(state, Event::<V, K>::Running(true));
    lemma_run_concat(state, seq![Event::<V, K>::Running(true)], refill_events(frames));
    lemma_refill_copies::<V, K>(state.dims->0, frames);
}

/// The answers of an encoder that has `packets` ready.
pub open spec fn drain_events<V, K>(packets: Seq<K>) -> Seq<Event<V, K>>
    decreases packets.len(),
{
    if packets.len() == 0 {
        seq![Event::Received(None)]
    } else {
        seq![Event::Received(Some(packets.first())), Event::Done] + drain_events(
            packets.drop_first(),
        )
    }
}

/// The actions between the first request for a packet and the last answer: each of `packets`
/// is written, and another one is asked for.
pub open spec fn drain_actions<V, K>(stream: usize, packets: Seq<K>) -> Seq<Action<V, K>>
    decreases packets.len(),
{
    if packets.len() == 0 {
        Seq::empty()
    } else {
        seq![Action::WritePacket { stream, packet: packets.first() }, Action::ReceivePacket]
            + drain_actions(stream, packets.drop_first())
    }
}

/// Once packets are asked for, all that the encoder has are written, in their order, before
/// anything else happens.
pub proof fn law_drain<F, V, K>(state: StateView<F>, after: After, packets: Seq<K>)
    requires
        state.phase == (Phase::Receiving { after }),
    ensures
        all_accepted(state, drain_events::<V, K>(packets)),
        run(state, drain_events::<V, K>(packets)) == state.drained::<V, K>(after).0,
        actions(state, drain_events::<V, K>(packets)) == drain_actions(
            state.ost_index,
            packets,
        ).push(state.drained::<V, K>(after).1),
    decreases packets.len(),
{
    if packets.len() == 0 {
        lemma_run_one(state, Event::<V, K>::Received(None));
    } else {
        let received = Event::<V, K>::Received(Some(packets.first()));
        let one = seq![received, Event::Done];
        let fewer = packets.drop_first();
        assert(one =~= seq![received] + seq![Event::Done]);
        lemma_run_concat(state, seq![received], seq![Event::Done]);
        lemma_run_one(state, received);
        lemma_run_one(state.step(received).0, Event::<V, K>::Done);
        assert(run(state, one) =~= state);
        law_drain::<F, V, K>(state, after, fewer);
        lemma_run_concat(state, one, drain_events(fewer));
    }
    assert(actions(state, drain_events::<V, K>(packets)) =~= drain_actions(
        state.ost_index,
        packets,
    ).push(state.drained::<V, K>(after).1));
}

/// Asking again for packets once all have been written writes nothing: the encoder, which has
/// none, is asked once, and the recorder goes on as it would have.
pub proof fn law_second_drain_writes_nothing<F, V, K>(
    state: StateView<F>,
    after: After,
    packets: Seq<K>,
    again: After,
)
    requires
        state.phase == (Phase::Receiving { after }),
    ensures
        ({
            let drained = run(state, drain_events::<V, K>(packets));
            let second = drained.at(Phase::Receiving { after: again });
            let events = drain_events::<V, K>(Seq::empty());
            &&& all_accepted(second, events)
            &&& actions(second, events) == seq![drained.drained::<V, K>(again).1]
            &&& forall|i: int|
                0 <= i < actions(second, events).len()
                    ==> !(#[trigger] actions(second, events)[i] is WritePacket)
            &&& run(second, events) == drained.drained::<V, K>(again).0
        }),
{
    let drained = run(state, drain_events::<V, K>(packets));
    let second = drained.at(Phase::Receiving { after: again });
    let events = drain_events::<V, K>(Seq::empty());
    law_drain::<F, V, K>(state, after, packets);
    law_drain::<F, V, K>(second, again, Seq::empty());
    assert(actions(second, events) =~= seq![drained.drained::<V, K>(again).1]);
}

/// The answers of a filter graph that has `frames` ready.
pub open spec fn pull_events<V, K>(frames: Seq<V>) -> Seq<Event<V, K>>
    decreases frames.len(),
{
    if frames.len() == 0 {
        seq![Event::Pulled(None)]
    } else {
        seq![Event::Pulled(Some(frames.first())), Event::Done] + pull_events(frames.drop_first())
    }
}

/// The actions between the first request for a converted frame and the last answer: each of
/// `frames` is sent to the encoder, and another one is asked for.
pub open spec fn pull_actions<V, K>(frames: Seq<V>) -> Seq<Action<V, K>>
    decreases frames.len(),
{
    if frames.len() == 0 {
        Seq::empty()
    } else {
        seq![Action::SendFrame(frames.first()), Action::PullFrame] + pull_actions(
            frames.drop_first(),
        )
    }
}

/// The state in which the filter graph's `count` oldest surfaces have become free.
pub open spec fn pulled<F>(state: StateView<F>, count: nat) -> StateView<F> {
    StateView {
        filter: state.filter.skip(count as int),
        free: state.free + state.filter.take(count as int),
        phase: Phase::Receiving { after: After::Resume },
        ..state
    }
}

/// Once converted frames are asked for, all that the filter graph has are sent to the encoder,
/// in their order, and as many of its oldest surfaces become free.
pub proof fn law_pull<F, V, K>(state: StateView<F>, frames: Seq<V>)
    requires
        state.phase == Phase::Pulling,
        frames.len() <= state.filter.len(),
    ensures
        all_accepted(state, pull_events::<V, K>(frames)),
        run(state, pull_events::<V, K>(frames)) == pulled(state, frames.len()),
        actions(state, pull_events::<V, K>(frames)) == pull_actions(frames).push(
            Action::<V, K>::ReceivePacket,
        ),
    decreases frames.len(),
{
    if frames.len() == 0 {
        lemma_run_one(state, Event::<V, K>::Pulled(None));
        assert(run(state, pull_events::<V, K>(frames)) =~= pulled(state, 0));
    } else {
        let got = Event::<V, K>::Pulled(Some(frames.first()));
        let one = seq![got, Event::Done];
        let fewer = frames.drop_first();
        let next = state.surface_recycled();
        assert(one =~= seq![got] + seq![Event::Done]);
        lemma_run_concat(state, seq![got], seq![Event::Done]);
        lemma_run_one(state, got);
        lemma_run_one(state.step(got).0, Event::<V, K>::Done);
        assert(run(state, one) =~= next);
        law_pull::<F, V, K>(next, fewer);
        lemma_run_concat(state, one, pull_events(fewer));
        assert(pulled(next, fewer.len()) =~= pulled(state, frames.len()));
    }
    assert(actions(state, pull_events::<V, K>(frames)) =~= pull_actions(frames).push(
        Action::<V, K>::ReceivePacket,
    ));
}

/// When the compositor has filled a surface, its oldest surface is added to the filter graph,
/// every converted frame is sent to the encoder and every packet is written, before the
/// dispatch goes on.
pub proof fn law_frame_ready<F, V, K>(
    state: StateView<F>,
    ready: Event<V, K>,
    frames: Seq<V>,
    packets: Seq<K>,
)
    requires
        state.wf(),
        is_ready(ready),
        state.accepts(ready),
        frames.len() <= state.filter.len() + 1,
    ensures
        ({
            let events = seq![ready, Event::Done] + pull_events(frames) + drain_events(packets);
            let entered = StateView {
                compositor: state.compositor.drop_first(),
                filter: state.filter.push(state.compositor.first()),
                ..state
            };
            &&& all_accepted(state, events)
            &&& run(state, events) == pulled(entered, frames.len()).at(Phase::Dispatching)
            &&& actions(state, events) == seq![Action::<V, K>::AddToFilter, Action::PullFrame]
                + pull_actions(frames).push(Action::ReceivePacket) + drain_actions(
                state.ost_index,
                packets,
            ).push(Action::Resume)
        }),
{
    let begin = seq![ready, Event::Done];
    let entered = StateView {
        compositor: state.compositor.drop_first(),
        filter: state.filter.push(state.compositor.first()),
        ..state
    };
    let pulling = entered.at(Phase::Pulling);
    assert(begin =~= seq![ready] + seq![Event::Done]);
    lemma_run_concat(state, seq![ready], seq![Event::Done]);
    lemma_run_one(state, ready);
    lemma_run_one(state.step(ready).0, Event::<V, K>::Done);
    assert(run(state, begin) =~= pulling);
    assert(actions(state, begin) =~= seq![Action::<V, K>::AddToFilter, Action::PullFrame]);
    law_pull::<F, V, K>(pulling, frames);
    lemma_run_concat(state, begin, pull_events(frames));
    law_drain::<F, V, K>(pulled(pulling, frames.len()), After::Resume, packets);
    lemma_run_concat(state, begin + pull_events(frames), drain_events(packets));
    assert(pulled(pulling, frames.len()).at(Phase::Dispatching) =~= pulled(
        entered,
        frames.len(),
    ).at(Phase::Dispatching));
}

/// The answers of an encoder that has the packets `before` ready when the recording ends and
/// the packets `rest` once its input has ended.
pub open spec fn shutdown_events<V, K>(before: Seq<K>, rest: Seq<K>) -> Seq<Event<V, K>> {
    seq![Event::Running(false), Event::Done] + drain_events(before) + seq![Event::Done]
        + drain_events(rest) + seq![Event::Done]
}

/// The actions that bring the file to its end.
pub open spec fn shutdown_actions<V, K>(
    stream: usize,
    before: Seq<K>,
    rest: Seq<K>,
) -> Seq<Action<V, K>> {
    seq![Action::FlushFilter, Action::ReceivePacket] + drain_actions(stream, before) + seq![
        Action::SendEof,
        Action::ReceivePacket,
    ] + drain_actions(stream, rest) + seq![Action::WriteTrailer, Action::Stop]
}

/// When the recording ends, the filter graph is flushed, the packets that are ready are
/// written, the encoder's input is ended, the packets that it still had are written, and the
/// trailer closes the file: in this order, and nothing else. No surface moves.
pub proof fn law_shutdown<F, V, K>(state: StateView<F>, before: Seq<K>, rest: Seq<K>)
    requires
        state.phase == Phase::Checking,
    ensures
        all_accepted(state, shutdown_events::<V, K>(before, rest)),
        run(state, shutdown_events::<V, K>(before, rest)) == state.at(Phase::Stopped),
        actions(state, shutdown_events::<V, K>(before, rest)) == shutdown_actions::<V, K>(
            state.ost_index,
            before,
            rest,
        ),
{
    let done = seq![Event::<V, K>::Done];
    let end = Event::<V, K>::Running(false);
    let e1 = seq![end, Event::Done];
    let e2 = e1 + drain_events(before);
    let e3 = e2 + done;
    let e4 = e3 + drain_events(rest);
    assert(e1 =~= seq![end] + done);
    lemma_run_concat(state, seq![end], done);
    lemma_run_one(state, end);
    lemma_run_one(state.at(Phase::Flushing), Event::<V, K>::Done);
    let s1 = state.at(Phase::Receiving { after: After::SendEof });
    assert(run(state, e1) =~= s1);
    law_drain::<F, V, K>(s1, After::SendEof, before);
    lemma_run_concat(state, e1, drain_events(before));
    lemma_run_one(state.at(Phase::Ending), Event::<V, K>::Done);
    lemma_run_concat(state, e2, done);
    let s3 = state.at(Phase::Receiving { after: After::WriteTrailer });
    assert(run(state, e3) =~= s3);
    law_drain::<F, V, K>(s3, After::WriteTrailer, rest);
    lemma_run_concat(state, e3, drain_events(rest));
    lemma_run_one(state.at(Phase::Trailing), Event::<V, K>::Done);
    lemma_run_concat(state, e4, done);
    assert(actions(state, shutdown_events::<V, K>(before, rest)) =~= shutdown_actions::<V, K>(
        state.ost_index,
        before,
        rest,
    ));
}

/// Whether the recording has been told to end.
pub open spec fn is_ending(phase: Phase) -> bool {
    match phase {
        Phase::Flushing | Phase::Ending | Phase::Trailing | Phase::Stopped => true,
        Phase::Receiving { after } => after != After::Resume,
        Phase::Writing { after } => after != After::Resume,
        _ => false,
    }
}

/// Once the recording has been told to end, no surface moves any more, and only packets, the
/// end of the encoder's input and the trailer are handled.
pub proof fn law_end_is_final<F, V, K>(state: StateView<F>, events: Seq<Event<V, K>>)
    requires
        is_ending(state.phase),
        all_accepted(state, events),
    ensures
        is_ending(run(state, events).phase),
        run(state, events) == state.at(run(state, events).phase),
        forall|i: int|
            0 <= i < actions(state, events).len() ==> match #[trigger] actions(state, events)[i] {
                Action::ReceivePacket | Action::WritePacket { .. } | Action::SendEof
                | Action::WriteTrailer | Action::Stop => true,
                _ => false,
            },
    decreases events.len(),
{
    if events.len() > 0 {
        law_end_is_final(state, events.drop_last());
    }
}

/// The trailer is written at most once, and nothing but the stop comes after it.
pub proof fn law_trailer_comes_last<F, V, K>(start: StateView<F>, events: Seq<Event<V, K>>)
    requires
        start.phase != Phase::Trailing,
        start.phase != Phase::Stopped,
        all_accepted(start, events),
    ensures
        actions(start, events).filter(|a: Action<V, K>| a is WriteTrailer).len() <= 1,
        actions(start, events).contains(Action::<V, K>::WriteTrailer) ==> {
            let done = actions(start, events);
            ||| done.last() is WriteTrailer
            ||| done.len() >= 2 && done[done.len() - 2] is WriteTrailer && done.last() is Stop
        },
{
    lemma_trailer(start, events);
}

/// Where the trailer stands among the actions, by the phase that they lead to.
proof fn lemma_trailer<F, V, K>(start: StateView<F>, events: Seq<Event<V, K>>)
    requires
        start.phase != Phase::Trailing,
        start.phase != Phase::Stopped,
        all_accepted(start, events),
    ensures
        ({
            let done = actions(start, events);
            let count = done.filter(|a: Action<V, K>| a is WriteTrailer).len();
            match run(start, events).phase {
                Phase::Trailing => count == 1 && done.len() >= 1 && done.last() is WriteTrailer,
                Phase::Stopped => count == 1 && done.len() >= 2 && done[done.len() - 2]
                    is WriteTrailer && done.last() is Stop,
                _ => count == 0 && !done.contains(Action::<V, K>::WriteTrailer),
            }
        }),
    decreases events.len(),
{
    reveal(Seq::filter);
    if events.len() > 0 {
        lemma_trailer(start, events.drop_last());
        let done = actions(start, events);
        let earlier = actions(start, events.drop_last());
        assert(done.drop_last() =~= earlier);
        if done.contains(Action::<V, K>::WriteTrailer) && !(done.last() is WriteTrailer) {
            let i = done.index_of(Action::<V, K>::WriteTrailer);
            assert(earlier[i] is WriteTrailer);
        }
    }
}

} // verus!
