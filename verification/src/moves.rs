//! What each event does to the recorder: which fields of the state change and how, that all the
//! others stay, and which action answers.
use crate::protocol::DrmFrame;
use crate::setup::PixelFormat;
use crate::state::{Action, After, Event, FrameEvent, Phase, StateView};
use vstd::prelude::*;

verus! {

/// The invariant says no more and no less than that a surface is in hand from its mapping to the
/// request of its copy and while it is added to the filter graph, and at no other time, and that
/// the size of the output is known from the end of the first round trip on.
pub proof fn law_invariant<F>(state: StateView<F>)
    ensures
        state.wf() <==> {
            &&& state.hand is Some <==> (state.phase == Phase::Mapping || state.phase
                == Phase::AddingPlane || state.phase == Phase::Capturing || state.phase
                == Phase::CreatingBuffer || state.phase == Phase::Copying || state.phase
                == Phase::Filtering)
            &&& state.dims is None ==> state.phase == Phase::Setup
        },
{
}

/// Events of the compositor are taken while they are delivered, whatever they carry. A filled
/// surface is taken only if the compositor has one.
pub proof fn law_compositor_events_taken<F, V, K>(
    state: StateView<F>,
    flags: u32,
    width: i32,
    height: i32,
    tv_sec_hi: u32,
    tv_sec_lo: u32,
    tv_nsec: u32,
)
    ensures
        state.accepts(Event::<V, K>::Mode { flags, width, height }) <==> (state.phase
            == Phase::Setup || state.phase == Phase::Dispatching),
        state.accepts(Event::<V, K>::Frame(FrameEvent::Other)) <==> (state.phase == Phase::Setup
            || state.phase == Phase::Dispatching),
        state.accepts(
            Event::<V, K>::Frame(FrameEvent::Ready { tv_sec_hi, tv_sec_lo, tv_nsec }),
        ) <==> (state.phase == Phase::Dispatching && state.compositor.len() > 0),
{
}

/// An answer is taken exactly in the phase that waits for it, whatever it says; a converted
/// frame needs a surface of the filter graph, and the start the size of the output.
pub proof fn law_answers_taken<F, V, K>(
    state: StateView<F>,
    go_on: bool,
    mapped: DrmFrame,
    frame: V,
    packet: Option<K>,
)
    ensures
        state.accepts(Event::<V, K>::Started) <==> (state.phase == Phase::Setup && state.dims
            is Some),
        state.accepts(Event::<V, K>::Running(go_on)) <==> state.phase == Phase::Checking,
        state.accepts(Event::<V, K>::Mapped(mapped)) <==> state.phase == Phase::Mapping,
        state.accepts(Event::<V, K>::Dispatched) <==> state.phase == Phase::Dispatching,
        state.accepts(Event::<V, K>::Pulled(Some(frame))) <==> (state.phase == Phase::Pulling
            && state.filter.len() > 0),
        state.accepts(Event::<V, K>::Pulled(None)) <==> state.phase == Phase::Pulling,
        state.accepts(Event::<V, K>::Received(packet)) <==> (state.phase
            == (Phase::Receiving { after: After::Resume }) || state.phase
            == (Phase::Receiving { after: After::SendEof }) || state.phase
            == (Phase::Receiving { after: After::WriteTrailer })),
        state.accepts(Event::<V, K>::Done) <==> !(state.phase == Phase::Setup || state.phase
            == Phase::Checking || state.phase == Phase::Mapping || state.phase
            == Phase::Dispatching || state.phase == Phase::Pulling || state.phase is Receiving
            || state.phase == Phase::Stopped),
{
    if state.phase is Receiving {
        match state.phase->Receiving_after {
            After::Resume => {},
            After::SendEof => {},
            After::WriteTrailer => {},
        }
    }
}

/// A mode with odd flags sets the size of the output to its own; one with even flags changes
/// nothing. Either way the handler returns.
pub proof fn law_mode<F, V, K>(state: StateView<F>, flags: u32, width: i32, height: i32)
    ensures
        ({
            let (next, action) = state.step(Event::<V, K>::Mode { flags, width, height });
            &&& flags % 2 == 1 ==> next == (StateView { dims: Some((width, height)), ..state })
            &&& flags % 2 == 0 ==> next == state
            &&& action == Action::<V, K>::Resume
        }),
{
    crate::protocol::law_current_mode_is_odd(flags);
}

/// The end of the first round trip leads to the question whether the recording goes on, and
/// so does the end of every dispatch. Nothing else changes, whatever the state holds.
pub proof fn law_running_is_asked<F, V, K>(state: StateView<F>)
    ensures
        state.step(Event::<V, K>::Started) == (
            StateView { phase: Phase::Checking, ..state },
            Action::<V, K>::CheckRunning,
        ),
        state.step(Event::<V, K>::Dispatched) == (
            StateView { phase: Phase::Checking, ..state },
            Action::<V, K>::CheckRunning,
        ),
{
}

/// If the recording goes on, the last free surface is taken in hand and mapped as DRM objects
/// for reading and writing; without a free surface events are dispatched. If it does not go
/// on, the filter graph is flushed.
pub proof fn law_running<F, V, K>(state: StateView<F>)
    ensures
        ({
            let (next, action) = state.step(Event::<V, K>::Running(true));
            &&& state.free.len() > 0 ==> {
                &&& next.hand == Some(state.free.last())
                &&& next.free.push(state.free.last()) == state.free
                &&& next == (StateView {
                    hand: next.hand,
                    free: next.free,
                    phase: Phase::Mapping,
                    ..state
                })
                &&& action matches Action::MapSurface(request) && request.format
                    == PixelFormat::DrmPrime && request.read && request.write
            }
            &&& state.free.len() == 0 ==> {
                &&& next == (StateView { phase: Phase::Dispatching, ..state })
                &&& action == Action::<V, K>::Dispatch
            }
        }),
        state.step(Event::<V, K>::Running(false)) == (
            StateView { phase: Phase::Flushing, ..state },
            Action::<V, K>::FlushFilter,
        ),
{
    if state.free.len() > 0 {
        assert(state.free.drop_last().push(state.free.last()) =~= state.free);
    }
}

/// A mapped surface is described to the compositor: its descriptor, its pitch and all bits of
/// its modifier.
pub proof fn law_mapped<F, V, K>(state: StateView<F>, frame: DrmFrame)
    ensures
        ({
            let (next, action) = state.step(Event::<V, K>::Mapped(frame));
            &&& next == (StateView { phase: Phase::AddingPlane, ..state })
            &&& action matches Action::AddPlane(plane) && {
                &&& plane.fd == frame.fd
                &&& plane.plane_idx == 0
                &&& plane.offset == 0
                &&& 0 <= frame.pitch <= u32::MAX ==> plane.stride == frame.pitch
                &&& (plane.stride - frame.pitch) % 0x1_0000_0000 == 0
                &&& plane.modifier_hi * 0x1_0000_0000 + plane.modifier_lo == frame.modifier
            }
        }),
{
    crate::protocol::law_plane_describes_the_frame(frame);
}

/// After the plane the output is captured with its cursor, then a buffer of exactly the
/// output's size is created, then the copy is requested. Meanwhile nothing moves.
pub proof fn law_copy_requests<F, V, K>(state: StateView<F>)
    ensures
        state.phase == Phase::AddingPlane ==> state.step(Event::<V, K>::Done) == (
            StateView { phase: Phase::Capturing, ..state },
            Action::<V, K>::CaptureOutput { overlay_cursor: 1 },
        ),
        state.phase == Phase::Capturing ==> {
            let (next, action) = state.step(Event::<V, K>::Done);
            &&& next == (StateView { phase: Phase::CreatingBuffer, ..state })
            &&& action matches Action::CreateBuffer(buffer) && {
                &&& state.dims is Some ==> state.dims == Some((buffer.width, buffer.height))
                &&& buffer.format == 875713112
                &&& buffer.flags == 0
            }
        },
        state.phase == Phase::CreatingBuffer ==> state.step(Event::<V, K>::Done) == (
            StateView { phase: Phase::Copying, ..state },
            Action::<V, K>::CopyWithDamage,
        ),
{
    if state.dims is Some {
        crate::protocol::law_buffer_has_the_size_of_the_output(state.dims->0);
    }
}

/// A surface whose copy has been requested becomes the newest of the compositor. The next free
/// surface, if there is one, is taken in hand and mapped; otherwise events are dispatched.
pub proof fn law_copy_requested<F, V, K>(state: StateView<F>)
    requires
        state.phase == Phase::Copying,
        state.hand is Some,
    ensures
        ({
            let (next, action) = state.step(Event::<V, K>::Done);
            &&& next.compositor == state.compositor.push(state.hand->0)
            &&& next.filter == state.filter
            &&& next.dims == state.dims
            &&& next.ost_index == state.ost_index
            &&& state.free.len() > 0 ==> {
                &&& next.hand == Some(state.free.last())
                &&& next.free.push(state.free.last()) == state.free
                &&& next.phase == Phase::Mapping
                &&& action matches Action::MapSurface(request) && request.format
                    == PixelFormat::DrmPrime && request.read && request.write
            }
            &&& state.free.len() == 0 ==> {
                &&& next.hand is None
                &&& next.free == state.free
                &&& next.phase == Phase::Dispatching
                &&& action == Action::<V, K>::Dispatch
            }
        }),
{
    if state.free.len() > 0 {
        assert(state.free.drop_last().push(state.free.last()) =~= state.free);
    }
}

/// Of a captured frame only the news that it is ready matters, whatever its time: the
/// compositor's oldest surface is then taken in hand, to be added to the filter graph.
pub proof fn law_frame_events<F, V, K>(
    state: StateView<F>,
    tv_sec_hi: u32,
    tv_sec_lo: u32,
    tv_nsec: u32,
)
    ensures
        state.step(Event::<V, K>::Frame(FrameEvent::Other)) == (state, Action::<V, K>::Resume),
        state.compositor.len() > 0 ==> {
            let (next, action) = state.step(
                Event::<V, K>::Frame(FrameEvent::Ready { tv_sec_hi, tv_sec_lo, tv_nsec }),
            );
            &&& next.hand is Some
            &&& seq![next.hand->0] + next.compositor == state.compositor
            &&& next == (StateView {
                hand: next.hand,
                compositor: next.compositor,
                phase: Phase::Filtering,
                ..state
            })
            &&& action == Action::<V, K>::AddToFilter
        },
{
    if state.compositor.len() > 0 {
        assert(seq![state.compositor.first()] + state.compositor.drop_first()
            =~= state.compositor);
    }
}

/// A surface that has been added to the filter graph becomes its newest, and converted frames
/// are asked for.
pub proof fn law_filtered<F, V, K>(state: StateView<F>)
    requires
        state.phase == Phase::Filtering,
        state.hand is Some,
    ensures
        state.step(Event::<V, K>::Done) == (
            StateView {
                filter: state.filter.push(state.hand->0),
                hand: None,
                phase: Phase::Pulling,
                ..state
            },
            Action::<V, K>::PullFrame,
        ),
{
}

/// A converted frame is sent to the encoder as it is, and the filter graph's oldest surface
/// becomes free, to be taken next; then another frame is asked for. Without a frame, packets
/// are asked for.
pub proof fn law_pulled<F, V, K>(state: StateView<F>, frame: V)
    ensures
        state.filter.len() > 0 ==> {
            let (next, action) = state.step(Event::<V, K>::Pulled(Some(frame)));
            &&& next.free.len() > 0
            &&& next.free == state.free.push(next.free.last())
            &&& seq![next.free.last()] + next.filter == state.filter
            &&& next == (StateView {
                free: next.free,
                filter: next.filter,
                phase: Phase::Encoding,
                ..state
            })
            &&& action == Action::<V, K>::SendFrame(frame)
        },
        state.step(Event::<V, K>::Pulled(None)) == (
            StateView { phase: Phase::Receiving { after: After::Resume }, ..state },
            Action::<V, K>::ReceivePacket,
        ),
        state.phase == Phase::Encoding ==> state.step(Event::<V, K>::Done) == (
            StateView { phase: Phase::Pulling, ..state },
            Action::<V, K>::PullFrame,
        ),
{
    if state.filter.len() > 0 {
        let next = state.step(Event::<V, K>::Pulled(Some(frame))).0;
        assert(next.free =~= state.free.push(next.free.last()));
        assert(seq![next.free.last()] + next.filter =~= state.filter);
    }
}

/// A packet is written as it is, to the recorder's stream, and then another one is asked for,
/// for the same purpose as before.
pub proof fn law_received<F, V, K>(state: StateView<F>, after: After, packet: K)
    ensures
        state.phase == (Phase::Receiving { after }) ==> state.step(
            Event::<V, K>::Received(Some(packet)),
        ) == (
            StateView { phase: Phase::Writing { after }, ..state },
            Action::<V, K>::WritePacket { stream: state.ost_index, packet },
        ),
        state.phase == (Phase::Writing { after }) ==> state.step(Event::<V, K>::Done) == (
            StateView { phase: Phase::Receiving { after }, ..state },
            Action::<V, K>::ReceivePacket,
        ),
{
}

/// Without a packet the recorder goes on to what the packets were asked before: back to the
/// dispatch, to the end of the encoder's input, or to the trailer.
pub proof fn law_no_packet<F, V, K>(state: StateView<F>)
    ensures
        state.phase == (Phase::Receiving { after: After::Resume }) ==> state.step(
            Event::<V, K>::Received(None),
        ) == (StateView { phase: Phase::Dispatching, ..state }, Action::<V, K>::Resume),
        state.phase == (Phase::Receiving { after: After::SendEof }) ==> state.step(
            Event::<V, K>::Received(None),
        ) == (StateView { phase: Phase::Ending, ..state }, Action::<V, K>::SendEof),
        state.phase == (Phase::Receiving { after: After::WriteTrailer }) ==> state.step(
            Event::<V, K>::Received(None),
        ) == (StateView { phase: Phase::Trailing, ..state }, Action::<V, K>::WriteTrailer),
{
}

/// Packets are asked for after the filter graph was flushed and again after the encoder's
/// input has ended; after the trailer the recording is over.
pub proof fn law_ending_steps<F, V, K>(state: StateView<F>)
    ensures
        state.phase == Phase::Flushing ==> state.step(Event::<V, K>::Done) == (
            StateView { phase: Phase::Receiving { after: After::SendEof }, ..state },
            Action::<V, K>::ReceivePacket,
        ),
        state.phase == Phase::Ending ==> state.step(Event::<V, K>::Done) == (
            StateView { phase: Phase::Receiving { after: After::WriteTrailer }, ..state },
            Action::<V, K>::ReceivePacket,
        ),
        state.phase == Phase::Trailing ==> state.step(Event::<V, K>::Done) == (
            StateView { phase: Phase::Stopped, ..state },
            Action::<V, K>::Stop,
        ),
{
}

} // verus!
