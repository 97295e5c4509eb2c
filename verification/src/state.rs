//! The recorder as a machine: the driver reports an event, the machine moves its surfaces
//! and answers with the action that the driver performs next.
use crate::protocol::{
    buffer_request, mode_is_current, plane_request, BufferRequest, DrmFrame, PlaneRequest,
};
use crate::setup::{map_request, MapRequest};
use std::collections::VecDeque;
use vstd::multiset::Multiset;
use vstd::prelude::*;

verus! {

/// A surface that the compositor copies into and the filter graph reads; `f` is the driver's
/// handle on it.
pub struct VaSurface<F> {
    pub f: F,
}

/// Where the machine goes once the encoder has no packet left.
#[derive(Clone, Copy, Debug, PartialEq, Eq, Structural)]
pub enum After {
    /// Back to the dispatch that delivered the frame.
    Resume,
    /// On to the end of the encoder's input.
    SendEof,
    /// On to the trailer of the file.
    WriteTrailer,
}

/// What the machine waits for.
#[derive(Clone, Copy, Debug, PartialEq, Eq, Structural)]
pub enum Phase {
    /// The first round trip, in which the compositor describes the output.
    Setup,
    /// The answer whether the recording goes on.
    Checking,
    /// A free surface being mapped.
    Mapping,
    /// The plane of that surface being added to the buffer parameters.
    AddingPlane,
    /// The capture of the output being requested.
    Capturing,
    /// The buffer being created.
    CreatingBuffer,
    /// The copy into the buffer being requested.
    Copying,
    /// The dispatch of compositor events.
    Dispatching,
    /// A finished surface being added to the filter graph.
    Filtering,
    /// A converted frame being taken from the filter graph.
    Pulling,
    /// A converted frame being sent to the encoder.
    Encoding,
    /// A packet being received from the encoder.
    Receiving { after: After },
    /// A packet being written to the file.
    Writing { after: After },
    /// The input of the filter graph being flushed.
    Flushing,
    /// The end of the encoder's input being announced.
    Ending,
    /// The trailer of the file being written.
    Trailing,
    /// Nothing: the recording is over.
    Stopped,
}

/// An event of a frame that is being captured.
#[derive(Clone, Copy, Debug, PartialEq, Eq, Structural)]
pub enum FrameEvent {
    /// The compositor has filled the buffer, at the given time.
    Ready { tv_sec_hi: u32, tv_sec_lo: u32, tv_nsec: u32 },
    /// Any other event.
    Other,
}

/// What the driver reports. `V` is its handle on a converted frame, `K` the one on a packet.
#[derive(Clone, Copy, Debug, PartialEq, Eq)]
pub enum Event<V, K> {
    /// The output has announced a mode.
    Mode { flags: u32, width: i32, height: i32 },
    /// A captured frame has an event.
    Frame(FrameEvent),
    /// The first round trip is over.
    Started,
    /// Whether the recording goes on.
    Running(bool),
    /// The surface in hand has been mapped.
    Mapped(DrmFrame),
    /// The dispatch has returned.
    Dispatched,
    /// The converted frame that the filter graph had, if any.
    Pulled(Option<V>),
    /// The packet that the encoder had, if any.
    Received(Option<K>),
    /// The action, one that has nothing to report, has been performed.
    Done,
}

/// What the driver does next.
#[derive(Clone, Copy, Debug, PartialEq, Eq)]
pub enum Action<V, K> {
    /// Find out whether the recording goes on.
    CheckRunning,
    /// Map the surface in hand.
    MapSurface(MapRequest),
    /// Add the plane to the buffer parameters.
    AddPlane(PlaneRequest),
    /// Capture the output.
    CaptureOutput { overlay_cursor: i32 },
    /// Create the buffer.
    CreateBuffer(BufferRequest),
    /// Copy the captured frame into the buffer, once there is damage.
    CopyWithDamage,
    /// Dispatch compositor events.
    Dispatch,
    /// Return from the handler of a compositor event.
    Resume,
    /// Add the surface in hand to the input of the filter graph.
    AddToFilter,
    /// Take a converted frame from the output of the filter graph.
    PullFrame,
    /// Send this converted frame to the encoder.
    SendFrame(V),
    /// Receive a packet from the encoder.
    ReceivePacket,
    /// Write this packet to the file, as part of `stream`.
    WritePacket { stream: usize, packet: K },
    /// Flush the input of the filter graph.
    FlushFilter,
    /// Announce the end of the encoder's input.
    SendEof,
    /// Write the trailer of the file.
    WriteTrailer,
    /// Nothing: the recording is over.
    Stop,
}

impl Phase {
    /// Whether a surface is in hand, between the collections that own it before and after.
    pub open spec fn holds_surface(self) -> bool {
        match self {
            Phase::Mapping | Phase::AddingPlane | Phase::Capturing | Phase::CreatingBuffer
            | Phase::Copying | Phase::Filtering => true,
            _ => false,
        }
    }

    /// Whether the compositor's events are being delivered.
    pub open spec fn delivers_events(self) -> bool {
        self == Phase::Setup || self == Phase::Dispatching
    }

    /// Whether the action of this phase has nothing to report but that it was performed.
    pub open spec fn awaits_done(self) -> bool {
        match self {
            Phase::AddingPlane | Phase::Capturing | Phase::CreatingBuffer | Phase::Copying
            | Phase::Filtering | Phase::Encoding | Phase::Writing { .. } | Phase::Flushing
            | Phase::Ending | Phase::Trailing => true,
            _ => false,
        }
    }
}

/// The recorder's state, as mathematical values.
#[verifier::ext_equal]
pub struct StateView<F> {
    /// The size of the output, once a current mode has been announced.
    pub dims: Option<(i32, i32)>,
    /// The surfaces that the compositor copies into, the oldest first.
    pub compositor: Seq<VaSurface<F>>,
    /// The surfaces that the filter graph reads, the oldest first.
    pub filter: Seq<VaSurface<F>>,
    /// The surfaces that nothing uses; the last one is taken first.
    pub free: Seq<VaSurface<F>>,
    /// The surface in hand.
    pub hand: Option<VaSurface<F>>,
    /// The stream that the packets belong to.
    pub ost_index: usize,
    pub phase: Phase,
}

impl<F> StateView<F> {
    /// A surface is in hand exactly in the phases that work on one, and the size of the
    /// output is known once the first round trip is over.
    pub open spec fn wf(self) -> bool {
        &&& self.hand is Some <==> self.phase.holds_surface()
        &&& self.phase != Phase::Setup ==> self.dims is Some
    }

    /// All the surfaces of the recorder.
    pub open spec fn surfaces(self) -> Multiset<VaSurface<F>> {
        self.free.to_multiset().add(self.compositor.to_multiset()).add(
            self.filter.to_multiset(),
        ).add(
            match self.hand {
                Some(surface) => Multiset::singleton(surface),
                None => Multiset::empty(),
            },
        )
    }

    /// Whether the machine can take `event` now.
    pub open spec fn accepts<V, K>(self, event: Event<V, K>) -> bool {
        match event {
            Event::Mode { .. } => self.phase.delivers_events(),
            Event::Frame(FrameEvent::Ready { .. }) => {
                self.phase == Phase::Dispatching && self.compositor.len() > 0
            },
            Event::Frame(FrameEvent::Other) => self.phase.delivers_events(),
            Event::Started => self.phase == Phase::Setup && self.dims is Some,
            Event::Running(_) => self.phase == Phase::Checking,
            Event::Mapped(_) => self.phase == Phase::Mapping,
            Event::Dispatched => self.phase == Phase::Dispatching,
            Event::Pulled(frame) => {
                self.phase == Phase::Pulling && (frame is Some ==> self.filter.len() > 0)
            },
            Event::Received(_) => self.phase is Receiving,
            Event::Done => self.phase.awaits_done(),
        }
    }

    /// The same state in another phase.
    pub open spec fn at(self, phase: Phase) -> Self {
        StateView { phase, ..self }
    }

    /// The last free surface is taken in hand, to be mapped.
    pub open spec fn surface_taken(self) -> Self {
        StateView {
            hand: Some(self.free.last()),
            free: self.free.drop_last(),
            phase: Phase::Mapping,
            ..self
        }
    }

    /// The surface in hand goes to the compositor.
    pub open spec fn surface_submitted(self) -> Self {
        StateView { compositor: self.compositor.push(self.hand->0), hand: None, ..self }
    }

    /// The compositor's oldest surface is taken in hand, to be added to the filter graph.
    pub open spec fn surface_returned(self) -> Self {
        StateView {
            hand: Some(self.compositor.first()),
            compositor: self.compositor.drop_first(),
            phase: Phase::Filtering,
            ..self
        }
    }

    /// The surface in hand goes to the filter graph.
    pub open spec fn surface_filtered(self) -> Self {
        StateView { filter: self.filter.push(self.hand->0), hand: None, ..self }
    }

    /// The filter graph's oldest surface becomes free.
    pub open spec fn surface_recycled(self) -> Self {
        StateView {
            free: self.free.push(self.filter.first()),
            filter: self.filter.drop_first(),
            ..self
        }
    }

    /// The turn of the loop over free surfaces: copy into the next one, or dispatch events
    /// when there is none.
    pub open spec fn refill<V, K>(self) -> (Self, Action<V, K>) {
        if self.free.len() > 0 {
            (
                self.surface_taken(),
                Action::MapSurface(crate::setup::compositor_mapping()),
            )
        } else {
            (self.at(Phase::Dispatching), Action::Dispatch)
        }
    }

    /// What follows the last packet.
    pub open spec fn drained<V, K>(self, after: After) -> (Self, Action<V, K>) {
        match after {
            After::Resume => (self.at(Phase::Dispatching), Action::Resume),
            After::SendEof => (self.at(Phase::Ending), Action::SendEof),
            After::WriteTrailer => (self.at(Phase::Trailing), Action::WriteTrailer),
        }
    }

    /// What follows an action that has nothing to report.
    pub open spec fn done<V, K>(self) -> (Self, Action<V, K>) {
        match self.phase {
            Phase::AddingPlane => (
                self.at(Phase::Capturing),
                Action::CaptureOutput { overlay_cursor: 1 },
            ),
            Phase::Capturing => (
                self.at(Phase::CreatingBuffer),
                Action::CreateBuffer(crate::protocol::buffer_of(self.dims->0)),
            ),
            Phase::CreatingBuffer => (self.at(Phase::Copying), Action::CopyWithDamage),
            Phase::Copying => self.surface_submitted().refill(),
            Phase::Filtering => (self.surface_filtered().at(Phase::Pulling), Action::PullFrame),
            Phase::Encoding => (self.at(Phase::Pulling), Action::PullFrame),
            Phase::Writing { after } => (self.at(Phase::Receiving { after }), Action::ReceivePacket),
            Phase::Flushing => (
                self.at(Phase::Receiving { after: After::SendEof }),
                Action::ReceivePacket,
            ),
            Phase::Ending => (
                self.at(Phase::Receiving { after: After::WriteTrailer }),
                Action::ReceivePacket,
            ),
            _ => (self.at(Phase::Stopped), Action::Stop),
        }
    }

    /// The state after `event`, and the action that answers it.
    pub open spec fn step<V, K>(self, event: Event<V, K>) -> (Self, Action<V, K>) {
        match event {
            Event::Mode { flags, width, height } => {
                if crate::protocol::is_current_mode(flags) {
                    (StateView { dims: Some((width, height)), ..self }, Action::Resume)
                } else {
                    (self, Action::Resume)
                }
            },
            Event::Frame(FrameEvent::Ready { .. }) => (self.surface_returned(), Action::AddToFilter),
            Event::Frame(FrameEvent::Other) => (self, Action::Resume),
            Event::Started => (self.at(Phase::Checking), Action::CheckRunning),
            Event::Running(true) => self.refill(),
            Event::Running(false) => (self.at(Phase::Flushing), Action::FlushFilter),
            Event::Mapped(frame) => (
                self.at(Phase::AddingPlane),
                Action::AddPlane(crate::protocol::plane_of(frame)),
            ),
            Event::Dispatched => (self.at(Phase::Checking), Action::CheckRunning),
            Event::Pulled(Some(frame)) => (
                self.surface_recycled().at(Phase::Encoding),
                Action::SendFrame(frame),
            ),
            Event::Pulled(None) => (
                self.at(Phase::Receiving { after: After::Resume }),
                Action::ReceivePacket,
            ),
            Event::Received(Some(packet)) => (
                self.at(Phase::Writing { after: self.phase->Receiving_after }),
                Action::WritePacket { stream: self.ost_index, packet },
            ),
            Event::Received(None) => self.drained(self.phase->Receiving_after),
            Event::Done => self.done(),
        }
    }
}

/// Taking a free surface in hand neither loses nor duplicates a surface.
proof fn lemma_taking_conserves<F>(state: StateView<F>)
    requires
        state.free.len() > 0,
        state.hand is None,
    ensures
        state.surface_taken().surfaces() == state.surfaces(),
{
    broadcast use vstd::seq_lib::group_to_multiset_ensures;

    assert(state.free.drop_last().push(state.free.last()) =~= state.free);
    assert(state.surface_taken().surfaces() =~= state.surfaces());
}

/// One event neither loses nor duplicates a surface.
pub(crate) proof fn lemma_step_conserves<F, V, K>(state: StateView<F>, event: Event<V, K>)
    requires
        state.wf(),
        state.accepts(event),
    ensures
        state.step(event).0.surfaces() == state.surfaces(),
{
    broadcast use vstd::seq_lib::group_to_multiset_ensures;

    let free = state.free;
    let compositor = state.compositor;
    let filter = state.filter;
    if free.len() > 0 {
        assert(free.drop_last().push(free.last()) =~= free);
    }
    if compositor.len() > 0 {
        assert(compositor.drop_first() =~= compositor.remove(0));
    }
    if filter.len() > 0 {
        assert(filter.drop_first() =~= filter.remove(0));
    }
    assert(state.step(event).0.surfaces() =~= state.surfaces());
}

/// The recorder.
pub struct State<F> {
    dims: Option<(i32, i32)>,
    surfaces_owned_by_compositor: VecDeque<VaSurface<F>>,
    surfaces_owned_by_filter: VecDeque<VaSurface<F>>,
    free_surfaces: Vec<VaSurface<F>>,
    in_hand: Option<VaSurface<F>>,
    ost_index: usize,
    phase: Phase,
}

impl<F> View for State<F> {
    type V = StateView<F>;

    closed spec fn view(&self) -> StateView<F> {
        StateView {
            dims: self.dims,
            compositor: self.surfaces_owned_by_compositor@,
            filter: self.surfaces_owned_by_filter@,
            free: self.free_surfaces@,
            hand: self.in_hand,
            ost_index: self.ost_index,
            phase: self.phase,
        }
    }
}

impl<F> State<F> {
    /// A recorder in its first round trip, without surfaces, that writes to `ost_index`.
    pub fn new(ost_index: usize) -> (state: Self)
        ensures
            state@.wf(),
            state@ == (StateView {
                dims: None,
                compositor: Seq::<VaSurface<F>>::empty(),
                filter: Seq::<VaSurface<F>>::empty(),
                free: Seq::<VaSurface<F>>::empty(),
                hand: None,
                ost_index,
                phase: Phase::Setup,
            }),
    {
        State {
            dims: None,
            surfaces_owned_by_compositor: VecDeque::new(),
            surfaces_owned_by_filter: VecDeque::new(),
            free_surfaces: Vec::new(),
            in_hand: None,
            ost_index,
            phase: Phase::Setup,
        }
    }

    /// Gives the recorder another surface to record into.
    pub fn add_surface(&mut self, surface: VaSurface<F>)
        requires
            old(self)@.wf(),
        ensures
            final(self)@.wf(),
            final(self)@ == (StateView { free: old(self)@.free.push(surface), ..old(self)@ }),
    {
        self.free_surfaces.push(surface);
    }

    /// The size of the output, once a current mode has been announced.
    pub fn dims(&self) -> (dims: Option<(i32, i32)>)
        ensures
            dims == self@.dims,
    {
        self.dims
    }

    /// What the machine waits for.
    pub fn phase(&self) -> (phase: Phase)
        ensures
            phase == self@.phase,
    {
        self.phase
    }

    /// The surface in hand, which `MapSurface` and `AddToFilter` work on.
    pub fn surface_in_hand(&self) -> (surface: Option<&VaSurface<F>>)
        ensures
            surface is Some <==> self@.hand is Some,
            surface matches Some(s) ==> *s == self@.hand->0,
    {
        self.in_hand.as_ref()
    }

    /// How many surfaces the compositor, the filter graph and nobody uses.
    pub fn surface_counts(&self) -> (counts: (usize, usize, usize))
        ensures
            counts.0 == self@.compositor.len(),
            counts.1 == self@.filter.len(),
            counts.2 == self@.free.len(),
    {
        (
            self.surfaces_owned_by_compositor.len(),
            self.surfaces_owned_by_filter.len(),
            self.free_surfaces.len(),
        )
    }

    /// Whether the machine can take `event` now.
    pub fn accepts<V, K>(&self, event: &Event<V, K>) -> (accepted: bool)
        ensures
            accepted == self@.accepts(*event),
    {
        match event {
            Event::Mode { .. } | Event::Frame(FrameEvent::Other) => {
                matches!(self.phase, Phase::Setup | Phase::Dispatching)
            },
            Event::Frame(FrameEvent::Ready { .. }) => {
                self.phase == Phase::Dispatching && self.surfaces_owned_by_compositor.len() > 0
            },
            Event::Started => self.phase == Phase::Setup && self.dims.is_some(),
            Event::Running(_) => self.phase == Phase::Checking,
            Event::Mapped(_) => self.phase == Phase::Mapping,
            Event::Dispatched => self.phase == Phase::Dispatching,
            Event::Pulled(frame) => {
                self.phase == Phase::Pulling && (frame.is_none()
                    || self.surfaces_owned_by_filter.len() > 0)
            },
            Event::Received(_) => matches!(self.phase, Phase::Receiving { .. }),
            Event::Done => matches!(
                self.phase,
                Phase::AddingPlane | Phase::Capturing | Phase::CreatingBuffer | Phase::Copying
                | Phase::Filtering | Phase::Encoding | Phase::Writing { .. } | Phase::Flushing
                | Phase::Ending | Phase::Trailing
            ),
        }
    }

    /// Starts the copy of the output into the last free surface.
    pub fn queue_copy<V, K>(&mut self) -> (action: Action<V, K>)
        requires
            old(self)@.free.len() > 0,
            old(self)@.hand is None,
            old(self)@.dims is Some,
        ensures
            final(self)@.wf(),
            final(self)@ == old(self)@.surface_taken(),
            final(self)@ == (StateView {
                hand: Some(old(self)@.free.last()),
                free: old(self)@.free.drop_last(),
                phase: Phase::Mapping,
                ..old(self)@
            }),
            final(self)@.surfaces() == old(self)@.surfaces(),
            action == Action::<V, K>::MapSurface(crate::setup::compositor_mapping()),
            action matches Action::MapSurface(request) && request.format
                == crate::setup::PixelFormat::DrmPrime && request.read && request.write,
    {
        proof {
            lemma_taking_conserves(self@);
        }
        self.in_hand = self.free_surfaces.pop();
        self.phase = Phase::Mapping;
        Action::MapSurface(map_request())
    }

    /// Takes the turn of the loop over free surfaces.
    fn refill<V, K>(&mut self) -> (action: Action<V, K>)
        requires
            old(self)@.hand is None,
            old(self)@.dims is Some,
        ensures
            (final(self)@, action) == old(self)@.refill::<V, K>(),
    {
        if self.free_surfaces.len() > 0 {
            self.queue_copy()
        } else {
            self.phase = Phase::Dispatching;
            Action::Dispatch
        }
    }

    /// Takes the surface that the compositor has filled.
    fn frame_ready<V, K>(&mut self) -> (action: Action<V, K>)
        requires
            old(self)@.compositor.len() > 0,
        ensures
            final(self)@ == old(self)@.surface_returned(),
            action == Action::<V, K>::AddToFilter,
    {
        self.in_hand = self.surfaces_owned_by_compositor.pop_front();
        self.phase = Phase::Filtering;
        Action::AddToFilter
    }

    /// Starts to write the packets that the encoder has ready.
    pub fn process_ready<V, K>(&mut self, after: After) -> (action: Action<V, K>)
        ensures
            old(self)@.hand is None && old(self)@.dims is Some ==> final(self)@.wf(),
            final(self)@ == old(self)@.at(Phase::Receiving { after }),
            final(self)@ == (StateView { phase: Phase::Receiving { after }, ..old(self)@ }),
            action == Action::<V, K>::ReceivePacket,
    {
        self.phase = Phase::Receiving { after };
        Action::ReceivePacket
    }

    /// Leaves `process_ready`, for what it was started from.
    fn drained<V, K>(&mut self, after: After) -> (action: Action<V, K>)
        ensures
            (final(self)@, action) == old(self)@.drained::<V, K>(after),
    {
        match after {
            After::Resume => {
                self.phase = Phase::Dispatching;
                Action::Resume
            },
            After::SendEof => {
                self.phase = Phase::Ending;
                Action::SendEof
            },
            After::WriteTrailer => {
                self.phase = Phase::Trailing;
                Action::WriteTrailer
            },
        }
    }

    /// Starts to bring the file to its end.
    pub fn eof_flush<V, K>(&mut self) -> (action: Action<V, K>)
        ensures
            old(self)@.hand is None && old(self)@.dims is Some ==> final(self)@.wf(),
            final(self)@ == old(self)@.at(Phase::Flushing),
            final(self)@ == (StateView { phase: Phase::Flushing, ..old(self)@ }),
            action == Action::<V, K>::FlushFilter,
    {
        self.phase = Phase::Flushing;
        Action::FlushFilter
    }

    /// Goes on after an action that has nothing to report.
    fn done<V, K>(&mut self) -> (action: Action<V, K>)
        requires
            old(self)@.wf(),
            old(self)@.accepts(Event::<V, K>::Done),
        ensures
            (final(self)@, action) == old(self)@.done::<V, K>(),
    {
        match self.phase {
            Phase::AddingPlane => {
                self.phase = Phase::Capturing;
                Action::CaptureOutput { overlay_cursor: 1 }
            },
            Phase::Capturing => {
                self.phase = Phase::CreatingBuffer;
                Action::CreateBuffer(buffer_request(self.dims.unwrap()))
            },
            Phase::CreatingBuffer => {
                self.phase = Phase::Copying;
                Action::CopyWithDamage
            },
            Phase::Copying => {
                let surface = self.in_hand.take().unwrap();
                self.surfaces_owned_by_compositor.push_back(surface);
                self.refill()
            },
            Phase::Filtering => {
                let surface = self.in_hand.take().unwrap();
                self.surfaces_owned_by_filter.push_back(surface);
                self.phase = Phase::Pulling;
                Action::PullFrame
            },
            Phase::Encoding => {
                self.phase = Phase::Pulling;
                Action::PullFrame
            },
            Phase::Writing { after } => self.process_ready(after),
            Phase::Flushing => self.process_ready(After::SendEof),
            Phase::Ending => self.process_ready(After::WriteTrailer),
            // `Trailing`: no other phase is left that awaits this event.
            _ => {
                self.phase = Phase::Stopped;
                Action::Stop
            },
        }
    }

    /// Takes `event` and answers with the next action.
    pub fn step<V, K>(&mut self, event: Event<V, K>) -> (action: Action<V, K>)
        requires
            old(self)@.wf(),
            old(self)@.accepts(event),
        ensures
            final(self)@.wf(),
            (final(self)@, action) == old(self)@.step(event),
            final(self)@.surfaces() == old(self)@.surfaces(),
    {
        proof {
            lemma_step_conserves(self@, event);
        }
        match event {
            Event::Mode { flags, width, height } => {
                if mode_is_current(flags) {
                    self.dims = Some((width, height));
                }
                Action::Resume
            },
            Event::Frame(FrameEvent::Ready { .. }) => self.frame_ready(),
            Event::Frame(FrameEvent::Other) => Action::Resume,
            Event::Started | Event::Dispatched => {
                self.phase = Phase::Checking;
                Action::CheckRunning
            },
            Event::Running(go_on) => {
                if go_on {
                    self.refill()
                } else {
                    self.eof_flush()
                }
            },
            Event::Mapped(frame) => {
                self.phase = Phase::AddingPlane;
                Action::AddPlane(plane_request(&frame))
            },
            Event::Pulled(pulled) => match pulled {
                Some(frame) => {
                    let surface = self.surfaces_owned_by_filter.pop_front().unwrap();
                    self.free_surfaces.push(surface);
                    self.phase = Phase::Encoding;
                    Action::SendFrame(frame)
                },
                None => self.process_ready(After::Resume),
            },
            Event::Received(received) => match self.phase {
                Phase::Receiving { after } => match received {
                    Some(packet) => {
                        self.phase = Phase::Writing { after };
                        Action::WritePacket { stream: self.ost_index, packet }
                    },
                    None => self.drained(after),
                },
                // Not reached: the event is accepted in `Receiving` alone.
                _ => Action::Stop,
            },
            Event::Done => self.done(),
        }
    }
}

} // verus!
