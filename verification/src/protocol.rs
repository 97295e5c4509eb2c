//! What the recorder says to the compositor, as plain values: which output it records, and
//! the arguments of the requests that share a buffer with it.
use vstd::prelude::*;
use wayland_client::Interface;

verus! {

/// `DRM_FORMAT_XRGB8888`: the four-character code `XR24`, as a little-endian number.
pub const XRGB8888: u32 = 0x3432_5258;

/// The bit of a `wl_output.mode` event that marks the mode in use.
pub const MODE_CURRENT: u32 = 1;

/// Whether `flags`, the flags of a `wl_output.mode` event, mark the mode in use.
pub open spec fn is_current_mode(flags: u32) -> bool {
    flags & MODE_CURRENT == MODE_CURRENT
}

/// A mode is in use exactly when the lowest bit of its flags is set: when they are odd.
pub proof fn law_current_mode_is_odd(flags: u32)
    ensures
        is_current_mode(flags) <==> flags % 2 == 1,
{
    assert((flags & 1u32 == 1u32) <==> flags % 2 == 1) by (bit_vector);
}

/// Calls `Mode::from_bits_truncate` and `Mode::contains` of `wayland_client`'s `wl_output`.
/// Truncation drops the bits that no mode flag has and keeps `Mode::Current`, which is bit 0;
/// `contains` then tells whether that bit is set.
#[verifier::external_body]
pub(crate) fn mode_is_current(flags: u32) -> (current: bool)
    ensures
        current == is_current_mode(flags),
{
    wayland_client::protocol::wl_output::Mode::from_bits_truncate(flags).contains(
        wayland_client::protocol::wl_output::Mode::Current,
    )
}

/// Reads `wayland_client`'s `WlOutput::NAME`, the name under which the registry announces
/// an output: `wl_output`.
#[verifier::external_body]
fn output_interface() -> (name: &'static str)
    ensures
        name@ == "wl_output"@,
{
    wayland_client::protocol::wl_output::WlOutput::NAME
}

/// Reads the code that `drm_fourcc` gives `DrmFourcc::Xrgb8888`: 875713112, which is `XRGB8888`.
#[verifier::external_body]
fn xrgb8888() -> (code: u32)
    ensures
        code == XRGB8888,
{
    drm_fourcc::DrmFourcc::Xrgb8888 as u32
}

/// Calls `Flags::empty` and `Flags::bits` of `wayland_protocols`' `zwp_linux_buffer_params_v1`:
/// the empty set of flags has no bit set.
#[verifier::external_body]
fn no_buffer_flags() -> (flags: u32)
    ensures
        flags == 0,
{
    wayland_protocols::unstable::linux_dmabuf::v1::client::zwp_linux_buffer_params_v1::Flags::empty().bits()
}

/// A global of the compositor's registry: its name, its interface and its version.
pub type Global = (u32, String, u32);

/// Whether `global` is an output.
pub open spec fn is_output(global: Global) -> bool {
    global.1@ == "wl_output"@
}

/// The names of the outputs among `globals`, in the order of the registry.
pub open spec fn output_names(globals: Seq<Global>) -> Seq<u32> {
    globals.filter(|g: Global| is_output(g)).map_values(|g: Global| g.0)
}

/// Lists the outputs among the globals of the registry.
pub fn outputs(globals: &Vec<Global>) -> (names: Vec<u32>)
    ensures
        names@ == output_names(globals@),
{
    let mut names: Vec<u32> = Vec::new();
    let interface = output_interface().to_owned();
    let mut i: usize = 0;
    proof {
        reveal(Seq::filter);
    }
    while i < globals.len()
        invariant
            i <= globals.len(),
            interface@ == "wl_output"@,
            names@ == output_names(globals@.take(i as int)),
        decreases globals.len() - i,
    {
        proof {
            reveal(Seq::filter);
            assert(globals@.take(i + 1).drop_last() =~= globals@.take(i as int));
        }
        if globals[i].1 == interface {
            names.push(globals[i].0);
        }
        i = i + 1;
    }
    assert(globals@.take(globals@.len() as int) =~= globals@);
    names
}

/// Picks the output to record. Only a registry with exactly one output is served; otherwise
/// the error is the number of outputs it has.
pub fn select_output(globals: &Vec<Global>) -> (output: Result<u32, usize>)
    ensures
        output is Ok <==> output_names(globals@).len() == 1,
        output matches Ok(name) ==> name == output_names(globals@)[0],
        output matches Err(found) ==> found == output_names(globals@).len(),
{
    let names = outputs(globals);
    if names.len() != 1 {
        Err(names.len())
    } else {
        Ok(names[0])
    }
}

/// Without globals there is no output. A further global adds its name at the end if its
/// interface is `wl_output`, whatever its version, and changes nothing otherwise.
pub proof fn law_outputs_grow_with_the_registry(
    globals: Seq<Global>,
    name: u32,
    interface: String,
    version: u32,
)
    ensures
        output_names(Seq::<Global>::empty()) == Seq::<u32>::empty(),
        interface@ == "wl_output"@ ==> output_names(globals.push((name, interface, version)))
            == output_names(globals).push(name),
        interface@ != "wl_output"@ ==> output_names(globals.push((name, interface, version)))
            == output_names(globals),
{
    reveal(Seq::filter);
    let more = globals.push((name, interface, version));
    assert(more.drop_last() =~= globals);
    assert(output_names(Seq::<Global>::empty()) =~= Seq::<u32>::empty());
    if interface@ == "wl_output"@ {
        assert(output_names(more) =~= output_names(globals).push(name));
    }
}

/// Only names and interfaces matter: registries that differ in the versions of their globals
/// have the same outputs.
pub proof fn law_outputs_ignore_versions(globals: Seq<Global>, other: Seq<Global>)
    requires
        globals.len() == other.len(),
        forall|i: int|
            0 <= i < globals.len() ==> #[trigger] globals[i].0 == other[i].0 && globals[i].1@
                == other[i].1@,
    ensures
        output_names(globals) == output_names(other),
    decreases globals.len(),
{
    if globals.len() == 0 {
        assert(globals =~= other);
    } else {
        let a = globals.last();
        let b = other.last();
        let n = globals.len() - 1;
        assert(globals[n].0 == other[n].0);
        law_outputs_ignore_versions(globals.drop_last(), other.drop_last());
        law_outputs_grow_with_the_registry(globals.drop_last(), a.0, a.1, a.2);
        law_outputs_grow_with_the_registry(other.drop_last(), b.0, b.1, b.2);
        assert(globals.drop_last().push((a.0, a.1, a.2)) =~= globals);
        assert(other.drop_last().push((b.0, b.1, b.2)) =~= other);
    }
}

/// An output's name stands behind the names of exactly those outputs that the registry lists
/// before it.
pub proof fn law_output_position(globals: Seq<Global>, i: int)
    requires
        0 <= i < globals.len(),
        globals[i].1@ == "wl_output"@,
    ensures
        output_names(globals.take(i)).len() < output_names(globals).len(),
        output_names(globals)[output_names(globals.take(i)).len() as int] == globals[i].0,
    decreases globals.len(),
{
    let last = globals.last();
    let fewer = globals.drop_last();
    law_outputs_grow_with_the_registry(fewer, last.0, last.1, last.2);
    assert(fewer.push((last.0, last.1, last.2)) =~= globals);
    if i < fewer.len() {
        law_output_position(fewer, i);
        assert(fewer.take(i) =~= globals.take(i));
    } else {
        assert(globals.take(i) =~= fewer);
    }
}

/// Every name in the list belongs to a global whose interface is `wl_output`.
pub proof fn law_only_outputs_listed(globals: Seq<Global>, k: int)
    requires
        0 <= k < output_names(globals).len(),
    ensures
        exists|i: int|
            0 <= i < globals.len() && #[trigger] globals[i].0 == output_names(globals)[k]
                && globals[i].1@ == "wl_output"@,
    decreases globals.len(),
{
    if globals.len() == 0 {
        assert(globals =~= Seq::empty());
        law_outputs_grow_with_the_registry(globals, 0, arbitrary(), 0);
    } else {
        let last = globals.last();
        let fewer = globals.drop_last();
        law_outputs_grow_with_the_registry(fewer, last.0, last.1, last.2);
        assert(fewer.push((last.0, last.1, last.2)) =~= globals);
        if k < output_names(fewer).len() {
            law_only_outputs_listed(fewer, k);
            let i = choose|i: int|
                0 <= i < fewer.len() && #[trigger] fewer[i].0 == output_names(fewer)[k]
                    && fewer[i].1@ == "wl_output"@;
            assert(globals[i].0 == output_names(globals)[k]);
        } else {
            assert(globals[fewer.len() as int].0 == output_names(globals)[k]);
        }
    }
}

/// The upper half of a format modifier.
pub open spec fn modifier_hi(modifier: u64) -> u32 {
    (modifier as int / 0x1_0000_0000) as u32
}

/// The lower half of a format modifier.
pub open spec fn modifier_lo(modifier: u64) -> u32 {
    (modifier as int % 0x1_0000_0000) as u32
}

/// Splits a format modifier into its upper and its lower half, as requests carry it.
pub fn split_modifier(modifier: u64) -> (halves: (u32, u32))
    ensures
        halves == (modifier_hi(modifier), modifier_lo(modifier)),
        halves.0 * 0x1_0000_0000 + halves.1 == modifier,
{
    ((modifier / 0x1_0000_0000) as u32, (modifier % 0x1_0000_0000) as u32)
}

/// No bit of a modifier is lost: the two halves give it back.
pub proof fn law_modifier_halves_rejoin(modifier: u64)
    ensures
        modifier_hi(modifier) * 0x1_0000_0000 + modifier_lo(modifier) == modifier,
{
}

/// Any two halves are the halves of the modifier that they make up.
pub proof fn law_modifier_splits_back(hi: u32, lo: u32)
    ensures
        modifier_hi((hi * 0x1_0000_0000 + lo) as u64) == hi,
        modifier_lo((hi * 0x1_0000_0000 + lo) as u64) == lo,
{
}

/// What mapping a surface tells of it: the file descriptor and the format modifier of its
/// first object, and the pitch of the first plane of its first layer.
#[derive(Clone, Copy, Debug, PartialEq, Eq, Structural)]
pub struct DrmFrame {
    pub fd: i32,
    pub modifier: u64,
    pub pitch: isize,
}

/// The arguments of `zwp_linux_buffer_params_v1.add`.
#[derive(Clone, Copy, Debug, PartialEq, Eq, Structural)]
pub struct PlaneRequest {
    pub fd: i32,
    pub plane_idx: u32,
    pub offset: u32,
    pub stride: u32,
    pub modifier_hi: u32,
    pub modifier_lo: u32,
}

/// The arguments of `zwp_linux_buffer_params_v1.create_immed`.
#[derive(Clone, Copy, Debug, PartialEq, Eq, Structural)]
pub struct BufferRequest {
    pub width: i32,
    pub height: i32,
    pub format: u32,
    pub flags: u32,
}

/// The stride that a request carries for `pitch`: its residue modulo 2 to the 32.
pub open spec fn stride_of(pitch: isize) -> u32 {
    (pitch as int % 0x1_0000_0000) as u32
}

/// The request that shares the only plane of `frame`.
pub open spec fn plane_of(frame: DrmFrame) -> PlaneRequest {
    PlaneRequest {
        fd: frame.fd,
        plane_idx: 0,
        offset: 0,
        stride: stride_of(frame.pitch),
        modifier_hi: modifier_hi(frame.modifier),
        modifier_lo: modifier_lo(frame.modifier),
    }
}

/// Builds the request that shares the only plane of a mapped surface.
pub fn plane_request(frame: &DrmFrame) -> (request: PlaneRequest)
    ensures
        request == plane_of(*frame),
        request.fd == frame.fd,
        request.plane_idx == 0,
        request.offset == 0,
        0 <= frame.pitch <= u32::MAX ==> request.stride == frame.pitch,
        (request.stride - frame.pitch) % 0x1_0000_0000 == 0,
        request.modifier_hi * 0x1_0000_0000 + request.modifier_lo == frame.modifier,
{
    let pitch: isize = frame.pitch;
    let stride: u32 = #[verifier::truncate] (pitch as u32);
    proof {
        assert(pitch as u32 == (pitch as i64) % 0x1_0000_0000) by (bit_vector);
    }
    let halves = split_modifier(frame.modifier);
    PlaneRequest {
        fd: frame.fd,
        plane_idx: 0,
        offset: 0,
        stride,
        modifier_hi: halves.0,
        modifier_lo: halves.1,
    }
}

/// A pitch that fits is the stride itself, and any other is congruent to it.
pub proof fn law_stride_is_the_pitch(pitch: isize)
    ensures
        0 <= pitch <= u32::MAX ==> stride_of(pitch) == pitch,
        (stride_of(pitch) - pitch) % 0x1_0000_0000 == 0,
{
}

/// The request shares the descriptor, the whole modifier and the pitch of the frame, as its
/// first plane and from its first byte on.
pub proof fn law_plane_describes_the_frame(frame: DrmFrame)
    ensures
        plane_of(frame).fd == frame.fd,
        plane_of(frame).plane_idx == 0,
        plane_of(frame).offset == 0,
        0 <= frame.pitch <= u32::MAX ==> plane_of(frame).stride == frame.pitch,
        (plane_of(frame).stride - frame.pitch) % 0x1_0000_0000 == 0,
        plane_of(frame).modifier_hi * 0x1_0000_0000 + plane_of(frame).modifier_lo
            == frame.modifier,
{
    law_stride_is_the_pitch(frame.pitch);
    law_modifier_halves_rejoin(frame.modifier);
}

/// The request for a buffer that covers an output of `dims`.
pub open spec fn buffer_of(dims: (i32, i32)) -> BufferRequest {
    BufferRequest { width: dims.0, height: dims.1, format: XRGB8888, flags: 0 }
}

/// The buffer has the width and the height of the output, whatever their ratio, in the format
/// whose code spells `XR24`, without flags.
pub proof fn law_buffer_has_the_size_of_the_output(dims: (i32, i32))
    ensures
        buffer_of(dims).width == dims.0,
        buffer_of(dims).height == dims.1,
        buffer_of(dims).format == 'X' as int + 0x100 * ('R' as int) + 0x1_0000 * ('2' as int)
            + 0x100_0000 * ('4' as int),
        buffer_of(dims).flags == 0,
{
}

/// Builds the request for a buffer that covers an output of `dims`.
pub fn buffer_request(dims: (i32, i32)) -> (request: BufferRequest)
    ensures
        request == buffer_of(dims),
        request.width == dims.0,
        request.height == dims.1,
        request.format == 0x3432_5258,
        request.flags == 0,
{
    BufferRequest { width: dims.0, height: dims.1, format: xrgb8888(), flags: no_buffer_flags() }
}

} // verus!
