//! What a recording sets up before its first frame, as plain values: the hardware device and
//! its frame contexts, the encoder, and the filter graph between them.
use vstd::prelude::*;

verus! {

/// The width of the recorded frames.
pub const WIDTH: i32 = 3840;

/// The height of the recorded frames.
pub const HEIGHT: i32 = 2160;

/// The number of surfaces that the recorder works with.
pub const SURFACES: usize = 1;

/// The stream of the file that the packets belong to.
pub const STREAM: usize = 0;

/// A format of pixels.
#[derive(Clone, Copy, Debug, PartialEq, Eq, Structural)]
pub enum PixelFormat {
    /// Frames in hardware surfaces.
    Vaapi,
    /// Frames exported as DRM objects.
    DrmPrime,
    /// Packed red, green and blue, with a byte of padding.
    Rgb0,
    /// A luma plane and an interleaved chroma plane.
    Nv12,
}

/// How a surface is mapped for another party.
#[derive(Clone, Copy, Debug, PartialEq, Eq, Structural)]
pub struct MapRequest {
    /// The format that describes the mapped surface.
    pub format: PixelFormat,
    /// Whether the mapping is for reading.
    pub read: bool,
    /// Whether the mapping is for writing.
    pub write: bool,
}

/// The mapping that lets the compositor copy into a surface: as DRM objects, for reading and
/// writing.
pub open spec fn compositor_mapping() -> MapRequest {
    MapRequest { format: PixelFormat::DrmPrime, read: true, write: true }
}

/// Builds the mapping that lets the compositor copy into a surface.
pub fn map_request() -> (request: MapRequest)
    ensures
        request == compositor_mapping(),
        request.format == PixelFormat::DrmPrime,
        request.read,
        request.write,
{
    MapRequest { format: PixelFormat::DrmPrime, read: true, write: true }
}

/// A kind of hardware device.
#[derive(Clone, Copy, Debug, PartialEq, Eq, Structural)]
pub enum DeviceKind {
    Vaapi,
}

/// A hardware device of the codec library.
#[derive(Clone, Copy, Debug)]
pub struct AvHwDevCtx {
    pub kind: DeviceKind,
    /// The node of the device.
    pub path: &'static str,
    /// The name of the option that the device is opened with.
    pub option: &'static str,
    /// The value of that option.
    pub value: &'static str,
    /// The flags of the call that opens the device.
    pub flags: i32,
}

/// A pool of hardware frames.
#[derive(Clone, Copy, Debug, PartialEq, Eq, Structural)]
pub struct AvHwFrameCtx {
    pub format: PixelFormat,
    pub sw_format: PixelFormat,
    pub width: i32,
    pub height: i32,
    pub initial_pool_size: i32,
    /// The flags of the call that takes a frame from the pool.
    pub alloc_flags: i32,
}

/// The pool of frames in hardware surfaces whose pixels are in `pixfmt`.
pub open spec fn frame_ctx(pixfmt: PixelFormat) -> AvHwFrameCtx {
    AvHwFrameCtx {
        format: PixelFormat::Vaapi,
        sw_format: pixfmt,
        width: WIDTH,
        height: HEIGHT,
        initial_pool_size: 20,
        alloc_flags: 0,
    }
}

/// Two pools differ in the format of their pixels only, and have the size of the recording.
pub proof fn law_pools_differ_in_pixels_only(a: PixelFormat, b: PixelFormat)
    ensures
        frame_ctx(a).sw_format == a,
        frame_ctx(b) == (AvHwFrameCtx { sw_format: b, ..frame_ctx(a) }),
        frame_ctx(a).format == PixelFormat::Vaapi,
        frame_ctx(a).width == 3840,
        frame_ctx(a).height == 2160,
        frame_ctx(a).initial_pool_size == 20,
        frame_ctx(a).alloc_flags == 0,
{
}

impl AvHwDevCtx {
    /// The VA-API device of the first graphics card, reached through DRM.
    pub fn new_libva() -> (device: Self)
        ensures
            device.kind == DeviceKind::Vaapi,
            device.path@ == "/dev/dri/card0"@,
            device.option@ == "connection_type"@,
            device.value@ == "drm"@,
            device.flags == 0,
    {
        AvHwDevCtx {
            kind: DeviceKind::Vaapi,
            path: "/dev/dri/card0",
            option: "connection_type",
            value: "drm",
            flags: 0,
        }
    }

    /// Plans a pool of frames in hardware surfaces whose pixels are in `pixfmt`.
    pub fn create_frame_ctx(&self, pixfmt: PixelFormat) -> (frames: AvHwFrameCtx)
        ensures
            frames == frame_ctx(pixfmt),
            frames.format == PixelFormat::Vaapi,
            frames.sw_format == pixfmt,
            frames.width == 3840,
            frames.height == 2160,
            frames.initial_pool_size == 20,
            frames.alloc_flags == 0,
    {
        AvHwFrameCtx {
            format: PixelFormat::Vaapi,
            sw_format: pixfmt,
            width: WIDTH,
            height: HEIGHT,
            initial_pool_size: 20,
            alloc_flags: 0,
        }
    }
}

/// Plans the pool of the surfaces that the compositor copies into.
pub fn surface_pool(device: &AvHwDevCtx) -> (frames: AvHwFrameCtx)
    ensures
        frames == frame_ctx(PixelFormat::Rgb0),
        frames.format == PixelFormat::Vaapi,
        frames.sw_format == PixelFormat::Rgb0,
{
    device.create_frame_ctx(PixelFormat::Rgb0)
}

/// Plans the pool of the frames that the encoder reads.
pub fn encoder_pool(device: &AvHwDevCtx) -> (frames: AvHwFrameCtx)
    ensures
        frames == frame_ctx(PixelFormat::Nv12),
        frames.format == PixelFormat::Vaapi,
        frames.sw_format == PixelFormat::Nv12,
{
    device.create_frame_ctx(PixelFormat::Nv12)
}

/// A fraction.
#[derive(Clone, Copy, Debug, PartialEq, Eq, Structural)]
pub struct Fraction {
    pub num: i32,
    pub den: i32,
}

/// A codec.
#[derive(Clone, Copy, Debug, PartialEq, Eq, Structural)]
pub enum CodecId {
    H264,
}

/// The encoder and the file that it writes to.
#[derive(Clone, Copy, Debug)]
pub struct EncoderConfig {
    pub codec: CodecId,
    /// The name of the encoder.
    pub encoder: &'static str,
    /// The path of the file.
    pub file: &'static str,
    pub format: PixelFormat,
    pub sw_format: PixelFormat,
    pub width: i32,
    pub height: i32,
    pub time_base: Fraction,
    /// Whether the headers of the codec go to the head of the file.
    pub global_header: bool,
}

impl EncoderConfig {
    /// Whether the encoder can be given the frames of this pool.
    pub open spec fn takes(self, frames: AvHwFrameCtx) -> bool {
        &&& self.format == frames.format
        &&& self.sw_format == frames.sw_format
        &&& self.width == frames.width
        &&& self.height == frames.height
    }

    /// The encoder of a recording: frames from a pool in `Nv12`, in units of a sixtieth of a
    /// second, into `out.mp4`.
    pub fn new() -> (config: Self)
        ensures
            config.codec == CodecId::H264,
            config.encoder@ == "h264_vaapi"@,
            config.file@ == "out.mp4"@,
            config.format == PixelFormat::Vaapi,
            config.sw_format == PixelFormat::Nv12,
            config.width == WIDTH,
            config.height == HEIGHT,
            config.width == 3840,
            config.height == 2160,
            config.time_base == (Fraction { num: 1, den: 60 }),
            config.global_header,
            config.takes(frame_ctx(PixelFormat::Nv12)),
    {
        EncoderConfig {
            codec: CodecId::H264,
            encoder: "h264_vaapi",
            file: "out.mp4",
            format: PixelFormat::Vaapi,
            sw_format: PixelFormat::Nv12,
            width: WIDTH,
            height: HEIGHT,
            time_base: Fraction { num: 1, den: 60 },
            global_header: true,
        }
    }
}

/// The character of a decimal digit.
pub open spec fn digit(value: nat) -> char {
    ('0' as nat + value) as char
}

/// The decimal digits of `value`.
pub open spec fn digits(value: nat) -> Seq<char>
    decreases value,
{
    if value < 10 {
        seq![digit(value)]
    } else {
        digits(value / 10).push(digit(value % 10))
    }
}

/// The decimal representation of `value`.
pub open spec fn decimal(value: int) -> Seq<char> {
    if value < 0 {
        seq!['-'] + digits((-value) as nat)
    } else {
        digits(value as nat)
    }
}

/// The number that a sequence of decimal digits stands for.
pub open spec fn number(text: Seq<char>) -> int
    decreases text.len(),
{
    if text.len() == 0 {
        0
    } else {
        10 * number(text.drop_last()) + (text.last() as int - '0' as int)
    }
}

/// The digits of a number are decimal digits, they stand for that number, and no zero leads
/// them unless they are that zero alone.
pub proof fn law_digits_read_back(value: nat)
    ensures
        digits(value).len() > 0,
        forall|i: int| 0 <= i < digits(value).len() ==> '0' <= #[trigger] digits(value)[i] <= '9',
        number(digits(value)) == value,
        digits(value)[0] == '0' ==> digits(value).len() == 1,
    decreases value,
{
    if value < 10 {
        reveal_with_fuel(number, 2);
        assert(digits(value).drop_last() =~= Seq::empty());
    } else {
        let higher = digits(value / 10);
        law_digits_read_back(value / 10);
        assert(digits(value).drop_last() =~= higher);
        assert forall|i: int| 0 <= i < digits(value).len() implies '0' <= #[trigger] digits(
            value,
        )[i] <= '9' by {
            if i < higher.len() {
                assert(digits(value)[i] == higher[i]);
            }
        }
        assert(digits(value)[0] == higher[0]);
        if higher[0] == '0' {
            reveal_with_fuel(number, 2);
            assert(higher.drop_last() =~= Seq::empty());
        }
    }
}

/// The decimal representation of a number reads back as that number: its digits if it is not
/// negative, and otherwise a minus sign and the digits of its magnitude.
pub proof fn law_decimal_reads_back(value: int)
    ensures
        value >= 0 ==> number(decimal(value)) == value && '0' <= decimal(value)[0] <= '9',
        value < 0 ==> decimal(value)[0] == '-' && number(decimal(value).skip(1)) == -value,
        value >= 0 && decimal(value)[0] == '0' ==> decimal(value).len() == 1,
        value < 0 ==> decimal(value).len() > 1 && decimal(value)[1] != '0',
        forall|i: int| 1 <= i < decimal(value).len() ==> '0' <= #[trigger] decimal(value)[i] <= '9',
{
    if value < 0 {
        let magnitude = digits((-value) as nat);
        law_digits_read_back((-value) as nat);
        assert(decimal(value).skip(1) =~= magnitude);
        assert forall|i: int| 1 <= i < decimal(value).len() implies '0' <= #[trigger] decimal(
            value,
        )[i] <= '9' by {
            assert(decimal(value)[i] == magnitude[i - 1]);
        }
        if magnitude[0] == '0' {
            reveal_with_fuel(number, 2);
            assert(magnitude.drop_last() =~= Seq::empty());
        }
    } else {
        law_digits_read_back(value as nat);
    }
}

/// Appends a decimal digit.
fn append_digit(text: &mut String, value: u32)
    requires
        value < 10,
    ensures
        final(text)@ == old(text)@.push(digit(value as nat)),
{
    let character = match value {
        0 => "0",
        1 => "1",
        2 => "2",
        3 => "3",
        4 => "4",
        5 => "5",
        6 => "6",
        7 => "7",
        8 => "8",
        _ => "9",
    };
    proof {
        reveal_strlit("0");
        reveal_strlit("1");
        reveal_strlit("2");
        reveal_strlit("3");
        reveal_strlit("4");
        reveal_strlit("5");
        reveal_strlit("6");
        reveal_strlit("7");
        reveal_strlit("8");
        reveal_strlit("9");
        assert(character@ =~= seq![digit(value as nat)]);
    }
    text.append(character);
}

/// Appends decimal digits.
fn append_digits(text: &mut String, value: u32)
    ensures
        final(text)@ == old(text)@ + digits(value as nat),
    decreases value,
{
    if value >= 10 {
        append_digits(text, value / 10);
    }
    append_digit(text, value % 10);
}

/// Appends a number in decimal.
fn append_decimal(text: &mut String, value: i32)
    ensures
        final(text)@ == old(text)@ + decimal(value as int),
{
    if value < 0 {
        proof {
            reveal_strlit("-");
        }
        text.append("-");
        append_digits(text, (0 - value as i64) as u32);
    } else {
        append_digits(text, value as u32);
    }
}

/// The parameters of the filter graph's input.
#[derive(Clone, Copy, Debug, PartialEq, Eq, Structural)]
pub struct SourceParams {
    pub width: i32,
    pub height: i32,
    /// The codec library's number of the format.
    pub format: i32,
    pub time_base: Fraction,
}

/// A step in building the filter graph.
#[derive(Debug)]
pub enum GraphStep {
    /// Add an instance of `filter`, under `name`, with `args`.
    Add { filter: &'static str, name: &'static str, args: String },
    /// Give the input `name` its parameters and `frames`, the pool of its frames.
    SetSource { name: &'static str, params: SourceParams, frames: AvHwFrameCtx },
    /// Give the output `name` its format.
    SetPixelFormat { name: &'static str, format: PixelFormat },
    /// Parse `description` between the pad `output_pad` of `output` and the pad `input_pad` of
    /// `input`.
    Parse {
        output: &'static str,
        output_pad: usize,
        input: &'static str,
        input_pad: usize,
        description: &'static str,
    },
    /// Check the graph and configure its links.
    Validate,
}

/// A step in building the filter graph, as mathematical values.
#[verifier::ext_equal]
pub enum GraphStepView {
    Add { filter: Seq<char>, name: Seq<char>, args: Seq<char> },
    SetSource { name: Seq<char>, params: SourceParams, frames: AvHwFrameCtx },
    SetPixelFormat { name: Seq<char>, format: PixelFormat },
    Parse {
        output: Seq<char>,
        output_pad: nat,
        input: Seq<char>,
        input_pad: nat,
        description: Seq<char>,
    },
    Validate,
}

impl View for GraphStep {
    type V = GraphStepView;

    open spec fn view(&self) -> GraphStepView {
        match *self {
            GraphStep::Add { filter, name, args } => GraphStepView::Add {
                filter: filter@,
                name: name@,
                args: args@,
            },
            GraphStep::SetSource { name, params, frames } => GraphStepView::SetSource {
                name: name@,
                params,
                frames,
            },
            GraphStep::SetPixelFormat { name, format } => GraphStepView::SetPixelFormat {
                name: name@,
                format,
            },
            GraphStep::Parse { output, output_pad, input, input_pad, description } => {
                GraphStepView::Parse {
                    output: output@,
                    output_pad: output_pad as nat,
                    input: input@,
                    input_pad: input_pad as nat,
                    description: description@,
                }
            },
            GraphStep::Validate => GraphStepView::Validate,
        }
    }
}

/// The name of the filter graph's input, which surfaces are added to and which is flushed.
pub fn source_node() -> (name: &'static str)
    ensures
        name@ == "in"@,
{
    "in"
}

/// The name of the filter graph's output, which converted frames are taken from.
pub fn sink_node() -> (name: &'static str)
    ensures
        name@ == "out"@,
{
    "out"
}

/// The arguments of the filter graph's input, for the format with the number `vaapi`.
pub open spec fn source_args(vaapi: i32) -> Seq<char> {
    "video_size=2840x2160:pix_fmt="@ + decimal(vaapi as int) + ":time_base=1/60"@
}

/// The steps that build the filter graph for the frames of `inctx`; `vaapi` is the number of
/// their format.
pub open spec fn filter_steps(inctx: AvHwFrameCtx, vaapi: i32) -> Seq<GraphStepView> {
    seq![
        GraphStepView::Add { filter: "buffer"@, name: "in"@, args: source_args(vaapi) },
        GraphStepView::SetSource {
            name: "in"@,
            params: SourceParams {
                width: WIDTH,
                height: 2161,
                format: vaapi,
                time_base: Fraction { num: 60, den: 1 },
            },
            frames: inctx,
        },
        GraphStepView::Add { filter: "buffersink"@, name: "out"@, args: ""@ },
        GraphStepView::SetPixelFormat { name: "out"@, format: PixelFormat::Vaapi },
        GraphStepView::Parse {
            output: "in"@,
            output_pad: 0,
            input: "out"@,
            input_pad: 0,
            description: "scale_vaapi=format=nv12"@,
        },
        GraphStepView::Validate,
    ]
}

/// Plans the filter graph that converts the frames of `inctx` to the encoder's format. `vaapi`
/// is the codec library's number of the format of hardware frames.
pub fn filter(inctx: &AvHwFrameCtx, vaapi: i32) -> (steps: Vec<GraphStep>)
    ensures
        steps@.map_values(|step: GraphStep| step@) == filter_steps(*inctx, vaapi),
        steps@.len() == 6,
        steps@[0] matches GraphStep::Add { filter, name, args } && filter@ == "buffer"@ && name@
            == "in"@ && args@ == "video_size=2840x2160:pix_fmt="@ + decimal(vaapi as int)
            + ":time_base=1/60"@,
        steps@[1] matches GraphStep::SetSource { name, params, frames } && name@ == "in"@ && frames
            == *inctx && params.width == 3840 && params.height == 2161 && params.format == vaapi
            && params.time_base.num == 60 && params.time_base.den == 1,
        steps@[2] matches GraphStep::Add { filter, name, args } && filter@ == "buffersink"@
            && name@ == "out"@ && args@ == ""@,
        steps@[3] matches GraphStep::SetPixelFormat { name, format } && name@ == "out"@ && format
            == PixelFormat::Vaapi,
        steps@[4] matches GraphStep::Parse { output, output_pad, input, input_pad, description }
            && output@ == "in"@ && output_pad == 0 && input@ == "out"@ && input_pad == 0
            && description@ == "scale_vaapi=format=nv12"@,
        steps@[5] is Validate,
{
    let mut args = String::new();
    args.append("video_size=2840x2160:pix_fmt=");
    append_decimal(&mut args, vaapi);
    args.append(":time_base=1/60");
    let mut steps: Vec<GraphStep> = Vec::new();
    steps.push(GraphStep::Add { filter: "buffer", name: source_node(), args });
    steps.push(
        GraphStep::SetSource {
            name: source_node(),
            params: SourceParams {
                width: WIDTH,
                height: 2161,
                format: vaapi,
                time_base: Fraction { num: 60, den: 1 },
            },
            frames: *inctx,
        },
    );
    steps.push(GraphStep::Add { filter: "buffersink", name: sink_node(), args: "".to_owned() });
    steps.push(GraphStep::SetPixelFormat { name: sink_node(), format: PixelFormat::Vaapi });
    steps.push(
        GraphStep::Parse {
            output: source_node(),
            output_pad: 0,
            input: sink_node(),
            input_pad: 0,
            description: "scale_vaapi=format=nv12",
        },
    );
    steps.push(GraphStep::Validate);
    assert(steps@.map_values(|step: GraphStep| step@) =~= filter_steps(*inctx, vaapi));
    steps
}

/// Whether `step` adds a filter under `name`.
pub open spec fn adds(step: GraphStepView, name: Seq<char>) -> bool {
    step matches GraphStepView::Add { name: added, .. } && added == name
}

/// Whether `step` looks up the filter `name`.
pub open spec fn looks_up(step: GraphStepView, name: Seq<char>) -> bool {
    match step {
        GraphStepView::SetSource { name: used, .. } => used == name,
        GraphStepView::SetPixelFormat { name: used, .. } => used == name,
        GraphStepView::Parse { output, input, .. } => output == name || input == name,
        _ => false,
    }
}

/// Every filter that a step looks up by its name has been added by an earlier step, and no
/// name is given twice.
pub proof fn law_filter_names_resolve(inctx: AvHwFrameCtx, vaapi: i32)
    ensures
        ({
            let steps = filter_steps(inctx, vaapi);
            &&& forall|i: int, name: Seq<char>|
                0 <= i < steps.len() && #[trigger] looks_up(steps[i], name) ==> exists|j: int|
                    0 <= j < i && #[trigger] adds(steps[j], name)
            &&& forall|i: int, j: int, name: Seq<char>|
                0 <= i < j < steps.len() && #[trigger] adds(steps[i], name) ==> !#[trigger] adds(
                    steps[j],
                    name,
                )
        }),
{
    let steps = filter_steps(inctx, vaapi);
    assert(adds(steps[0], "in"@));
    assert(adds(steps[2], "out"@));
    assert("in"@ != "out"@) by {
        reveal_strlit("in");
        reveal_strlit("out");
        assert("in"@.len() != "out"@.len());
    }
}

/// The graph that the plan builds has the input and the output that a recording works with,
/// the one from which frames are read and the one at which they are taken out.
pub proof fn law_filter_has_input_and_output(inctx: AvHwFrameCtx, vaapi: i32)
    ensures
        ({
            let steps = filter_steps(inctx, vaapi);
            &&& exists|i: int|
                0 <= i < steps.len() && #[trigger] adds(steps[i], "in"@) && steps[i]->filter
                    == "buffer"@
            &&& exists|i: int|
                0 <= i < steps.len() && #[trigger] adds(steps[i], "out"@) && steps[i]->filter
                    == "buffersink"@
        }),
{
    assert(adds(filter_steps(inctx, vaapi)[0], "in"@));
    assert(adds(filter_steps(inctx, vaapi)[2], "out"@));
}

} // verus!
