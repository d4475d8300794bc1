//! Sizes of monitor frames, and the policies that go by them.
use crate::decode::request::{AccelerationPreference, DecodeBackend};
use vstd::prelude::*;

verus! {

/// The largest width and height of a monitor frame.
pub const MAX_DIMENSION: u32 = 4_096;

/// The largest RGBA allocation of a monitor frame.
pub const MAX_FRAME_BYTES: usize = 67_108_864;

/// The frame area from which scaling in parallel pays.
pub const LARGE_FRAME_AREA: u64 = 2_073_600;

/// The most threads that one scaler uses.
pub const THREAD_CAP: u32 = 2;

/// Four foreground sources can each use two scaler threads on this CPU floor. The per-scaler
/// cap is not a global CPU reservation; small and low-core workloads stay serial.
pub const MIN_PARALLEL_CPUS: usize = 8;

/// How many frame threads a software decoder gets. Large frame-thread pools add their entire
/// queue as scrub latency before they return the first decoded frame.
pub const LOW_LATENCY_DECODE_THREADS: usize = 2;

/// `dimension` brought into the range of monitor frames.
pub open spec fn bounded_dimension(dimension: u32) -> u32 {
    if dimension < 1 {
        1
    } else if dimension > MAX_DIMENSION {
        MAX_DIMENSION
    } else {
        dimension
    }
}

fn bound_dimension(dimension: u32) -> (bounded: u32)
    ensures
        bounded == bounded_dimension(dimension),
{
    if dimension < 1 {
        1
    } else if dimension > MAX_DIMENSION {
        MAX_DIMENSION
    } else {
        dimension
    }
}

/// Returns normalized monitor dimensions and their exact RGBA allocation.
pub fn bounded_dimensions(width: u32, height: u32) -> (bounded: (u32, u32, usize))
    ensures
        bounded.0 == bounded_dimension(width),
        bounded.1 == bounded_dimension(height),
        bounded.2 == bounded.0 * bounded.1 * 4,
        bounded.2 <= MAX_FRAME_BYTES,
{
    let width: u32 = bound_dimension(width);
    let height: u32 = bound_dimension(height);
    assert(width * height <= 4_096 * 4_096) by (nonlinear_arith)
        requires
            width <= 4_096,
            height <= 4_096,
    ;
    let bytes: usize = width as usize * height as usize * 4;
    (width, height, bytes)
}

/// A monitor frame of any requested size fits the allocation limit, and a size within the
/// limits is left as it is.
pub proof fn law_bounded_dimensions_are_stable(width: u32, height: u32)
    ensures
        1 <= bounded_dimension(width) <= MAX_DIMENSION,
        bounded_dimension(bounded_dimension(width)) == bounded_dimension(width),
        1 <= width <= MAX_DIMENSION ==> bounded_dimension(width) == width,
        bounded_dimension(width) * bounded_dimension(height) * 4 <= MAX_FRAME_BYTES,
{
    let (w, h) = (bounded_dimension(width), bounded_dimension(height));
    assert(w * h <= 4_096 * 4_096) by (nonlinear_arith)
        requires
            w <= 4_096,
            h <= 4_096,
    ;
}

/// How many threads a scaler uses: more than one only between two large frames on a host with
/// enough processors.
pub fn thread_policy(
    src_width: u32,
    src_height: u32,
    dst_width: u32,
    dst_height: u32,
    available: usize,
) -> (threads: u32)
    ensures
        threads == (if src_width * src_height >= LARGE_FRAME_AREA && dst_width * dst_height
            >= LARGE_FRAME_AREA && available >= MIN_PARALLEL_CPUS {
            THREAD_CAP
        } else {
            1
        }),
{
    assert(src_width * src_height <= u64::MAX && dst_width * dst_height <= u64::MAX)
        by (nonlinear_arith)
        requires
            src_width <= u32::MAX,
            src_height <= u32::MAX,
            dst_width <= u32::MAX,
            dst_height <= u32::MAX,
    ;
    let src_area: u64 = src_width as u64 * src_height as u64;
    let dst_area: u64 = dst_width as u64 * dst_height as u64;
    if src_area >= LARGE_FRAME_AREA && dst_area >= LARGE_FRAME_AREA && available
        >= MIN_PARALLEL_CPUS {
        THREAD_CAP
    } else {
        1
    }
}

/// Whether a backend leaves its frames on the device, so that they have to be transferred.
pub fn requires_cpu_frame_transfer(backend: DecodeBackend) -> (required: bool)
    ensures
        required == (backend == DecodeBackend::VideoToolbox || backend == DecodeBackend::D3D11VA
            || backend == DecodeBackend::DXVA2),
{
    match backend {
        DecodeBackend::VideoToolbox | DecodeBackend::D3D11VA | DecodeBackend::DXVA2 => true,
        _ => false,
    }
}

/// The filter of a scaler.
#[derive(Clone, Copy, Debug, PartialEq, Eq, Structural)]
pub enum ScalingFilter {
    Bicubic,
    Bilinear,
}

pub fn scaling_flags(high_quality_scaling: bool) -> (filter: ScalingFilter)
    ensures
        filter == (if high_quality_scaling {
            ScalingFilter::Bicubic
        } else {
            ScalingFilter::Bilinear
        }),
{
    if high_quality_scaling {
        ScalingFilter::Bicubic
    } else {
        ScalingFilter::Bilinear
    }
}

/// A video codec, as far as hardware decoders are named after it.
#[derive(Clone, Copy, Debug, PartialEq, Eq, Structural)]
pub enum VideoCodec {
    H264,
    Hevc,
    Av1,
    Other,
}

/// The platform that a decoder is opened on.
#[derive(Clone, Copy, Debug, PartialEq, Eq, Structural)]
pub enum HostPlatform {
    MacOs,
    Windows,
    Other,
}

/// A hardware decoder that goes by its own name.
#[derive(Clone, Copy, Debug)]
pub struct DecoderCandidate {
    pub name: &'static str,
    pub backend: DecodeBackend,
}

/// The named hardware decoders of a codec. CUVID precedes Quick Sync so that a discrete NVIDIA
/// adapter comes first.
pub open spec fn named_candidates(codec: VideoCodec) -> Seq<(Seq<char>, DecodeBackend)> {
    match codec {
        VideoCodec::H264 => seq![
            ("h264_cuvid"@, DecodeBackend::Nvidia),
            ("h264_qsv"@, DecodeBackend::IntelQuickSync),
        ],
        VideoCodec::Hevc => seq![
            ("hevc_cuvid"@, DecodeBackend::Nvidia),
            ("hevc_qsv"@, DecodeBackend::IntelQuickSync),
        ],
        VideoCodec::Av1 => seq![
            ("av1_cuvid"@, DecodeBackend::Nvidia),
            ("av1_qsv"@, DecodeBackend::IntelQuickSync),
        ],
        VideoCodec::Other => Seq::empty(),
    }
}

/// The models of a list of candidates.
pub open spec fn candidate_models(candidates: Seq<DecoderCandidate>) -> Seq<
    (Seq<char>, DecodeBackend),
> {
    Seq::new(candidates.len(), |i: int| (candidates[i].name@, candidates[i].backend))
}

pub fn hardware_decoder_candidates(codec: VideoCodec) -> (candidates: Vec<DecoderCandidate>)
    ensures
        candidate_models(candidates@) == named_candidates(codec),
{
    let mut candidates: Vec<DecoderCandidate> = Vec::new();
    match codec {
        VideoCodec::H264 => {
            candidates.push(
                DecoderCandidate { name: "h264_cuvid", backend: DecodeBackend::Nvidia },
            );
            candidates.push(
                DecoderCandidate { name: "h264_qsv", backend: DecodeBackend::IntelQuickSync },
            );
        },
        VideoCodec::Hevc => {
            candidates.push(
                DecoderCandidate { name: "hevc_cuvid", backend: DecodeBackend::Nvidia },
            );
            candidates.push(
                DecoderCandidate { name: "hevc_qsv", backend: DecodeBackend::IntelQuickSync },
            );
        },
        VideoCodec::Av1 => {
            candidates.push(DecoderCandidate { name: "av1_cuvid", backend: DecodeBackend::Nvidia });
            candidates.push(
                DecoderCandidate { name: "av1_qsv", backend: DecodeBackend::IntelQuickSync },
            );
        },
        VideoCodec::Other => {},
    }
    assert(candidate_models(candidates@) =~= named_candidates(codec));
    candidates
}

/// One attempt to open a decoder.
#[derive(Clone, Copy, Debug)]
pub struct DecoderAttempt {
    /// The decoder's name; without one it is the codec's own decoder, with the context of the
    /// backend where that is not software.
    pub name: Option<&'static str>,
    pub backend: DecodeBackend,
}

/// The mathematical value of a [`DecoderAttempt`].
#[verifier::ext_equal]
pub struct AttemptModel {
    pub name: Option<Seq<char>>,
    pub backend: DecodeBackend,
}

impl View for DecoderAttempt {
    type V = AttemptModel;

    open spec fn view(&self) -> AttemptModel {
        AttemptModel {
            name: match self.name {
                Some(name) => Some(name@),
                None => None,
            },
            backend: self.backend,
        }
    }
}

/// The models of a list of attempts.
pub open spec fn attempt_models(attempts: Seq<DecoderAttempt>) -> Seq<AttemptModel> {
    Seq::new(attempts.len(), |i: int| attempts[i]@)
}

/// The codec's own decoder with the context of a backend.
pub open spec fn own_decoder(backend: DecodeBackend) -> AttemptModel {
    AttemptModel { name: None, backend }
}

/// The attempts with the named hardware decoders of a codec.
pub open spec fn named_attempts(codec: VideoCodec) -> Seq<AttemptModel> {
    Seq::new(
        named_candidates(codec).len(),
        |i: int|
            AttemptModel {
                name: Some(named_candidates(codec)[i].0),
                backend: named_candidates(codec)[i].1,
            },
    )
}

/// The attempts with hardware. A Mac tries its own context first; elsewhere the named decoders come
/// first, and Windows goes on to its own contexts, so that other adapters are accelerated too.
pub open spec fn hardware_attempts(platform: HostPlatform, codec: VideoCodec) -> Seq<AttemptModel> {
    match platform {
        HostPlatform::MacOs => seq![own_decoder(DecodeBackend::VideoToolbox)] + named_attempts(
            codec,
        ),
        HostPlatform::Windows => named_attempts(codec) + seq![
            own_decoder(DecodeBackend::D3D11VA),
            own_decoder(DecodeBackend::DXVA2),
        ],
        HostPlatform::Other => named_attempts(codec),
    }
}

/// The attempts to open a decoder, in their order: hardware unless software was asked for, and
/// software in the end.
pub open spec fn attempt_order(
    acceleration: AccelerationPreference,
    platform: HostPlatform,
    codec: VideoCodec,
) -> Seq<AttemptModel> {
    if acceleration == AccelerationPreference::Software {
        seq![own_decoder(DecodeBackend::Software)]
    } else {
        hardware_attempts(platform, codec).push(own_decoder(DecodeBackend::Software))
    }
}

fn push_own_decoder(attempts: &mut Vec<DecoderAttempt>, backend: DecodeBackend)
    ensures
        attempt_models(final(attempts)@) == attempt_models(old(attempts)@).push(
            own_decoder(backend),
        ),
{
    let ghost before = attempt_models(attempts@);
    attempts.push(DecoderAttempt { name: None, backend });
    assert(attempt_models(attempts@) =~= before.push(own_decoder(backend)));
}

fn push_named_decoders(attempts: &mut Vec<DecoderAttempt>, codec: VideoCodec)
    ensures
        attempt_models(final(attempts)@) == attempt_models(old(attempts)@) + named_attempts(codec),
{
    let ghost before = attempt_models(attempts@);
    let candidates = hardware_decoder_candidates(codec);
    let mut i: usize = 0;
    assert(candidate_models(candidates@).len() == named_candidates(codec).len());
    assert(before + named_attempts(codec).take(0) =~= before);
    while i < candidates.len()
        invariant
            i <= candidates@.len(),
            candidates@.len() == named_candidates(codec).len(),
            candidate_models(candidates@) == named_candidates(codec),
            attempt_models(attempts@) == before + named_attempts(codec).take(i as int),
        decreases candidates@.len() - i,
    {
        let ghost so_far = attempt_models(attempts@);
        let candidate = candidates[i];
        assert(candidate_models(candidates@)[i as int] == (candidate.name@, candidate.backend));
        attempts.push(DecoderAttempt { name: Some(candidate.name), backend: candidate.backend });
        assert(attempt_models(attempts@) =~= so_far.push(named_attempts(codec)[i as int]));
        assert(attempt_models(attempts@) =~= before + named_attempts(codec).take(i + 1));
        i += 1;
    }
    assert(named_attempts(codec).take(i as int) =~= named_attempts(codec));
}

/// The decoders to try for a codec, one after the other until one opens.
pub fn decoder_attempts(
    acceleration: AccelerationPreference,
    platform: HostPlatform,
    codec: VideoCodec,
) -> (attempts: Vec<DecoderAttempt>)
    ensures
        attempt_models(attempts@) == attempt_order(acceleration, platform, codec),
{
    let mut attempts: Vec<DecoderAttempt> = Vec::new();
    assert(attempt_models(attempts@) =~= Seq::empty());
    if acceleration != AccelerationPreference::Software {
        if platform == HostPlatform::MacOs {
            push_own_decoder(&mut attempts, DecodeBackend::VideoToolbox);
        }
        push_named_decoders(&mut attempts, codec);
        if platform == HostPlatform::Windows {
            push_own_decoder(&mut attempts, DecodeBackend::D3D11VA);
            push_own_decoder(&mut attempts, DecodeBackend::DXVA2);
        }
        assert(attempt_models(attempts@) =~= hardware_attempts(platform, codec));
    }
    push_own_decoder(&mut attempts, DecodeBackend::Software);
    assert(attempt_models(attempts@) =~= attempt_order(acceleration, platform, codec));
    attempts
}

/// Software is the last resort and no more: it is always tried, and every attempt before it is one
/// with hardware.
pub proof fn law_software_is_the_last_resort(
    acceleration: AccelerationPreference,
    platform: HostPlatform,
    codec: VideoCodec,
    i: int,
)
    requires
        0 <= i < attempt_order(acceleration, platform, codec).len(),
    ensures
        (attempt_order(acceleration, platform, codec)[i].backend == DecodeBackend::Software) <==> i
            == attempt_order(acceleration, platform, codec).len() - 1,
        attempt_order(acceleration, platform, codec).last() == own_decoder(DecodeBackend::Software),
        acceleration == AccelerationPreference::Software ==> attempt_order(
            acceleration,
            platform,
            codec,
        ).len() == 1,
{
    let named = named_candidates(codec);
    assert forall|j: int| 0 <= j < named.len() implies (#[trigger] named[j]).1
        != DecodeBackend::Software by {}
}

/// The pixel format, width and height that a scaler reads. The format is the decoder library's
/// own number for it.
#[derive(Clone, Copy, Debug, PartialEq, Eq, Structural)]
pub struct ScalerInput {
    pub format: i32,
    pub width: u32,
    pub height: u32,
}

/// What the scaler of a session is set up for.
#[derive(Clone, Copy, Debug, PartialEq, Eq, Structural)]
pub struct ScalerState {
    /// What it reads; unknown until the first transferred frame.
    pub input: Option<ScalerInput>,
    pub high_quality: Option<bool>,
    pub scaled_width: u32,
    pub scaled_height: u32,
    pub output_width: u32,
    pub output_height: u32,
}

impl ScalerState {
    /// Whether a request for this output asks for another set-up.
    pub fn needs_output(&self, width: u32, height: u32, high_quality: bool) -> (needed: bool)
        ensures
            needed == (self.output_width != width || self.output_height != height
                || self.high_quality != Some(high_quality)),
    {
        self.output_width != width || self.output_height != height || self.high_quality != Some(
            high_quality,
        )
    }

    /// Notes that the output has changed, and the fitted size with it.
    pub fn set_output(&mut self, scaled: (u32, u32), output: (u32, u32), high_quality: bool)
        ensures
            *final(self) == (ScalerState {
                input: old(self).input,
                high_quality: Some(high_quality),
                scaled_width: scaled.0,
                scaled_height: scaled.1,
                output_width: output.0,
                output_height: output.1,
            }),
            !final(self).spec_needs_output(output.0, output.1, high_quality),
    {
        self.high_quality = Some(high_quality);
        self.scaled_width = scaled.0;
        self.scaled_height = scaled.1;
        self.output_width = output.0;
        self.output_height = output.1;
    }

    /// Whether a request for this output asks for another set-up.
    pub open spec fn spec_needs_output(&self, width: u32, height: u32, high_quality: bool) -> bool {
        self.output_width != width || self.output_height != height || self.high_quality != Some(
            high_quality,
        )
    }

    /// Whether a transferred frame asks for another scaler.
    pub fn needs_input(&self, input: ScalerInput, scaled: (u32, u32), high_quality: bool) -> (
    needed: bool)
        ensures
            needed == (self.input != Some(input) || self.scaled_width != scaled.0
                || self.scaled_height != scaled.1 || self.high_quality != Some(high_quality)),
    {
        self.input != Some(input) || self.scaled_width != scaled.0 || self.scaled_height != scaled.1
            || self.high_quality != Some(high_quality)
    }

    /// Notes that the scaler was set up for a transferred frame.
    pub fn set_input(&mut self, input: ScalerInput, scaled: (u32, u32), high_quality: bool)
        ensures
            *final(self) == (ScalerState {
                input: Some(input),
                high_quality: Some(high_quality),
                scaled_width: scaled.0,
                scaled_height: scaled.1,
                ..*old(self)
            }),
    {
        self.input = Some(input);
        self.high_quality = Some(high_quality);
        self.scaled_width = scaled.0;
        self.scaled_height = scaled.1;
    }
}

/// A dimension is brought between 1 and 4,096, and kept where it lies there.
pub proof fn law_dimensions_are_bounded(dimension: u32)
    ensures
        1 <= bounded_dimension(dimension) <= 4_096,
        1 <= dimension <= 4_096 ==> bounded_dimension(dimension) == dimension,
        dimension == 0 ==> bounded_dimension(dimension) == 1,
        dimension > 4_096 ==> bounded_dimension(dimension) == 4_096,
{
}

/// Each of the three codecs has its CUVID decoder first and its Quick Sync decoder second, and no
/// other codec has any.
pub proof fn law_named_decoders_are_cuvid_then_quick_sync(codec: VideoCodec)
    ensures
        codec == VideoCodec::Other ==> named_candidates(codec).len() == 0,
        codec != VideoCodec::Other ==> {
            &&& named_candidates(codec).len() == 2
            &&& named_candidates(codec)[0].1 == DecodeBackend::Nvidia
            &&& named_candidates(codec)[1].1 == DecodeBackend::IntelQuickSync
        },
        named_candidates(VideoCodec::H264)[0].0 == "h264_cuvid"@,
        named_candidates(VideoCodec::H264)[1].0 == "h264_qsv"@,
        named_candidates(VideoCodec::Hevc)[0].0 == "hevc_cuvid"@,
        named_candidates(VideoCodec::Hevc)[1].0 == "hevc_qsv"@,
        named_candidates(VideoCodec::Av1)[0].0 == "av1_cuvid"@,
        named_candidates(VideoCodec::Av1)[1].0 == "av1_qsv"@,
{
}

/// The attempts in hardware: every named decoder of the codec is tried, in its order and under its
/// own name; Windows tries its two contexts after all of them, a Mac its one before, and no other
/// platform has any.
pub proof fn law_hardware_is_tried_in_order(
    acceleration: AccelerationPreference,
    platform: HostPlatform,
    codec: VideoCodec,
    i: int,
)
    requires
        acceleration != AccelerationPreference::Software,
    ensures
        ({
            let order = attempt_order(acceleration, platform, codec);
            let named = named_candidates(codec);
            let first = if platform == HostPlatform::MacOs {
                1int
            } else {
                0int
            };
            &&& order.len() == named.len() + 1 + (match platform {
                HostPlatform::MacOs => 1int,
                HostPlatform::Windows => 2int,
                HostPlatform::Other => 0int,
            })
            &&& 0 <= i < named.len() ==> order[first + i].name == Some(named[i].0) && order[first
                + i].backend == named[i].1
            &&& platform == HostPlatform::MacOs ==> order[0].name is None && order[0].backend
                == DecodeBackend::VideoToolbox
            &&& platform == HostPlatform::Windows ==> {
                &&& order[named.len() as int].name is None
                &&& order[named.len() as int].backend == DecodeBackend::D3D11VA
                &&& order[named.len() as int + 1].name is None
                &&& order[named.len() as int + 1].backend == DecodeBackend::DXVA2
            }
            &&& order.last().name is None
            &&& order.last().backend == DecodeBackend::Software
        }),
{
}

/// Scaling runs in two threads exactly where both frames have the area of full HD and eight processors
/// are there; otherwise in one.
pub proof fn law_only_large_frames_are_scaled_in_parallel(
    src_width: u32,
    src_height: u32,
    dst_width: u32,
    dst_height: u32,
    available: usize,
    threads: u32,
)
    requires
        call_ensures(thread_policy, (src_width, src_height, dst_width, dst_height, available), threads),
    ensures
        threads == 2 <==> src_width * src_height >= 2_073_600 && dst_width * dst_height
            >= 2_073_600 && available >= 8,
        threads == 1 || threads == 2,
{
}

/// Frames of the three device contexts are transferred, and no others; high quality means bicubic.
pub proof fn law_device_frames_are_transferred(
    backend: DecodeBackend,
    required: bool,
    high_quality: bool,
    filter: ScalingFilter,
)
    requires
        call_ensures(requires_cpu_frame_transfer, (backend,), required),
        call_ensures(scaling_flags, (high_quality,), filter),
    ensures
        required <==> backend != DecodeBackend::Software && backend != DecodeBackend::Nvidia
            && backend != DecodeBackend::IntelQuickSync,
        filter == ScalingFilter::Bicubic <==> high_quality,
{
}

/// Monitor dimensions are normalised with their exact allocation, four bytes to a pixel.
pub proof fn law_allocation_fits_the_dimensions(
    width: u32,
    height: u32,
    bounded: (u32, u32, usize),
)
    requires
        call_ensures(bounded_dimensions, (width, height), bounded),
    ensures
        1 <= bounded.0 <= 4_096 && 1 <= bounded.1 <= 4_096,
        1 <= width <= 4_096 ==> bounded.0 == width,
        1 <= height <= 4_096 ==> bounded.1 == height,
        width > 4_096 ==> bounded.0 == 4_096,
        height > 4_096 ==> bounded.1 == 4_096,
        width == 0 ==> bounded.0 == 1,
        height == 0 ==> bounded.1 == 1,
        bounded.2 == 4 * (bounded.0 * bounded.1),
{
    assert(bounded.0 * bounded.1 * 4 == 4 * (bounded.0 * bounded.1)) by (nonlinear_arith);
}

/// A scaler is set up anew exactly where what it reads, what it writes or its quality changes.
pub proof fn law_scalers_are_kept_for_the_same_ends(
    state: &ScalerState,
    width: u32,
    height: u32,
    high_quality: bool,
    output_changed: bool,
    input: ScalerInput,
    scaled: (u32, u32),
    input_changed: bool,
)
    requires
        call_ensures(ScalerState::needs_output, (state, width, height, high_quality), output_changed),
        call_ensures(ScalerState::needs_input, (state, input, scaled, high_quality), input_changed),
    ensures
        !output_changed <==> state.output_width == width && state.output_height == height
            && state.high_quality == Some(high_quality),
        !input_changed <==> state.input == Some(input) && state.scaled_width == scaled.0
            && state.scaled_height == scaled.1 && state.high_quality == Some(high_quality),
{
}

/// Once an output is set, a request for the same size and quality keeps the set-up, and a request for any
/// other asks for a new one; the source's side stays as it was.
pub proof fn law_set_output_is_kept(
    setting: &mut ScalerState,
    scaled: (u32, u32),
    output: (u32, u32),
    high_quality: bool,
    later: &ScalerState,
    width: u32,
    height: u32,
    quality: bool,
    needed: bool,
)
    requires
        call_ensures(ScalerState::set_output, (setting, scaled, output, high_quality), ()),
        call_ensures(ScalerState::needs_output, (later, width, height, quality), needed),
        *final(setting) == *later,
    ensures
        needed <==> (width, height) != output || quality != high_quality,
        later.scaled_width == scaled.0,
        later.scaled_height == scaled.1,
        later.input == old(setting).input,
{
}

} // verus!
