//! What a monitor asks of the decoder, and what it gets back.
use crate::frame_cache::FrameKey;
use crate::source_path::{PathModel, SourcePath};
use crate::table::TableKey;
use std::sync::Arc;
use vstd::prelude::*;

verus! {

/// Preferred acceleration policy for monitor decoding.
#[derive(Clone, Copy, Debug, Hash, PartialEq, Eq, Structural)]
pub enum AccelerationPreference {
    /// Use the platform's normal decoder selection.
    Auto,
    /// A hardware preference retained for caller compatibility.
    PreferHardware,
    /// A software preference retained for caller compatibility.
    Software,
}

impl Default for AccelerationPreference {
    fn default() -> (preference: Self)
        ensures
            preference == AccelerationPreference::Auto,
    {
        AccelerationPreference::Auto
    }
}

/// One latest-wins request for a monitor frame.
///
/// Two requests name the same source where their paths agree component by component.
#[derive(Debug, PartialEq, Eq)]
pub struct DecodeRequest {
    pub project_epoch: u64,
    /// Stable namespace for one open project's live frame cache.
    pub cache_epoch: u64,
    pub request_id: u64,
    pub media_id: u32,
    pub path: SourcePath,
    /// Source time in microseconds.
    pub source_tick: i64,
    pub width: u32,
    pub height: u32,
    /// True while the monitor is following a pointer drag rather than exact playback.
    pub is_scrubbing: bool,
    /// Warms the bounded random-access lane pool while the viewer is paused.
    pub prewarm_scrub_workers: bool,
    /// Selects the higher-quality scaling filter for the monitor raster.
    pub high_quality_scaling: bool,
    /// Publishes timed intermediate frames while a scrub traverses an inter-frame GOP.
    /// Frames between publication intervals remain decode-only and avoid scaling/copying work.
    pub progressive_scrub_frames: bool,
    /// Exact local source-frame duration, derived from CFR timing or adjacent VFR timestamps.
    /// When known, scrub cache lookup may reuse the first frame no more than one source frame
    /// after the requested timestamp. `None` permits exact matches only; it must not invent a
    /// constant-rate tolerance when timing is unknown or the final indexed VFR span is unavailable.
    pub source_frame_duration_tick: Option<i64>,
    pub acceleration: AccelerationPreference,
}

/// The mathematical value of a [`DecodeRequest`].
#[verifier::ext_equal]
pub struct RequestModel {
    pub project_epoch: u64,
    pub cache_epoch: u64,
    pub request_id: u64,
    pub media_id: u32,
    pub path: PathModel,
    pub source_tick: i64,
    pub width: u32,
    pub height: u32,
    pub is_scrubbing: bool,
    pub prewarm_scrub_workers: bool,
    pub high_quality_scaling: bool,
    pub progressive_scrub_frames: bool,
    pub source_frame_duration_tick: Option<i64>,
    pub acceleration: AccelerationPreference,
}

impl View for DecodeRequest {
    type V = RequestModel;

    open spec fn view(&self) -> RequestModel {
        RequestModel {
            project_epoch: self.project_epoch,
            cache_epoch: self.cache_epoch,
            request_id: self.request_id,
            media_id: self.media_id,
            path: self.path@,
            source_tick: self.source_tick,
            width: self.width,
            height: self.height,
            is_scrubbing: self.is_scrubbing,
            prewarm_scrub_workers: self.prewarm_scrub_workers,
            high_quality_scaling: self.high_quality_scaling,
            progressive_scrub_frames: self.progressive_scrub_frames,
            source_frame_duration_tick: self.source_frame_duration_tick,
            acceleration: self.acceleration,
        }
    }
}

impl Clone for DecodeRequest {
    fn clone(&self) -> (copy: Self)
        ensures
            copy@ == self@,
    {
        DecodeRequest {
            project_epoch: self.project_epoch,
            cache_epoch: self.cache_epoch,
            request_id: self.request_id,
            media_id: self.media_id,
            path: self.path.clone(),
            source_tick: self.source_tick,
            width: self.width,
            height: self.height,
            is_scrubbing: self.is_scrubbing,
            prewarm_scrub_workers: self.prewarm_scrub_workers,
            high_quality_scaling: self.high_quality_scaling,
            progressive_scrub_frames: self.progressive_scrub_frames,
            source_frame_duration_tick: self.source_frame_duration_tick,
            acceleration: self.acceleration,
        }
    }
}

/// The model of a request that may be absent.
pub open spec fn request_model(request: Option<DecodeRequest>) -> Option<RequestModel> {
    match request {
        Some(request) => Some(request@),
        None => None,
    }
}

/// The decoder that produced a frame.
#[derive(Clone, Copy, Debug, PartialEq, Eq, Structural)]
pub enum DecodeBackend {
    Software,
    IntelQuickSync,
    Nvidia,
    VideoToolbox,
    D3D11VA,
    DXVA2,
}

impl DecodeBackend {
    /// The name shown for a backend.
    pub open spec fn spec_display_name(self) -> Seq<char> {
        match self {
            DecodeBackend::Software => "Software"@,
            DecodeBackend::IntelQuickSync => "Intel Quick Sync"@,
            DecodeBackend::Nvidia => "NVIDIA CUVID"@,
            DecodeBackend::VideoToolbox => "Apple VideoToolbox"@,
            DecodeBackend::D3D11VA => "Windows D3D11VA"@,
            DecodeBackend::DXVA2 => "Windows DXVA2"@,
        }
    }

    pub fn display_name(self) -> (name: &'static str)
        ensures
            name@ == self.spec_display_name(),
    {
        match self {
            DecodeBackend::Software => "Software",
            DecodeBackend::IntelQuickSync => "Intel Quick Sync",
            DecodeBackend::Nvidia => "NVIDIA CUVID",
            DecodeBackend::VideoToolbox => "Apple VideoToolbox",
            DecodeBackend::D3D11VA => "Windows D3D11VA",
            DecodeBackend::DXVA2 => "Windows DXVA2",
        }
    }
}

/// A bounded, owned RGBA8 monitor frame.
#[derive(Debug, PartialEq, Eq)]
pub struct DecodedFrame {
    pub project_epoch: u64,
    pub request_id: u64,
    pub media_id: u32,
    pub source_tick: i64,
    pub width: u32,
    pub height: u32,
    /// Decoder that produced this frame. Cached frames retain the active source session's
    /// backend when one is available; callers should keep the last known concrete value.
    pub backend: Option<DecodeBackend>,
    pub rgba: Arc<[u8]>,
}

impl Clone for DecodedFrame {
    fn clone(&self) -> (copy: Self)
        ensures
            copy == *self,
    {
        DecodedFrame {
            project_epoch: self.project_epoch,
            request_id: self.request_id,
            media_id: self.media_id,
            source_tick: self.source_tick,
            width: self.width,
            height: self.height,
            backend: self.backend,
            rgba: self.rgba.clone(),
        }
    }
}

/// A request-specific decode failure.
#[derive(Debug, PartialEq, Eq)]
pub struct DecodeError {
    pub project_epoch: u64,
    pub request_id: u64,
    pub media_id: u32,
    pub source_tick: i64,
    pub message: String,
}

impl Clone for DecodeError {
    fn clone(&self) -> (copy: Self)
        ensures
            copy.project_epoch == self.project_epoch,
            copy.request_id == self.request_id,
            copy.media_id == self.media_id,
            copy.source_tick == self.source_tick,
            copy.message@ == self.message@,
    {
        DecodeError {
            project_epoch: self.project_epoch,
            request_id: self.request_id,
            media_id: self.media_id,
            source_tick: self.source_tick,
            message: self.message.clone(),
        }
    }
}

/// A completed monitor operation delivered without blocking the UI.
#[derive(Debug, PartialEq, Eq)]
pub enum DecodeEvent {
    Frame(DecodedFrame),
    Error(DecodeError),
}

impl Clone for DecodeEvent {
    fn clone(&self) -> (copy: Self)
        ensures
            match (*self, copy) {
                (DecodeEvent::Frame(frame), DecodeEvent::Frame(same)) => same == frame,
                (DecodeEvent::Error(error), DecodeEvent::Error(same)) => {
                    &&& same.project_epoch == error.project_epoch
                    &&& same.request_id == error.request_id
                    &&& same.media_id == error.media_id
                    &&& same.source_tick == error.source_tick
                    &&& same.message@ == error.message@
                },
                _ => false,
            },
    {
        match self {
            DecodeEvent::Frame(frame) => DecodeEvent::Frame(frame.clone()),
            DecodeEvent::Error(error) => DecodeEvent::Error(error.clone()),
        }
    }
}

/// A monitor request could not be accepted.
#[derive(Clone, Copy, Debug, PartialEq, Eq, Structural)]
pub enum DecoderClosed {
    /// The local scheduler or source actor has terminated.
    Closed,
    /// The bounded source coordinator retained the latest request for a later retry but cannot
    /// activate a new source/lane actor until bounded capacity becomes available.
    SourceCapacityDeferred,
}

impl DecoderClosed {
    /// The text shown for this refusal.
    pub fn message(&self) -> (text: &'static str)
        ensures
            text@ == (match *self {
                DecoderClosed::Closed => "monitor decoder scheduler has stopped"@,
                DecoderClosed::SourceCapacityDeferred =>
                    "monitor source capacity is temporarily deferred"@,
            }),
    {
        match self {
            DecoderClosed::Closed => "monitor decoder scheduler has stopped",
            DecoderClosed::SourceCapacityDeferred =>
                "monitor source capacity is temporarily deferred",
        }
    }
}

/// What a monitor lane is told to do next.
#[derive(Debug)]
pub enum MonitorCommand {
    Request(DecodeRequest),
    Cancel,
    Release,
    Shutdown,
}

/// The mathematical value of a [`MonitorCommand`].
pub enum CommandModel {
    Request(RequestModel),
    Cancel,
    Release,
    Shutdown,
}

impl View for MonitorCommand {
    type V = CommandModel;

    open spec fn view(&self) -> CommandModel {
        match self {
            MonitorCommand::Request(request) => CommandModel::Request(request@),
            MonitorCommand::Cancel => CommandModel::Cancel,
            MonitorCommand::Release => CommandModel::Release,
            MonitorCommand::Shutdown => CommandModel::Shutdown,
        }
    }
}

/// The model of a command that may be absent.
pub open spec fn command_model(command: Option<MonitorCommand>) -> Option<CommandModel> {
    match command {
        Some(command) => Some(command@),
        None => None,
    }
}

/// One output raster of one medium in one project.
#[derive(Clone, Copy, Debug, Eq, Hash, PartialEq, Structural)]
pub struct FrameStreamKey {
    pub project_epoch: u64,
    pub media_id: u32,
    pub width: u32,
    pub height: u32,
}

impl TableKey for FrameStreamKey {
    fn same_key(&self, other: &Self) -> (same: bool) {
        *self == *other
    }
}

/// The stream that a frame key belongs to.
pub open spec fn stream_of_key(key: FrameKey) -> FrameStreamKey {
    FrameStreamKey {
        project_epoch: key.project_epoch,
        media_id: key.media_id,
        width: key.width,
        height: key.height,
    }
}

impl From<FrameKey> for FrameStreamKey {
    fn from(key: FrameKey) -> (stream: Self) {
        FrameStreamKey {
            project_epoch: key.project_epoch,
            media_id: key.media_id,
            width: key.width,
            height: key.height,
        }
    }
}

impl vstd::std_specs::convert::FromSpecImpl<FrameKey> for FrameStreamKey {
    open spec fn obeys_from_spec() -> bool {
        true
    }

    open spec fn from_spec(key: FrameKey) -> FrameStreamKey {
        stream_of_key(key)
    }
}

impl RequestModel {
    /// The stream that the request reads.
    pub open spec fn stream(self) -> FrameStreamKey {
        FrameStreamKey {
            project_epoch: self.cache_epoch,
            media_id: self.media_id,
            width: self.width,
            height: self.height,
        }
    }

    /// The key of the frame at `target_tick` in the request's stream. Time before the start
    /// of the source counts as its start.
    pub open spec fn frame_key(self, target_tick: int) -> FrameKey {
        FrameKey {
            project_epoch: self.cache_epoch,
            media_id: self.media_id,
            source_tick: (if target_tick < 0 {
                0
            } else {
                target_tick
            }) as i64,
            width: self.width,
            height: self.height,
        }
    }

    /// The request with everything cleared that may differ within one decode generation:
    /// its identity, its cache namespace and its target.
    pub open spec fn generation(self) -> RequestModel {
        RequestModel { request_id: 0, cache_epoch: 0, source_tick: 0, ..self }
    }
}

pub fn request_stream(request: &DecodeRequest) -> (stream: FrameStreamKey)
    ensures
        stream == request@.stream(),
{
    FrameStreamKey {
        project_epoch: request.cache_epoch,
        media_id: request.media_id,
        width: request.width,
        height: request.height,
    }
}

pub fn event_request_id(event: &DecodeEvent) -> (request_id: u64)
    ensures
        request_id == spec_event_request_id(*event),
{
    match event {
        DecodeEvent::Frame(frame) => frame.request_id,
        DecodeEvent::Error(error) => error.request_id,
    }
}

/// The request that an event answers.
pub open spec fn spec_event_request_id(event: DecodeEvent) -> u64 {
    match event {
        DecodeEvent::Frame(frame) => frame.request_id,
        DecodeEvent::Error(error) => error.request_id,
    }
}

/// Whether two requests can be served by one traversal of one session: they agree in
/// everything but their identity, their cache namespace and their target.
pub open spec fn same_generation(left: RequestModel, right: RequestModel) -> bool {
    left.generation() == right.generation()
}

pub fn same_decode_generation(left: &DecodeRequest, right: &DecodeRequest) -> (same: bool)
    ensures
        same == same_generation(left@, right@),
{
    let same = left.project_epoch == right.project_epoch && left.media_id == right.media_id
        && left.path == right.path && left.width == right.width && left.height == right.height
        && left.is_scrubbing == right.is_scrubbing && left.prewarm_scrub_workers
        == right.prewarm_scrub_workers && left.high_quality_scaling == right.high_quality_scaling
        && left.progressive_scrub_frames == right.progressive_scrub_frames
        && left.source_frame_duration_tick == right.source_frame_duration_tick
        && left.acceleration == right.acceleration;
    assert(same ==> left@.generation() =~= right@.generation());
    same
}

/// The request to retry in software after `failed_backend` gave up; none is left once
/// software itself has failed or was asked for.
pub fn software_fallback_request(request: &DecodeRequest, failed_backend: DecodeBackend) -> (fallback:
    Option<DecodeRequest>)
    ensures
        request_model(fallback) == fallback_of(request@, failed_backend),
{
    if failed_backend != DecodeBackend::Software && request.acceleration
        != AccelerationPreference::Software {
        let mut fallback = request.clone();
        fallback.acceleration = AccelerationPreference::Software;
        Some(fallback)
    } else {
        None
    }
}

/// The software retry of a request, where there is one.
pub open spec fn fallback_of(request: RequestModel, failed_backend: DecodeBackend) -> Option<
    RequestModel,
> {
    if failed_backend != DecodeBackend::Software && request.acceleration
        != AccelerationPreference::Software {
        Some(RequestModel { acceleration: AccelerationPreference::Software, ..request })
    } else {
        None
    }
}

pub fn frame_cache_key(request: &DecodeRequest, target_tick: i64) -> (key: FrameKey)
    ensures
        key == request@.frame_key(target_tick as int),
{
    FrameKey {
        project_epoch: request.cache_epoch,
        media_id: request.media_id,
        source_tick: if target_tick < 0 {
            0
        } else {
            target_tick
        },
        width: request.width,
        height: request.height,
    }
}

/// The waiting request, if it belongs to the same decode generation as `request`.
pub open spec fn newer_of(waiting: Option<CommandModel>, request: RequestModel) -> Option<
    RequestModel,
> {
    match waiting {
        Some(CommandModel::Request(newer)) if same_generation(request, newer) => Some(newer),
        _ => None,
    }
}

pub fn latest_same_generation(commands: &Option<MonitorCommand>, request: &DecodeRequest) -> (newer:
    Option<DecodeRequest>)
    ensures
        request_model(newer) == newer_of(command_model(*commands), request@),
{
    match commands {
        Some(MonitorCommand::Request(newer)) => {
            if same_decode_generation(request, newer) {
                Some(newer.clone())
            } else {
                None
            }
        },
        _ => None,
    }
}

/// To belong to one decode generation is an equivalence of requests.
pub proof fn law_generations_partition_requests(
    a: RequestModel,
    b: RequestModel,
    c: RequestModel,
)
    ensures
        same_generation(a, a),
        same_generation(a, b) == same_generation(b, a),
        same_generation(a, b) && same_generation(b, c) ==> same_generation(a, c),
{
}

/// Only the identity, the cache namespace and the target may differ within a generation.
pub proof fn law_generation_ignores_identity_and_target(
    request: RequestModel,
    request_id: u64,
    cache_epoch: u64,
    source_tick: i64,
)
    ensures
        same_generation(request, RequestModel { request_id, cache_epoch, source_tick, ..request }),
{
}

/// A software retry leads to no further retry, whatever backend fails next.
pub proof fn law_software_retry_is_the_last(
    request: RequestModel,
    first: DecodeBackend,
    second: DecodeBackend,
)
    ensures
        fallback_of(request, first) matches Some(retry) ==> fallback_of(retry, second) is None,
{
}

/// Requests of one decode generation agree in every field but their identity, their cache namespace
/// and their target, and requests that agree so are of one generation.
pub proof fn law_generation_fixes_what_is_decoded(a: RequestModel, b: RequestModel)
    ensures
        same_generation(a, b) <==> {
            &&& a.project_epoch == b.project_epoch
            &&& a.media_id == b.media_id
            &&& a.path == b.path
            &&& a.width == b.width
            &&& a.height == b.height
            &&& a.is_scrubbing == b.is_scrubbing
            &&& a.prewarm_scrub_workers == b.prewarm_scrub_workers
            &&& a.high_quality_scaling == b.high_quality_scaling
            &&& a.progressive_scrub_frames == b.progressive_scrub_frames
            &&& a.source_frame_duration_tick == b.source_frame_duration_tick
            &&& a.acceleration == b.acceleration
        },
{
    if a.project_epoch == b.project_epoch && a.media_id == b.media_id && a.path == b.path && a.width
        == b.width && a.height == b.height && a.is_scrubbing == b.is_scrubbing
        && a.prewarm_scrub_workers == b.prewarm_scrub_workers && a.high_quality_scaling
        == b.high_quality_scaling && a.progressive_scrub_frames == b.progressive_scrub_frames
        && a.source_frame_duration_tick == b.source_frame_duration_tick && a.acceleration
        == b.acceleration {
        assert(a.generation() =~= b.generation());
    }
    let left = a.generation();
    let right = b.generation();
    if left == right {
        assert(left.project_epoch == right.project_epoch);
        assert(left.path == right.path);
    }
}

/// The model of a request holds each of its fields.
pub proof fn law_request_model_is_faithful(request: DecodeRequest)
    ensures
        request@.project_epoch == request.project_epoch,
        request@.cache_epoch == request.cache_epoch,
        request@.request_id == request.request_id,
        request@.media_id == request.media_id,
        request@.path == request.path@,
        request@.source_tick == request.source_tick,
        request@.width == request.width,
        request@.height == request.height,
        request@.is_scrubbing == request.is_scrubbing,
        request@.prewarm_scrub_workers == request.prewarm_scrub_workers,
        request@.high_quality_scaling == request.high_quality_scaling,
        request@.progressive_scrub_frames == request.progressive_scrub_frames,
        request@.source_frame_duration_tick == request.source_frame_duration_tick,
        request@.acceleration == request.acceleration,
{
}

/// A software retry differs from its request in the acceleration alone, and comes exactly after a
/// hardware backend failed for a request that did not ask for software.
pub proof fn law_software_retry_changes_the_acceleration_only(
    request: RequestModel,
    failed_backend: DecodeBackend,
)
    ensures
        fallback_of(request, failed_backend) is Some <==> failed_backend != DecodeBackend::Software
            && request.acceleration != AccelerationPreference::Software,
        fallback_of(request, failed_backend) matches Some(retry) ==> {
            &&& retry.acceleration == AccelerationPreference::Software
            &&& retry.project_epoch == request.project_epoch
            &&& retry.cache_epoch == request.cache_epoch
            &&& retry.request_id == request.request_id
            &&& retry.media_id == request.media_id
            &&& retry.path == request.path
            &&& retry.source_tick == request.source_tick
            &&& retry.width == request.width
            &&& retry.height == request.height
            &&& retry.is_scrubbing == request.is_scrubbing
            &&& retry.prewarm_scrub_workers == request.prewarm_scrub_workers
            &&& retry.high_quality_scaling == request.high_quality_scaling
            &&& retry.progressive_scrub_frames == request.progressive_scrub_frames
            &&& retry.source_frame_duration_tick == request.source_frame_duration_tick
        },
{
}

/// Frames are told apart by the cache namespace, the medium, the output size and the source time;
/// time before the start of the source is its start.
pub proof fn law_frame_keys_tell_frames_apart(
    a: RequestModel,
    b: RequestModel,
    left: i64,
    right: i64,
)
    ensures
        0 <= left && 0 <= right ==> (a.frame_key(left as int) == b.frame_key(right as int) <==> {
            &&& a.cache_epoch == b.cache_epoch
            &&& a.media_id == b.media_id
            &&& a.width == b.width
            &&& a.height == b.height
            &&& left == right
        }),
        left < 0 ==> a.frame_key(left as int) == a.frame_key(0),
        a.frame_key(left as int).source_tick >= 0,
        a.frame_key(left as int).project_epoch == a.cache_epoch,
        a.frame_key(left as int).media_id == a.media_id,
        a.frame_key(left as int).width == a.width,
        a.frame_key(left as int).height == a.height,
        0 <= left ==> a.frame_key(left as int).source_tick == left,
        stream_of_key(a.frame_key(left as int)) == a.stream(),
        a.stream().project_epoch == a.cache_epoch,
        a.stream() == b.stream() <==> {
            &&& a.cache_epoch == b.cache_epoch
            &&& a.media_id == b.media_id
            &&& a.width == b.width
            &&& a.height == b.height
        },
{
}

/// Two frames are of one stream exactly where they differ in their source time at most.
pub proof fn law_streams_ignore_the_source_time(a: FrameKey, b: FrameKey)
    ensures
        stream_of_key(a) == stream_of_key(b) <==> {
            &&& a.project_epoch == b.project_epoch
            &&& a.media_id == b.media_id
            &&& a.width == b.width
            &&& a.height == b.height
        },
{
}

/// A waiting request takes over exactly where it is one that the same traversal can serve.
pub proof fn law_only_coalescible_requests_take_over(
    waiting: Option<CommandModel>,
    request: RequestModel,
    request_id: u64,
    cache_epoch: u64,
    source_tick: i64,
)
    ensures
        newer_of(waiting, request) matches Some(newer) ==> {
            &&& waiting == Some(CommandModel::Request(newer))
            &&& newer.project_epoch == request.project_epoch
            &&& newer.media_id == request.media_id
            &&& newer.path == request.path
            &&& newer.width == request.width
            &&& newer.height == request.height
            &&& newer.high_quality_scaling == request.high_quality_scaling
            &&& newer.acceleration == request.acceleration
        },
        ({
            let newer = RequestModel { request_id, cache_epoch, source_tick, ..request };
            newer_of(Some(CommandModel::Request(newer)), request) == Some(newer)
        }),
        !(waiting matches Some(CommandModel::Request(_))) ==> newer_of(waiting, request) is None,
{
    if let Some(CommandModel::Request(newer)) = waiting {
        law_generation_fixes_what_is_decoded(request, newer);
    }
}

/// An event answers the request whose identity it carries.
pub proof fn law_event_carries_its_request(event: DecodeEvent)
    ensures
        event matches DecodeEvent::Frame(frame) ==> spec_event_request_id(event)
            == frame.request_id,
        event matches DecodeEvent::Error(error) ==> spec_event_request_id(event)
            == error.request_id,
{
}

/// Two requests are coalesced exactly where they agree in every field but their identity, their cache
/// namespace and their target.
pub proof fn law_coalesced_requests_agree(left: &DecodeRequest, right: &DecodeRequest, same: bool)
    requires
        call_ensures(same_decode_generation, (left, right), same),
    ensures
        same <==> {
            &&& left.project_epoch == right.project_epoch
            &&& left.media_id == right.media_id
            &&& left.path@ == right.path@
            &&& left.width == right.width
            &&& left.height == right.height
            &&& left.is_scrubbing == right.is_scrubbing
            &&& left.prewarm_scrub_workers == right.prewarm_scrub_workers
            &&& left.high_quality_scaling == right.high_quality_scaling
            &&& left.progressive_scrub_frames == right.progressive_scrub_frames
            &&& left.source_frame_duration_tick == right.source_frame_duration_tick
            &&& left.acceleration == right.acceleration
        },
{
    law_generation_fixes_what_is_decoded(left@, right@);
}

/// The key of a frame is made of its request's cache namespace, medium and size and of the tick that
/// is asked for.
pub proof fn law_cache_keys_name_the_frame(request: &DecodeRequest, tick: i64, key: FrameKey)
    requires
        call_ensures(frame_cache_key, (request, tick), key),
    ensures
        key.project_epoch == request.cache_epoch,
        key.media_id == request.media_id,
        key.width == request.width,
        key.height == request.height,
        tick >= 0 ==> key.source_tick == tick,
        tick < 0 ==> key.source_tick == 0,
{
}

/// A retry in software asks for the same frame of the same source, under the same identity.
pub proof fn law_fallback_asks_for_the_same_frame(
    request: &DecodeRequest,
    failed_backend: DecodeBackend,
    fallback: Option<DecodeRequest>,
)
    requires
        call_ensures(software_fallback_request, (request, failed_backend), fallback),
    ensures
        fallback is Some <==> failed_backend != DecodeBackend::Software && request.acceleration
            != AccelerationPreference::Software,
        fallback matches Some(retry) ==> {
            &&& retry.acceleration == AccelerationPreference::Software
            &&& retry.project_epoch == request.project_epoch
            &&& retry.cache_epoch == request.cache_epoch
            &&& retry.request_id == request.request_id
            &&& retry.media_id == request.media_id
            &&& retry.path@ == request.path@
            &&& retry.source_tick == request.source_tick
            &&& retry.width == request.width
            &&& retry.height == request.height
            &&& retry.is_scrubbing == request.is_scrubbing
            &&& retry.high_quality_scaling == request.high_quality_scaling
        },
{
    law_software_retry_changes_the_acceleration_only(request@, failed_backend);
    if let Some(retry) = fallback {
        law_request_model_is_faithful(retry);
    }
}

/// What is shown of a backend names it, and what is said of a refusal says why.
pub proof fn law_backends_and_refusals_are_named(
    backend: DecodeBackend,
    name: &'static str,
    refusal: &DecoderClosed,
    text: &'static str,
)
    requires
        call_ensures(DecodeBackend::display_name, (backend,), name),
        call_ensures(DecoderClosed::message, (refusal,), text),
    ensures
        backend == DecodeBackend::Software ==> name@ == "Software"@,
        backend == DecodeBackend::IntelQuickSync ==> name@ == "Intel Quick Sync"@,
        backend == DecodeBackend::Nvidia ==> name@ == "NVIDIA CUVID"@,
        backend == DecodeBackend::VideoToolbox ==> name@ == "Apple VideoToolbox"@,
        backend == DecodeBackend::D3D11VA ==> name@ == "Windows D3D11VA"@,
        backend == DecodeBackend::DXVA2 ==> name@ == "Windows DXVA2"@,
        *refusal == DecoderClosed::Closed ==> text@ == "monitor decoder scheduler has stopped"@,
        *refusal == DecoderClosed::SourceCapacityDeferred ==> text@
            == "monitor source capacity is temporarily deferred"@,
{
}

} // verus!
