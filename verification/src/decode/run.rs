//! How a monitor lane serves one request: from the cache, from the session that is open, or
//! from one that it opens, with software taking over where hardware fails.
use crate::decode::monitor_cache::{DecodedRgba, MonitorCacheModel, MonitorFrameCache};
use crate::decode::request::{
    fallback_of, frame_cache_key, software_fallback_request, AccelerationPreference,
    DecodeBackend, DecodeError, DecodeEvent, DecodeRequest, DecodedFrame, RequestModel,
};
use crate::frame_cache::{lookup, touched, FrameKey, FrameValue};
use crate::source_path::SourcePath;
use std::collections::HashMap;
use vstd::prelude::*;

verus! {

broadcast use vstd::std_specs::hash::group_hash_axioms;

/// A sticky decoder session: what it reads, what decodes it, and its native contexts.
#[derive(Debug)]
pub struct MonitorSession<T> {
    pub path: SourcePath,
    pub backend: DecodeBackend,
    pub contexts: T,
}

/// The open sessions of a lane by medium.
pub type Sessions<T> = HashMap<u32, MonitorSession<T>>;

/// `sessions` without every one but the active medium's.
pub open spec fn only_active<T>(sessions: Map<u32, T>, active_media_id: u32) -> Map<u32, T> {
    sessions.restrict(Set::empty().insert(active_media_id))
}

/// The backend of the session that is open for a medium.
pub open spec fn backend_of<T>(sessions: Map<u32, MonitorSession<T>>, media_id: u32) -> Option<
    DecodeBackend,
> {
    if sessions.contains_key(media_id) {
        Some(sessions[media_id].backend)
    } else {
        None
    }
}

/// Whether the session that is open for the request's medium reads the request's file.
pub open spec fn session_serves<T>(
    sessions: Map<u32, MonitorSession<T>>,
    request: RequestModel,
) -> bool {
    sessions.contains_key(request.media_id) && sessions[request.media_id].path@ == request.path
}

/// Releases every session but that of the active medium. An application monitor slot owns
/// exactly one active source, so this bounds what a lane retains to one session even when
/// timeline layering switches media repeatedly.
pub fn retain_active_monitor_session<T>(sessions: &mut HashMap<u32, T>, active_media_id: u32)
    ensures
        final(sessions)@ == only_active(old(sessions)@, active_media_id),
{
    let active = sessions.remove(&active_media_id);
    sessions.clear();
    if let Some(session) = active {
        sessions.insert(active_media_id, session);
    }
    assert(sessions@ =~= only_active(old(sessions)@, active_media_id));
}

pub fn session_backend<T>(sessions: &Sessions<T>, media_id: u32) -> (backend: Option<DecodeBackend>)
    ensures
        backend == backend_of(sessions@, media_id),
{
    match sessions.get(&media_id) {
        Some(session) => Some(session.backend),
        None => None,
    }
}

/// The frame that answers `request` from the cache.
pub open spec fn cached_frame(
    request: RequestModel,
    value: FrameValue,
    backend: Option<DecodeBackend>,
) -> DecodedFrame {
    DecodedFrame {
        project_epoch: request.project_epoch,
        request_id: request.request_id,
        media_id: request.media_id,
        source_tick: value.source_tick,
        width: value.width,
        height: value.height,
        backend,
        rgba: value.rgba,
    }
}

/// The event for a frame that a traversal for `request` has packed.
pub open spec fn decoded_frame(
    request: RequestModel,
    frame: DecodedRgba,
    backend: Option<DecodeBackend>,
) -> DecodedFrame {
    DecodedFrame {
        project_epoch: request.project_epoch,
        request_id: frame.request_id,
        media_id: request.media_id,
        source_tick: frame.source_tick,
        width: frame.width,
        height: frame.height,
        backend,
        rgba: frame.rgba,
    }
}

/// What the cache keeps of a packed frame.
pub open spec fn frame_value(frame: DecodedRgba) -> FrameValue {
    FrameValue {
        source_tick: frame.source_tick,
        width: frame.width,
        height: frame.height,
        rgba: frame.rgba,
    }
}

/// Whether `event` reports that `request` failed with `message`.
pub open spec fn reports_error(
    event: Option<DecodeEvent>,
    request: RequestModel,
    message: Seq<char>,
) -> bool {
    event matches Some(DecodeEvent::Error(error)) && {
        &&& error.project_epoch == request.project_epoch
        &&& error.request_id == request.request_id
        &&& error.media_id == request.media_id
        &&& error.source_tick == request.source_tick
        &&& error.message@ == message
    }
}

pub fn error_event(request: &DecodeRequest, message: String) -> (event: DecodeEvent)
    ensures
        reports_error(Some(event), request@, message@),
{
    DecodeEvent::Error(
        DecodeError {
            project_epoch: request.project_epoch,
            request_id: request.request_id,
            media_id: request.media_id,
            source_tick: request.source_tick,
            message,
        },
    )
}

/// The event for a frame on the way to the target of `request`.
pub fn progress_event(
    request: &DecodeRequest,
    backend: Option<DecodeBackend>,
    frame: &DecodedRgba,
) -> (event: DecodeEvent)
    ensures
        event == DecodeEvent::Frame(decoded_frame(request@, *frame, backend)),
{
    DecodeEvent::Frame(
        DecodedFrame {
            project_epoch: request.project_epoch,
            request_id: frame.request_id,
            media_id: request.media_id,
            source_tick: frame.source_tick,
            width: frame.width,
            height: frame.height,
            backend,
            rgba: frame.rgba.clone(),
        },
    )
}

/// What a lane does next for a request.
#[derive(Debug)]
pub enum RunStep {
    /// Open a session for this request, which may differ from the one served in its
    /// acceleration only, and report with [`DecodeRun::opened`].
    Open(DecodeRequest),
    /// Decode the request in the open session, and report with [`DecodeRun::decoded`].
    Decode,
    /// The request is served. Where `deferred` is set, capacity was short and it is retried.
    Done { event: Option<DecodeEvent>, deferred: bool },
}

/// How the opening of a session went.
#[derive(Debug)]
pub enum OpenOutcome<T> {
    Opened(MonitorSession<T>),
    /// Capacity was short. That never turns into a visible error: the next latest-wins request
    /// can retry after another session is evicted or reset.
    Deferred,
    Failed(String),
}

/// A request in service.
#[derive(Debug)]
pub struct DecodeRun {
    /// Why hardware was given up, once software has taken over.
    hardware_error: Option<String>,
}

/// The model of an optional text.
pub open spec fn text_model(text: Option<String>) -> Option<Seq<char>> {
    match text {
        Some(text) => Some(text@),
        None => None,
    }
}

/// The message for a failure of both decoders.
pub open spec fn both_failed(hardware_error: Seq<char>, software_error: Seq<char>) -> Seq<char> {
    "hardware decoder failed ("@ + hardware_error + "); software fallback failed ("@
        + software_error + ")"@
}

/// The message for a failed decode whose software session did not even open.
pub open spec fn fallback_did_not_open(
    hardware_error: Seq<char>,
    software_error: Seq<char>,
) -> Seq<char> {
    "hardware decoder failed ("@ + hardware_error + "); software fallback could not open ("@
        + software_error + ")"@
}

/// The sessions of a lane once it has turned to `request`.
pub open spec fn sessions_for<T>(
    sessions: Map<u32, MonitorSession<T>>,
    cache: MonitorCacheModel,
    request: RequestModel,
    coordinator_owned_sessions: bool,
) -> Map<u32, MonitorSession<T>> {
    if cache.must_reset(request) && !coordinator_owned_sessions {
        Map::empty()
    } else {
        only_active(sessions, request.media_id)
    }
}

/// What the cache has for `request`: the exact frame, else the nearest traversed one.
pub open spec fn cache_hit(cache: MonitorCacheModel, request: RequestModel) -> Option<FrameValue> {
    let exact = lookup(cache.frames, request.frame_key(request.source_tick as int));
    if exact is Some {
        exact
    } else {
        cache.scrub_hit(request)
    }
}

/// The cache after it was asked for `request`.
pub open spec fn after_cache_lookup(
    cache: MonitorCacheModel,
    request: RequestModel,
) -> MonitorCacheModel {
    let key = request.frame_key(request.source_tick as int);
    if lookup(cache.frames, key) is Some {
        MonitorCacheModel { frames: touched(cache.frames, key), ..cache }
    } else {
        cache.after_scrub_lookup(request)
    }
}

impl DecodeRun {
    /// Why hardware was given up.
    pub closed spec fn gave_up_hardware(&self) -> Option<Seq<char>> {
        text_model(self.hardware_error)
    }

    /// Starts to serve `request`: retires what it must not be mixed with, and looks it up.
    pub fn start<T>(
        sessions: &mut Sessions<T>,
        frame_cache: &mut MonitorFrameCache,
        request: &DecodeRequest,
        coordinator_owned_sessions: bool,
    ) -> (started: (DecodeRun, RunStep))
        requires
            old(frame_cache).wf(),
        ensures
            final(frame_cache).wf(),
            started.0.gave_up_hardware() is None,
            ({
                let ready = old(frame_cache)@.prepared(request@);
                let open = sessions_for(
                    old(sessions)@,
                    old(frame_cache)@,
                    request@,
                    coordinator_owned_sessions,
                );
                &&& final(frame_cache)@ == after_cache_lookup(ready, request@)
                &&& match cache_hit(ready, request@) {
                    Some(value) => {
                        &&& final(sessions)@ == open
                        &&& started.1 == RunStep::Done {
                            event: Some(
                                DecodeEvent::Frame(
                                    cached_frame(
                                        request@,
                                        value,
                                        backend_of(open, request@.media_id),
                                    ),
                                ),
                            ),
                            deferred: false,
                        }
                    },
                    None => if session_serves(open, request@) {
                        final(sessions)@ == open && started.1 == RunStep::Decode
                    } else {
                        &&& final(sessions)@ == open.remove(request@.media_id)
                        &&& started.1 matches RunStep::Open(to_open) && to_open@ == request@
                    },
                }
            }),
    {
        let run = DecodeRun { hardware_error: None };
        let reset: bool = frame_cache.prepare_request(request);
        let ghost ready = frame_cache@;
        if reset && !coordinator_owned_sessions {
            sessions.clear();
        }
        retain_active_monitor_session(sessions, request.media_id);
        let ghost open = sessions@;
        assert(open =~= sessions_for(
            old(sessions)@,
            old(frame_cache)@,
            request@,
            coordinator_owned_sessions,
        ));
        let cache_key = frame_cache_key(request, request.source_tick);
        let exact = frame_cache.get(&cache_key);
        let cached = match exact {
            Some(value) => Some(value),
            None => {
                assert(frame_cache@ =~= ready);
                frame_cache.get_scrub_at_or_after(request)
            },
        };
        if let Some(value) = cached {
            let backend = session_backend(sessions, request.media_id);
            let event = DecodeEvent::Frame(
                DecodedFrame {
                    project_epoch: request.project_epoch,
                    request_id: request.request_id,
                    media_id: request.media_id,
                    source_tick: value.source_tick,
                    width: value.width,
                    height: value.height,
                    backend,
                    rgba: value.rgba,
                },
            );
            return (run, RunStep::Done { event: Some(event), deferred: false });
        }
        let serves = match sessions.get(&request.media_id) {
            Some(session) => session.path == request.path,
            None => false,
        };
        if serves {
            return (run, RunStep::Decode);
        }
        sessions.remove(&request.media_id);
        (run, RunStep::Open(request.clone()))
    }

    /// Goes on once a session was opened, or was not.
    pub fn opened<T>(
        &self,
        sessions: &mut Sessions<T>,
        request: &DecodeRequest,
        outcome: OpenOutcome<T>,
    ) -> (step: RunStep)
        ensures
            match outcome {
                OpenOutcome::Opened(session) => {
                    &&& step == RunStep::Decode
                    &&& final(sessions)@ == old(sessions)@.insert(request@.media_id, session)
                },
                OpenOutcome::Deferred => {
                    &&& step == (RunStep::Done { event: None, deferred: true })
                    &&& final(sessions)@ == old(sessions)@
                },
                OpenOutcome::Failed(message) => {
                    &&& final(sessions)@ == old(sessions)@
                    &&& step matches RunStep::Done { event, deferred: false } && reports_error(
                        event,
                        request@,
                        match self.gave_up_hardware() {
                            Some(hardware) => fallback_did_not_open(hardware, message@),
                            None => message@,
                        },
                    )
                },
            },
    {
        match outcome {
            OpenOutcome::Opened(session) => {
                sessions.insert(request.media_id, session);
                RunStep::Decode
            },
            OpenOutcome::Deferred => RunStep::Done { event: None, deferred: true },
            OpenOutcome::Failed(message) => {
                let text = match &self.hardware_error {
                    Some(hardware) => {
                        let mut text = String::from_str("hardware decoder failed (");
                        text.append(hardware.as_str());
                        text.append("); software fallback could not open (");
                        text.append(message.as_str());
                        text.append(")");
                        text
                    },
                    None => message,
                };
                RunStep::Done { event: Some(error_event(request, text)), deferred: false }
            },
        }
    }

    /// Goes on once the open session has decoded the request, was told to stop, or failed.
    ///
    /// The first failure of a hardware session is answered by a software session. Only the open
    /// policy changes with it: cancellation and coalescing still go by the request.
    pub fn decoded<T>(
        &mut self,
        sessions: &mut Sessions<T>,
        frame_cache: &mut MonitorFrameCache,
        request: &DecodeRequest,
        outcome: Result<Option<DecodedRgba>, String>,
    ) -> (step: RunStep)
        requires
            old(frame_cache).wf(),
        ensures
            final(frame_cache).wf(),
            match outcome {
                Ok(Some(frame)) => {
                    &&& step == (RunStep::Done {
                        event: Some(
                            DecodeEvent::Frame(
                                decoded_frame(
                                    request@,
                                    frame,
                                    backend_of(old(sessions)@, request@.media_id),
                                ),
                            ),
                        ),
                        deferred: false,
                    })
                    &&& final(frame_cache)@ == (if old(frame_cache)@.accepts(request@) {
                        old(frame_cache)@.inserted(
                            request@.frame_key(frame.target_tick as int),
                            frame_value(frame),
                        )
                    } else {
                        old(frame_cache)@
                    })
                    &&& final(sessions)@ == old(sessions)@
                    &&& *final(self) == *old(self)
                },
                Ok(None) => {
                    &&& step == (RunStep::Done { event: None, deferred: false })
                    &&& final(frame_cache)@ == old(frame_cache)@
                    &&& final(sessions)@ == old(sessions)@
                    &&& *final(self) == *old(self)
                },
                Err(message) => {
                    &&& final(frame_cache)@ == old(frame_cache)@
                    &&& match recovery(
                        old(self).gave_up_hardware(),
                        backend_of(old(sessions)@, request@.media_id),
                        request@,
                    ) {
                        Some(retry) => {
                            &&& step matches RunStep::Open(to_open) && to_open@ == retry
                            &&& final(sessions)@ == old(sessions)@.remove(request@.media_id)
                            &&& final(self).gave_up_hardware() == Some(message@)
                        },
                        None => {
                            &&& step matches RunStep::Done { event, deferred: false }
                                && reports_error(
                                event,
                                request@,
                                match old(self).gave_up_hardware() {
                                    Some(hardware) => both_failed(hardware, message@),
                                    None => message@,
                                },
                            )
                            &&& final(sessions)@ == old(sessions)@
                            &&& *final(self) == *old(self)
                        },
                    }
                },
            },
    {
        match outcome {
            Ok(Some(frame)) => {
                let backend = session_backend(sessions, request.media_id);
                let event = progress_event(request, backend, &frame);
                let _ = frame_cache.insert_if_current(
                    request,
                    frame_cache_key(request, frame.target_tick),
                    FrameValue::new(
                        frame.source_tick,
                        frame.width,
                        frame.height,
                        frame.rgba.clone(),
                    ),
                );
                RunStep::Done { event: Some(event), deferred: false }
            },
            Ok(None) => RunStep::Done { event: None, deferred: false },
            Err(message) => {
                let text = match &self.hardware_error {
                    Some(hardware) => {
                        let mut text = String::from_str("hardware decoder failed (");
                        text.append(hardware.as_str());
                        text.append("); software fallback failed (");
                        text.append(message.as_str());
                        text.append(")");
                        text
                    },
                    None => {
                        let fallback = match session_backend(sessions, request.media_id) {
                            Some(backend) => software_fallback_request(request, backend),
                            None => None,
                        };
                        match fallback {
                            Some(retry) => {
                                sessions.remove(&request.media_id);
                                self.hardware_error = Some(message);
                                return RunStep::Open(retry);
                            },
                            None => message,
                        }
                    },
                };
                RunStep::Done { event: Some(error_event(request, text)), deferred: false }
            },
        }
    }
}

/// The request to reopen in software after a failed decode; there is none once software has
/// taken over, or where no session is left to blame.
pub open spec fn recovery(
    gave_up_hardware: Option<Seq<char>>,
    backend: Option<DecodeBackend>,
    request: RequestModel,
) -> Option<RequestModel> {
    match (gave_up_hardware, backend) {
        (None, Some(backend)) => fallback_of(request, backend),
        _ => None,
    }
}

/// A lane that turned to a request holds no session but that of the request's medium.
pub proof fn law_lane_retains_one_session<T>(
    sessions: Map<u32, MonitorSession<T>>,
    cache: MonitorCacheModel,
    request: RequestModel,
    coordinator_owned_sessions: bool,
)
    ensures
        sessions_for(sessions, cache, request, coordinator_owned_sessions).dom().subset_of(
            Set::empty().insert(request.media_id),
        ),
        sessions_for(sessions, cache, request, coordinator_owned_sessions).submap_of(sessions),
{
}

/// Hardware is given up at most once in the service of a request.
pub proof fn law_hardware_is_given_up_once(
    hardware_error: Seq<char>,
    backend: Option<DecodeBackend>,
    request: RequestModel,
)
    ensures
        recovery(Some(hardware_error), backend, request) is None,
        recovery(None, Some(DecodeBackend::Software), request) is None,
{
}

/// A frame that was decoded for a request answers the same request from the cache afterwards,
/// as long as it fits into the budget and nothing else was asked in between.
pub proof fn law_decoded_frame_is_served_from_the_cache(
    cache: MonitorCacheModel,
    request: RequestModel,
    frame: DecodedRgba,
)
    requires
        cache.valid(),
        cache.accepts(request),
        frame.rgba@.len() <= cache.capacity,
        frame.target_tick == crate::decode::traversal::target_of(request),
    ensures
        cache_hit(
            cache.inserted(request.frame_key(frame.target_tick as int), frame_value(frame)),
            request,
        ) == Some(frame_value(frame)),
{
    let key = request.frame_key(frame.target_tick as int);
    assert(key == request.frame_key(request.source_tick as int));
    crate::decode::monitor_cache::law_latest_target_replaces_the_one_before(
        cache,
        key,
        frame_value(frame),
    );
}

/// A frame from the cache answers the request that asked, with the cached pixels and their own time.
pub proof fn law_cached_frame_answers_its_request(
    request: RequestModel,
    value: FrameValue,
    backend: Option<DecodeBackend>,
)
    ensures
        ({
            let frame = cached_frame(request, value, backend);
            &&& frame.project_epoch == request.project_epoch
            &&& frame.request_id == request.request_id
            &&& frame.media_id == request.media_id
            &&& frame.source_tick == value.source_tick
            &&& frame.width == value.width
            &&& frame.height == value.height
            &&& frame.backend == backend
            &&& frame.rgba == value.rgba
        }),
{
}

/// A decoded frame answers the request that its traversal last took over, which is of the project
/// and the medium that the traversal decodes for; its pixels and their time are those decoded, and
/// the cache keeps the same.
pub proof fn law_decoded_frame_answers_the_latest_request(
    request: RequestModel,
    newer: RequestModel,
    frame: DecodedRgba,
    backend: Option<DecodeBackend>,
)
    requires
        crate::decode::request::same_generation(request, newer),
        frame.request_id == newer.request_id,
    ensures
        ({
            let event = decoded_frame(request, frame, backend);
            &&& event.project_epoch == newer.project_epoch
            &&& event.request_id == newer.request_id
            &&& event.media_id == newer.media_id
            &&& event.source_tick == frame.source_tick
            &&& event.width == frame.width
            &&& event.height == frame.height
            &&& event.backend == backend
            &&& event.rgba == frame.rgba
        }),
        frame_value(frame).source_tick == frame.source_tick,
        frame_value(frame).width == frame.width,
        frame_value(frame).height == frame.height,
        frame_value(frame).rgba == frame.rgba,
{
    crate::decode::request::law_generation_fixes_what_is_decoded(request, newer);
}

/// An error names the request that failed, and nothing but an error does.
pub proof fn law_errors_name_their_request(
    event: DecodeEvent,
    request: RequestModel,
    message: Seq<char>,
)
    ensures
        reports_error(Some(event), request, message) <==> (event matches DecodeEvent::Error(error)
            && error.project_epoch == request.project_epoch && error.request_id
            == request.request_id && error.media_id == request.media_id && error.source_tick
            == request.source_tick && error.message@ == message),
        !reports_error(None, request, message),
{
}

/// A lane keeps the session of the medium it turns to, and every other one goes; where the cache
/// starts afresh and the lane owns its sessions, that one goes too. A session serves a request
/// exactly where it has the request's file open under the request's medium.
pub proof fn law_sessions_follow_the_request<T>(
    sessions: Map<u32, MonitorSession<T>>,
    cache: MonitorCacheModel,
    request: RequestModel,
    coordinator_owned_sessions: bool,
    media_id: u32,
)
    ensures
        ({
            let open = sessions_for(sessions, cache, request, coordinator_owned_sessions);
            &&& media_id != request.media_id ==> !open.contains_key(media_id)
            &&& (coordinator_owned_sessions || !cache.must_reset(request)) ==> (open.contains_key(
                request.media_id,
            ) <==> sessions.contains_key(request.media_id))
            &&& open.contains_key(request.media_id) ==> open[request.media_id]
                == sessions[request.media_id]
            &&& (!coordinator_owned_sessions && cache.must_reset(request)) ==> !open.contains_key(
                request.media_id,
            )
        }),
        session_serves(sessions, request) <==> sessions.contains_key(request.media_id)
            && sessions[request.media_id].path@ == request.path,
        sessions.contains_key(media_id) ==> backend_of(sessions, media_id) == Some(
            sessions[media_id].backend,
        ),
        !sessions.contains_key(media_id) ==> backend_of(sessions, media_id) is None,
        only_active(sessions, media_id).dom().subset_of(Set::empty().insert(media_id)),
        only_active(sessions, media_id).contains_key(media_id) <==> sessions.contains_key(media_id),
        sessions.contains_key(media_id) ==> only_active(sessions, media_id)[media_id]
            == sessions[media_id],
{
}

/// The exact frame wins over a traversed one, and a lookup that finds neither finds nothing.
pub proof fn law_exact_frames_win(cache: MonitorCacheModel, request: RequestModel, at: int)
    requires
        cache.valid(),
    ensures
        ({
            let exact = FrameKey {
                project_epoch: request.cache_epoch,
                media_id: request.media_id,
                source_tick: if request.source_tick < 0 {
                    0
                } else {
                    request.source_tick
                },
                width: request.width,
                height: request.height,
            };
            &&& 0 <= at < cache.frames.len() && cache.frames[at].0 == exact ==> {
                &&& cache_hit(cache, request) == Some(cache.frames[at].1)
                &&& after_cache_lookup(cache, request).frames.last() == cache.frames[at]
                &&& after_cache_lookup(cache, request).frames.drop_last() == cache.frames.remove(at)
                &&& after_cache_lookup(cache, request).scrub == cache.scrub
            }
            &&& (forall|i: int| 0 <= i < cache.frames.len() ==> (#[trigger] cache.frames[i]).0
                != exact) ==> cache_hit(cache, request) == cache.scrub_hit(request)
                && after_cache_lookup(cache, request) == cache.after_scrub_lookup(request)
        }),
{
    let key = request.frame_key(request.source_tick as int);
    crate::frame_cache::law_lookup_moves_one_frame(cache.frames, key, at);
}

/// A failed hardware session is answered by one software session for the same request, and by
/// nothing else.
pub proof fn law_recovery_is_software(
    gave_up_hardware: Option<Seq<char>>,
    backend: Option<DecodeBackend>,
    request: RequestModel,
)
    ensures
        recovery(gave_up_hardware, backend, request) is Some <==> {
            &&& gave_up_hardware is None
            &&& backend matches Some(failed) && failed != DecodeBackend::Software
            &&& request.acceleration != AccelerationPreference::Software
        },
        recovery(gave_up_hardware, backend, request) matches Some(retry) ==> retry.acceleration
            == AccelerationPreference::Software && retry.request_id == request.request_id
            && retry.project_epoch == request.project_epoch && retry.media_id == request.media_id
            && retry.path == request.path && retry.source_tick == request.source_tick,
{
}

/// A request that the cache can answer is answered from it; else the session that has its file open
/// decodes it, or one is opened for the request as it is. No other session is left in the lane.
pub proof fn law_requests_are_served_from_cache_or_session<T>(
    sessions: &mut Sessions<T>,
    frame_cache: &mut MonitorFrameCache,
    request: &DecodeRequest,
    coordinator_owned_sessions: bool,
    started: (DecodeRun, RunStep),
    other: u32,
)
    requires
        call_ensures(
            DecodeRun::start::<T>,
            (sessions, frame_cache, request, coordinator_owned_sessions),
            started,
        ),
        other != request.media_id,
    ensures
        ({
            let ready = old(frame_cache)@.prepared(request@);
            let hit = cache_hit(ready, request@);
            &&& !final(sessions)@.contains_key(other)
            &&& started.0.gave_up_hardware() is None
            &&& hit matches Some(value) ==> (started.1 matches RunStep::Done {
                event: Some(DecodeEvent::Frame(frame)),
                deferred: false,
            } && frame.project_epoch == request.project_epoch && frame.request_id
                == request.request_id && frame.media_id == request.media_id && frame.source_tick
                == value.source_tick && frame.rgba == value.rgba && frame.width == value.width
                && frame.height == value.height)
            &&& hit is None ==> (started.1 is Decode || started.1 is Open)
            &&& started.1 is Decode ==> old(sessions)@.contains_key(request.media_id) && old(sessions)@[request.media_id].path@ == request.path@ && final(sessions)@.contains_key(
                request.media_id,
            ) && final(sessions)@[request.media_id] == old(sessions)@[request.media_id]
            &&& started.1 matches RunStep::Open(to_open) ==> to_open@ == request@ && !final(sessions)@.contains_key(request.media_id)
            &&& hit is None && !old(frame_cache)@.must_reset(request@) && old(sessions)@.contains_key(request.media_id) && old(sessions)@[request.media_id].path@
                == request.path@ ==> started.1 is Decode
        }),
{
}

/// An opened session decodes; without capacity the request waits without an error; a failure is reported
/// under the request, with the hardware's failure in front where that came first.
pub proof fn law_opening_decodes_waits_or_fails<T>(
    run: &DecodeRun,
    sessions: &mut Sessions<T>,
    request: &DecodeRequest,
    outcome: OpenOutcome<T>,
    step: RunStep,
)
    requires
        call_ensures(DecodeRun::opened::<T>, (run, sessions, request, outcome), step),
    ensures
        outcome matches OpenOutcome::Opened(session) ==> step is Decode && final(sessions)@.contains_key(request.media_id) && final(sessions)@[request.media_id] == session,
        outcome is Deferred ==> (step matches RunStep::Done { event: None, deferred: true })
            && final(sessions)@ == old(sessions)@,
        outcome matches OpenOutcome::Failed(message) ==> final(sessions)@ == old(sessions)@ && (
        step matches RunStep::Done { event: Some(DecodeEvent::Error(error)), deferred: false }
            && error.request_id == request.request_id && error.project_epoch
            == request.project_epoch && error.media_id == request.media_id && error.source_tick
            == request.source_tick && (run.gave_up_hardware() is None ==> error.message@
            == message@) && (run.gave_up_hardware() matches Some(hardware) ==> error.message@
            == "hardware decoder failed ("@ + hardware
            + "); software fallback could not open ("@ + message@ + ")"@)),
{
}

/// A decoded frame answers with its own identity, time and pixels under the project and the medium of the
/// request, and goes to the cache under its target while the cache is the request's; an abandoned
/// decode answers nothing. The first failure of a hardware session opens one in software for the same
/// frame; any other failure is reported.
pub proof fn law_decoding_answers_retries_or_fails<T>(
    run: &mut DecodeRun,
    sessions: &mut Sessions<T>,
    frame_cache: &mut MonitorFrameCache,
    request: &DecodeRequest,
    outcome: Result<Option<DecodedRgba>, String>,
    step: RunStep,
)
    requires
        call_ensures(DecodeRun::decoded::<T>, (run, sessions, frame_cache, request, outcome), step),
    ensures
        outcome matches Ok(Some(frame)) ==> {
            &&& step matches RunStep::Done { event: Some(DecodeEvent::Frame(event)), deferred: false }
                && event.project_epoch == request.project_epoch && event.request_id
                == frame.request_id && event.media_id == request.media_id && event.source_tick
                == frame.source_tick && event.width == frame.width && event.height == frame.height
                && event.rgba == frame.rgba
            &&& final(sessions)@ == old(sessions)@
            &&& !old(frame_cache)@.accepts(request@) ==> final(frame_cache)@ == old(frame_cache)@
            &&& old(frame_cache)@.accepts(request@) ==> final(frame_cache)@ == old(frame_cache)@.inserted(
                FrameKey {
                    project_epoch: request.cache_epoch,
                    media_id: request.media_id,
                    source_tick: if frame.target_tick < 0 {
                        0
                    } else {
                        frame.target_tick
                    },
                    width: request.width,
                    height: request.height,
                },
                FrameValue {
                    source_tick: frame.source_tick,
                    width: frame.width,
                    height: frame.height,
                    rgba: frame.rgba,
                },
            )
        },
        outcome matches Ok(None) ==> (step matches RunStep::Done { event: None, deferred: false })
            && final(sessions)@ == old(sessions)@ && final(frame_cache)@ == old(frame_cache)@,
        outcome matches Err(message) ==> {
            let hardware = old(sessions)@.contains_key(request.media_id) && old(sessions)@[request.media_id].backend != DecodeBackend::Software;
            let retries = old(run).gave_up_hardware() is None && hardware && request.acceleration
                != AccelerationPreference::Software;
            &&& final(frame_cache)@ == old(frame_cache)@
            &&& retries ==> (step matches RunStep::Open(retry) && retry.acceleration
                == AccelerationPreference::Software && retry.request_id == request.request_id
                && retry.source_tick == request.source_tick && retry.media_id == request.media_id
                && retry.path@ == request.path@ && retry.project_epoch == request.project_epoch)
                && final(run).gave_up_hardware() == Some(message@) && !final(sessions)@.contains_key(request.media_id)
            &&& !retries ==> (step matches RunStep::Done {
                event: Some(DecodeEvent::Error(error)),
                deferred: false,
            } && error.request_id == request.request_id && error.project_epoch
                == request.project_epoch && error.media_id == request.media_id
                && error.source_tick == request.source_tick && (old(run).gave_up_hardware() is None
                ==> error.message@ == message@) && (old(run).gave_up_hardware() matches Some(
                first,
            ) ==> error.message@ == "hardware decoder failed ("@ + first
                + "); software fallback failed ("@ + message@ + ")"@))
        },
{
    if let RunStep::Open(retry) = step {
        crate::decode::request::law_request_model_is_faithful(retry);
    }
}

} // verus!
