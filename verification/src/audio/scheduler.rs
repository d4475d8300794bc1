//! Jobs of the audio decode worker, and the worker's fair rounds over their lanes.
use crate::audio::session::AudioSession;
use crate::audio::target::{target_models, AudioTarget, LaneKey, TargetModel};
use crate::table::Table;
use vstd::prelude::*;

verus! {

/// What the worker decodes until it is overtaken.
#[derive(Debug)]
pub struct DecodeJob {
    pub generation: u64,
    pub targets: Vec<AudioTarget>,
    /// Existing lanes whose sticky decoders and queued PCM remain valid.
    pub resume_lanes: Vec<LaneKey>,
}

/// The mathematical value of a [`DecodeJob`].
pub struct JobModel {
    pub generation: u64,
    pub targets: Seq<TargetModel>,
    pub resume_lanes: Seq<LaneKey>,
}

impl View for DecodeJob {
    type V = JobModel;

    open spec fn view(&self) -> JobModel {
        JobModel {
            generation: self.generation,
            targets: target_models(self.targets@),
            resume_lanes: self.resume_lanes@,
        }
    }
}

/// The job that waits for the worker.
#[derive(Debug)]
pub struct SchedulerState {
    pending: Option<DecodeJob>,
    shutdown: bool,
}

impl SchedulerState {
    /// The job that waits.
    pub closed spec fn pending(&self) -> Option<JobModel> {
        match self.pending {
            Some(job) => Some(job@),
            None => None,
        }
    }

    /// Whether the worker is to end.
    pub closed spec fn shutting_down(&self) -> bool {
        self.shutdown
    }

    pub fn new() -> (state: Self)
        ensures
            state.pending() is None,
            !state.shutting_down(),
    {
        SchedulerState { pending: None, shutdown: false }
    }

    /// Replaces whatever waits by a job that starts every lane afresh.
    pub fn submit(&mut self, generation: u64, targets: Vec<AudioTarget>)
        ensures
            final(self).pending() == Some(
                JobModel {
                    generation,
                    targets: target_models(targets@),
                    resume_lanes: Seq::empty(),
                },
            ),
            final(self).shutting_down() == old(self).shutting_down(),
    {
        let resume_lanes: Vec<LaneKey> = Vec::new();
        assert(resume_lanes@ =~= Seq::empty());
        self.submit_reconcile(generation, targets, resume_lanes);
    }

    /// Replaces whatever waits by a job that resumes some of its lanes.
    pub fn submit_reconcile(
        &mut self,
        generation: u64,
        targets: Vec<AudioTarget>,
        resume_lanes: Vec<LaneKey>,
    )
        ensures
            final(self).pending() == Some(
                JobModel {
                    generation,
                    targets: target_models(targets@),
                    resume_lanes: resume_lanes@,
                },
            ),
            final(self).shutting_down() == old(self).shutting_down(),
    {
        self.pending = Some(DecodeJob { generation, targets, resume_lanes });
    }

    /// Drops whatever waits.
    pub fn clear(&mut self)
        ensures
            final(self).pending() is None,
            final(self).shutting_down() == old(self).shutting_down(),
    {
        self.pending = None;
    }

    /// Tells the worker to end.
    pub fn shut_down(&mut self)
        ensures
            final(self).shutting_down(),
            final(self).pending() == old(self).pending(),
    {
        self.shutdown = true;
    }

    pub fn is_shutting_down(&self) -> (ending: bool)
        ensures
            ending == self.shutting_down(),
    {
        self.shutdown
    }

    pub fn has_pending(&self) -> (waiting: bool)
        ensures
            waiting == (self.pending() is Some),
    {
        self.pending.is_some()
    }

    /// Takes the job that waits, unless the worker is to end.
    pub fn take_job(&mut self) -> (job: Option<DecodeJob>)
        ensures
            old(self).shutting_down() ==> job is None && *final(self) == *old(self),
            !old(self).shutting_down() ==> {
                &&& match job {
                    Some(job) => old(self).pending() == Some(job@),
                    None => old(self).pending() is None,
                }
                &&& final(self).pending() is None
                &&& !final(self).shutting_down()
            },
    {
        if self.shutdown {
            return None;
        }
        self.pending.take()
    }
}

/// What the worker does for one lane in a round.
#[derive(Clone, Copy, Debug, PartialEq, Eq, Structural)]
pub enum LaneWork {
    /// The lane has ended.
    Skip,
    /// Its session has to be opened; [`AudioWorker::opened`] or [`AudioWorker::open_failed`]
    /// follows.
    Open,
    /// Its session decodes; [`AudioWorker::decoded`] or [`AudioWorker::failed`] follows.
    Decode { resume: bool },
}

/// What follows a round.
#[derive(Clone, Copy, Debug, PartialEq, Eq, Structural)]
pub enum RoundEnd {
    /// The job is overtaken.
    NextJob,
    /// Every lane has ended: wait for the next job.
    AwaitJob,
    /// Wait a little, then start the next round.
    Pause,
}

/// The sessions of the worker and the progress of its job.
pub struct AudioWorker<T> {
    sessions: Table<LaneKey, AudioSession<T>>,
    resumed: Table<LaneKey, ()>,
    ended: Table<LaneKey, ()>,
}

/// The keys of a list of targets.
pub open spec fn keys_of_targets(targets: Seq<TargetModel>) -> Seq<LaneKey> {
    Seq::new(targets.len(), |i: int| targets[i].key())
}

/// Whether the session that is open for a lane cannot play `target`.
pub open spec fn must_open<T>(
    sessions: Map<LaneKey, AudioSession<T>>,
    target: TargetModel,
    sample_rate: u32,
) -> bool {
    !sessions.contains_key(target.key()) || sessions[target.key()].path@ != target.path
        || sessions[target.key()].sample_rate != sample_rate
}

impl<T> AudioWorker<T> {
    /// A lane owns one active decoder. This allows transition overlaps from two clips on the
    /// same track while retaining sticky reuse within an unchanged clip lane.
    pub closed spec fn sessions(&self) -> Map<LaneKey, AudioSession<T>> {
        self.sessions@
    }

    /// The lanes that go on from where they stand.
    pub closed spec fn resumed(&self) -> Set<LaneKey> {
        self.resumed@.dom()
    }

    /// The lanes that have nothing left to decode.
    pub closed spec fn ended(&self) -> Set<LaneKey> {
        self.ended@.dom()
    }

    pub closed spec fn wf(&self) -> bool {
        &&& self.sessions.wf()
        &&& self.resumed.wf()
        &&& self.ended.wf()
    }

    pub fn new() -> (worker: Self)
        ensures
            worker.wf(),
            worker.sessions() == Map::<LaneKey, AudioSession<T>>::empty(),
            worker.resumed() == Set::<LaneKey>::empty(),
            worker.ended() == Set::<LaneKey>::empty(),
    {
        let worker = AudioWorker {
            sessions: Table::new(),
            resumed: Table::new(),
            ended: Table::new(),
        };
        assert(worker.resumed() =~= Set::empty());
        assert(worker.ended() =~= Set::empty());
        worker
    }

    /// Turns to a job: sessions of other lanes are closed, and no lane has ended yet.
    pub fn begin(&mut self, job: &DecodeJob)
        requires
            old(self).wf(),
        ensures
            final(self).wf(),
            final(self).sessions() == old(self).sessions().restrict(
                keys_of_targets(job@.targets).to_set(),
            ),
            final(self).resumed() == job@.resume_lanes.to_set(),
            final(self).ended() == Set::<LaneKey>::empty(),
    {
        let mut keys: Vec<LaneKey> = Vec::new();
        let mut i: usize = 0;
        while i < job.targets.len()
            invariant
                i <= job.targets@.len(),
                keys@ == keys_of_targets(job@.targets).take(i as int),
            decreases job.targets@.len() - i,
        {
            keys.push(job.targets[i].lane_key());
            i += 1;
            assert(keys@ =~= keys_of_targets(job@.targets).take(i as int));
        }
        assert(keys@ =~= keys_of_targets(job@.targets));
        self.sessions.retain_keys(&keys);
        self.ended.clear();
        self.resumed.clear();
        assert(self.ended() =~= Set::empty());
        i = 0;
        assert(self.resumed() =~= job.resume_lanes@.take(0).to_set());
        while i < job.resume_lanes.len()
            invariant
                self.wf(),
                i <= job.resume_lanes@.len(),
                self.sessions() == old(self).sessions().restrict(
                    keys_of_targets(job@.targets).to_set(),
                ),
                self.ended() == Set::<LaneKey>::empty(),
                self.resumed() == job.resume_lanes@.take(i as int).to_set(),
            decreases job.resume_lanes@.len() - i,
        {
            let ghost before = job.resume_lanes@.take(i as int);
            let ghost after = job.resume_lanes@.take(i + 1);
            let _ = self.resumed.insert(job.resume_lanes[i], ());
            proof {
                lemma_set_of_push(before, job.resume_lanes@[i as int]);
                assert(after =~= before.push(job.resume_lanes@[i as int]));
                assert(self.resumed() =~= after.to_set());
            }
            i += 1;
        }
        assert(job.resume_lanes@.take(i as int) =~= job.resume_lanes@);
    }

    /// Decides what is done for the lane of `target` in this round.
    ///
    /// A reconciliation can overtake the initial decode job. Only an actually retained decoder
    /// may go on as it is; a newly opened session must seek to its supplied source tick.
    pub fn lane_work(&self, target: &AudioTarget, sample_rate: u32) -> (work: LaneWork)
        requires
            self.wf(),
        ensures
            work == (if self.ended().contains(target@.key()) {
                LaneWork::Skip
            } else if must_open(self.sessions(), target@, sample_rate) {
                LaneWork::Open
            } else {
                LaneWork::Decode { resume: self.resumed().contains(target@.key()) }
            }),
    {
        let key = target.lane_key();
        if self.ended.contains(&key) {
            return LaneWork::Skip;
        }
        let needs_open = match self.sessions.get(&key) {
            Some(session) => session.needs_open(target, sample_rate),
            None => true,
        };
        if needs_open {
            LaneWork::Open
        } else {
            LaneWork::Decode { resume: self.resumed.contains(&key) }
        }
    }

    /// Notes that a session was opened for a lane. It decodes next, without resuming.
    pub fn opened(&mut self, key: LaneKey, session: AudioSession<T>)
        requires
            old(self).wf(),
        ensures
            final(self).wf(),
            final(self).sessions() == old(self).sessions().insert(key, session),
            final(self).resumed() == old(self).resumed(),
            final(self).ended() == old(self).ended(),
    {
        let _ = self.sessions.insert(key, session);
    }

    /// Hands the session of a lane out, to decode with it.
    pub fn take_session(&mut self, key: LaneKey) -> (session: Option<AudioSession<T>>)
        requires
            old(self).wf(),
        ensures
            final(self).wf(),
            match session {
                Some(session) => old(self).sessions().contains_key(key) && session == old(self).sessions()[key],
                None => !old(self).sessions().contains_key(key),
            },
            final(self).sessions() == old(self).sessions().remove(key),
            final(self).resumed() == old(self).resumed(),
            final(self).ended() == old(self).ended(),
    {
        self.sessions.remove(&key)
    }

    /// Takes the session back after it decoded. The lane resumes from now on, and has ended where
    /// the source has.
    pub fn decoded(&mut self, key: LaneKey, session: AudioSession<T>)
        requires
            old(self).wf(),
        ensures
            final(self).wf(),
            final(self).sessions() == old(self).sessions().insert(key, session),
            final(self).resumed() == old(self).resumed().insert(key),
            final(self).ended() == (if session.eof {
                old(self).ended().insert(key)
            } else {
                old(self).ended()
            }),
    {
        let eof: bool = session.eof;
        let _ = self.sessions.insert(key, session);
        let _ = self.resumed.insert(key, ());
        assert(self.resumed() =~= old(self).resumed().insert(key));
        if eof {
            let _ = self.ended.insert(key, ());
            assert(self.ended() =~= old(self).ended().insert(key));
        }
    }

    /// Notes that no session could be opened for a lane: it has ended, and starts afresh when it
    /// comes again. A session of it for another file stays. Returns whether the failure is
    /// reported, which it is unless the job was overtaken.
    pub fn open_failed(&mut self, key: LaneKey, job_generation: u64, generation: u64) -> (report:
        bool)
        requires
            old(self).wf(),
        ensures
            final(self).wf(),
            report == (job_generation == generation),
            final(self).sessions() == old(self).sessions(),
            final(self).resumed() == old(self).resumed().remove(key),
            final(self).ended() == old(self).ended().insert(key),
    {
        let _ = self.resumed.remove(&key);
        assert(self.resumed() =~= old(self).resumed().remove(key));
        let _ = self.ended.insert(key, ());
        assert(self.ended() =~= old(self).ended().insert(key));
        job_generation == generation
    }

    /// Notes that a lane failed to decode: its session is closed, and it has ended. Returns whether the
    /// failure is reported, which it is unless the job was overtaken.
    pub fn failed(&mut self, key: LaneKey, job_generation: u64, generation: u64) -> (report: bool)
        requires
            old(self).wf(),
        ensures
            final(self).wf(),
            report == (job_generation == generation),
            final(self).sessions() == old(self).sessions().remove(key),
            final(self).resumed() == old(self).resumed().remove(key),
            final(self).ended() == old(self).ended().insert(key),
    {
        let _ = self.sessions.remove(&key);
        let _ = self.resumed.remove(&key);
        assert(self.resumed() =~= old(self).resumed().remove(key));
        let _ = self.ended.insert(key, ());
        assert(self.ended() =~= old(self).ended().insert(key));
        job_generation == generation
    }

    /// Decides what follows a round of `job`.
    pub fn round_end(&self, job: &DecodeJob, generation: u64, job_waits: bool) -> (end: RoundEnd)
        requires
            self.wf(),
        ensures
            end == (if generation != job@.generation || job_waits {
                RoundEnd::NextJob
            } else if self.ended().len() == job@.targets.len() {
                RoundEnd::AwaitJob
            } else {
                RoundEnd::Pause
            }),
    {
        if generation != job.generation || job_waits {
            RoundEnd::NextJob
        } else if self.ended.len() == job.targets.len() {
            RoundEnd::AwaitJob
        } else {
            RoundEnd::Pause
        }
    }
}

proof fn lemma_set_of_push(keys: Seq<LaneKey>, key: LaneKey)
    ensures
        keys.push(key).to_set() == keys.to_set().insert(key),
{
    let pushed = keys.push(key);
    assert forall|k: LaneKey| pushed.to_set().contains(k) <==> keys.to_set().insert(key).contains(
        k,
    ) by {
        if keys.contains(k) {
            let i = choose|i: int| 0 <= i < keys.len() && keys[i] == k;
            assert(pushed[i] == k);
        }
        assert(pushed[keys.len() as int] == key);
        if pushed.contains(k) {
            let i = choose|i: int| 0 <= i < pushed.len() && pushed[i] == k;
            if i < keys.len() {
                assert(keys[i] == k);
            }
        }
    }
    assert(pushed.to_set() =~= keys.to_set().insert(key));
}

/// A lane needs a session of its own exactly where none is open for it that plays its file at the
/// device's rate.
pub proof fn law_sessions_are_reused_for_their_file<T>(
    sessions: Map<LaneKey, AudioSession<T>>,
    target: TargetModel,
    sample_rate: u32,
)
    ensures
        ({
            let key = LaneKey { track_id: target.track_id, clip_id: target.clip_id };
            !must_open(sessions, target, sample_rate) <==> sessions.contains_key(key)
                && sessions[key].path@ == target.path && sessions[key].sample_rate == sample_rate
        }),
{
}

/// The keys of a job's targets are those of its tracks and clips.
pub proof fn law_job_lanes_are_its_targets(targets: Seq<TargetModel>, i: int)
    requires
        0 <= i < targets.len(),
    ensures
        keys_of_targets(targets).len() == targets.len(),
        keys_of_targets(targets)[i].track_id == targets[i].track_id,
        keys_of_targets(targets)[i].clip_id == targets[i].clip_id,
{
}

/// A lane that has ended is passed over; one without a session for its file and rate gets one opened; any
/// other decodes, and resumes exactly where it was told to.
pub proof fn law_lanes_are_opened_resumed_or_passed_over<T>(
    worker: &AudioWorker<T>,
    target: &AudioTarget,
    sample_rate: u32,
    work: LaneWork,
)
    requires
        call_ensures(AudioWorker::<T>::lane_work, (worker, target, sample_rate), work),
    ensures
        ({
            let key = LaneKey { track_id: target.track_id, clip_id: target.clip_id };
            let open = worker.sessions().contains_key(key) && worker.sessions()[key].path@
                == target.path@ && worker.sessions()[key].sample_rate == sample_rate;
            let ended = worker.ended().contains(key);
            &&& work is Skip <==> ended
            &&& work is Open <==> !ended && !open
            &&& work matches LaneWork::Decode { resume } ==> !ended && open && (resume
                <==> worker.resumed().contains(key))
            &&& !ended && open ==> work is Decode
        }),
{
}

/// A job closes the sessions of lanes that it does not have, keeps the others, resumes the lanes it names,
/// and starts with no lane ended.
pub proof fn law_jobs_keep_the_sessions_of_their_lanes<T>(
    worker: &mut AudioWorker<T>,
    job: &DecodeJob,
    key: LaneKey,
)
    requires
        call_ensures(AudioWorker::<T>::begin, (worker, job), ()),
    ensures
        ({
            let wanted = exists|i: int|
                0 <= i < job.targets@.len() && (#[trigger] job.targets@[i]).track_id == key.track_id
                    && job.targets@[i].clip_id == key.clip_id;
            &&& final(worker).sessions().contains_key(key) <==> old(worker).sessions().contains_key(
                key,
            ) && wanted
            &&& final(worker).sessions().contains_key(key) ==> final(worker).sessions()[key] == old(worker).sessions()[key]
            &&& final(worker).resumed().contains(key) <==> job.resume_lanes@.contains(key)
            &&& !final(worker).ended().contains(key)
        }),
{
    let models = job@.targets;
    let keys = keys_of_targets(models);
    if keys.to_set().contains(key) {
        let i = choose|i: int| 0 <= i < keys.len() && keys[i] == key;
        assert(models[i] == job.targets@[i]@);
        assert(job.targets@[i].track_id == key.track_id);
    }
    if exists|i: int|
        0 <= i < job.targets@.len() && (#[trigger] job.targets@[i]).track_id == key.track_id
            && job.targets@[i].clip_id == key.clip_id {
        let i = choose|i: int|
            0 <= i < job.targets@.len() && (#[trigger] job.targets@[i]).track_id == key.track_id
                && job.targets@[i].clip_id == key.clip_id;
        assert(models[i] == job.targets@[i]@);
        assert(keys[i] == key);
    }
}

/// After a round the worker turns to a newer job, waits for one where every lane has ended, and else goes
/// on after a pause.
pub proof fn law_rounds_end_with_newer_or_no_work<T>(
    worker: &AudioWorker<T>,
    job: &DecodeJob,
    generation: u64,
    job_waits: bool,
    end: RoundEnd,
)
    requires
        call_ensures(AudioWorker::<T>::round_end, (worker, job, generation, job_waits), end),
    ensures
        end is NextJob <==> generation != job.generation || job_waits,
        end is AwaitJob <==> generation == job.generation && !job_waits && worker.ended().len()
            == job.targets@.len(),
{
    assert(job@.targets.len() == job.targets@.len());
}

/// A failed decode closes the lane's session, a failed opening does not; either ends the lane, which
/// resumes no more, and is reported exactly where the job is current.
pub proof fn law_failures_end_their_lane<T>(
    decoding: &mut AudioWorker<T>,
    opening: &mut AudioWorker<T>,
    key: LaneKey,
    job_generation: u64,
    generation: u64,
    decode_reported: bool,
    open_reported: bool,
    other: LaneKey,
)
    requires
        call_ensures(AudioWorker::<T>::failed, (decoding, key, job_generation, generation), decode_reported),
        call_ensures(AudioWorker::<T>::open_failed, (opening, key, job_generation, generation), open_reported),
        other != key,
    ensures
        decode_reported <==> job_generation == generation,
        open_reported <==> job_generation == generation,
        !final(decoding).sessions().contains_key(key),
        final(opening).sessions() == old(opening).sessions(),
        final(decoding).ended().contains(key) && final(opening).ended().contains(key),
        !final(decoding).resumed().contains(key) && !final(opening).resumed().contains(key),
        final(decoding).ended().contains(other) <==> old(decoding).ended().contains(other),
        final(decoding).resumed().contains(other) <==> old(decoding).resumed().contains(other),
        final(opening).ended().contains(other) <==> old(opening).ended().contains(other),
        final(opening).resumed().contains(other) <==> old(opening).resumed().contains(other),
        final(decoding).sessions().contains_key(other) <==> old(decoding).sessions().contains_key(
            other,
        ),
{
}

/// A session that decoded stays with its lane, which resumes from now on and has ended exactly where its
/// source has.
pub proof fn law_decoded_lanes_resume<T>(
    worker: &mut AudioWorker<T>,
    key: LaneKey,
    session: AudioSession<T>,
)
    requires
        call_ensures(AudioWorker::<T>::decoded, (worker, key, session), ()),
    ensures
        final(worker).sessions().contains_key(key) && final(worker).sessions()[key] == session,
        final(worker).resumed().contains(key),
        session.eof ==> final(worker).ended().contains(key),
        !session.eof ==> final(worker).ended() == old(worker).ended(),
{
}

/// The newest job wins: what is submitted is what the worker takes next, with its targets and the lanes to
/// resume, whatever waited before.
pub proof fn law_submitted_job_is_taken_next(
    submitting: &mut SchedulerState,
    generation: u64,
    targets: Vec<AudioTarget>,
    resume_lanes: Vec<LaneKey>,
    taking: &mut SchedulerState,
    job: Option<DecodeJob>,
)
    requires
        call_ensures(
            SchedulerState::submit_reconcile,
            (submitting, generation, targets, resume_lanes),
            (),
        ),
        call_ensures(SchedulerState::take_job, (taking,), job),
        *final(submitting) == *old(taking),
        !old(submitting).shutting_down(),
    ensures
        job matches Some(taken) && taken.generation == generation && taken@.targets == target_models(
            targets@,
        ) && taken.resume_lanes@ == resume_lanes@,
        final(taking).pending() is None,
{
    if let Some(taken) = job {
        assert(taken@.generation == taken.generation);
        assert(taken@.resume_lanes == taken.resume_lanes@);
    }
}

/// A job that starts afresh resumes no lane; a cleared scheduler has none; one that is to end gives none.
pub proof fn law_fresh_jobs_resume_nothing(
    submitting: &mut SchedulerState,
    generation: u64,
    targets: Vec<AudioTarget>,
    clearing: &mut SchedulerState,
    ending: &mut SchedulerState,
)
    requires
        call_ensures(SchedulerState::submit, (submitting, generation, targets), ()),
        call_ensures(SchedulerState::clear, (clearing,), ()),
        call_ensures(SchedulerState::shut_down, (ending,), ()),
    ensures
        final(submitting).pending() matches Some(job) && job.resume_lanes.len() == 0
            && job.generation == generation && job.targets == target_models(targets@),
        final(clearing).pending() is None,
        final(clearing).shutting_down() == old(clearing).shutting_down(),
        final(ending).shutting_down(),
{
}

} // verus!
