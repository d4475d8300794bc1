//! A bounded summary of backend input: counts only, never keys, text, clipboard contents or
//! device identifiers.
use vstd::prelude::*;

verus! {

/// What an input event is, as far as it is counted.
#[derive(Clone, Copy, Debug, PartialEq, Eq, Structural)]
pub enum InputEventKind {
    PointerMoved,
    PointerButton,
    MouseMoved,
    WindowFocused,
    Other,
}

/// One backend input batch, captured before anything is injected.
#[derive(Clone, Copy, Debug, PartialEq, Eq, Structural)]
pub struct BackendInputObservation {
    pub elapsed_nanos: u64,
    pub pending_sample_index: Option<usize>,
    pub focused: bool,
    pub event_count: usize,
    pub pointer_moves: usize,
    pub pointer_buttons: usize,
    pub relative_mouse_moves: usize,
    pub focus_events: usize,
    pub other_events: usize,
    /// The last event that carried a pointer position.
    pub last_pointer_event: Option<usize>,
    pub playhead_before: i64,
    pub playhead_after: Option<i64>,
    pub scrubbing_before: bool,
    pub scrubbing_after: Option<bool>,
    pub injected_motion: bool,
}

/// How many of the first `count` events are of a kind.
pub open spec fn count_kind(events: Seq<InputEventKind>, kind: InputEventKind, count: int) -> nat
    decreases count,
{
    if count <= 0 {
        0
    } else {
        count_kind(events, kind, count - 1) + (if events[count - 1] == kind {
            1nat
        } else {
            0nat
        })
    }
}

/// Whether an event carries a pointer position.
pub open spec fn has_position(kind: InputEventKind) -> bool {
    kind == InputEventKind::PointerMoved || kind == InputEventKind::PointerButton
}

/// The last of the first `count` events that carries a pointer position.
pub open spec fn last_position(events: Seq<InputEventKind>, count: int) -> Option<usize>
    decreases count,
{
    if count <= 0 {
        None
    } else if has_position(events[count - 1]) {
        Some((count - 1) as usize)
    } else {
        last_position(events, count - 1)
    }
}

impl BackendInputObservation {
    pub fn capture(
        events: &Vec<InputEventKind>,
        focused: bool,
        playhead: i64,
        scrubbing: bool,
        elapsed_nanos: u64,
        pending_sample_index: Option<usize>,
    ) -> (observation: Self)
        ensures
            ({
                let count = events@.len() as int;
                observation == BackendInputObservation {
                    elapsed_nanos,
                    pending_sample_index,
                    focused,
                    event_count: count as usize,
                    pointer_moves: count_kind(events@, InputEventKind::PointerMoved, count) as usize,
                    pointer_buttons: count_kind(
                        events@,
                        InputEventKind::PointerButton,
                        count,
                    ) as usize,
                    relative_mouse_moves: count_kind(
                        events@,
                        InputEventKind::MouseMoved,
                        count,
                    ) as usize,
                    focus_events: count_kind(events@, InputEventKind::WindowFocused, count) as usize,
                    other_events: count_kind(events@, InputEventKind::Other, count) as usize,
                    last_pointer_event: last_position(events@, count),
                    playhead_before: playhead,
                    playhead_after: None,
                    scrubbing_before: scrubbing,
                    scrubbing_after: None,
                    injected_motion: false,
                }
            }),
    {
        let mut observation = BackendInputObservation {
            elapsed_nanos,
            pending_sample_index,
            focused,
            event_count: events.len(),
            pointer_moves: 0,
            pointer_buttons: 0,
            relative_mouse_moves: 0,
            focus_events: 0,
            other_events: 0,
            last_pointer_event: None,
            playhead_before: playhead,
            playhead_after: None,
            scrubbing_before: scrubbing,
            scrubbing_after: None,
            injected_motion: false,
        };
        let ghost first = observation;
        let mut i: usize = 0;
        while i < events.len()
            invariant
                i <= events@.len(),
                observation == (BackendInputObservation {
                    pointer_moves: observation.pointer_moves,
                    pointer_buttons: observation.pointer_buttons,
                    relative_mouse_moves: observation.relative_mouse_moves,
                    focus_events: observation.focus_events,
                    other_events: observation.other_events,
                    last_pointer_event: observation.last_pointer_event,
                    ..first
                }),
                observation.pointer_moves == count_kind(
                    events@,
                    InputEventKind::PointerMoved,
                    i as int,
                ),
                observation.pointer_buttons == count_kind(
                    events@,
                    InputEventKind::PointerButton,
                    i as int,
                ),
                observation.relative_mouse_moves == count_kind(
                    events@,
                    InputEventKind::MouseMoved,
                    i as int,
                ),
                observation.focus_events == count_kind(
                    events@,
                    InputEventKind::WindowFocused,
                    i as int,
                ),
                observation.other_events == count_kind(events@, InputEventKind::Other, i as int),
                observation.last_pointer_event == last_position(events@, i as int),
                observation.pointer_moves + observation.pointer_buttons
                    + observation.relative_mouse_moves + observation.focus_events
                    + observation.other_events == i,
            decreases events@.len() - i,
        {
            match events[i] {
                InputEventKind::PointerMoved => {
                    observation.pointer_moves += 1;
                    observation.last_pointer_event = Some(i);
                },
                InputEventKind::PointerButton => {
                    observation.pointer_buttons += 1;
                    observation.last_pointer_event = Some(i);
                },
                InputEventKind::MouseMoved => {
                    observation.relative_mouse_moves += 1;
                },
                InputEventKind::WindowFocused => {
                    observation.focus_events += 1;
                },
                InputEventKind::Other => {
                    observation.other_events += 1;
                },
            }
            i += 1;
        }
        observation
    }

    /// Adds what the editor made of the batch.
    pub fn observe_outcome(&mut self, playhead: i64, scrubbing: bool, injected_motion: bool)
        ensures
            *final(self) == (BackendInputObservation {
                playhead_after: Some(playhead),
                scrubbing_after: Some(scrubbing),
                injected_motion,
                ..*old(self)
            }),
    {
        self.playhead_after = Some(playhead);
        self.scrubbing_after = Some(scrubbing);
        self.injected_motion = injected_motion;
    }
}

/// Every event is counted exactly once.
pub proof fn law_every_event_is_counted_once(events: Seq<InputEventKind>, count: int)
    requires
        0 <= count <= events.len(),
    ensures
        count_kind(events, InputEventKind::PointerMoved, count) + count_kind(
            events,
            InputEventKind::PointerButton,
            count,
        ) + count_kind(events, InputEventKind::MouseMoved, count) + count_kind(
            events,
            InputEventKind::WindowFocused,
            count,
        ) + count_kind(events, InputEventKind::Other, count) == count,
    decreases count,
{
    if count > 0 {
        law_every_event_is_counted_once(events, count - 1);
    }
}

/// Each event adds one to its own kind and to no other.
pub proof fn law_events_count_for_their_kind(
    events: Seq<InputEventKind>,
    kind: InputEventKind,
    count: int,
)
    requires
        0 <= count < events.len(),
    ensures
        count_kind(events, kind, 0) == 0,
        events[count] == kind ==> count_kind(events, kind, count + 1) == count_kind(
            events,
            kind,
            count,
        ) + 1,
        events[count] != kind ==> count_kind(events, kind, count + 1) == count_kind(
            events,
            kind,
            count,
        ),
{
}

/// The last pointer event is a motion or a button, and none of those comes after it; there is none
/// exactly where no event is one.
pub proof fn law_last_pointer_event_is_the_last(events: Seq<InputEventKind>, count: int, i: int)
    requires
        0 <= count <= events.len() <= usize::MAX,
    ensures
        last_position(events, count) matches Some(last) ==> last < count && (events[last as int]
            == InputEventKind::PointerMoved || events[last as int]
            == InputEventKind::PointerButton),
        0 <= i < count && (events[i] == InputEventKind::PointerMoved || events[i]
            == InputEventKind::PointerButton) ==> (last_position(events, count) matches Some(last)
            && i <= last),
    decreases count,
{
    if count > 0 {
        law_last_pointer_event_is_the_last(events, count - 1, i);
    }
}

/// What is observed of input is what came: each kind counted, the editor's state as it was, and nothing of
/// what follows yet.
pub proof fn law_observation_counts_what_came(
    events: &Vec<InputEventKind>,
    focused: bool,
    playhead: i64,
    scrubbing: bool,
    elapsed_nanos: u64,
    pending: Option<usize>,
    seen: BackendInputObservation,
)
    requires
        call_ensures(
            BackendInputObservation::capture,
            (events, focused, playhead, scrubbing, elapsed_nanos, pending),
            seen,
        ),
        events@.len() <= usize::MAX,
    ensures
        seen.event_count == events@.len(),
        seen.pointer_moves + seen.pointer_buttons + seen.relative_mouse_moves + seen.focus_events
            + seen.other_events == events@.len(),
        seen.pointer_moves == count_kind(
            events@,
            InputEventKind::PointerMoved,
            events@.len() as int,
        ),
        seen.pointer_buttons == count_kind(
            events@,
            InputEventKind::PointerButton,
            events@.len() as int,
        ),
        seen.relative_mouse_moves == count_kind(
            events@,
            InputEventKind::MouseMoved,
            events@.len() as int,
        ),
        seen.focus_events == count_kind(
            events@,
            InputEventKind::WindowFocused,
            events@.len() as int,
        ),
        seen.focused == focused,
        seen.playhead_before == playhead,
        seen.scrubbing_before == scrubbing,
        seen.elapsed_nanos == elapsed_nanos,
        seen.pending_sample_index == pending,
        seen.playhead_after is None,
        seen.scrubbing_after is None,
        !seen.injected_motion,
{
    law_every_event_is_counted_once(events@, events@.len() as int);
}

} // verus!
