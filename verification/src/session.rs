//! The capture session as a state machine. The blocking work of a
//! session — reading a frame from the recorder, scoring it in the
//! detector — happens outside this crate; the session object here owns
//! every decision: which keyword a detection index names, when the
//! session stops, and that the recorder is told to stop exactly once.
//!
//! The driving loop polls the listening flag once per iteration, turns
//! what happened into a [`SessionEvent`], and performs the
//! [`SessionAction`] the machine answers with. Frame-read and detector
//! failures are fatal to the session, never retried.

use vstd::prelude::*;

verus! {

/// Why a session left the listening state.
#[derive(PartialEq, Eq, Clone, Copy, Debug, Structural)]
pub enum StopReason {
    /// The listening flag was cleared by the cancellation source.
    Cancelled,
    /// A frame read failed; the loop cannot tell a transient hiccup
    /// from a lost device, so it aborts.
    FrameReadFailure,
    /// The detector failed to score a frame, or reported an index
    /// outside the requested keyword list.
    DetectorFailure,
}

/// Where a session stands: still listening, or stopped for a reason.
#[derive(PartialEq, Eq, Clone, Copy, Debug, Structural)]
pub enum SessionPhase {
    Listening,
    Stopped(StopReason),
}

/// What one loop iteration observed.
#[derive(PartialEq, Eq, Clone, Copy, Debug, Structural)]
pub enum SessionEvent {
    /// The listening flag was found cleared at the iteration's poll.
    FlagCleared,
    /// Reading a frame from the recorder failed.
    FrameReadFailed,
    /// The detector failed to score the frame that was read.
    ProcessFailed,
    /// The detector scored the frame: a keyword index, or -1 for no
    /// detection.
    Detection(i32),
}

/// What the driving loop must do next.
#[derive(PartialEq, Eq, Clone, Copy, Debug)]
pub enum SessionAction<K> {
    /// Read and process the next frame.
    Continue,
    /// Report a detection of this keyword, then read the next frame.
    Emit(K),
    /// Stop the recorder and end the session. Answered exactly once
    /// per session.
    StopRecorder,
}

/// The one step a listening session makes on an event: the phase it
/// moves to and the action it answers. A valid detection index names
/// the keyword at that index of the requested order; -1 means no
/// detection; everything else ends the session.
pub open spec fn spec_step<K>(keywords: Seq<K>, event: SessionEvent) -> (SessionPhase,
    SessionAction<K>) {
    match event {
        SessionEvent::FlagCleared => (
            SessionPhase::Stopped(StopReason::Cancelled),
            SessionAction::StopRecorder,
        ),
        SessionEvent::FrameReadFailed => (
            SessionPhase::Stopped(StopReason::FrameReadFailure),
            SessionAction::StopRecorder,
        ),
        SessionEvent::ProcessFailed => (
            SessionPhase::Stopped(StopReason::DetectorFailure),
            SessionAction::StopRecorder,
        ),
        SessionEvent::Detection(i) => if i == -1 {
            (SessionPhase::Listening, SessionAction::Continue)
        } else if 0 <= i && i < keywords.len() {
            (SessionPhase::Listening, SessionAction::Emit(keywords[i as int]))
        } else {
            (SessionPhase::Stopped(StopReason::DetectorFailure), SessionAction::StopRecorder)
        },
    }
}

/// A listening session driven through a sequence of events: the phase
/// it ends in and the actions it answered, in order. Once the session
/// stops, no further event is taken.
pub open spec fn spec_run<K>(keywords: Seq<K>, events: Seq<SessionEvent>) -> (SessionPhase, Seq<
    SessionAction<K>,
>)
    decreases events.len(),
{
    if events.len() == 0 {
        (SessionPhase::Listening, Seq::empty())
    } else {
        let (phase, action) = spec_step(keywords, events[0]);
        if phase is Listening {
            let (rest_phase, rest_actions) = spec_run(keywords, events.drop_first());
            (rest_phase, seq![action] + rest_actions)
        } else {
            (phase, seq![action])
        }
    }
}

/// How many of the answered actions stop the recorder.
pub open spec fn count_stops<K>(actions: Seq<SessionAction<K>>) -> nat
    decreases actions.len(),
{
    if actions.len() == 0 {
        0
    } else {
        (if actions[0] is StopRecorder {
            1nat
        } else {
            0nat
        }) + count_stops(actions.drop_first())
    }
}

/// One capture session: the keywords it listens for, in the order they
/// were requested, and where it stands.
pub struct Session<K> {
    pub keywords: Vec<K>,
    pub phase: SessionPhase,
}

impl<K: Copy> Session<K> {
    /// A fresh session listening for these keywords.
    pub fn new(keywords: Vec<K>) -> (s: Session<K>)
        ensures
            s.phase == SessionPhase::Listening,
            s.keywords == keywords,
    {
        Session { keywords, phase: SessionPhase::Listening }
    }

    /// Whether the session is still listening.
    pub fn is_listening(&self) -> (r: bool)
        ensures
            r == (self.phase is Listening),
    {
        match self.phase {
            SessionPhase::Listening => true,
            SessionPhase::Stopped(_) => false,
        }
    }

    /// Why the session stopped, once it has.
    pub fn stop_reason(&self) -> (r: Option<StopReason>)
        ensures
            r matches Some(reason) ==> self.phase == SessionPhase::Stopped(reason),
            r is None ==> self.phase is Listening,
    {
        match self.phase {
            SessionPhase::Listening => None,
            SessionPhase::Stopped(reason) => Some(reason),
        }
    }

    /// Takes the event one loop iteration observed and answers the
    /// action to perform. A detection index names the keyword at that
    /// index of the requested order, threaded unchanged from the
    /// selection; the session stops on cancellation and on every
    /// failure, and the stop action is answered exactly on the step
    /// that leaves the listening phase.
    pub fn step(&mut self, event: SessionEvent) -> (action: SessionAction<K>)
        requires
            old(self).phase is Listening,
        ensures
            final(self).keywords == old(self).keywords,
            (final(self).phase, action) == spec_step(old(self).keywords@, event),
    {
        match event {
            SessionEvent::FlagCleared => {
                self.phase = SessionPhase::Stopped(StopReason::Cancelled);
                SessionAction::StopRecorder
            },
            SessionEvent::FrameReadFailed => {
                self.phase = SessionPhase::Stopped(StopReason::FrameReadFailure);
                SessionAction::StopRecorder
            },
            SessionEvent::ProcessFailed => {
                self.phase = SessionPhase::Stopped(StopReason::DetectorFailure);
                SessionAction::StopRecorder
            },
            SessionEvent::Detection(i) => {
                if i == -1 {
                    SessionAction::Continue
                } else if 0 <= i && (i as usize) < self.keywords.len() {
                    SessionAction::Emit(self.keywords[i as usize])
                } else {
                    self.phase = SessionPhase::Stopped(StopReason::DetectorFailure);
                    SessionAction::StopRecorder
                }
            },
        }
    }
}

/// The recorder is stopped exactly once per session: a session driven
/// through any sequence of events answers the stop action once when it
/// leaves the listening phase, and not at all as long as it listens.
pub proof fn lemma_stop_exactly_once<K>(keywords: Seq<K>, events: Seq<SessionEvent>)
    ensures
        ({
            let (phase, actions) = spec_run(keywords, events);
            count_stops(actions) == if phase is Stopped {
                1int
            } else {
                0int
            }
        }),
    decreases events.len(),
{
    if events.len() == 0 {
    } else {
        let (first_phase, action) = spec_step(keywords, events[0]);
        if first_phase is Listening {
            lemma_stop_exactly_once(keywords, events.drop_first());
            let (rest_phase, rest_actions) = spec_run(keywords, events.drop_first());
            let all = seq![action] + rest_actions;
            assert(spec_run(keywords, events) == (rest_phase, all));
            assert(!(action is StopRecorder));
            assert(all[0] == action);
            assert(all.drop_first() =~= rest_actions);
            assert(count_stops(all) == count_stops(rest_actions));
        } else {
            let all = seq![action];
            assert(spec_run(keywords, events) == (first_phase, all));
            assert(action is StopRecorder);
            assert(all[0] == action);
            assert(all.drop_first() =~= Seq::<SessionAction<K>>::empty());
            assert(count_stops(Seq::<SessionAction<K>>::empty()) == 0);
            assert(count_stops(all) == 1);
        }
    }
}

/// Detections are reported one-to-one and in detector order: a session
/// driven through valid detection indices alone keeps listening and
/// reports, for each index in turn, exactly the keyword at that index
/// of the requested order.
pub proof fn lemma_detections_name_requested_keywords<K>(
    keywords: Seq<K>,
    events: Seq<SessionEvent>,
)
    requires
        forall|i: int|
            0 <= i < events.len() ==> ((#[trigger] events[i]) matches SessionEvent::Detection(d)
                && 0 <= d < keywords.len()),
    ensures
        ({
            let (phase, actions) = spec_run(keywords, events);
            &&& phase is Listening
            &&& actions.len() == events.len()
            &&& forall|i: int|
                0 <= i < events.len() ==> actions[i] == SessionAction::Emit(
                    keywords[(#[trigger] events[i])->Detection_0 as int],
                )
        }),
    decreases events.len(),
{
    if events.len() == 0 {
    } else {
        let (first_phase, action) = spec_step(keywords, events[0]);
        assert(events[0] matches SessionEvent::Detection(d) && 0 <= d < keywords.len());
        assert(first_phase is Listening);
        lemma_detections_name_requested_keywords(keywords, events.drop_first());
        let (rest_phase, rest_actions) = spec_run(keywords, events.drop_first());
        let all = seq![action] + rest_actions;
        assert(spec_run(keywords, events) == (rest_phase, all));
        assert forall|i: int| 0 <= i < events.len() implies all[i] == SessionAction::Emit(
            keywords[(events[i])->Detection_0 as int],
        ) by {
            if i > 0 {
                assert(events.drop_first()[i - 1] == events[i]);
                assert(all[i] == rest_actions[i - 1]);
            }
        }
    }
}

/// Cancellation is honoured promptly: a session whose next observation
/// is the cleared flag stops at once, with the stop of the recorder as
/// its only further action and no more frames processed.
pub proof fn lemma_cancellation_stops_promptly<K>(keywords: Seq<K>, events: Seq<SessionEvent>)
    requires
        events.len() > 0,
        events[0] is FlagCleared,
    ensures
        ({
            let (phase, actions) = spec_run(keywords, events);
            &&& phase == SessionPhase::Stopped(StopReason::Cancelled)
            &&& actions =~= seq![SessionAction::<K>::StopRecorder]
        }),
{
}

/// A frame-read failure ends the session at once: the detector is
/// never asked about that frame — the only further action is the one
/// stop of the recorder — and no later event is taken.
pub proof fn lemma_read_failure_stops_session<K>(keywords: Seq<K>, events: Seq<SessionEvent>)
    requires
        events.len() > 0,
        events[0] is FrameReadFailed,
    ensures
        ({
            let (phase, actions) = spec_run(keywords, events);
            &&& phase == SessionPhase::Stopped(StopReason::FrameReadFailure)
            &&& actions =~= seq![SessionAction::<K>::StopRecorder]
        }),
{
}

} // verus!
