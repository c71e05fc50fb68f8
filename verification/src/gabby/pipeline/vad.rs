//! Voice Activity Detection (VAD).
//!
//! Detects when the user has stopped speaking to trigger LLM response.

use crate::gabby::config::VadConfig;
use crate::text::text_of;
use vstd::prelude::*;

verus! {

/// Nanoseconds in a millisecond.
pub const NANOS_PER_MILLI: u128 = 1_000_000;

/// By how much less silence is enough once the text is stable: 200 ms, in nanoseconds.
pub const STABILITY_BONUS: u128 = 200_000_000;

/// Voice activity detection state machine. Times and durations are in nanoseconds.
#[derive(Debug, Clone)]
pub struct VadState {
    /// Duration of silence to consider end of utterance.
    pub silence_duration: u128,
    /// Minimum utterance duration before accepting.
    pub min_utterance_duration: u128,
    /// Time of last detected speech.
    pub last_speech_time: u128,
    /// Time speech started (if in utterance).
    pub speech_start: Option<u128>,
    /// Whether we're currently in an utterance.
    pub in_utterance: bool,
    /// Previous partial text for stability detection.
    pub last_partial: Option<String>,
    /// Count of consecutive stable partials.
    pub stable_count: u32,
}

/// What a state is.
#[verifier::ext_equal]
pub struct VadView {
    pub silence_duration: u128,
    pub min_utterance_duration: u128,
    pub last_speech_time: u128,
    pub speech_start: Option<u128>,
    pub in_utterance: bool,
    pub last_partial: Option<Seq<char>>,
    pub stable_count: u32,
}

impl View for VadState {
    type V = VadView;

    open spec fn view(&self) -> VadView {
        VadView {
            silence_duration: self.silence_duration,
            min_utterance_duration: self.min_utterance_duration,
            last_speech_time: self.last_speech_time,
            speech_start: self.speech_start,
            in_utterance: self.in_utterance,
            last_partial: text_of(self.last_partial),
            stable_count: self.stable_count,
        }
    }
}

/// VAD decision for the current audio frame.
#[derive(Debug, Clone, Copy, PartialEq, Eq, Structural)]
pub enum VadDecision {
    /// No speech detected, silence.
    Silence,
    /// Speech just started.
    SpeechStart,
    /// Speech is continuing.
    SpeechContinue,
    /// Speech ended (silence threshold reached).
    SpeechEnd,
}

/// How long it is from one time to another; nothing where the other comes first.
pub open spec fn elapsed(from: u128, to: u128) -> int {
    if from <= to {
        to - from
    } else {
        0
    }
}

impl VadView {
    /// The state that has seen a partial text. The same text again is counted.
    pub open spec fn hearing(self, partial: Option<Seq<char>>) -> VadView {
        match partial {
            Some(text) => if self.last_partial == Some(text) {
                VadView { stable_count: (self.stable_count + 1) as u32, ..self }
            } else {
                VadView { last_partial: Some(text), stable_count: 0, ..self }
            },
            None => self,
        }
    }

    /// Whether a partial text is news.
    pub open spec fn news(self, partial: Option<Seq<char>>) -> bool {
        partial is Some && self.last_partial != partial
    }

    /// The state outside of any utterance.
    pub open spec fn at_rest(self) -> VadView {
        VadView {
            in_utterance: false,
            speech_start: None,
            last_partial: None,
            stable_count: 0,
            ..self
        }
    }

    /// How much silence ends the utterance: less of it where the text has stood still for more
    /// than three frames.
    pub open spec fn enough_silence(self) -> int {
        if self.stable_count > 3 {
            elapsed(STABILITY_BONUS, self.silence_duration)
        } else {
            self.silence_duration as int
        }
    }

    /// How long the utterance has lasted.
    pub open spec fn spoken_for(self, now: u128) -> int {
        match self.speech_start {
            Some(start) => elapsed(start, now),
            None => 0,
        }
    }

    /// Whether a quiet frame at a time ends the utterance.
    pub open spec fn ends_at(self, now: u128) -> bool {
        elapsed(self.last_speech_time, now) >= self.enough_silence() && self.spoken_for(now)
            >= self.min_utterance_duration
    }

    /// The state after a frame, and the decision on it.
    pub open spec fn after(self, is_speech: bool, partial: Option<Seq<char>>, now: u128) -> (
        VadView,
        VadDecision,
    ) {
        let heard = self.hearing(partial);
        if !self.in_utterance {
            if is_speech {
                (
                    VadView {
                        in_utterance: true,
                        speech_start: Some(now),
                        last_speech_time: now,
                        last_partial: None,
                        stable_count: 0,
                        ..heard
                    },
                    VadDecision::SpeechStart,
                )
            } else {
                (heard, VadDecision::Silence)
            }
        } else if is_speech || self.news(partial) {
            (VadView { last_speech_time: now, ..heard }, VadDecision::SpeechContinue)
        } else if heard.ends_at(now) {
            (heard.at_rest(), VadDecision::SpeechEnd)
        } else {
            (heard, VadDecision::SpeechContinue)
        }
    }

    /// An utterance has a start.
    pub open spec fn started(self) -> bool {
        self.in_utterance == (self.speech_start is Some)
    }
}

impl VadState {
    /// Create a new VAD state from configuration, at a time.
    pub fn new(config: &VadConfig, now: u128) -> (r: Self)
        ensures
            r@ == (VadView {
                silence_duration: (config.silence_duration_ms * NANOS_PER_MILLI) as u128,
                min_utterance_duration: (config.min_utterance_ms * NANOS_PER_MILLI) as u128,
                last_speech_time: now,
                speech_start: None,
                in_utterance: false,
                last_partial: None,
                stable_count: 0,
            }),
            r@.started(),
    {
        VadState {
            silence_duration: config.silence_duration_ms as u128 * NANOS_PER_MILLI,
            min_utterance_duration: config.min_utterance_ms as u128 * NANOS_PER_MILLI,
            last_speech_time: now,
            speech_start: None,
            in_utterance: false,
            last_partial: None,
            stable_count: 0,
        }
    }

    /// Process an audio frame at a time: whether it is louder than silence, and the STT partial
    /// result.
    ///
    /// Returns the VAD decision for this frame.
    pub fn process(&mut self, is_speech: bool, partial_text: Option<&str>, now: u128) -> (r:
        VadDecision)
        requires
            partial_text matches Some(text) && old(self)@.last_partial == Some(text@)
                ==> old(self).stable_count < u32::MAX,
        ensures
            (final(self)@, r) == old(self)@.after(
                is_speech,
                match partial_text {
                    Some(text) => Some(text@),
                    None => None,
                },
                now,
            ),
            old(self)@.started() ==> final(self)@.started(),
    {
        // Track partial text stability
        let text_changed: bool = match partial_text {
            Some(text) => {
                let text: String = text.to_owned();
                let same: bool = match &self.last_partial {
                    Some(last) => *last == text,
                    None => false,
                };
                if same {
                    self.stable_count = self.stable_count + 1;
                } else {
                    self.last_partial = Some(text);
                    self.stable_count = 0;
                }
                !same
            },
            None => false,
        };
        if !self.in_utterance {
            if is_speech {
                self.in_utterance = true;
                self.speech_start = Some(now);
                self.last_speech_time = now;
                self.last_partial = None;
                self.stable_count = 0;
                return VadDecision::SpeechStart;
            }
            return VadDecision::Silence;
        }
        // Speech continues (energy or text changing)

        if is_speech || text_changed {
            self.last_speech_time = now;
            return VadDecision::SpeechContinue;
        }
        // Silence detected, check if long enough

        let silence_elapsed: u128 = since(self.last_speech_time, now);
        let utterance_duration: u128 = match self.speech_start {
            Some(start) => since(start, now),
            None => 0,
        };
        let threshold: u128 = if self.stable_count > 3 {
            since(STABILITY_BONUS, self.silence_duration)
        } else {
            self.silence_duration
        };
        if silence_elapsed >= threshold && utterance_duration >= self.min_utterance_duration {
            self.in_utterance = false;
            self.speech_start = None;
            self.last_partial = None;
            self.stable_count = 0;
            VadDecision::SpeechEnd
        } else {
            // Brief pause within utterance
            VadDecision::SpeechContinue
        }
    }

    /// Check if currently in an utterance.
    pub fn is_in_utterance(&self) -> (r: bool)
        ensures
            r == self@.in_utterance,
    {
        self.in_utterance
    }

    /// Reset VAD state for a new conversation turn that begins at a time.
    pub fn reset(&mut self, now: u128)
        ensures
            final(self)@ == (VadView { last_speech_time: now, ..old(self)@.at_rest() }),
            final(self)@.started(),
    {
        self.in_utterance = false;
        self.speech_start = None;
        self.last_partial = None;
        self.stable_count = 0;
        self.last_speech_time = now;
    }
}

fn since(from: u128, to: u128) -> (r: u128)
    ensures
        r == elapsed(from, to),
{
    if from <= to {
        to - from
    } else {
        0
    }
}

/// The decision tells whether there is an utterance: after a start and as long as it goes on there
/// is one, after an end and in silence there is none. Outside of an utterance a loud frame starts
/// one and a quiet one is silence, whatever the text; within one a loud frame goes on, and a quiet
/// one goes on or ends it.
pub proof fn lemma_decision_tells(
    v: VadView,
    is_speech: bool,
    partial: Option<Seq<char>>,
    now: u128,
)
    ensures
        ({
            let (after, decision) = v.after(is_speech, partial, now);
            &&& after.in_utterance == (decision == VadDecision::SpeechStart || decision
                == VadDecision::SpeechContinue)
            &&& !v.in_utterance ==> decision == if is_speech {
                VadDecision::SpeechStart
            } else {
                VadDecision::Silence
            }
            &&& v.in_utterance && is_speech ==> decision == VadDecision::SpeechContinue
            &&& v.in_utterance && !is_speech ==> decision == VadDecision::SpeechContinue || decision
                == VadDecision::SpeechEnd
        }),
{
}

/// An utterance ends only after silence of nearly the configured length, and only once it has
/// lasted as long as the configuration asks.
pub proof fn lemma_end_is_late(v: VadView, is_speech: bool, partial: Option<Seq<char>>, now: u128)
    requires
        v.after(is_speech, partial, now).1 == VadDecision::SpeechEnd,
    ensures
        elapsed(v.last_speech_time, now) + STABILITY_BONUS >= v.silence_duration,
        v.spoken_for(now) >= v.min_utterance_duration,
{
}

} // verus!
