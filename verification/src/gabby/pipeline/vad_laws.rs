//! What voice activity detection promises over a course of frames.

use super::vad::{VadDecision, VadView};
use vstd::prelude::*;

verus! {

/// A frame: whether it is loud, the partial text at its time, and the time.
pub struct Frame {
    pub loud: bool,
    pub partial: Option<Seq<char>>,
    pub now: u128,
}

/// The state after a course of frames.
pub open spec fn run(v: VadView, frames: Seq<Frame>) -> VadView
    decreases frames.len(),
{
    if frames.len() == 0 {
        v
    } else {
        let f = frames.last();
        run(v, frames.drop_last()).after(f.loud, f.partial, f.now).0
    }
}

/// Whether time does not run back over the frames, nor behind them up to `now`.
pub open spec fn in_time(frames: Seq<Frame>, now: u128) -> bool {
    &&& forall|i: int, j: int|
        #![trigger frames[i], frames[j]]
        0 <= i <= j < frames.len() ==> frames[i].now <= frames[j].now
    &&& forall|i: int| 0 <= i < frames.len() ==> (#[trigger] frames[i]).now <= now
}

/// A loud frame renews the time of the last speech, be it the first of an utterance or one within
/// it. Within an utterance a new partial text does so too. A quiet frame without one leaves it.
pub proof fn lemma_speech_renews(v: VadView, loud: bool, partial: Option<Seq<char>>, now: u128)
    ensures
        loud ==> v.after(loud, partial, now).0.last_speech_time == now,
        v.in_utterance && partial is Some && partial != v.last_partial ==> v.after(
            loud,
            partial,
            now,
        ).0.last_speech_time == now,
        !loud && (partial is None || partial == v.last_partial) ==> v.after(
            loud,
            partial,
            now,
        ).0.last_speech_time == v.last_speech_time,
{
}

/// The last speech is no earlier than any loud frame that was heard.
proof fn lemma_no_earlier(v: VadView, frames: Seq<Frame>, now: u128, j: int)
    requires
        in_time(frames, now),
        0 <= j < frames.len(),
        frames[j].loud,
    ensures
        run(v, frames).last_speech_time >= frames[j].now,
    decreases frames.len(),
{
    let init = frames.drop_last();
    let last = frames[frames.len() - 1];
    assert(frames[j].now <= last.now);
    if j < init.len() {
        assert(in_time(init, now)) by {
            assert forall|a: int, b: int|
                #![trigger init[a], init[b]]
                0 <= a <= b < init.len() implies init[a].now <= init[b].now by {
                assert(frames[a].now <= frames[b].now);
            }
            assert forall|a: int| 0 <= a < init.len() implies (#[trigger] init[a]).now <= now by {
                assert(frames[a].now <= now);
            }
        }
        assert(init[j] == frames[j]);
        lemma_no_earlier(v, init, now, j);
    }
}

/// The durations never change.
proof fn lemma_settings_stay(v: VadView, frames: Seq<Frame>)
    ensures
        run(v, frames).silence_duration == v.silence_duration,
        run(v, frames).min_utterance_duration == v.min_utterance_duration,
    decreases frames.len(),
{
    if frames.len() > 0 {
        lemma_settings_stay(v, frames.drop_last());
    }
}

/// A caller who speaks is not cut off: an utterance ends only where no loud frame was heard for the
/// silence that is configured, less 200 ms at most, whatever frames came before.
pub proof fn lemma_not_cut_off(
    v: VadView,
    frames: Seq<Frame>,
    loud: bool,
    partial: Option<Seq<char>>,
    now: u128,
    j: int,
)
    requires
        in_time(frames, now),
        0 <= j < frames.len(),
        frames[j].loud,
        run(v, frames).after(loud, partial, now).1 == VadDecision::SpeechEnd,
    ensures
        !loud,
        now - frames[j].now + 200_000_000 >= v.silence_duration,
{
    lemma_no_earlier(v, frames, now, j);
    lemma_settings_stay(v, frames);
}

/// Without a text that stands still, an utterance ends only after the whole silence that is
/// configured.
pub proof fn lemma_whole_silence(v: VadView, loud: bool, partial: Option<Seq<char>>, now: u128)
    requires
        v.after(loud, partial, now).1 == VadDecision::SpeechEnd,
        v.stable_count < 3 || (v.stable_count == 3 && partial is None),
        v.last_speech_time <= now,
    ensures
        now - v.last_speech_time >= v.silence_duration,
        v.in_utterance,
        v.speech_start matches Some(t) ==> now - t >= v.min_utterance_duration
            || v.min_utterance_duration == 0,
{
}

/// The end does come: a quiet frame without a new text ends the utterance once the silence has
/// lasted as long as configured and the utterance as long as it must. With a text that has stood
/// still for more than three frames, 200 ms less are enough.
pub proof fn lemma_end_comes(v: VadView, partial: Option<Seq<char>>, start: u128, now: u128)
    requires
        v.in_utterance,
        v.speech_start == Some(start),
        partial is None || partial == v.last_partial,
        start <= now,
        v.last_speech_time <= now,
        now - start >= v.min_utterance_duration,
        v.stable_count < u32::MAX,
    ensures
        now - v.last_speech_time >= v.silence_duration ==> v.after(false, partial, now).1
            == VadDecision::SpeechEnd,
        v.stable_count > 3 && now - v.last_speech_time + 200_000_000 >= v.silence_duration
            ==> v.after(false, partial, now).1 == VadDecision::SpeechEnd,
        v.stable_count == 3 && partial is Some && now - v.last_speech_time + 200_000_000
            >= v.silence_duration ==> v.after(false, partial, now).1 == VadDecision::SpeechEnd,
{
}

/// The utterance lasts from its first loud frame: a start notes the time and forgets the text, an
/// end forgets both, and nothing between moves the start.
pub proof fn lemma_utterance(v: VadView, loud: bool, partial: Option<Seq<char>>, now: u128)
    ensures
        ({
            let (w, decision) = v.after(loud, partial, now);
            &&& decision == VadDecision::SpeechStart ==> w.speech_start == Some(now)
                && w.last_partial is None && w.stable_count == 0 && w.in_utterance
            &&& decision == VadDecision::SpeechEnd ==> w.speech_start is None && w.last_partial
                is None && w.stable_count == 0 && !w.in_utterance
            &&& decision == VadDecision::SpeechContinue || decision == VadDecision::Silence
                ==> w.speech_start == v.speech_start && w.in_utterance == v.in_utterance
            &&& w.silence_duration == v.silence_duration
            &&& w.min_utterance_duration == v.min_utterance_duration
        }),
{
}

/// The text: the same again is counted, a new one is noted and counted from zero, none leaves both,
/// as long as the utterance neither starts nor ends.
pub proof fn lemma_text_noted(v: VadView, loud: bool, partial: Option<Seq<char>>, now: u128)
    requires
        v.stable_count < u32::MAX,
        v.after(loud, partial, now).1 == VadDecision::SpeechContinue || v.after(
            loud,
            partial,
            now,
        ).1 == VadDecision::Silence,
    ensures
        ({
            let w = v.after(loud, partial, now).0;
            &&& partial is None ==> w.last_partial == v.last_partial && w.stable_count
                == v.stable_count
            &&& partial is Some ==> w.last_partial == partial
            &&& partial is Some && partial == v.last_partial ==> w.stable_count == v.stable_count
                + 1
            &&& partial is Some && partial != v.last_partial ==> w.stable_count == 0
        }),
{
}

/// How long an utterance has gone on: since it began, and not at all before one has.
pub proof fn lemma_utterance_length(v: VadView, now: u128)
    ensures
        v.speech_start is None ==> v.spoken_for(now) == 0,
        v.speech_start is Some && v.speech_start->0 <= now ==> v.spoken_for(now) == now
            - v.speech_start->0,
        v.speech_start is Some && v.speech_start->0 > now ==> v.spoken_for(now) == 0,
        v.started() <==> (v.in_utterance <==> v.speech_start is Some),
{
}

} // verus!
