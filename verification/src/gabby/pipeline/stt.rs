//! Speech-to-Text: what is made of a recognizer's answers.

use crate::text::concat;
use vstd::prelude::*;

verus! {

/// What a recognizer says of the audio that it was fed.
#[derive(Debug, Clone, Copy, PartialEq, Eq, Structural)]
pub enum DecodingState {
    /// The utterance goes on.
    Running,
    /// The utterance is complete.
    Finalized,
    /// The audio could not be decoded.
    Failed,
}

/// What a recognizer makes of an utterance.
#[derive(Debug, Clone)]
pub enum CompleteResult {
    /// One text.
    Single(String),
    /// Texts, the likeliest first.
    Multiple(Vec<String>),
}

/// The partial text after some audio. A recognizer that refused the audio has no state.
pub fn handle_decoding_state(state: Option<DecodingState>, partial: &str) -> (r: Option<String>)
    ensures
        match r {
            Some(text) => state == Some(DecodingState::Running) && partial@.len() > 0 && text@
                == partial@,
            None => state != Some(DecodingState::Running) || partial@.len() == 0,
        },
{
    match state {
        Some(DecodingState::Running) => partial_text_to_option(partial),
        _ => None,
    }
}

/// The text of an utterance: the only one, or the first of several.
pub fn complete_result_text(result: CompleteResult) -> (r: String)
    ensures
        r@ == match result {
            CompleteResult::Single(text) => text@,
            CompleteResult::Multiple(texts) => if texts@.len() > 0 {
                texts@[0]@
            } else {
                Seq::empty()
            },
        },
{
    match result {
        CompleteResult::Single(text) => text,
        CompleteResult::Multiple(texts) => {
            if texts.len() > 0 {
                texts[0].clone()
            } else {
                let s = String::new();
                assert(s@ =~= Seq::empty());
                s
            }
        },
    }
}

/// A text, unless it is empty.
pub fn partial_text_to_option(text: &str) -> (r: Option<String>)
    ensures
        match r {
            Some(t) => text@.len() > 0 && t@ == text@,
            None => text@.len() == 0,
        },
{
    if text.is_empty() {
        None
    } else {
        Some(text.to_owned())
    }
}

/// STT-related errors.
#[derive(Debug, Clone)]
pub enum SttError {
    /// Where the model is.
    ModelLoadFailed(String),
    /// The path.
    InvalidPath(String),
    RecognizerCreationFailed,
}

impl SttError {
    /// What the error says.
    pub open spec fn text(self) -> Seq<char> {
        match self {
            SttError::ModelLoadFailed(path) => "Failed to load Vosk model from "@ + path@,
            SttError::InvalidPath(path) => "Invalid model path: "@ + path@,
            SttError::RecognizerCreationFailed => "Failed to create Vosk recognizer"@,
        }
    }

    /// What the error says.
    pub fn describe(&self) -> (r: String)
        ensures
            r@ == self.text(),
    {
        match self {
            SttError::ModelLoadFailed(path) => concat(
                "Failed to load Vosk model from ",
                path.as_str(),
            ),
            SttError::InvalidPath(path) => concat("Invalid model path: ", path.as_str()),
            SttError::RecognizerCreationFailed => "Failed to create Vosk recognizer".to_owned(),
        }
    }
}

} // verus!
