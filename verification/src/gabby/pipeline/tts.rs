//! Text-to-Speech with Piper.
//!
//! What Piper is run with, and what is made of what it leaves.

use crate::gabby::config::TtsConfig;
use crate::pcm::{samples_from, samples_of};
use crate::text::{
    concat, from_utf8_lossy, push_signed, signed_decimal, texts, trim, trimmed, utf8_lossy,
};
use vstd::prelude::*;

verus! {

/// Text-to-Speech processor wrapping Piper.
#[derive(Debug, Clone)]
pub struct TtsProcessor {
    pub piper_binary: String,
    pub model_path: String,
    pub config_path: String,
    pub sample_rate: u32,
    pub timeout_secs: u64,
}

/// What came of running Piper.
#[derive(Debug, Clone)]
pub enum PiperOutcome {
    /// It could not be started, in the system's words.
    SpawnFailed(String),
    /// It could not be spoken to, in the system's words.
    IoError(String),
    /// It took too long.
    TimedOut,
    /// It ended: whether well, with which code, and what it wrote.
    Ended(bool, Option<i32>, Vec<u8>, Vec<u8>),
}

impl TtsProcessor {
    /// Create a new TTS processor from configuration, given whether the files that it names are
    /// there.
    pub fn new(config: &TtsConfig, binary_exists: bool, model_exists: bool) -> (r: Result<
        Self,
        TtsError,
    >)
        ensures
            match r {
                Ok(tts) => binary_exists && model_exists && tts.piper_binary@
                    == config.piper_binary@ && tts.model_path@ == config.model_path@
                    && tts.config_path@ == config.config_path@ && tts.sample_rate
                    == config.sample_rate && tts.timeout_secs == config.timeout_secs,
                Err(TtsError::BinaryNotFound(path)) => !binary_exists && path@
                    == config.piper_binary@,
                Err(TtsError::ModelNotFound(path)) => binary_exists && !model_exists && path@
                    == config.model_path@,
                Err(_) => false,
            },
    {
        if !binary_exists {
            return Err(TtsError::BinaryNotFound(config.piper_binary.clone()));
        }
        if !model_exists {
            return Err(TtsError::ModelNotFound(config.model_path.clone()));
        }
        Ok(
            TtsProcessor {
                piper_binary: config.piper_binary.clone(),
                model_path: config.model_path.clone(),
                config_path: config.config_path.clone(),
                sample_rate: config.sample_rate,
                timeout_secs: config.timeout_secs,
            },
        )
    }

    /// What Piper is run with to speak a text, given whether its configuration is there. There is
    /// nothing to run where the text is blank.
    pub fn arguments(&self, text: &str, config_exists: bool) -> (r: Option<Vec<String>>)
        ensures
            match r {
                Some(args) => trimmed(text@).len() > 0 && texts(args@) == if config_exists {
                    seq![
                        "--model"@,
                        self.model_path@,
                        "--output-raw"@,
                        "--config"@,
                        self.config_path@,
                    ]
                } else {
                    seq!["--model"@, self.model_path@, "--output-raw"@]
                },
                None => trimmed(text@).len() == 0,
            },
    {
        if trim(text).is_empty() {
            return None;
        }
        let mut args: Vec<String> = Vec::new();
        args.push("--model".to_owned());
        args.push(self.model_path.clone());
        args.push("--output-raw".to_owned());
        if config_exists {
            args.push("--config".to_owned());
            args.push(self.config_path.clone());
        }
        assert(texts(args@) =~= if config_exists {
            seq![
                "--model"@,
                self.model_path@,
                "--output-raw"@,
                "--config"@,
                self.config_path@,
            ]
        } else {
            seq!["--model"@, self.model_path@, "--output-raw"@]
        });
        Some(args)
    }

    /// The samples that Piper wrote, or why there are none. Without an exit code the code is -1.
    pub fn on_outcome(&self, outcome: PiperOutcome) -> (r: Result<Vec<i16>, TtsError>)
        ensures
            match outcome {
                PiperOutcome::SpawnFailed(e) => r matches Err(TtsError::SpawnFailed(m)) && m == e,
                PiperOutcome::IoError(e) => r matches Err(TtsError::IoError(m)) && m == e,
                PiperOutcome::TimedOut => r matches Err(TtsError::Timeout),
                PiperOutcome::Ended(success, code, stdout, stderr) => if success {
                    r matches Ok(samples) && samples@ == samples_of(stdout@)
                } else {
                    r matches Err(TtsError::SynthesisFailed(c, m)) && c == (match code {
                        Some(n) => n as int,
                        None => -1,
                    }) && m@ == utf8_lossy(stderr@)
                },
            },
    {
        match outcome {
            PiperOutcome::SpawnFailed(e) => Err(TtsError::SpawnFailed(e)),
            PiperOutcome::IoError(e) => Err(TtsError::IoError(e)),
            PiperOutcome::TimedOut => Err(TtsError::Timeout),
            PiperOutcome::Ended(success, code, stdout, stderr) => {
                if success {
                    Ok(samples_from(stdout.as_slice()))
                } else {
                    let code: i32 = match code {
                        Some(n) => n,
                        None => -1,
                    };
                    Err(TtsError::SynthesisFailed(code, from_utf8_lossy(stderr.as_slice())))
                }
            },
        }
    }

    /// Get the output sample rate of the TTS model.
    pub fn sample_rate(&self) -> (r: u32)
        ensures
            r == self.sample_rate,
    {
        self.sample_rate
    }
}

/// Whether Piper works, judged by what came of a trial text: it does if there is sound.
pub fn is_healthy(trial: &Result<Vec<i16>, TtsError>) -> (r: bool)
    ensures
        r == match trial {
            Ok(samples) => samples@.len() > 0,
            Err(_) => false,
        },
{
    match trial {
        Ok(samples) => samples.len() > 0,
        Err(_) => false,
    }
}

/// Create a TTS processor that may be unavailable.
///
/// Returns None if Piper is not installed, allowing graceful degradation.
pub fn try_create_tts(config: &TtsConfig, binary_exists: bool, model_exists: bool) -> (r: Option<
    TtsProcessor,
>)
    ensures
        match r {
            Some(tts) => binary_exists && model_exists && tts.piper_binary@ == config.piper_binary@
                && tts.model_path@ == config.model_path@ && tts.config_path@ == config.config_path@
                && tts.sample_rate == config.sample_rate && tts.timeout_secs
                == config.timeout_secs,
            None => !binary_exists || !model_exists,
        },
{
    match TtsProcessor::new(config, binary_exists, model_exists) {
        Ok(tts) => Some(tts),
        Err(_) => None,
    }
}

/// TTS-related errors.
#[derive(Debug, Clone)]
pub enum TtsError {
    BinaryNotFound(String),
    ModelNotFound(String),
    SpawnFailed(String),
    IoError(String),
    SynthesisFailed(i32, String),
    Timeout,
}

impl TtsError {
    /// What the error says.
    pub open spec fn text(self) -> Seq<char> {
        match self {
            TtsError::BinaryNotFound(path) => "Piper binary not found at "@ + path@,
            TtsError::ModelNotFound(path) => "Piper model not found at "@ + path@,
            TtsError::SpawnFailed(e) => "Failed to spawn Piper process: "@ + e@,
            TtsError::IoError(e) => "IO error: "@ + e@,
            TtsError::SynthesisFailed(code, e) => "TTS synthesis failed with exit code "@
                + signed_decimal(code as int) + ": "@ + e@,
            TtsError::Timeout => "TTS synthesis timed out"@,
        }
    }

    /// What the error says.
    pub fn describe(&self) -> (r: String)
        ensures
            r@ == self.text(),
    {
        match self {
            TtsError::BinaryNotFound(path) => concat("Piper binary not found at ", path.as_str()),
            TtsError::ModelNotFound(path) => concat("Piper model not found at ", path.as_str()),
            TtsError::SpawnFailed(e) => concat("Failed to spawn Piper process: ", e.as_str()),
            TtsError::IoError(e) => concat("IO error: ", e.as_str()),
            TtsError::SynthesisFailed(code, e) => {
                let mut s: String = "TTS synthesis failed with exit code ".to_owned();
                push_signed(&mut s, *code);
                s.append(": ");
                s.append(e.as_str());
                s
            },
            TtsError::Timeout => "TTS synthesis timed out".to_owned(),
        }
    }
}

} // verus!
