//! What the settings are when nobody changed them, which of them are refused, and what errors say.

use crate::gabby::call::CallError;
use crate::gabby::audio::ResamplerError;
use crate::gabby::config::{
    ConfigError, ConfigFault, F32Bits, GabbyConfig, INFINITY, ONE, SIGN, TWO,
};
use crate::gabby::outcome::GabbyError;
use crate::gabby::pipeline::stt::SttError;
use crate::gabby::pipeline::tts::TtsError;
use crate::gabby::server::ServerError;
use crate::text::signed_decimal;
use vstd::prelude::*;

verus! {

/// The numbers that the bits of a float stand for, where they are compared: 1.0 has the exponent
/// 127, 2.0 the next one, infinity the greatest, and the sign is the highest bit.
pub proof fn lemma_float_bits()
    ensures
        ONE == 127 * 8388608,
        TWO == 128 * 8388608,
        INFINITY == 255 * 8388608,
        SIGN == 2147483648,
{
}

/// Zero of either sign is not negative; every other number with the sign is, infinity too; what
/// is no number is neither negative nor above anything. Above a number without a sign are those
/// without a sign whose bits are greater, up to infinity.
pub proof fn lemma_float_order(x: F32Bits, limit: u32)
    ensures
        !F32Bits(0).negative(),
        !F32Bits(2147483648).negative(),
        2147483648 < x.0 <= 4286578688 <==> x.negative(),
        x.0 > 4286578688 ==> !x.negative() && !x.above(limit),
        2139095040 < x.0 < 2147483648 ==> !x.negative() && !x.above(limit),
        x.0 <= 2139095040 ==> (x.above(limit) <==> x.0 > limit),
        x.0 >= 2147483648 ==> !x.above(limit),
{
}

/// The settings that are valid are those with a silence threshold from 0 to 1, ports that are not
/// 0, a temperature from 0 to 2, and a number of tokens and a length of silence that are not 0.
pub proof fn lemma_valid(c: GabbyConfig)
    requires
        c.vad.silence_threshold.0 <= 2139095040,
        c.llm.temperature.0 <= 2139095040,
    ensures
        c.fault() is None <==> c.vad.silence_threshold.0 <= 1065353216 && c.server.sip_port != 0
            && c.server.rtp_port_start != 0 && c.llm.temperature.0 <= 1073741824
            && c.llm.max_tokens != 0 && c.vad.silence_duration_ms != 0,
{
}

/// Where one setting alone is wrong, the fault names it.
pub proof fn lemma_fault_named(c: GabbyConfig)
    ensures
        c.fault() == Some(ConfigFault::SilenceThreshold) ==> c.vad.silence_threshold.0 > 1065353216,
        c.fault() == Some(ConfigFault::SipPort) ==> c.server.sip_port == 0,
        c.fault() == Some(ConfigFault::RtpPortStart) ==> c.server.rtp_port_start == 0,
        c.fault() == Some(ConfigFault::Temperature) ==> c.llm.temperature.0 > 1073741824,
        c.fault() == Some(ConfigFault::MaxTokens) ==> c.llm.max_tokens == 0,
        c.fault() == Some(ConfigFault::SilenceDuration) ==> c.vad.silence_duration_ms == 0,
{
}

/// Where several settings are wrong, the first is named: the threshold, the ports, the temperature,
/// the tokens, the silence.
pub proof fn lemma_first_fault(c: GabbyConfig)
    ensures
        c.vad.silence_threshold.negative() ==> c.fault() == Some(ConfigFault::SilenceThreshold),
        c.vad.silence_threshold.0 <= 1065353216 && c.server.sip_port == 0 ==> c.fault() == Some(
            ConfigFault::SipPort,
        ),
        c.vad.silence_threshold.0 <= 1065353216 && c.server.sip_port != 0 && c.server.rtp_port_start
            == 0 ==> c.fault() == Some(ConfigFault::RtpPortStart),
        c.vad.silence_threshold.0 <= 1065353216 && c.server.sip_port != 0 && c.server.rtp_port_start
            != 0 && c.llm.temperature.negative() ==> c.fault() == Some(ConfigFault::Temperature),
        c.vad.silence_threshold.0 <= 1065353216 && c.server.sip_port != 0 && c.server.rtp_port_start
            != 0 && c.llm.temperature.0 <= 1073741824 && c.llm.max_tokens == 0 ==> c.fault() == Some(
            ConfigFault::MaxTokens,
        ),
{
}

/// The settings that nobody changed.
pub proof fn lemma_defaults(c: GabbyConfig)
    requires
        c.is_default(),
    ensures
        c.server.sip_host@ == "0.0.0.0"@,
        c.server.sip_port == 5060,
        c.server.rtp_port_start == 10000,
        c.server.public_ip is None,
        c.server.call_timeout_secs is None,
        c.stt.model_path@ == "./models/vosk-model-small-en-us-0.15"@,
        c.stt.sample_rate == 16000,
        c.llm.endpoint@ == "http://localhost:11434"@,
        c.llm.model@ == "llama3.2:3b"@,
        c.llm.system_prompt@
            == "You are Gabby, a friendly and helpful voice assistant.\nKeep responses concise and natural for spoken conversation.\nAvoid markdown, bullet points, or formatting.\nRespond in 1-3 sentences."@,
        c.llm.temperature.0 == 1060320051,
        c.llm.max_tokens == 150,
        c.llm.timeout_secs == 30,
        c.llm.max_history_messages == 20,
        c.tts.piper_binary@ == "/usr/local/bin/piper"@,
        c.tts.model_path@ == "./models/en_US-amy-medium.onnx"@,
        c.tts.config_path@ == "./models/en_US-amy-medium.onnx.json"@,
        c.tts.sample_rate == 22050,
        c.tts.timeout_secs == 60,
        c.vad.silence_threshold.0 == 1017370378,
        c.vad.silence_duration_ms == 700,
        c.vad.min_utterance_ms == 500,
{
}

/// What is said of a setting that is refused.
pub proof fn lemma_fault_texts()
    ensures
        ConfigFault::SilenceThreshold.text() == "vad.silence_threshold must be between 0.0 and 1.0"@,
        ConfigFault::SipPort.text() == "server.sip_port cannot be 0"@,
        ConfigFault::RtpPortStart.text() == "server.rtp_port_start cannot be 0"@,
        ConfigFault::Temperature.text() == "llm.temperature must be between 0.0 and 2.0"@,
        ConfigFault::MaxTokens.text() == "llm.max_tokens must be greater than 0"@,
        ConfigFault::SilenceDuration.text() == "vad.silence_duration_ms must be greater than 0"@,
{
}

/// What an error says: its kind, and then what it carries.
pub proof fn lemma_error_texts(a: String, b: String, code: i32)
    ensures
        ConfigError::ReadError(a, b).text() == "Failed to read config file "@ + a@ + ": "@ + b@,
        ConfigError::ParseError(a).text() == "Failed to parse config: "@ + a@,
        ConfigError::InvalidValue(a).text() == "Invalid configuration: "@ + a@,
        SttError::ModelLoadFailed(a).text() == "Failed to load Vosk model from "@ + a@,
        SttError::InvalidPath(a).text() == "Invalid model path: "@ + a@,
        SttError::RecognizerCreationFailed.text() == "Failed to create Vosk recognizer"@,
        TtsError::BinaryNotFound(a).text() == "Piper binary not found at "@ + a@,
        TtsError::ModelNotFound(a).text() == "Piper model not found at "@ + a@,
        TtsError::SpawnFailed(a).text() == "Failed to spawn Piper process: "@ + a@,
        TtsError::IoError(a).text() == "IO error: "@ + a@,
        TtsError::SynthesisFailed(code, a).text() == "TTS synthesis failed with exit code "@
            + signed_decimal(code as int) + ": "@ + a@,
        TtsError::Timeout.text() == "TTS synthesis timed out"@,
        ResamplerError::InitFailed(a).text() == "Failed to initialize resampler: "@ + a@,
        ServerError::BindFailed(a, b).text() == "Failed to bind to "@ + a@ + ": "@ + b@,
        ServerError::IoError(a).text() == "IO error: "@ + a@,
        ServerError::ResponseBuildFailed(a).text() == "Failed to build SIP response: "@ + a@,
        CallError::Io(a).text() == "IO: "@ + a@,
{
}

/// An error inside another one is told behind the outer one's words.
pub proof fn lemma_nested_texts(c: ConfigError, s: ServerError, t: SttError, r: ResamplerError)
    ensures
        GabbyError::Config(c).text() == "Configuration error: "@ + c.text(),
        GabbyError::Server(s).text() == "Server error: "@ + s.text(),
        ServerError::SttError(t).text() == "STT error: "@ + t.text(),
        CallError::Stt(t).text() == "STT: "@ + t.text(),
        CallError::Resampler(r).text() == "Resampler: "@ + r.text(),
{
}

} // verus!
