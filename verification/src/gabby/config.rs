//! Configuration types for the Gabby voice AI agent.

use crate::text::concat;
use vstd::prelude::*;

verus! {

/// A single-precision number by its bits, as IEEE 754 lays them out.
#[derive(Debug, Clone, Copy, PartialEq, Eq, Structural)]
pub struct F32Bits(pub u32);

/// The bits of 1.0.
pub const ONE: u32 = 0x3F80_0000;

/// The bits of 2.0.
pub const TWO: u32 = 0x4000_0000;

/// The bits of infinity.
pub const INFINITY: u32 = 0x7F80_0000;

/// The bit of the sign.
pub const SIGN: u32 = 0x8000_0000;

impl F32Bits {
    /// Whether the number is less than zero: the sign is set, and behind it stands neither a zero
    /// nor something that is no number.
    pub open spec fn negative(self) -> bool {
        SIGN < self.0 <= SIGN + INFINITY
    }

    /// Whether the number is greater than a positive one, given by its bits. Numbers without sign
    /// are in the order of their bits; what is no number comes behind infinity.
    pub open spec fn above(self, bits: u32) -> bool {
        bits < self.0 <= INFINITY
    }

    /// Whether the number is less than zero or greater than a positive one.
    pub fn is_outside(&self, bits: u32) -> (r: bool)
        ensures
            r == (self.negative() || self.above(bits)),
    {
        SIGN < self.0 && self.0 <= SIGN + INFINITY || bits < self.0 && self.0 <= INFINITY
    }
}

/// Top-level configuration for Gabby.
#[derive(Debug, Clone)]
pub struct GabbyConfig {
    pub server: ServerConfig,
    pub stt: SttConfig,
    pub llm: LlmConfig,
    pub tts: TtsConfig,
    pub vad: VadConfig,
}

impl Default for GabbyConfig {
    fn default() -> (r: Self)
        ensures
            r.is_default(),
    {
        GabbyConfig {
            server: ServerConfig::default(),
            stt: SttConfig::default(),
            llm: LlmConfig::default(),
            tts: TtsConfig::default(),
            vad: VadConfig::default(),
        }
    }
}

/// What is wrong with a configuration.
pub enum ConfigFault {
    SilenceThreshold,
    SipPort,
    RtpPortStart,
    Temperature,
    MaxTokens,
    SilenceDuration,
}

impl ConfigFault {
    /// What the fault says.
    pub open spec fn text(self) -> Seq<char> {
        match self {
            ConfigFault::SilenceThreshold => "vad.silence_threshold must be between 0.0 and 1.0"@,
            ConfigFault::SipPort => "server.sip_port cannot be 0"@,
            ConfigFault::RtpPortStart => "server.rtp_port_start cannot be 0"@,
            ConfigFault::Temperature => "llm.temperature must be between 0.0 and 2.0"@,
            ConfigFault::MaxTokens => "llm.max_tokens must be greater than 0"@,
            ConfigFault::SilenceDuration => "vad.silence_duration_ms must be greater than 0"@,
        }
    }
}

impl GabbyConfig {
    /// The configuration without a file.
    pub open spec fn is_default(self) -> bool {
        &&& self.server.is_default()
        &&& self.stt.is_default()
        &&& self.llm.is_default()
        &&& self.tts.is_default()
        &&& self.vad.is_default()
    }

    /// The first thing that is wrong with the configuration.
    pub open spec fn fault(self) -> Option<ConfigFault> {
        if self.vad.silence_threshold.negative() || self.vad.silence_threshold.above(ONE) {
            Some(ConfigFault::SilenceThreshold)
        } else if self.server.sip_port == 0 {
            Some(ConfigFault::SipPort)
        } else if self.server.rtp_port_start == 0 {
            Some(ConfigFault::RtpPortStart)
        } else if self.llm.temperature.negative() || self.llm.temperature.above(TWO) {
            Some(ConfigFault::Temperature)
        } else if self.llm.max_tokens == 0 {
            Some(ConfigFault::MaxTokens)
        } else if self.vad.silence_duration_ms == 0 {
            Some(ConfigFault::SilenceDuration)
        } else {
            None
        }
    }

    /// Validate configuration values.
    pub fn validate(&self) -> (r: Result<(), ConfigError>)
        ensures
            match r {
                Ok(()) => self.fault() is None,
                Err(ConfigError::InvalidValue(message)) => self.fault() is Some && message@
                    == self.fault()->Some_0.text(),
                Err(_) => false,
            },
    {
        // VAD thresholds
        if self.vad.silence_threshold.is_outside(ONE) {
            return Err(
                ConfigError::InvalidValue(
                    "vad.silence_threshold must be between 0.0 and 1.0".to_owned(),
                ),
            );
        }
        // Server ports

        if self.server.sip_port == 0 {
            return Err(ConfigError::InvalidValue("server.sip_port cannot be 0".to_owned()));
        }
        if self.server.rtp_port_start == 0 {
            return Err(ConfigError::InvalidValue("server.rtp_port_start cannot be 0".to_owned()));
        }
        // LLM settings

        if self.llm.temperature.is_outside(TWO) {
            return Err(
                ConfigError::InvalidValue("llm.temperature must be between 0.0 and 2.0".to_owned()),
            );
        }
        if self.llm.max_tokens == 0 {
            return Err(
                ConfigError::InvalidValue("llm.max_tokens must be greater than 0".to_owned()),
            );
        }
        // VAD timing

        if self.vad.silence_duration_ms == 0 {
            return Err(
                ConfigError::InvalidValue(
                    "vad.silence_duration_ms must be greater than 0".to_owned(),
                ),
            );
        }
        Ok(())
    }

    /// The configuration to run with: what was loaded, or the default where there is no file to
    /// load from. Validates configuration after loading.
    pub fn load_or_default(loaded: Option<Result<Self, ConfigError>>) -> (r: Result<
        Self,
        ConfigError,
    >)
        ensures
            match loaded {
                Some(Ok(config)) => match r {
                    Ok(c) => c == config && config.fault() is None,
                    Err(ConfigError::InvalidValue(message)) => config.fault() is Some && message@
                        == config.fault()->Some_0.text(),
                    Err(_) => false,
                },
                Some(Err(e)) => r == Err::<Self, ConfigError>(e),
                None => r matches Ok(c) && c.is_default(),
            },
            r matches Ok(c) ==> c.fault() is None,
    {
        let config: GabbyConfig = match loaded {
            Some(Ok(config)) => config,
            Some(Err(e)) => return Err(e),
            None => Self::default(),
        };
        match config.validate() {
            Ok(()) => Ok(config),
            Err(e) => Err(e),
        }
    }
}

/// Server configuration for SIP/RTP.
#[derive(Debug, Clone)]
pub struct ServerConfig {
    /// Host to bind SIP socket to.
    pub sip_host: String,
    /// Port to listen for SIP messages.
    pub sip_port: u16,
    /// Starting port for RTP streams.
    pub rtp_port_start: u16,
    /// Public IP to advertise in SDP (auto-detect if not set).
    pub public_ip: Option<String>,
    /// Call timeout in seconds (default: 300 = 5 minutes).
    pub call_timeout_secs: Option<u64>,
}

impl ServerConfig {
    pub open spec fn is_default(self) -> bool {
        &&& self.sip_host@ == "0.0.0.0"@
        &&& self.sip_port == 5060
        &&& self.rtp_port_start == 10000
        &&& self.public_ip is None
        &&& self.call_timeout_secs is None
    }
}

impl Default for ServerConfig {
    fn default() -> (r: Self)
        ensures
            r.is_default(),
    {
        ServerConfig {
            sip_host: "0.0.0.0".to_owned(),
            sip_port: 5060,
            rtp_port_start: 10000,
            public_ip: None,
            call_timeout_secs: None,
        }
    }
}

/// Speech-to-Text configuration (Vosk).
#[derive(Debug, Clone)]
pub struct SttConfig {
    /// Path to Vosk model directory.
    pub model_path: String,
    /// Sample rate for STT (Vosk expects 16000).
    pub sample_rate: u32,
}

impl SttConfig {
    pub open spec fn is_default(self) -> bool {
        &&& self.model_path@ == "./models/vosk-model-small-en-us-0.15"@
        &&& self.sample_rate == 16000
    }
}

impl Default for SttConfig {
    fn default() -> (r: Self)
        ensures
            r.is_default(),
    {
        SttConfig {
            model_path: "./models/vosk-model-small-en-us-0.15".to_owned(),
            sample_rate: 16000,
        }
    }
}

/// LLM configuration (Ollama).
#[derive(Debug, Clone)]
pub struct LlmConfig {
    /// Ollama API endpoint.
    pub endpoint: String,
    /// Model to use.
    pub model: String,
    /// System prompt defining Gabby's personality.
    pub system_prompt: String,
    /// Temperature for response generation.
    pub temperature: F32Bits,
    /// Maximum tokens in response.
    pub max_tokens: u32,
    /// Timeout for LLM requests in seconds.
    pub timeout_secs: u64,
    /// Maximum number of messages to keep in conversation history.
    pub max_history_messages: usize,
}

impl LlmConfig {
    /// The temperature is 0.7.
    pub open spec fn is_default(self) -> bool {
        &&& self.endpoint@ == "http://localhost:11434"@
        &&& self.model@ == "llama3.2:3b"@
        &&& self.system_prompt@
            == "You are Gabby, a friendly and helpful voice assistant.\nKeep responses concise and natural for spoken conversation.\nAvoid markdown, bullet points, or formatting.\nRespond in 1-3 sentences."@
        &&& self.temperature == F32Bits(0x3F33_3333)
        &&& self.max_tokens == 150
        &&& self.timeout_secs == 30
        &&& self.max_history_messages == 20
    }
}

impl Default for LlmConfig {
    fn default() -> (r: Self)
        ensures
            r.is_default(),
    {
        LlmConfig {
            endpoint: "http://localhost:11434".to_owned(),
            model: "llama3.2:3b".to_owned(),
            system_prompt:
                "You are Gabby, a friendly and helpful voice assistant.\nKeep responses concise and natural for spoken conversation.\nAvoid markdown, bullet points, or formatting.\nRespond in 1-3 sentences.".to_owned(),
            temperature: F32Bits(0x3F33_3333),
            max_tokens: 150,
            timeout_secs: 30,
            max_history_messages: 20,
        }
    }
}

/// Text-to-Speech configuration (Piper).
#[derive(Debug, Clone)]
pub struct TtsConfig {
    /// Path to Piper binary.
    pub piper_binary: String,
    /// Path to Piper ONNX model.
    pub model_path: String,
    /// Path to Piper model config JSON.
    pub config_path: String,
    /// Output sample rate of Piper model.
    pub sample_rate: u32,
    /// Timeout for TTS synthesis in seconds.
    pub timeout_secs: u64,
}

impl TtsConfig {
    pub open spec fn is_default(self) -> bool {
        &&& self.piper_binary@ == "/usr/local/bin/piper"@
        &&& self.model_path@ == "./models/en_US-amy-medium.onnx"@
        &&& self.config_path@ == "./models/en_US-amy-medium.onnx.json"@
        &&& self.sample_rate == 22050
        &&& self.timeout_secs == 60
    }
}

impl Default for TtsConfig {
    fn default() -> (r: Self)
        ensures
            r.is_default(),
    {
        TtsConfig {
            piper_binary: "/usr/local/bin/piper".to_owned(),
            model_path: "./models/en_US-amy-medium.onnx".to_owned(),
            config_path: "./models/en_US-amy-medium.onnx.json".to_owned(),
            sample_rate: 22050,
            timeout_secs: 60,
        }
    }
}

/// Voice Activity Detection configuration.
#[derive(Debug, Clone)]
pub struct VadConfig {
    /// RMS energy threshold for silence detection (0.0-1.0).
    pub silence_threshold: F32Bits,
    /// Duration of silence (ms) to consider end of utterance.
    pub silence_duration_ms: u64,
    /// Minimum utterance duration (ms) before accepting.
    pub min_utterance_ms: u64,
}

impl VadConfig {
    /// The threshold is 0.02.
    pub open spec fn is_default(self) -> bool {
        &&& self.silence_threshold == F32Bits(0x3CA3_D70A)
        &&& self.silence_duration_ms == 700
        &&& self.min_utterance_ms == 500
    }
}

impl Default for VadConfig {
    fn default() -> (r: Self)
        ensures
            r.is_default(),
    {
        VadConfig {
            silence_threshold: F32Bits(0x3CA3_D70A),
            silence_duration_ms: 700,
            min_utterance_ms: 500,
        }
    }
}

/// Configuration errors.
#[derive(Debug, Clone)]
pub enum ConfigError {
    /// A file, and why it cannot be read.
    ReadError(String, String),
    /// Why a file says nothing.
    ParseError(String),
    /// What is wrong with a value.
    InvalidValue(String),
}

impl ConfigError {
    /// What the error says.
    pub open spec fn text(self) -> Seq<char> {
        match self {
            ConfigError::ReadError(path, e) => "Failed to read config file "@ + path@ + ": "@ + e@,
            ConfigError::ParseError(e) => "Failed to parse config: "@ + e@,
            ConfigError::InvalidValue(m) => "Invalid configuration: "@ + m@,
        }
    }

    /// What the error says.
    pub fn describe(&self) -> (r: String)
        ensures
            r@ == self.text(),
    {
        match self {
            ConfigError::ReadError(path, e) => {
                let mut s: String = concat("Failed to read config file ", path.as_str());
                s.append(": ");
                s.append(e.as_str());
                s
            },
            ConfigError::ParseError(e) => concat("Failed to parse config: ", e.as_str()),
            ConfigError::InvalidValue(m) => concat("Invalid configuration: ", m.as_str()),
        }
    }
}

/// What the command line says.
#[derive(Debug, Clone)]
pub struct Cli {
    /// Configuration file path
    pub config: String,
    /// SIP port to listen on (overrides config)
    pub port: Option<u16>,
    /// Log level (trace, debug, info, warn, error)
    pub log_level: String,
}

/// Lets the command line overrule the configuration.
pub fn apply_cli_overrides(config: &mut GabbyConfig, cli: &Cli)
    ensures
        *final(config) == (GabbyConfig {
            server: ServerConfig {
                sip_port: match cli.port {
                    Some(port) => port,
                    None => old(config).server.sip_port,
                },
                ..old(config).server
            },
            ..*old(config)
        }),
{
    if let Some(port) = cli.port {
        config.server.sip_port = port;
    }
}

/// The configuration that nobody has changed is valid.
pub proof fn lemma_default_valid(config: GabbyConfig)
    requires
        config.is_default(),
    ensures
        config.fault() is None,
{
}

} // verus!
