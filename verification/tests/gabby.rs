//! The voice assistant: its server, its calls and its pipeline.

use rsiprtp::gabby::audio::{find_sentence_boundary, generate_silence, sum_of_squares, Resampler};
use rsiprtp::gabby::audio::ResamplerError;
use rsiprtp::gabby::call::{
    greeting, is_turn, CallError, CallHandler, MAX_OUTPUT_BUFFER_SAMPLES, MAX_STT_BUFFER_SAMPLES,
    MAX_VAD_BUFFER_SAMPLES,
};
use rsiprtp::gabby::config::{
    apply_cli_overrides, Cli, ConfigError, F32Bits, GabbyConfig, LlmConfig, TtsConfig, VadConfig,
};
use rsiprtp::gabby::outcome::{handle_server_result, GabbyError};
use rsiprtp::gabby::pipeline::llm::{ChatReply, Message, OllamaClient};
use rsiprtp::gabby::pipeline::stt::{
    complete_result_text, handle_decoding_state, partial_text_to_option, CompleteResult,
    DecodingState, SttError,
};
use rsiprtp::gabby::pipeline::tts::{
    is_healthy, try_create_tts, PiperOutcome, TtsError, TtsProcessor,
};
use rsiprtp::gabby::pipeline::vad::{VadDecision, VadState};
use rsiprtp::gabby::reply::write_reply;
use rsiprtp::gabby::sdp::{
    audio_port_in, build_sdp_answer, connection_ip_in, extract_sdp_audio_port,
    extract_sdp_connection_ip, sdp_answer, session_id, session_named,
};
use rsiprtp::gabby::server::{
    remote_rtp_text, resolve_remote_rtp_addr, GabbyServer, IncomingCall, InviteAction, InviteStage,
    MessageAction, Reply, ServerError,
};
use rsiprtp::gabby::ulaw::{decode_ulaw, encode_ulaw};
use rsiprtp::media::codec::g711::G711Codec;
use rsiprtp::net::{IpAddr, SocketAddr};
use rsiprtp::rtp::packet::RtpPacket;
use rsiprtp::sip::{SipMessage, SipRequest};
use rsiprtp::sip_text::parse_message;

const MILLI: u128 = 1_000_000;

/// Loudness: the root of the mean square, as a part of full scale.
fn calculate_rms(samples: &[i16]) -> f32 {
    if samples.is_empty() {
        return 0.0;
    }
    let mean = sum_of_squares(samples) as f64 / samples.len() as f64;
    (mean.sqrt() / i16::MAX as f64) as f32
}

fn is_silence(samples: &[i16], threshold: f32) -> bool {
    calculate_rms(samples) < threshold
}

/// A voice activity detector that hears samples.
struct Listener {
    vad: VadState,
    threshold: f32,
    now: u128,
}

impl Listener {
    fn new(config: &VadConfig) -> Self {
        let now = 1_000_000 * MILLI;
        Listener {
            vad: VadState::new(config, now),
            threshold: f32::from_bits(config.silence_threshold.0),
            now,
        }
    }

    fn process(&mut self, samples: &[i16], partial_text: Option<&str>) -> VadDecision {
        let is_speech = calculate_rms(samples) > self.threshold;
        self.vad.process(is_speech, partial_text, self.now)
    }
}

fn build_server(config: GabbyConfig) -> GabbyServer {
    GabbyServer::new(config, "127.0.0.1:5060".to_string(), "127.0.0.1".to_string())
}

fn request_bytes(method: &str, call_id: &str, sdp: &str) -> Vec<u8> {
    format!(
        "{method} sip:gabby@localhost SIP/2.0\r\n\
Via: SIP/2.0/UDP 127.0.0.1:5060;branch=z9hG4bKtest\r\n\
From: <sip:alice@localhost>;tag=fromtag\r\n\
To: <sip:gabby@localhost>\r\n\
Call-ID: {call_id}\r\n\
CSeq: 1 {method}\r\n\
Content-Length: {}\r\n\
\r\n{sdp}",
        sdp.len()
    )
    .into_bytes()
}

fn build_request(method: &str, call_id: &str) -> Option<SipMessage> {
    parse_message(&request_bytes(method, call_id, ""))
}

fn build_invite_with_sdp(call_id: &str, sdp: &str) -> SipRequest {
    match parse_message(&request_bytes("INVITE", call_id, sdp)) {
        Some(SipMessage::Request(request)) => request,
        _ => panic!("expected a request"),
    }
}

/// Does what the server says about a message, with every response sent. Returns the responses.
fn handle(server: &mut GabbyServer, message: Option<SipMessage>) -> Vec<Reply> {
    let mut replies = Vec::new();
    match server.handle_sip_message(message) {
        MessageAction::Ignore => {}
        MessageAction::Answer(reply) => replies.push(reply),
        MessageAction::CloseCall(call_id, reply) => {
            replies.push(reply);
            server.handle_call_end(&call_id);
        }
        MessageAction::TakeCall(mut call) => take(server, &mut call, &mut replies),
    }
    replies
}

fn take(server: &mut GabbyServer, call: &mut IncomingCall, replies: &mut Vec<Reply>) {
    loop {
        match server.handle_invite(call, true, 42) {
            InviteAction::Send(reply) => replies.push(reply),
            InviteAction::Start(_) | InviteAction::Done => return,
        }
    }
}

fn has_call(server: &GabbyServer, call_id: &str) -> bool {
    server.active_calls.get(&call_id.to_string()).is_some()
}

#[test]
fn test_calculate_rms() {
    let silence = vec![0i16; 160];
    assert!(calculate_rms(&silence) < 0.001);

    let loud: Vec<i16> = (0..160)
        .map(|i| if i % 2 == 0 { 16000 } else { -16000 })
        .collect();
    assert!(calculate_rms(&loud) > 0.4);
}

#[test]
fn test_find_sentence_boundary() {
    assert_eq!(find_sentence_boundary("Hello."), Some(6));
    assert_eq!(find_sentence_boundary("Hello. World"), Some(6));
    assert_eq!(find_sentence_boundary("Hello"), None);
    assert_eq!(find_sentence_boundary("What? Yes!"), Some(5));
}

#[test]
fn test_is_silence() {
    let silence = vec![0i16; 160];
    assert!(is_silence(&silence, 0.01));

    let noise: Vec<i16> = (0..160).map(|i| (i * 100) as i16).collect();
    assert!(!is_silence(&noise, 0.01));
}

#[test]
fn test_ulaw_roundtrip() {
    // Test that encode/decode roundtrip is approximately correct
    let test_values: [i16; 5] = [0, 1000, -1000, 16000, -16000];

    for &original in &test_values {
        let encoded = encode_ulaw(original);
        let decoded = decode_ulaw(encoded);

        // G.711 is lossy, but should be within ~1% for larger values
        let error = (original as i32 - decoded as i32).abs();
        let tolerance = if original.abs() > 100 {
            (original.abs() as i32) / 50 // ~2% tolerance
        } else {
            10 // Small values have fixed tolerance
        };

        assert!(
            error <= tolerance,
            "Roundtrip error too large for {}: got {}, error {}",
            original,
            decoded,
            error
        );
    }
}

#[test]
fn test_ulaw_silence() {
    // Silence (0) should encode to 0xFF
    let encoded = encode_ulaw(0);
    assert_eq!(encoded, 0xFF, "Silence should encode to 0xFF");
}

#[test]
fn test_apply_cli_overrides_sets_port() {
    let mut config = GabbyConfig::default();
    let cli = Cli {
        config: "gabby.toml".to_string(),
        port: Some(5070),
        log_level: "info".to_string(),
    };

    apply_cli_overrides(&mut config, &cli);
    assert_eq!(config.server.sip_port, 5070);
}

#[test]
fn test_apply_cli_overrides_no_port() {
    let mut config = GabbyConfig::default();
    let original_port = config.server.sip_port;
    let cli = Cli {
        config: "gabby.toml".to_string(),
        port: None,
        log_level: "info".to_string(),
    };

    apply_cli_overrides(&mut config, &cli);
    assert_eq!(config.server.sip_port, original_port);
}

#[test]
fn test_handle_server_result_ok() {
    handle_server_result(Ok(())).expect("ok result");
}

#[test]
fn test_handle_server_result_err() {
    let err = ServerError::ResponseBuildFailed("nope".to_string());
    let result = handle_server_result(Err(err));
    assert!(result.is_err());
}

#[test]
fn test_trim_history() {
    let config = LlmConfig {
        max_history_messages: 4,
        ..Default::default()
    };
    let mut client = OllamaClient::new(&config);

    // Add 6 messages
    for i in 0..6 {
        client.history.push(Message {
            role: if i % 2 == 0 { "user" } else { "assistant" }.to_string(),
            content: format!("Message {}", i),
        });
    }

    client.trim_history();

    // Should have trimmed to 4 messages
    assert!(client.history.len() <= 4);
}

#[test]
fn test_partial_text_to_option_empty() {
    assert_eq!(partial_text_to_option(""), None);
}

#[test]
fn test_partial_text_to_option_non_empty() {
    assert_eq!(partial_text_to_option("hello"), Some("hello".to_string()));
}

#[test]
fn test_complete_result_text_variants() {
    let single = CompleteResult::Single("hello".to_string());
    assert_eq!(complete_result_text(single), "hello");

    let multiple = CompleteResult::Multiple(vec!["alt".to_string()]);
    assert_eq!(complete_result_text(multiple), "alt");

    let empty_multiple = CompleteResult::Multiple(Vec::new());
    assert_eq!(complete_result_text(empty_multiple), "");
}

#[test]
fn test_handle_decoding_state_branches() {
    let running = handle_decoding_state(Some(DecodingState::Running), "");
    assert!(running.is_none());
    assert_eq!(handle_decoding_state(Some(DecodingState::Finalized), "hello"), None);
    assert_eq!(handle_decoding_state(Some(DecodingState::Failed), "hello"), None);
    assert_eq!(handle_decoding_state(None, "hello"), None);
    assert_eq!(
        handle_decoding_state(Some(DecodingState::Running), "hello"),
        Some("hello".to_string())
    );
}

#[test]
fn test_calculate_rms_silence() {
    let silence = vec![0i16; 160];
    let rms = calculate_rms(&silence);
    assert!(rms < 0.001);
}

#[test]
fn test_calculate_rms_loud() {
    let loud: Vec<i16> = (0..160)
        .map(|i| if i % 2 == 0 { 16000 } else { -16000 })
        .collect();
    let rms = calculate_rms(&loud);
    assert!(rms > 0.4);
}

#[test]
fn test_vad_silence_to_speech() {
    let config = VadConfig::default();
    let mut vad = Listener::new(&config);

    // Silence
    let silence = vec![0i16; 160];
    assert_eq!(vad.process(&silence, None), VadDecision::Silence);

    // Speech starts
    let speech: Vec<i16> = (0..160)
        .map(|i| ((i as f32 * 0.1).sin() * 5000.0) as i16)
        .collect();
    assert_eq!(
        vad.process(&speech, Some("hello")),
        VadDecision::SpeechStart
    );
}

#[test]
fn test_vad_partial_text_stability_increments() {
    let config = VadConfig::default();
    let mut vad = Listener::new(&config);

    let speech: Vec<i16> = (0..160)
        .map(|i| ((i as f32 * 0.1).sin() * 5000.0) as i16)
        .collect();

    assert_eq!(
        vad.process(&speech, Some("hello")),
        VadDecision::SpeechStart
    );
    assert_eq!(
        vad.process(&speech, Some("hello")),
        VadDecision::SpeechContinue
    );
    assert_eq!(
        vad.process(&speech, Some("hello")),
        VadDecision::SpeechContinue
    );

    assert_eq!(vad.vad.stable_count, 1);
}

#[test]
fn test_vad_speech_end_with_stability_bonus() {
    let config = VadConfig {
        silence_threshold: F32Bits(0.02f32.to_bits()),
        silence_duration_ms: 300,
        min_utterance_ms: 100,
    };
    let mut vad = Listener::new(&config);
    let now = vad.now;

    vad.vad.in_utterance = true;
    vad.vad.speech_start = Some(now - 200 * MILLI);
    vad.vad.last_speech_time = now - 250 * MILLI;
    vad.vad.last_partial = Some("hello".to_string());
    vad.vad.stable_count = 4;

    let silence = vec![0i16; 160];
    let decision = vad.process(&silence, Some("hello"));
    assert_eq!(decision, VadDecision::SpeechEnd);
    assert!(!vad.vad.in_utterance);
}

#[test]
fn test_vad_speech_continue_without_bonus() {
    let config = VadConfig {
        silence_threshold: F32Bits(0.02f32.to_bits()),
        silence_duration_ms: 300,
        min_utterance_ms: 100,
    };
    let mut vad = Listener::new(&config);
    let now = vad.now;

    vad.vad.in_utterance = true;
    vad.vad.speech_start = Some(now - 150 * MILLI);
    vad.vad.last_speech_time = now - 50 * MILLI;
    vad.vad.stable_count = 0;

    let silence = vec![0i16; 160];
    let decision = vad.process(&silence, None);
    assert_eq!(decision, VadDecision::SpeechContinue);
    assert!(vad.vad.in_utterance);
}

#[test]
fn test_vad_speech_continue_below_min_utterance() {
    let config = VadConfig {
        silence_threshold: F32Bits(0.02f32.to_bits()),
        silence_duration_ms: 300,
        min_utterance_ms: 500,
    };
    let mut vad = Listener::new(&config);
    let now = vad.now;

    vad.vad.in_utterance = true;
    vad.vad.speech_start = Some(now - 450 * MILLI);
    vad.vad.last_speech_time = now - 400 * MILLI;
    vad.vad.stable_count = 0;

    let silence = vec![0i16; 160];
    let decision = vad.process(&silence, None);
    assert_eq!(decision, VadDecision::SpeechContinue);
    assert!(vad.vad.in_utterance);
}

#[test]
fn test_vad_reset_and_state_flag() {
    let config = VadConfig {
        silence_threshold: F32Bits(0.01f32.to_bits()),
        silence_duration_ms: 1,
        min_utterance_ms: 1,
    };
    let mut vad = Listener::new(&config);
    assert!(!vad.vad.is_in_utterance());

    let speech: Vec<i16> = (0..160)
        .map(|i| ((i as f32 * 0.1).sin() * 5000.0) as i16)
        .collect();
    assert_eq!(
        vad.process(&speech, Some("hello")),
        VadDecision::SpeechStart
    );
    assert!(vad.vad.is_in_utterance());

    vad.vad.reset(vad.now);
    assert!(!vad.vad.is_in_utterance());
}

#[test]
fn test_extract_sdp_audio_port_variants() {
    let missing = b"v=0\r\ns=NoAudio\r\n";
    assert_eq!(extract_sdp_audio_port(missing), None);

    let no_port = b"v=0\r\nm=audio\r\n";
    assert_eq!(extract_sdp_audio_port(no_port), None);

    let with_port = b"v=0\r\nm=audio 49170 RTP/AVP 0\r\n";
    assert_eq!(extract_sdp_audio_port(with_port), Some(49170));
}

#[test]
fn test_extract_sdp_connection_ip_variants() {
    let ip4 = b"v=0\r\nc=IN IP4 192.168.1.10/127\r\n";
    assert_eq!(
        extract_sdp_connection_ip(ip4),
        Some("192.168.1.10".to_string())
    );

    let ip6 = b"v=0\r\nc=IN IP6 2001:db8::1/3\r\n";
    assert_eq!(
        extract_sdp_connection_ip(ip6),
        Some("2001:db8::1".to_string())
    );

    let empty_ip4 = b"v=0\r\nc=IN IP4 /\r\n";
    assert_eq!(extract_sdp_connection_ip(empty_ip4), None);

    let empty_ip6 = b"v=0\r\nc=IN IP6 /\r\n";
    assert_eq!(extract_sdp_connection_ip(empty_ip6), None);

    let missing = b"v=0\r\ns=NoConn\r\n";
    assert_eq!(extract_sdp_connection_ip(missing), None);
}

#[test]
fn test_build_sdp_answer_contains_values() {
    let sdp = build_sdp_answer("192.0.2.1", 4040);
    assert!(sdp.contains("c=IN IP4 192.0.2.1"));
    assert!(sdp.contains("m=audio 4040 RTP/AVP 0"));
}

#[test]
fn test_allocate_rtp_port_skips_allocated() {
    let mut server = build_server(GabbyConfig::default());
    let start = server.config.server.rtp_port_start;
    server.allocated_rtp_ports.insert(start);

    let port = server.allocate_rtp_port().expect("allocate port");
    assert_eq!(port, start + 2);
    assert!(server.allocated_rtp_ports.contains(&start));
    assert!(server.allocated_rtp_ports.contains(&port));
}

#[test]
fn test_allocate_rtp_port_exhausted() {
    let mut server = build_server(GabbyConfig::default());
    let start = server.config.server.rtp_port_start;
    let end = start.saturating_add(10000);
    for port in (start..end).step_by(2) {
        server.allocated_rtp_ports.insert(port);
    }
    assert!(server.allocate_rtp_port().is_none());
}

#[test]
fn test_handle_sip_message_request_and_response() {
    let mut server = build_server(GabbyConfig::default());
    let replies = handle(&mut server, build_request("OPTIONS", "call-options"));
    assert_eq!(replies.len(), 1);
    assert_eq!(replies[0].status_code, 200);
    assert_eq!(replies[0].reason, "OK");
    assert_eq!(replies[0].contact_uri, Some("sip:gabby@127.0.0.1:5060".to_string()));

    let response = write_reply(&request_bytes("OPTIONS", "call-options", ""), &replies[0]);
    let parsed = parse_message(&response);
    assert!(matches!(parsed, Some(SipMessage::Response(_))));
    assert!(handle(&mut server, parsed).is_empty());
}

#[test]
fn test_handle_sip_message_parse_error_and_ack() {
    let mut server = build_server(GabbyConfig::default());
    let parsed = parse_message(b"not a sip message");
    assert!(parsed.is_none());
    assert!(handle(&mut server, parsed).is_empty());
    assert!(handle(&mut server, build_request("ACK", "call-ack")).is_empty());
}

#[test]
fn test_handle_sip_message_bye_cancel_and_other() {
    let mut server = build_server(GabbyConfig::default());
    let bye_port = server.config.server.rtp_port_start;
    server.active_calls.insert("call-bye".to_string(), bye_port);
    server.allocated_rtp_ports.insert(bye_port);
    let replies = handle(&mut server, build_request("BYE", "call-bye"));
    assert_eq!(replies[0].status_code, 200);
    assert!(!has_call(&server, "call-bye"));
    assert!(!server.allocated_rtp_ports.contains(&bye_port));

    let cancel_port = server.config.server.rtp_port_start + 2;
    server.active_calls.insert("call-cancel".to_string(), cancel_port);
    server.allocated_rtp_ports.insert(cancel_port);
    handle(&mut server, build_request("CANCEL", "call-cancel"));
    assert!(!has_call(&server, "call-cancel"));
    assert!(!server.allocated_rtp_ports.contains(&cancel_port));

    let other_port = server.config.server.rtp_port_start + 4;
    server.active_calls.insert("call-other".to_string(), other_port);
    server.allocated_rtp_ports.insert(other_port);
    assert!(handle(&mut server, build_request("REGISTER", "call-other")).is_empty());
    assert!(has_call(&server, "call-other"));
    assert!(server.allocated_rtp_ports.contains(&other_port));
}

#[test]
fn test_handle_sip_message_invite_unavailable() {
    let mut server = build_server(GabbyConfig::default());
    let start = server.config.server.rtp_port_start;
    let end = start.saturating_add(10000);
    for port in (start..end).step_by(2) {
        server.allocated_rtp_ports.insert(port);
    }

    let sdp = "v=0\r\nm=audio 4000 RTP/AVP 0\r\nc=IN IP4 127.0.0.1\r\n";
    let invite = build_invite_with_sdp("call-invite-unavail", sdp);
    let replies = handle(&mut server, Some(SipMessage::Request(invite)));
    let codes: Vec<u16> = replies.iter().map(|r| r.status_code).collect();
    assert_eq!(codes, [100, 180, 503]);
    assert!(!has_call(&server, "call-invite-unavail"));
}

#[test]
fn test_handle_invite_success_and_cleanup() {
    let mut server = build_server(GabbyConfig::default());
    let sdp = "v=0\r\nm=audio 4000 RTP/AVP 0\r\nc=IN IP4 127.0.0.1\r\n";
    let invite = build_invite_with_sdp("call-invite", sdp);
    let mut call = IncomingCall::from_invite(&invite, "abc");
    assert_eq!(call.remote_rtp_port, 4000);
    assert_eq!(call.remote_rtp_ip, Some("127.0.0.1".to_string()));
    let mut replies = Vec::new();
    take(&mut server, &mut call, &mut replies);
    assert!(has_call(&server, "call-invite"));
    let codes: Vec<u16> = replies.iter().map(|r| r.status_code).collect();
    assert_eq!(codes, [100, 180, 200]);
    assert_eq!(replies[0].to_tag, None);
    assert_eq!(replies[1].to_tag, Some("gabby-abc".to_string()));
    assert_eq!(replies[2].to_tag, Some("gabby-abc".to_string()));
    let start = server.config.server.rtp_port_start;
    assert_eq!(replies[2].body, sdp_answer(42, "127.0.0.1", start).into_bytes());

    handle(&mut server, build_request("BYE", "call-invite"));
    assert!(!has_call(&server, "call-invite"));
    assert!(server.allocated_rtp_ports.is_empty());
}

#[test]
fn test_handle_invite_unavailable_port() {
    let mut server = build_server(GabbyConfig::default());
    let start = server.config.server.rtp_port_start;
    let end = start.saturating_add(10000);
    for port in (start..end).step_by(2) {
        server.allocated_rtp_ports.insert(port);
    }
    let sdp = "v=0\r\nm=audio 4002 RTP/AVP 0\r\nc=IN IP4 127.0.0.1\r\n";
    let invite = build_invite_with_sdp("call-unavail", sdp);
    let mut call = IncomingCall::from_invite(&invite, "tag");
    take(&mut server, &mut call, &mut Vec::new());
    assert!(!has_call(&server, "call-unavail"));
    assert_eq!(call.stage, InviteStage::Over);
}

#[test]
fn test_handle_bye_and_cancel_cleanup() {
    let mut server = build_server(GabbyConfig::default());

    handle(&mut server, build_request("BYE", "call-1"));
    assert!(server.active_calls.entries.is_empty());

    let port = server.config.server.rtp_port_start;
    server.active_calls.insert("call-1".to_string(), port);
    server.allocated_rtp_ports.insert(port);
    handle(&mut server, build_request("BYE", "call-1"));
    assert!(!has_call(&server, "call-1"));
    assert!(!server.allocated_rtp_ports.contains(&port));

    handle(&mut server, build_request("CANCEL", "call-2"));
    assert!(!has_call(&server, "call-2"));

    let port = server.config.server.rtp_port_start + 2;
    server.active_calls.insert("call-2".to_string(), port);
    server.allocated_rtp_ports.insert(port);
    handle(&mut server, build_request("CANCEL", "call-2"));
    assert!(!has_call(&server, "call-2"));
    assert!(!server.allocated_rtp_ports.contains(&port));
}

#[test]
fn test_handle_call_end_branches() {
    let mut server = build_server(GabbyConfig::default());
    assert_eq!(server.handle_call_end(&"missing".to_string()), None);

    let port = server.config.server.rtp_port_start;
    server.active_calls.insert("call-1".to_string(), port);
    server.allocated_rtp_ports.insert(port);
    assert_eq!(server.handle_call_end(&"call-1".to_string()), Some(port));
    assert!(!has_call(&server, "call-1"));
    assert!(!server.allocated_rtp_ports.contains(&port));
}

#[test]
fn test_resolve_remote_rtp_addr_variants() {
    let source = SocketAddr::new(IpAddr::v4(127, 0, 0, 1), 5060);
    assert_eq!(remote_rtp_text(&None, 4000), None);
    let resolved = resolve_remote_rtp_addr(None, 4000, source);
    assert_eq!(resolved, SocketAddr::new(source.ip, 4000));

    let text = remote_rtp_text(&Some("127.0.0.2".to_string()), 4001);
    assert_eq!(text, Some("127.0.0.2:4001".to_string()));
    let named = SocketAddr::new(IpAddr::v4(127, 0, 0, 2), 4001);
    assert_eq!(resolve_remote_rtp_addr(Some(named), 4001, source), named);

    let resolved = resolve_remote_rtp_addr(None, 4002, source);
    assert_eq!(resolved, SocketAddr::new(source.ip, 4002));
}

#[test]
fn test_call_is_dropped_when_nothing_can_be_sent() {
    let mut server = build_server(GabbyConfig::default());
    let invite = build_invite_with_sdp("call-lost", "");
    let mut call = IncomingCall::from_invite(&invite, "tag");
    assert_eq!(call.remote_rtp_port, 10000);
    assert_eq!(call.remote_rtp_ip, None);
    assert!(matches!(server.handle_invite(&mut call, true, 1), InviteAction::Send(_)));
    assert!(matches!(server.handle_invite(&mut call, false, 1), InviteAction::Done));
    assert_eq!(call.stage, InviteStage::Over);
    assert!(!has_call(&server, "call-lost"));
    assert!(server.allocated_rtp_ports.is_empty());
}

#[test]
fn test_calls_have_ports_of_their_own() {
    let mut server = build_server(GabbyConfig::default());
    let start = server.config.server.rtp_port_start;
    for name in ["a", "b", "c"] {
        let invite = build_invite_with_sdp(name, "");
        handle(&mut server, Some(SipMessage::Request(invite)));
    }
    assert_eq!(server.active_calls.get(&"a".to_string()), Some(&start));
    assert_eq!(server.active_calls.get(&"b".to_string()), Some(&(start + 2)));
    assert_eq!(server.active_calls.get(&"c".to_string()), Some(&(start + 4)));
    server.handle_call_end(&"b".to_string());
    let invite = build_invite_with_sdp("d", "");
    handle(&mut server, Some(SipMessage::Request(invite)));
    assert_eq!(server.active_calls.get(&"d".to_string()), Some(&(start + 2)));
}

#[test]
fn test_public_ip_is_announced() {
    let mut config = GabbyConfig::default();
    config.server.public_ip = Some("203.0.113.9".to_string());
    let mut server = build_server(config);
    let invite = build_invite_with_sdp("call", "");
    let replies = handle(&mut server, Some(SipMessage::Request(invite)));
    let sdp = String::from_utf8(replies[2].body.clone()).unwrap();
    assert_eq!(connection_ip_in(&sdp), Some("203.0.113.9".to_string()));
}

#[test]
fn test_session_is_named_by_the_seconds() {
    assert_eq!(session_named(Some(1_700_000_000)), 1_700_000_000);
    assert_eq!(session_named(None), 0);
    assert!(session_id() > 0);
}

#[test]
fn test_sdp_answer_reads_back() {
    let sdp = sdp_answer(7, "192.0.2.1", 4040);
    assert_eq!(
        sdp,
        "v=0\r\no=gabby 7 1 IN IP4 192.0.2.1\r\ns=Gabby Voice AI\r\nc=IN IP4 192.0.2.1\r\n\
t=0 0\r\nm=audio 4040 RTP/AVP 0\r\na=rtpmap:0 PCMU/8000\r\na=sendrecv\r\n"
    );
    assert_eq!(audio_port_in(&sdp), Some(4040));
    assert_eq!(connection_ip_in(&sdp), Some("192.0.2.1".to_string()));
}

#[test]
fn test_sdp_with_bytes_that_are_no_text() {
    let body = b"v=0\r\ns=\xff\xfe\r\nm=audio 5000 RTP/AVP 0\r\nc=IN IP4 10.0.0.1\r\n";
    assert_eq!(extract_sdp_audio_port(body), Some(5000));
    assert_eq!(extract_sdp_connection_ip(body), Some("10.0.0.1".to_string()));
}

#[test]
fn test_sdp_port_must_be_a_port() {
    assert_eq!(audio_port_in("m=audio 65535 RTP/AVP 0"), Some(65535));
    assert_eq!(audio_port_in("m=audio 65536 RTP/AVP 0"), None);
    assert_eq!(audio_port_in("m=audio +80 RTP/AVP 0"), Some(80));
    assert_eq!(audio_port_in("m=audio -80 RTP/AVP 0"), None);
    assert_eq!(audio_port_in("m=audio x\r\nm=audio 80 RTP/AVP 0"), None);
}

#[test]
fn test_reply_copies_the_request() {
    let request = request_bytes("INVITE", "call-7", "v=0\r\n");
    let reply = Reply {
        status_code: 200,
        reason: "OK".to_string(),
        to_tag: Some("gabby-1".to_string()),
        contact_uri: Some("sip:gabby@127.0.0.1:5060".to_string()),
        body: b"v=0\r\n".to_vec(),
    };
    assert_eq!(
        String::from_utf8(write_reply(&request, &reply)).unwrap(),
        "SIP/2.0 200 OK\r\n\
Via: SIP/2.0/UDP 127.0.0.1:5060;branch=z9hG4bKtest\r\n\
From: <sip:alice@localhost>;tag=fromtag\r\n\
To: <sip:gabby@localhost>;tag=gabby-1\r\n\
Call-ID: call-7\r\n\
CSeq: 1 INVITE\r\n\
Contact: <sip:gabby@127.0.0.1:5060>\r\n\
Content-Type: application/sdp\r\n\
Content-Length: 5\r\n\
\r\nv=0\r\n"
    );
}

#[test]
fn test_new_rejects_missing_binary() {
    let config = TtsConfig { piper_binary: "no-piper".to_string(), ..TtsConfig::default() };
    let err = TtsProcessor::new(&config, false, true).err().expect("missing binary");
    assert!(err.describe().contains("Piper binary not found"));
    assert!(try_create_tts(&config, false, true).is_none());
}

#[test]
fn test_new_rejects_missing_model() {
    let config = TtsConfig::default();
    let err = TtsProcessor::new(&config, true, false).err().expect("missing model");
    assert!(err.describe().contains("Piper model not found"));
    assert!(try_create_tts(&config, true, false).is_none());
    assert!(try_create_tts(&config, true, true).is_some());
}

fn piper() -> TtsProcessor {
    TtsProcessor::new(&TtsConfig::default(), true, true).expect("create tts")
}

#[test]
fn test_synthesize_empty_text_returns_empty() {
    assert!(piper().arguments("   ", true).is_none());
}

#[test]
fn test_synthesize_success_with_config_path() {
    let tts = piper();
    let with = tts.arguments("hello", true).expect("arguments");
    let without = tts.arguments("hello", false).expect("arguments");
    assert!(with.contains(&tts.config_path));
    assert!(!without.contains(&tts.config_path));
    assert!(with.contains(&tts.model_path));
    let samples = tts
        .on_outcome(PiperOutcome::Ended(true, Some(0), vec![0x01, 0x02, 0xff, 0xff], Vec::new()))
        .expect("synthesize");
    assert_eq!(samples, [0x0201, -1]);
}

#[test]
fn test_synthesize_failure_status() {
    let err = piper()
        .on_outcome(PiperOutcome::Ended(false, Some(3), Vec::new(), b"broken".to_vec()))
        .err()
        .expect("tts error");
    assert!(err.describe().contains("TTS synthesis failed"));
    assert!(!is_healthy(&Err(err)));
}

#[test]
fn test_sample_rate() {
    assert_eq!(piper().sample_rate(), 22050);
}

#[test]
fn test_synthesize_spawn_failure() {
    let err = piper()
        .on_outcome(PiperOutcome::SpawnFailed("no such file".to_string()))
        .err()
        .expect("spawn error");
    assert!(err.describe().contains("Failed to spawn"));
}

#[test]
fn test_synthesize_timeout() {
    let err = piper().on_outcome(PiperOutcome::TimedOut).err().expect("timeout");
    assert!(err.describe().contains("timed out"));
}

#[test]
fn test_wait_for_output_io_error() {
    let err = piper()
        .on_outcome(PiperOutcome::IoError("fail".to_string()))
        .err()
        .expect("io error");
    assert!(err.describe().contains("IO error"));
}

#[test]
fn test_health_check_success_and_debug_log() {
    let ok: Result<Vec<i16>, TtsError> = Ok(vec![1]);
    assert!(is_healthy(&ok));
    let quiet: Result<Vec<i16>, TtsError> = Ok(Vec::new());
    assert!(!is_healthy(&quiet));
}

#[test]
fn test_default_config_is_valid() {
    assert!(GabbyConfig::default().validate().is_ok());
}

#[test]
fn test_config_faults_are_told() {
    let fault = |change: fn(&mut GabbyConfig)| {
        let mut config = GabbyConfig::default();
        change(&mut config);
        config.validate().unwrap_err().describe()
    };
    let threshold = "Invalid configuration: vad.silence_threshold must be between 0.0 and 1.0";
    assert_eq!(fault(|c| c.vad.silence_threshold = F32Bits(1.5f32.to_bits())), threshold);
    assert_eq!(fault(|c| c.vad.silence_threshold = F32Bits((-0.5f32).to_bits())), threshold);
    assert_eq!(
        fault(|c| c.server.sip_port = 0),
        "Invalid configuration: server.sip_port cannot be 0"
    );
    assert_eq!(
        fault(|c| c.server.rtp_port_start = 0),
        "Invalid configuration: server.rtp_port_start cannot be 0"
    );
    assert_eq!(
        fault(|c| c.llm.temperature = F32Bits(2.5f32.to_bits())),
        "Invalid configuration: llm.temperature must be between 0.0 and 2.0"
    );
    assert_eq!(
        fault(|c| c.llm.max_tokens = 0),
        "Invalid configuration: llm.max_tokens must be greater than 0"
    );
    assert_eq!(
        fault(|c| c.vad.silence_duration_ms = 0),
        "Invalid configuration: vad.silence_duration_ms must be greater than 0"
    );
}

#[test]
fn test_load_or_default_validates() {
    let config = GabbyConfig::load_or_default(None).unwrap();
    assert_eq!(config.server.sip_port, GabbyConfig::default().server.sip_port);
    let mut given = GabbyConfig::default();
    given.server.sip_port = 5090;
    let config = GabbyConfig::load_or_default(Some(Ok(given))).unwrap();
    assert_eq!(config.server.sip_port, 5090);
    let mut wrong = GabbyConfig::default();
    wrong.server.sip_port = 0;
    assert!(matches!(
        GabbyConfig::load_or_default(Some(Ok(wrong))),
        Err(ConfigError::InvalidValue(_))
    ));
    let unread = ConfigError::ParseError("bad".to_string());
    assert!(matches!(
        GabbyConfig::load_or_default(Some(Err(unread))),
        Err(ConfigError::ParseError(_))
    ));
}

#[test]
fn test_float_bounds_are_inclusive() {
    let mut config = GabbyConfig::default();
    config.vad.silence_threshold = F32Bits(1.0f32.to_bits());
    config.llm.temperature = F32Bits(2.0f32.to_bits());
    assert!(config.validate().is_ok());
    config.vad.silence_threshold = F32Bits(0.0f32.to_bits());
    config.llm.temperature = F32Bits((-0.0f32).to_bits());
    assert!(config.validate().is_ok());
}

#[test]
fn test_errors_tell_what_happened() {
    let e = ServerError::BindFailed("0.0.0.0:1".to_string(), "taken".to_string());
    assert_eq!(e.describe(), "Failed to bind to 0.0.0.0:1: taken");
    assert_eq!(ServerError::IoError("gone".to_string()).describe(), "IO error: gone");
    assert_eq!(
        ServerError::SttError(SttError::RecognizerCreationFailed).describe(),
        "STT error: Failed to create Vosk recognizer"
    );
    assert_eq!(
        ServerError::ResponseBuildFailed("nope".to_string()).describe(),
        "Failed to build SIP response: nope"
    );
    assert_eq!(
        SttError::ModelLoadFailed("m".to_string()).describe(),
        "Failed to load Vosk model from m"
    );
    assert_eq!(SttError::InvalidPath("p".to_string()).describe(), "Invalid model path: p");
    assert_eq!(CallError::Io("x".to_string()).describe(), "IO: x");
    assert_eq!(
        CallError::Stt(SttError::RecognizerCreationFailed).describe(),
        "STT: Failed to create Vosk recognizer"
    );
    let broken = ResamplerError::InitFailed("r".to_string());
    assert_eq!(
        CallError::Resampler(broken.clone()).describe(),
        format!("Resampler: {}", broken.describe())
    );
    assert_eq!(
        GabbyError::Config(ConfigError::ParseError("bad toml".to_string())).describe(),
        "Configuration error: Failed to parse config: bad toml"
    );
    assert_eq!(
        GabbyError::Server(ServerError::IoError("gone".to_string())).describe(),
        "Server error: IO error: gone"
    );
    assert_eq!(
        ConfigError::ReadError("a.toml".to_string(), "denied".to_string()).describe(),
        "Failed to read config file a.toml: denied"
    );
}

#[test]
fn test_ulaw_agrees_with_the_codec() {
    let codec = G711Codec::pcmu();
    for code in 0u8..=255 {
        assert_eq!(decode_ulaw(code), codec.decode_sample(code));
    }
    for sample in (-32768i32..=32767).step_by(7) {
        let sample = sample as i16;
        let error = (decode_ulaw(encode_ulaw(sample)) as i32 - sample as i32).abs();
        assert!(error <= 644, "{sample}");
    }
}

#[test]
fn test_call_frames_are_rtp() {
    let mut call = CallHandler::new("c".to_string(), None, 0x01020304, 0);
    call.queue_output(&[1000; 200]);
    let first = RtpPacket::parse(&call.next_frame()).unwrap();
    assert_eq!(first.ssrc, 0x01020304);
    assert_eq!(first.payload_type, 0);
    assert_eq!(first.payload.len(), 160);
    assert_eq!(decode_ulaw(first.payload[0]), decode_ulaw(encode_ulaw(1000)));
    let second = RtpPacket::parse(&call.next_frame()).unwrap();
    assert_eq!(second.sequence_number, first.sequence_number.wrapping_add(1));
    assert_eq!(second.timestamp, first.timestamp.wrapping_add(160));
    assert!(second.payload.iter().all(|&code| code == encode_ulaw(0)));
    assert_eq!(call.output_buffer.len(), 40);
}

#[test]
fn test_call_greets_once_and_times_out() {
    let mut call = CallHandler::new("c".to_string(), Some(10), 1, 0);
    let first = call.on_packet(172, 5_000 * MILLI);
    assert!(first.greet && first.audio);
    let second = call.on_packet(12, 6_000 * MILLI);
    assert!(!second.greet && !second.audio);
    assert!(!call.is_timed_out(16_000 * MILLI));
    assert!(call.is_timed_out(16_001 * MILLI));
    let patient = CallHandler::new("d".to_string(), None, 1, 0);
    assert!(!patient.is_timed_out(300_000 * MILLI));
    assert!(patient.is_timed_out(300_001 * MILLI));
    assert!(greeting().starts_with("Hello!"));
    assert!(is_turn(" yes ") && !is_turn("  "));
}

#[test]
fn test_call_buffers_are_bounded() {
    let mut call = CallHandler::new("c".to_string(), None, 1, 0);
    for _ in 0..10 {
        call.queue_output(&[5; 100_000]);
        call.buffer_audio(&[1; 50_000], &[2; 100_000]);
    }
    assert!(call.output_buffer.len() <= MAX_OUTPUT_BUFFER_SAMPLES);
    assert!(call.stt_buffer.len() <= MAX_STT_BUFFER_SAMPLES);
    assert!(call.vad_buffer.len() <= MAX_VAD_BUFFER_SAMPLES);
    let (stt, vad) = call.next_chunk().unwrap();
    assert_eq!((stt.len(), vad.len()), (3200, 1600));
    let mut quiet = CallHandler::new("c".to_string(), None, 1, 0);
    assert!(quiet.next_chunk().is_none());
}

#[test]
fn test_call_decodes_what_follows_the_header() {
    let mut packet = vec![0x80u8, 0, 0, 1, 0, 0, 0, 0, 0, 0, 0, 1];
    packet.extend_from_slice(&[0xff, 0x00, 0x80]);
    assert_eq!(CallHandler::decode_packet(&packet), [0, -32124, 32124]);
}

#[test]
fn test_resampler_deals_out_chunks() {
    let mut r = Resampler::new(8000, 16000, 4);
    assert_eq!((r.input_rate(), r.output_rate()), (8000, 16000));
    assert_eq!(r.process(&[1, 2, 3]), Vec::<Vec<i16>>::new());
    assert_eq!(r.process(&[4, 5, 6, 7, 8, 9]), vec![vec![1, 2, 3, 4], vec![5, 6, 7, 8]]);
    assert_eq!(r.flush(), vec![vec![9, 0, 0, 0]]);
    assert_eq!(r.flush(), Vec::<Vec<i16>>::new());
    r.process(&[1]);
    r.reset();
    assert!(r.flush().is_empty());
    assert_eq!(Resampler::rtp_to_vosk().input_rate(), 8000);
    assert_eq!(Resampler::piper_to_rtp().output_rate(), 8000);
    assert_eq!(Resampler::vosk_to_rtp().input_rate(), 16000);
    assert_eq!(generate_silence(3), [0, 0, 0]);
}

#[test]
fn test_sum_of_squares() {
    assert_eq!(sum_of_squares(&[]), 0);
    assert_eq!(sum_of_squares(&[3, -4]), 25);
    assert_eq!(sum_of_squares(&[i16::MIN, i16::MIN]), 2 * 32768 * 32768);
}

#[test]
fn test_conversation_history() {
    let config = LlmConfig { max_history_messages: 2, ..LlmConfig::default() };
    let mut client = OllamaClient::new(&config);
    let request = client.ask("hi");
    assert_eq!(request.messages[0].role, "system");
    assert_eq!(request.messages[0].content, config.system_prompt);
    assert_eq!(request.messages[1].role, "user");
    assert_eq!(request.messages[1].content, "hi");
    assert!(!request.stream);
    assert_eq!(client.on_reply(ChatReply::Text("hello".to_string())), "hello");
    assert_eq!(client.history.len(), 2);
    let request = client.ask("again");
    assert!(client.history.len() <= 2);
    assert_eq!(request.messages.last().unwrap().content, "again");
    assert_eq!(
        client.on_reply(ChatReply::Unreachable),
        "I'm having trouble connecting right now."
    );
    let said = client.history.len();
    assert_eq!(client.on_reply(ChatReply::Refused), "I'm having trouble thinking right now.");
    assert_eq!(client.history.len(), said);
    assert_eq!(
        client.on_reply(ChatReply::Unreadable),
        "I'm having trouble understanding the response."
    );
    client.add_assistant_response("sure");
    assert_eq!(client.history.last().unwrap().role, "assistant");
    client.clear_history();
    assert!(client.history.is_empty());
}

#[test]
fn test_media_is_silence_branches() {
    assert!(is_silence(&[], 0.01));

    let quiet = vec![10i16, -10, 5, -5];
    assert!(is_silence(&quiet, 0.5));

    let loud = vec![i16::MAX, i16::MIN];
    assert!(!is_silence(&loud, 0.1));
}

#[test]
fn test_white_space_after_a_sentence() {
    let spaces = "\t\n\u{b}\u{c}\r \u{85}\u{a0}\u{1680}\u{2000}\u{2001}\u{2002}\u{2003}\u{2004}\
                  \u{2005}\u{2006}\u{2007}\u{2008}\u{2009}\u{200a}\u{2028}\u{2029}\u{202f}\
                  \u{205f}\u{3000}";
    for c in '\0'..=char::MAX {
        assert_eq!(c.is_whitespace(), spaces.contains(c));
    }
    assert_eq!(find_sentence_boundary("Hi.\u{3000}there"), Some(3));
    assert_eq!(find_sentence_boundary("Hi.\u{200b}there"), None);
}
