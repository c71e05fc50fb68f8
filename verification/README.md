# rsiprtp

A verified library for SIP dialogs, RTP and RTCP, audio codecs and buffers, ICE and TURN, and the
voice assistant Gabby. The library is pure logic: it takes what was received and says what is to be
done. Sockets, files, processes, clocks and floating point are left to the program around it.

- `src/dialog`: the INVITE dialog and the dialog manager (RFC 3261).
- `src/sip.rs`, `src/sip_text.rs`: SIP messages, and how they are read.
- `src/rtp`, `src/rtcp`: packets and reports (RFC 3550, RFC 4585, RFC 5104).
- `src/media`: G.711, G.722, the jitter buffer, WAV files.
- `src/ice`: candidates, pairs, connectivity checks (RFC 8445), STUN, and the TURN client (RFC 5766).
- `src/gabby`: the SIP server, the call, and the pipeline of recognition, conversation and speech.
- `src/buf.rs`, `src/text.rs`, `src/table.rs`, `src/pcm.rs`, `src/net.rs`, `src/util.rs`: what the
  others share.
- `app`: the program `gabby`, and the parts of the library's work that need a socket, a file or a
  floating-point number.
- `tests`: ordinary tests of the library.

Each module states its contracts over mathematical models. The laws that span several functions are
public proof functions, named `lemma_...`, beside the functions that they are about.
