# cap_media

Screen capture, video and audio encoding, and audio playback pipelines around
FFmpeg. The library in `src/` holds what the pipelines decide and compute, with
contracts checked by Verus:

- `frames`: BGRA frame sizes, concatenating captured frames into one buffer and
  splitting a buffer back into whole frames (with the round-trip laws).
- `encode`: the values given to FFmpeg when the output stream, the encoder and
  its frames are set up (stream id, time bases, flags, sample format check,
  channel layout).
- `driver`: the encoding loop as a state machine: send each frame with its
  timestamp, drain the encoder after every send, flush, trailer, close.
- `decode`: the decoding loop as a state machine: packets of the chosen
  stream only, draining the decoder after each, end of input, last drain.
- `capture`: the capture loop as a state machine that keeps BGRA frames and
  reports their times.
- `playback`: decoded audio words, and filling interleaved output buffers from
  a cursor over the samples (with the law over a run of buffers).

`app/` is the program: one subcommand per pipeline (`capture`, `video`,
`audio`, `mp3-decode`, `video-decode`, `cidre-video-decode`). It performs the
calls into FFmpeg, scap, cpal and cidre and does the floating-point work.
