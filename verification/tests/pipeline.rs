use cap_media::capture::{CaptureEvent, CaptureLog, FrameReport, CAPTURE_FPS, CAPTURE_ITERATIONS};
use cap_media::decode::{DecodeAction, DecodeDriver, DecodeInput};
use cap_media::driver::{EncodeAction, EncodeDriver, Rescale};
use cap_media::encode::{
    encoder_flags, frame_rate_for, h264_low_latency_settings, is_valid_sample_fmt, mp3_settings,
    needs_file, select_channel_layout, stream_id, time_base_for, wants_global_header,
    x264_settings, ChannelLayout, ChannelOrder, PixelFormat, Rational, VideoCodec,
    CHANNEL_MASK_MONO, SAMPLE_FMT_NONE, SAMPLE_FMT_S16P,
};
use cap_media::frames::{flatten_frames, frame_byte_len, split_frames};
use cap_media::playback::{sample_words, write_data, AudioCollector, SampleCursor};

#[test]
fn frame_byte_len_of_720p() {
    assert_eq!(frame_byte_len(1280, 720), 3_686_400);
    assert_eq!(frame_byte_len(0, 720), 0);
    assert_eq!(frame_byte_len(1, 1), 4);
}

#[test]
fn flatten_concatenates_in_order() {
    let frames = vec![vec![1u8, 2], vec![3], vec![], vec![4, 5]];
    assert_eq!(flatten_frames(&frames), vec![1, 2, 3, 4, 5]);
    assert_eq!(flatten_frames(&vec![]), Vec::<u8>::new());
}

#[test]
fn split_drops_partial_frame() {
    let buf: Vec<u8> = (1..=7).collect();
    assert_eq!(split_frames(&buf, 3), vec![vec![1, 2, 3], vec![4, 5, 6]]);
    assert_eq!(split_frames(&buf, 8), Vec::<Vec<u8>>::new());
    assert_eq!(split_frames(&buf, 7), vec![buf.clone()]);
    assert_eq!(split_frames(&[], 4), Vec::<Vec<u8>>::new());
}

#[test]
fn split_after_flatten_gives_frames_back() {
    let frames: Vec<Vec<u8>> = (0..5u8).map(|i| vec![i, i + 1, i + 2, i + 3]).collect();
    let buf = flatten_frames(&frames);
    assert_eq!(buf.len(), 20);
    assert_eq!(split_frames(&buf, 4), frames);
}

#[test]
fn flatten_after_split_keeps_whole_frames() {
    let buf: Vec<u8> = (0..23).collect();
    let frames = split_frames(&buf, 5);
    assert_eq!(frames.len(), 4);
    assert_eq!(flatten_frames(&frames), buf[..20].to_vec());
}

#[test]
fn stream_ids_count_from_zero() {
    assert_eq!(stream_id(1), 0);
    assert_eq!(stream_id(3), 2);
}

#[test]
fn time_base_and_frame_rate() {
    assert_eq!(time_base_for(30), Rational { num: 1, den: 30 });
    assert_eq!(frame_rate_for(30), Rational { num: 30, den: 1 });
    assert_eq!(time_base_for(CAPTURE_FPS), Rational { num: 1, den: 30 });
}

#[test]
fn global_header_test_never_passes() {
    for flags in [0, 1, 0x40, 0x41, 0x7fff_ffff, -1, i32::MIN] {
        assert!(!wants_global_header(flags));
        assert_eq!(encoder_flags(5, flags), 5);
    }
}

#[test]
fn needs_file_follows_lowest_bit() {
    assert!(needs_file(0));
    assert!(!needs_file(1));
    assert!(!needs_file(0x41));
    assert!(needs_file(0x40));
    assert!(!needs_file(-1));
}

#[test]
fn video_settings() {
    let s = x264_settings(1280, 720, 30);
    assert_eq!(s.codec, VideoCodec::Libx264);
    assert_eq!((s.width, s.height), (1280, 720));
    assert_eq!(s.time_base, Rational { num: 1, den: 30 });
    assert_eq!(s.frame_rate, None);
    assert_eq!(s.source_format, PixelFormat::Bgra);
    assert_eq!(s.encoder_format, PixelFormat::Yuv420p);
    assert!(!s.low_latency);

    let l = h264_low_latency_settings(1920, 1080, 60);
    assert_eq!(l.codec, VideoCodec::H264);
    assert_eq!((l.width, l.height), (1920, 1080));
    assert_eq!(l.time_base, Rational { num: 1, den: 60 });
    assert_eq!(l.frame_rate, Some(Rational { num: 60, den: 1 }));
    assert!(l.low_latency);
}

#[test]
fn mp3_settings_values() {
    let s = mp3_settings();
    assert_eq!(s.bit_rate, 128_000);
    assert_eq!(s.sample_rate, 44_100);
    assert_eq!(s.sample_fmt, SAMPLE_FMT_S16P);
}

#[test]
fn sample_format_search_stops_at_none() {
    assert!(is_valid_sample_fmt(&[1, 6, SAMPLE_FMT_NONE], 6));
    assert!(!is_valid_sample_fmt(&[1, SAMPLE_FMT_NONE, 6], 6));
    assert!(!is_valid_sample_fmt(&[1, 2, SAMPLE_FMT_NONE], SAMPLE_FMT_NONE));
    assert!(!is_valid_sample_fmt(&[], 6));
    assert!(is_valid_sample_fmt(&[8, 6], 6));
    assert!(!is_valid_sample_fmt(&[8, 7], 6));
}

#[test]
fn mono_channel_layout() {
    assert_eq!(
        select_channel_layout(),
        ChannelLayout { order: ChannelOrder::Native, nb_channels: 1, mask: CHANNEL_MASK_MONO }
    );
    assert_eq!(CHANNEL_MASK_MONO, 4);
}

const EAGAIN: i32 = -11;
const EOF: i32 = -541_478_725;

#[test]
fn video_driver_full_session() {
    let enc_tb = Rational { num: 1, den: 30 };
    let st_tb = Rational { num: 1, den: 15360 };
    let mut d = EncodeDriver::for_video(2, 0, enc_tb, st_tb, true);
    let write = EncodeAction::WritePacket {
        stream_index: 0,
        rescale: Some(Rescale { from: enc_tb, to: st_tb }),
    };
    assert_eq!(d.advance(0), EncodeAction::SendFrame { index: 0, pts: 0 });
    assert_eq!(d.advance(0), EncodeAction::ReceivePacket);
    assert_eq!(d.advance(0), write);
    assert_eq!(d.advance(0), EncodeAction::ReceivePacket);
    assert_eq!(d.advance(EAGAIN), EncodeAction::SendFrame { index: 1, pts: 1 });
    assert_eq!(d.advance(0), EncodeAction::ReceivePacket);
    assert_eq!(d.advance(EAGAIN), EncodeAction::SendFlush);
    assert_eq!(d.advance(0), EncodeAction::ReceivePacket);
    assert_eq!(d.advance(0), write);
    assert_eq!(d.advance(0), EncodeAction::ReceivePacket);
    assert_eq!(d.advance(EOF), EncodeAction::WriteTrailer);
    assert_eq!(d.advance(0), EncodeAction::CloseOutput);
    assert_eq!(d.advance(0), EncodeAction::Finished);
    assert_eq!(d.advance(0), EncodeAction::Finished);
    assert_eq!(d.state().next_frame, 2);
    assert!(d.state().flushing);
}

#[test]
fn video_driver_without_file() {
    let tb = Rational { num: 1, den: 30 };
    let mut d = EncodeDriver::for_video(0, 3, tb, tb, false);
    assert_eq!(d.advance(0), EncodeAction::SendFlush);
    assert_eq!(d.advance(0), EncodeAction::ReceivePacket);
    assert_eq!(d.advance(EOF), EncodeAction::WriteTrailer);
    assert_eq!(d.advance(0), EncodeAction::Finished);
}

#[test]
fn audio_driver_session() {
    let mut d = EncodeDriver::for_audio(3, 1152, 1, true);
    assert_eq!(d.advance(0), EncodeAction::SendFrame { index: 0, pts: 0 });
    assert_eq!(d.advance(0), EncodeAction::ReceivePacket);
    assert_eq!(d.advance(EAGAIN), EncodeAction::SendFrame { index: 1, pts: 1152 });
    assert_eq!(d.advance(0), EncodeAction::ReceivePacket);
    assert_eq!(d.advance(0), EncodeAction::WritePacket { stream_index: 1, rescale: None });
    assert_eq!(d.advance(0), EncodeAction::ReceivePacket);
    assert_eq!(d.advance(EAGAIN), EncodeAction::SendFrame { index: 2, pts: 2304 });
    assert_eq!(d.advance(0), EncodeAction::ReceivePacket);
    assert_eq!(d.advance(EAGAIN), EncodeAction::SendFlush);
    assert_eq!(d.advance(0), EncodeAction::ReceivePacket);
    assert_eq!(d.advance(EOF), EncodeAction::CloseOutput);
    assert_eq!(d.advance(0), EncodeAction::Finished);
}

#[test]
fn audio_driver_without_file_finishes_after_drain() {
    let mut d = EncodeDriver::for_audio(1, 1152, 0, false);
    assert_eq!(d.advance(0), EncodeAction::SendFrame { index: 0, pts: 0 });
    assert_eq!(d.advance(0), EncodeAction::ReceivePacket);
    assert_eq!(d.advance(EAGAIN), EncodeAction::SendFlush);
    assert_eq!(d.advance(0), EncodeAction::ReceivePacket);
    assert_eq!(d.advance(EOF), EncodeAction::Finished);
}

#[test]
fn driver_sends_frames_in_order_whatever_the_codes() {
    let mut d = EncodeDriver::for_audio(5, 1024, 0, true);
    let codes = [0, 3, -1, 0, 0, -2, 7, 0, -1, -5, 0, -1, 0, 0, -1, 0, 0, -3, 0, 0, 0];
    let mut sent = vec![];
    let mut flushes = 0;
    for c in codes.iter().cycle().take(200) {
        match d.advance(*c) {
            EncodeAction::SendFrame { index, pts } => {
                assert_eq!(pts, index as i64 * 1024);
                sent.push(index);
            }
            EncodeAction::SendFlush => {
                assert_eq!(sent.len(), 5);
                flushes += 1;
            }
            _ => {}
        }
    }
    assert_eq!(sent, vec![0, 1, 2, 3, 4]);
    assert_eq!(flushes, 1);
}

#[test]
fn capture_keeps_bgra_frames_and_times() {
    let mut log = CaptureLog::new();
    assert_eq!(log.on_event(CaptureEvent::Other), None);
    let r = log.on_event(CaptureEvent::Bgra { display_time: 100, width: 2, height: 1, data: vec![1; 8] });
    assert_eq!(r, Some(FrameReport { index: 1, width: 2, height: 1, elapsed: 0 }));
    let r = log.on_event(CaptureEvent::Bgra { display_time: 133, width: 2, height: 1, data: vec![2; 8] });
    assert_eq!(r, Some(FrameReport { index: 2, width: 2, height: 1, elapsed: 33 }));
    assert_eq!(log.on_event(CaptureEvent::Other), None);
    assert_eq!(log.start_time, 100);
    assert_eq!(log.next_index, 4);
    assert_eq!(log.into_frames(), vec![vec![1; 8], vec![2; 8]]);
}

#[test]
fn capture_start_time_waits_for_nonzero_time() {
    let mut log = CaptureLog::new();
    let r = log.on_event(CaptureEvent::Bgra { display_time: 0, width: 1, height: 1, data: vec![0; 4] });
    assert_eq!(r, Some(FrameReport { index: 0, width: 1, height: 1, elapsed: 0 }));
    assert_eq!(log.start_time, 0);
    let r = log.on_event(CaptureEvent::Bgra { display_time: 50, width: 1, height: 1, data: vec![0; 4] });
    assert_eq!(r, Some(FrameReport { index: 1, width: 1, height: 1, elapsed: 0 }));
    assert_eq!(log.start_time, 50);
    assert_eq!(CAPTURE_ITERATIONS, 100);
}

#[test]
fn capture_accepts_only_times_after_start() {
    let mut log = CaptureLog::new();
    let early = CaptureEvent::Bgra { display_time: 5, width: 1, height: 1, data: vec![] };
    assert!(log.accepts(&early));
    log.on_event(CaptureEvent::Bgra { display_time: 10, width: 1, height: 1, data: vec![] });
    assert!(!log.accepts(&early));
    assert!(log.accepts(&CaptureEvent::Other));
    assert!(log.accepts(&CaptureEvent::Bgra { display_time: 10, width: 1, height: 1, data: vec![] }));
}

#[test]
fn sample_words_of_bytes() {
    let data: Vec<u8> = (1..=9).collect();
    assert_eq!(sample_words(&data), vec![[1, 2, 3, 4], [5, 6, 7, 8]]);
    assert_eq!(sample_words(&[1, 2, 3]), Vec::<[u8; 4]>::new());
}

#[test]
fn collector_counts_frames_and_words() {
    let mut c = AudioCollector::new();
    c.push_frame(&[1, 2, 3, 4, 5]);
    c.push_frame(&[6, 7, 8, 9, 10, 11, 12, 13]);
    c.push_frame(&[]);
    assert_eq!(c.frame_count, 3);
    assert_eq!(c.words, vec![[1, 2, 3, 4], [6, 7, 8, 9], [10, 11, 12, 13]]);
}

#[test]
fn cursor_plays_samples_then_silence() {
    let mut c = SampleCursor::new(vec![5i16, -3], 0);
    assert_eq!(c.next_sample(), 5);
    assert_eq!(c.next_sample(), -3);
    assert_eq!(c.next_sample(), 0);
    assert_eq!(c.next_sample(), 0);
    assert_eq!(c.position(), 2);
}

#[test]
fn write_data_fills_frames() {
    let mut c = SampleCursor::new(vec![7u16, 9, 11], 0);
    let mut out = [1u16; 5];
    write_data(&mut out, 2, &mut c);
    assert_eq!(out, [7, 7, 9, 9, 11]);
    assert_eq!(c.position(), 3);
    let mut out2 = [1u16; 3];
    write_data(&mut out2, 2, &mut c);
    assert_eq!(out2, [0, 0, 0]);
    assert_eq!(c.position(), 3);
}

#[test]
fn write_data_single_channel_and_empty() {
    let mut c = SampleCursor::new(vec![1i32, 2, 3, 4], -1);
    let mut out = [0i32; 3];
    write_data(&mut out, 1, &mut c);
    assert_eq!(out, [1, 2, 3]);
    let mut empty: [i32; 0] = [];
    write_data(&mut empty, 4, &mut c);
    assert_eq!(c.position(), 3);
    let mut out = [0i32; 6];
    write_data(&mut out, 3, &mut c);
    assert_eq!(out, [4, 4, 4, -1, -1, -1]);
}

#[test]
fn cursor_across_buffers_plays_in_order_then_silence() {
    let mut c = SampleCursor::new(vec![1u8, 2, 3, 4, 5], 0);
    let mut heads = vec![];
    for len in [3usize, 4, 0, 5, 2, 6] {
        let mut out = vec![9u8; len];
        write_data(&mut out, 2, &mut c);
        for frame in out.chunks(2) {
            assert!(frame.iter().all(|s| *s == frame[0]));
            heads.push(frame[0]);
        }
    }
    assert_eq!(heads, vec![1, 2, 3, 4, 5, 0, 0, 0, 0, 0, 0]);
    assert_eq!(c.position(), 5);
}

#[test]
fn decode_driver_sends_only_chosen_stream() {
    let mut d = DecodeDriver::new(1);
    assert_eq!(d.advance(DecodeInput::Status { code: 0 }), DecodeAction::ReadPacket);
    assert_eq!(d.advance(DecodeInput::Packet { stream_index: 0 }), DecodeAction::ReadPacket);
    assert_eq!(d.advance(DecodeInput::Packet { stream_index: 1 }), DecodeAction::SendPacket);
    assert_eq!(d.advance(DecodeInput::Status { code: 0 }), DecodeAction::ReceiveFrame);
    assert_eq!(d.advance(DecodeInput::Status { code: 0 }), DecodeAction::ReceiveFrame);
    assert_eq!(d.advance(DecodeInput::Status { code: 0 }), DecodeAction::ReceiveFrame);
    assert_eq!(d.advance(DecodeInput::Status { code: EAGAIN }), DecodeAction::ReadPacket);
    assert_eq!(d.advance(DecodeInput::EndOfInput), DecodeAction::SendEof);
    assert_eq!(d.advance(DecodeInput::Status { code: 0 }), DecodeAction::ReceiveFrame);
    assert_eq!(d.advance(DecodeInput::Status { code: 0 }), DecodeAction::ReceiveFrame);
    assert_eq!(d.advance(DecodeInput::Status { code: EOF }), DecodeAction::Finished);
    assert_eq!(d.advance(DecodeInput::Packet { stream_index: 1 }), DecodeAction::Finished);
    assert!(d.at_end);
}
