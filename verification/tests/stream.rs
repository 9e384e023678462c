use adb_compass::capture::decode_capture_data;
use adb_compass::control::{scrcpy_key, scrcpy_scroll, scrcpy_text, scrcpy_touch};
use adb_compass::nal::{extract_next_nal, ParamSetCache, StreamState};
use adb_compass::scrcpy::{encode_frames, ScrcpyConfig, server_args_string};

fn sample_stream() -> Vec<u8> {
    vec![
        0x00, 0x00, 0x00, 0x01, 0x67, 0xAA, 0xBB, // SPS
        0x00, 0x00, 0x01, 0x68, 0xCC, // PPS
        0x00, 0x00, 0x00, 0x01, 0x65, 0xDD, 0xDD, // IDR
    ]
}

#[test]
fn nal_extraction_three_units_third_pending() {
    let mut state = StreamState::new();
    let frames = state.feed(&sample_stream());
    assert_eq!(frames.len(), 2);
    assert_eq!(frames[0], vec![0x00, 0x00, 0x00, 0x01, 0x67, 0xAA, 0xBB]);
    assert_eq!(frames[1], vec![0x00, 0x00, 0x01, 0x68, 0xCC]);
    // the third NAL stays pending until a next start code or end of stream
    let tail = state.finish();
    assert_eq!(tail, Some(vec![0x00, 0x00, 0x00, 0x01, 0x65, 0xDD, 0xDD]));
    // all three parameter sets are now cached, and sync replays them in order
    let burst = state.cache.sync_frames();
    assert_eq!(burst.len(), 3);
    assert_eq!(burst[0], vec![0x00, 0x00, 0x00, 0x01, 0x67, 0xAA, 0xBB]);
    assert_eq!(burst[1], vec![0x00, 0x00, 0x01, 0x68, 0xCC]);
    assert_eq!(burst[2], vec![0x00, 0x00, 0x00, 0x01, 0x65, 0xDD, 0xDD]);
}

#[test]
fn nal_extraction_chunked_feed_matches_whole_feed() {
    let bytes = sample_stream();
    let mut whole = StreamState::new();
    let mut frames_whole = whole.feed(&bytes);
    if let Some(t) = whole.finish() {
        frames_whole.push(t);
    }

    let mut chunked = StreamState::new();
    let mut frames_chunked: Vec<Vec<u8>> = Vec::new();
    for b in bytes.iter() {
        frames_chunked.extend(chunked.feed(&[*b]));
    }
    if let Some(t) = chunked.finish() {
        frames_chunked.push(t);
    }
    assert_eq!(frames_whole, frames_chunked);
    assert_eq!(frames_whole.len(), 3);
}

#[test]
fn extract_next_nal_drops_garbage_before_start_code() {
    let mut buf = vec![0xFF, 0xEE, 0x00, 0x00, 0x01, 0x41, 0x42, 0x00, 0x00, 0x01, 0x43];
    let nal = extract_next_nal(&mut buf);
    assert_eq!(nal, Some(vec![0x00, 0x00, 0x01, 0x41, 0x42]));
    assert_eq!(buf, vec![0x00, 0x00, 0x01, 0x43]);
    // no second start code: nothing more comes out
    assert_eq!(extract_next_nal(&mut buf), None);
}

#[test]
fn classification_updates_only_matching_slot() {
    let mut cache = ParamSetCache::new();
    let sps = vec![0x00, 0x00, 0x00, 0x01, 0x67, 0x01];
    let pps = vec![0x00, 0x00, 0x01, 0x68, 0x02, 0x03];
    let idr = vec![0x00, 0x00, 0x01, 0x65, 0x04, 0x05];
    let delta = vec![0x00, 0x00, 0x01, 0x41, 0x06, 0x07];
    cache.update(&sps);
    assert_eq!(cache.last_sps, Some(sps.clone()));
    assert_eq!(cache.last_pps, None);
    assert_eq!(cache.last_idr, None);
    cache.update(&pps);
    assert_eq!(cache.last_pps, Some(pps.clone()));
    cache.update(&idr);
    assert_eq!(cache.last_idr, Some(idr.clone()));
    // a delta slice leaves all three slots unchanged
    cache.update(&delta);
    assert_eq!(cache.last_sps, Some(sps));
    assert_eq!(cache.last_pps, Some(pps));
    assert_eq!(cache.last_idr, Some(idr));
}

#[test]
fn touch_message_has_documented_layout() {
    let msg = scrcpy_touch(0, 100, 200, 720, 1280);
    let expected: Vec<u8> = vec![
        0x02, 0x00, 0x00, 0x00, 0x00, 0x00, 0x00, 0x00, 0x00, 0x00, 0x00, 0x00, 0x00, 0x64,
        0x00, 0x00, 0x00, 0xC8, 0x02, 0xD0, 0x05, 0x00, 0xFF, 0xFF, 0x00, 0x00, 0x00, 0x00,
        0x00, 0x00, 0x00, 0x00,
    ];
    assert_eq!(msg.len(), 32);
    assert_eq!(msg, expected);
}

#[test]
fn key_scroll_and_text_messages_encode_big_endian() {
    let key = scrcpy_key(1, 24, 0);
    assert_eq!(
        key,
        vec![0x00, 0x01, 0x00, 0x00, 0x00, 0x18, 0x00, 0x00, 0x00, 0x00, 0x00, 0x00, 0x00, 0x00]
    );

    let scroll = scrcpy_scroll(10, 20, -1, 1, 720, 1280);
    assert_eq!(scroll.len(), 25);
    assert_eq!(scroll[0], 0x03);
    assert_eq!(&scroll[1..5], &[0, 0, 0, 10]);
    assert_eq!(&scroll[5..9], &[0, 0, 0, 20]);
    assert_eq!(&scroll[9..11], &[0x02, 0xD0]);
    assert_eq!(&scroll[11..13], &[0x05, 0x00]);
    assert_eq!(&scroll[13..17], &[0xFF, 0xFF, 0xFF, 0xFF]); // -1, two's complement
    assert_eq!(&scroll[17..21], &[0x00, 0x00, 0x00, 0x01]);
    assert_eq!(&scroll[21..25], &[0, 0, 0, 0]);

    let text = scrcpy_text("hi");
    assert_eq!(text, vec![0x01, 0x00, 0x00, 0x00, 0x02, b'h', b'i']);
}

#[test]
fn frame_encoding_round_trips_through_base64() {
    let nal = vec![0x00, 0x00, 0x01, 0x65, 0xAB, 0xCD];
    let encoded = encode_frames(&vec![nal.clone()]);
    assert_eq!(encoded.len(), 1);
    // the payload really is transformed, and decodes back to the NAL
    assert_ne!(encoded[0].as_bytes(), &nal[..]);
    assert_eq!(encoded[0], "AAABZavN");
    let decoded = decode_capture_data(&encoded[0]).unwrap();
    assert_eq!(decoded, nal);
}

#[test]
fn server_invocation_line_is_exact() {
    let config = ScrcpyConfig::default();
    let line = server_args_string(&config, "12345678");
    assert_eq!(
        line,
        "CLASSPATH=/data/local/tmp/scrcpy-server.jar app_process / com.genymobile.scrcpy.Server 2.7 \
         scid=12345678 log_level=verbose max_size=512 max_fps=30 lock_video_orientation=-1 \
         tunnel_forward=true send_frame_meta=false control=true display_id=0 show_touches=false \
         stay_awake=true power_off_on_close=false cleanup=true power_on=true audio=false video=true"
    );
}
