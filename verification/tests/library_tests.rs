use bsdos_metal_viewer::config::{tls_enabled, topics_for_stream, zenoh_settings};
use bsdos_metal_viewer::frame_buffer::FrameBuffer;
use bsdos_metal_viewer::input::input_forwarder::{
    encode_event, macos_keycode_to_evdev, modifier_bits, push_key_event, push_key_event_at, push_pointer_event,
    push_scroll_event, translate_key_event, EventQueue, InputEvent, InputTopic, KeyEventKind,
    KeyPress, ModifierState, pointer_action, PointerAction, PointerEventKind,
};
use bsdos_metal_viewer::overlay::overlay::OverlayRenderer;
use bsdos_metal_viewer::packet_stats::PacketStats;
use bsdos_metal_viewer::ping_state::PingState;
use bsdos_metal_viewer::protocol::{clamp_damage_to_surface, merge_damage, Rect};
use bsdos_metal_viewer::receiver::{handle_health_payload, handle_stream_packet, parse_health_ts, PacketKind};
use bsdos_metal_viewer::render_loop::{is_full_damage, SizeDebouncer, SIZE_DEBOUNCE};
use bsdos_metal_viewer::texture_upload::{
    damaged_region_offset, drawable_size_with_scale, plan_texture_upload, UploadPlan,
};
use bsdos_metal_viewer::wayland_packet::WaylandPacket;
use bsdos_metal_viewer::wayland_stream::compositor::{Compositor, MAX_LZ4_FF_RUN};
use bsdos_metal_viewer::wayland_stream::stream_parser::{
    parse_events, ParseError, StreamEvent, EV_CURSOR_MOVE, EV_POOL_DATA, EV_SURFACE_COMMIT,
    EV_SURFACE_CREATE,
};

fn envelope(events: &[u8]) -> Vec<u8> {
    let mut buf = (events.len() as u32).to_le_bytes().to_vec();
    buf.extend_from_slice(events);
    buf
}

fn pool_event(pool_id: u32, w: u16, h: u16, stride: u32, format: u32, raw_len: u32, data: &[u8]) -> Vec<u8> {
    let mut e = vec![EV_POOL_DATA];
    e.extend_from_slice(&pool_id.to_le_bytes());
    e.extend_from_slice(&w.to_le_bytes());
    e.extend_from_slice(&h.to_le_bytes());
    e.extend_from_slice(&stride.to_le_bytes());
    e.extend_from_slice(&format.to_le_bytes());
    e.extend_from_slice(&raw_len.to_le_bytes());
    e.extend_from_slice(&(data.len() as u32).to_le_bytes());
    e.extend_from_slice(data);
    e
}

fn commit_event(surface: u32, pool: u32, offset: u32, w: u16, h: u16, stride: u32, format: u32, d: [u16; 4]) -> Vec<u8> {
    let mut e = vec![EV_SURFACE_COMMIT];
    e.extend_from_slice(&surface.to_le_bytes());
    e.extend_from_slice(&pool.to_le_bytes());
    e.extend_from_slice(&offset.to_le_bytes());
    e.extend_from_slice(&w.to_le_bytes());
    e.extend_from_slice(&h.to_le_bytes());
    e.extend_from_slice(&stride.to_le_bytes());
    e.extend_from_slice(&format.to_le_bytes());
    for v in d {
        e.extend_from_slice(&v.to_le_bytes());
    }
    e
}

// ── protocol laws on concrete values ───────────────────────────────────────

#[test]
fn clamp_is_idempotent_on_example() {
    let r = clamp_damage_to_surface(Rect::new(80, 80, 50, 50), 100, 100).unwrap();
    assert_eq!(clamp_damage_to_surface(r, 100, 100), Some(r));
}

#[test]
fn clamp_on_zero_surface_with_zero_damage_gives_zero_surface() {
    assert_eq!(clamp_damage_to_surface(Rect::zero(), 0, 0), Some(Rect::new(0, 0, 0, 0)));
}

#[test]
fn clamp_at_right_edge_is_dropped() {
    assert_eq!(clamp_damage_to_surface(Rect::new(100, 0, 5, 5), 100, 100), None);
}

#[test]
fn merge_is_commutative_on_example() {
    let a = Rect::new(3, 7, 10, 2);
    let b = Rect::new(1, 9, 4, 30);
    assert_eq!(merge_damage(a, b), merge_damage(b, a));
    assert_eq!(merge_damage(a, b), Rect::new(1, 7, 12, 32));
}

#[test]
fn merge_of_two_zero_rects_returns_second() {
    let a = Rect::new(5, 5, 0, 0);
    let b = Rect::new(0, 0, 0, 3);
    assert_eq!(merge_damage(a, b), b);
    assert_eq!(merge_damage(b, a), a);
}

#[test]
fn merge_saturates_right_edge() {
    let a = Rect::new(65530, 0, 100, 1);
    let b = Rect::new(0, 0, 1, 1);
    assert_eq!(merge_damage(a, b), Rect::new(0, 0, 65535, 1));
}

#[test]
fn rect_is_zero_cases() {
    assert!(Rect::zero().is_zero());
    assert!(Rect::new(1, 1, 0, 5).is_zero());
    assert!(!Rect::new(1, 1, 2, 5).is_zero());
}

// ── parser error variants ──────────────────────────────────────────────────

#[test]
fn parse_error_variants() {
    let cases: Vec<(Vec<u8>, ParseError)> = vec![
        (envelope(&[0x01, 1, 2]), ParseError::SurfaceCreateTooShort),
        (envelope(&[0x02, 1]), ParseError::SurfaceDestroyTooShort),
        (envelope(&[0x03, 0, 0, 0]), ParseError::PoolDataHeaderTooShort { got: 3 }),
        (envelope(&[0x04; 10]), ParseError::SurfaceCommitTooShort { got: 9 }),
        (envelope(&[0x05, 0, 0, 0, 0]), ParseError::CursorMoveTooShort),
        (envelope(&[0x09, 0, 0]), ParseError::UnknownEventType { event_type: 0x09 }),
    ];
    for (buf, expected) in cases.iter() {
        let events = parse_events(buf);
        assert_eq!(events.len(), 1);
        match &events[0] {
            Err(e) => assert_eq!(e, expected),
            other => panic!("expected error, got {:?}", other),
        }
    }
    let mut e = pool_event(1, 1, 1, 4, 0, 4, &[1, 2, 3, 4]);
    e.truncate(e.len() - 2);
    let buf = envelope(&e);
    let events = parse_events(&buf);
    match &events[0] {
        Err(err) => assert_eq!(*err, ParseError::PoolDataTruncated { need: 4, got: 2 }),
        other => panic!("expected error, got {:?}", other),
    }
}

#[test]
fn parse_stops_after_first_error_and_keeps_earlier_events() {
    let mut events = vec![EV_SURFACE_CREATE, 7, 0, 0, 0, 0xAB];
    events.extend_from_slice(&[EV_SURFACE_CREATE, 8, 0, 0, 0]);
    let buf = envelope(&events);
    let parsed = parse_events(&buf);
    assert_eq!(parsed.len(), 2);
    assert!(matches!(parsed[0], Ok(StreamEvent::SurfaceCreate { surface_id: 7 })));
    assert!(parsed[1].is_err());
}

#[test]
fn encoded_events_parse_back_in_order() {
    let mut events = vec![EV_SURFACE_CREATE];
    events.extend_from_slice(&5u32.to_le_bytes());
    events.extend_from_slice(&pool_event(3, 2, 1, 8, 1, 8, &[1, 2, 3, 4, 5, 6, 7, 8]));
    events.extend_from_slice(&commit_event(5, 3, 0, 2, 1, 8, 1, [0, 0, 2, 1]));
    events.push(EV_CURSOR_MOVE);
    events.extend_from_slice(&(-4i32).to_le_bytes());
    events.extend_from_slice(&(i32::MAX).to_le_bytes());
    let buf = envelope(&events);
    let parsed = parse_events(&buf);
    assert_eq!(parsed.len(), 4);
    assert!(matches!(parsed[0], Ok(StreamEvent::SurfaceCreate { surface_id: 5 })));
    match &parsed[1] {
        Ok(StreamEvent::PoolData { pool_id, width, height, stride, format, raw_len, lz4_data }) => {
            assert_eq!((*pool_id, *width, *height, *stride, *format, *raw_len), (3, 2, 1, 8, 1, 8));
            assert_eq!(*lz4_data, &[1u8, 2, 3, 4, 5, 6, 7, 8][..]);
        }
        other => panic!("expected PoolData, got {:?}", other),
    }
    assert!(matches!(parsed[2], Ok(StreamEvent::SurfaceCommit {
        surface_id: 5, pool_id: 3, offset: 0, buf_width: 2, buf_height: 1, buf_stride: 8,
        format: 1, damage_x: 0, damage_y: 0, damage_w: 2, damage_h: 1,
    })));
    assert!(matches!(parsed[3], Ok(StreamEvent::CursorMove { x: -4, y: i32::MAX })));
}

#[test]
fn parse_respects_total_size_shorter_than_buffer() {
    // total_size covers only the first event; trailing bytes are ignored.
    let mut buf = 5u32.to_le_bytes().to_vec();
    buf.extend_from_slice(&[EV_SURFACE_CREATE, 1, 0, 0, 0, EV_SURFACE_CREATE, 2, 0, 0, 0]);
    let parsed = parse_events(&buf);
    assert_eq!(parsed.len(), 1);
}

// ── compositor with LZ4 data ───────────────────────────────────────────────

#[test]
fn compositor_pool_data_lz4_path_decompresses() {
    let raw: Vec<u8> = (0u8..32).collect();
    let compressed = lz4_flex::compress(&raw);
    assert_ne!(compressed.len(), raw.len());
    let mut c = Compositor::new();
    c.handle_pool_data(3, 8, 1, 32, 0, raw.len() as u32, &compressed);
    assert_eq!(c.pool_count(), 1);
    c.handle_surface_commit(1, 3, 0, 8, 1, 32, 0, 0, 0, 8, 1);
    assert_eq!(c.frame.data, raw);
}

#[test]
fn compositor_pool_data_bad_lz4_is_ignored() {
    let mut c = Compositor::new();
    c.handle_pool_data(3, 8, 1, 32, 0, 32, &[0xF0]);
    assert_eq!(c.pool_count(), 0);
}

#[test]
fn compositor_commit_packs_rows_and_zero_fills_narrow_stride() {
    // 2x2 buffer of width 2 (8 bytes per packed row) from a pool with stride 6:
    // each row copies 6 bytes and pads 2 zero bytes.
    let pool: Vec<u8> = (1u8..=14).collect();
    let mut c = Compositor::new();
    c.handle_pool_data(1, 2, 2, 6, 0, pool.len() as u32, &pool);
    c.handle_surface_commit(1, 1, 2, 2, 2, 6, 0, 0, 0, 0, 0);
    assert_eq!(c.frame.stride, 8);
    assert_eq!(c.frame.data, vec![3, 4, 5, 6, 7, 8, 0, 0, 9, 10, 11, 12, 13, 14, 0, 0]);
}

#[test]
fn compositor_commit_wide_stride_skips_padding() {
    let pool: Vec<u8> = (0u8..24).collect();
    let mut c = Compositor::new();
    c.handle_pool_data(1, 1, 2, 12, 0, 24, &pool);
    c.handle_surface_commit(1, 1, 0, 1, 2, 12, 0, 0, 0, 1, 2);
    assert_eq!(c.frame.data, vec![0, 1, 2, 3, 12, 13, 14, 15]);
}

#[test]
fn compositor_commit_updates_tracked_surface_only() {
    let mut c = Compositor::new();
    c.handle_surface_create(5);
    c.handle_pool_data(1, 4, 1, 16, 0, 16, &[0u8; 16]);
    c.handle_surface_commit(6, 1, 0, 4, 1, 16, 0, 1, 0, 1, 1);
    assert_eq!(c.surface_count(), 1);
    assert!(c.is_dirty());
    c.clear_dirty();
    assert!(!c.is_dirty());
    assert_eq!(c.last_damage(), Rect::new(1, 0, 1, 1));
}

#[test]
fn compositor_create_then_destroy_restores_count() {
    let mut c = Compositor::new();
    c.handle_surface_create(9);
    c.handle_surface_destroy(9);
    assert_eq!(c.surface_count(), 0);
}

#[test]
fn compositor_damage_outside_surface_means_full_surface() {
    let mut c = Compositor::new();
    c.handle_pool_data(1, 4, 1, 16, 0, 16, &[0u8; 16]);
    c.handle_surface_commit(1, 1, 0, 4, 1, 16, 0, 50, 50, 2, 2);
    assert_eq!(c.last_damage, Rect::new(0, 0, 4, 1));
}

// ── receiver ───────────────────────────────────────────────────────────────

#[test]
fn stream_packet_commit_publishes_frame() {
    let mut events = pool_event(1, 1, 1, 4, 1, 4, &[9, 8, 7, 6]);
    events.extend(commit_event(2, 1, 0, 1, 1, 4, 1, [0, 0, 0, 0]));
    let buf = envelope(&events);
    let mut c = Compositor::new();
    let mut fb = FrameBuffer::new();
    let mut stats = PacketStats::new();
    let kind = handle_stream_packet(&mut c, &mut fb, &mut stats, &buf);
    assert_eq!(kind, PacketKind::Events { count: 2 });
    assert_eq!(stats.packet_count(), 1);
    assert_eq!(stats.error_count(), 0);
    assert!(fb.dirty);
    assert_eq!(fb.data, vec![9, 8, 7, 0xFF]);
    assert_eq!((fb.width, fb.height, fb.stride), (1, 1, 4));
    assert!(!c.dirty);
}

#[test]
fn stream_packet_errors_are_counted() {
    let buf = envelope(&[0x05, 1, 2, 3]);
    let mut c = Compositor::new();
    let mut fb = FrameBuffer::new();
    let mut stats = PacketStats::new();
    let kind = handle_stream_packet(&mut c, &mut fb, &mut stats, &buf);
    assert_eq!(kind, PacketKind::Events { count: 1 });
    assert_eq!(stats.error_count(), 1);
    assert!(!fb.dirty);
}

#[test]
fn stream_packet_session_reset_clears_compositor() {
    let mut c = Compositor::new();
    c.handle_surface_create(1);
    c.handle_pool_data(1, 1, 1, 4, 0, 4, &[0u8; 4]);
    let mut fb = FrameBuffer::new();
    let mut stats = PacketStats::new();
    let kind = handle_stream_packet(&mut c, &mut fb, &mut stats, &[5, 0, 0, 0, 0xFE]);
    assert_eq!(kind, PacketKind::SessionReset);
    assert_eq!(c.pool_count(), 0);
    assert_eq!(c.surface_count(), 0);
    assert_eq!(stats.packet_count(), 1);
}

#[test]
fn stream_packet_unrecognized_is_ignored() {
    let mut c = Compositor::new();
    let mut fb = FrameBuffer::new();
    let mut stats = PacketStats::new();
    let kind = handle_stream_packet(&mut c, &mut fb, &mut stats, &[0, 0, 0, 0, 1]);
    assert_eq!(kind, PacketKind::Unrecognized);
    assert_eq!(stats.packet_count(), 1);
    assert_eq!(c.surface_count(), 0);
}

#[test]
fn health_ts_is_parsed() {
    assert_eq!(parse_health_ts(br#"{"status":"ok","ts": 1700000000}"#), Some(1700000000));
    assert_eq!(parse_health_ts(br#"{"ts":42,"other":7}"#), Some(42));
    assert_eq!(parse_health_ts(br#"{"status":"ok"}"#), None);
    assert_eq!(parse_health_ts(br#"{"ts":"x"}"#), None);
    assert_eq!(parse_health_ts(br#"{"ts":99999999999999999999}"#), None);
    assert_eq!(parse_health_ts(br#"{"ts":18446744073709551615}"#), Some(u64::MAX));
    assert_eq!(parse_health_ts(&[0x22, 0x74, 0x73, 0x22, 0x3a, 0x31, 0xff]), None);
}

#[test]
fn health_payload_updates_ping_state() {
    let mut ping = PingState::new();
    assert_eq!(handle_health_payload(&mut ping, br#"{"ts":123}"#), Some(123));
    assert_eq!(ping.server_ts(), 123);
    assert!(ping.last_health() > 0);
    let before = ping.last_health();
    assert_eq!(handle_health_payload(&mut ping, b"nothing"), None);
    assert_eq!(ping.last_health(), before);
}

#[test]
fn ping_latency_micros() {
    let mut ping = PingState::new();
    assert_eq!(ping.micros_since_health(1000), None);
    ping.record_health_at(500);
    assert_eq!(ping.micros_since_health(1500), Some(1000));
    assert_eq!(ping.micros_since_health(499), Some(u64::MAX));
    ping.set_server_ts(77);
    assert_eq!(ping.server_ts(), 77);
}

#[test]
fn packet_stats_count_and_wrap() {
    let mut s = PacketStats::new();
    s.inc_packet();
    s.inc_error();
    s.inc_error();
    assert_eq!((s.packet_count(), s.error_count()), (1, 2));
    s.packet_count = u64::MAX;
    s.inc_packet();
    assert_eq!(s.packet_count(), 0);
}

// ── frame buffer and render loop ───────────────────────────────────────────

#[test]
fn frame_buffer_take_frame_once() {
    let mut fb = FrameBuffer::new();
    assert!(fb.take_frame().is_none());
    fb.update(2, 1, 8, vec![1; 8], Rect::new(0, 0, 2, 1));
    let f = fb.take_frame().unwrap();
    assert_eq!((f.width, f.height, f.stride, f.data.len()), (2, 1, 8, 8));
    assert_eq!(f.damage, Rect::new(0, 0, 2, 1));
    assert!(!fb.dirty);
    assert!(fb.take_frame().is_none());
    fb.update(0, 1, 0, vec![], Rect::zero());
    assert!(fb.take_frame().is_none());
}

#[test]
fn size_debouncer_publishes_after_quiet_period() {
    let mut d = SizeDebouncer::new((100, 100, 2));
    assert_eq!(d.observe((100, 100, 2)), None);
    assert_eq!(d.observe((200, 100, 2)), None);
    for _ in 0..SIZE_DEBOUNCE - 1 {
        assert_eq!(d.observe((200, 100, 2)), None);
    }
    assert_eq!(d.observe((200, 100, 2)), Some((200, 100, 2)));
    assert_eq!(d.observe((200, 100, 2)), None);
}

#[test]
fn full_damage_check() {
    assert!(is_full_damage(Rect::new(0, 0, 4, 3), 4, 3));
    assert!(!is_full_damage(Rect::new(0, 1, 4, 2), 4, 3));
}

// ── header, config ─────────────────────────────────────────────────────────

#[test]
fn wayland_packet_header() {
    let mut buf = vec![0u8; 16];
    buf[0..4].copy_from_slice(&7u32.to_le_bytes());
    buf[4..8].copy_from_slice(&9u32.to_le_bytes());
    buf[8..10].copy_from_slice(&0xFFFFu16.to_le_bytes());
    buf[12..16].copy_from_slice(&1_000_000u32.to_le_bytes());
    let p = WaylandPacket::parse(&buf).unwrap();
    assert_eq!((p.msg_id, p.obj_id, p.op_code, p.payload_len), (7, 9, 0xFFFF, 1_000_000));
    buf[12..16].copy_from_slice(&1_000_001u32.to_le_bytes());
    assert!(WaylandPacket::parse(&buf).is_none());
    assert!(WaylandPacket::parse(&buf[..15]).is_none());
    assert_eq!(WaylandPacket::payload_offset(), 16);
}

#[test]
fn topics_derived_from_app_stream() {
    let t = topics_for_stream(b"bsdos/app/appTerm/stream").unwrap();
    assert_eq!(t.keyboard, b"bsdos/app/appTerm/input/keyboard".to_vec());
    assert_eq!(t.pointer, b"bsdos/app/appTerm/input/pointer".to_vec());
    assert_eq!(t.size, b"bsdos/app/appTerm/viewer/size".to_vec());
    assert!(topics_for_stream(b"bsdos/global/wayland/stream").is_none());
    assert!(topics_for_stream(b"bsdos/app/x/other").is_none());
    assert!(topics_for_stream(b"bsdos/app/stream").is_none());
    let empty_id = topics_for_stream(b"bsdos/app//stream").unwrap();
    assert_eq!(empty_id.size, b"bsdos/app//viewer/size".to_vec());
}

#[test]
fn tls_decision() {
    assert!(tls_enabled(None, b"tls/host:7447"));
    assert!(!tls_enabled(None, b"tcp/localhost:7447"));
    assert!(!tls_enabled(Some(b"0"), b"tls/host:7447"));
    assert!(tls_enabled(Some(b"1"), b"tcp/host:7447"));
    assert!(tls_enabled(Some(b""), b"tcp/host:7447"));
}

// ── input ──────────────────────────────────────────────────────────────────

#[test]
fn keycode_translation() {
    assert_eq!(macos_keycode_to_evdev(0x00), 30);
    assert_eq!(macos_keycode_to_evdev(0x24), 28);
    assert_eq!(macos_keycode_to_evdev(0x7E), 103);
    assert_eq!(macos_keycode_to_evdev(0x4C), 96);
    assert_eq!(macos_keycode_to_evdev(0xFF), 0);
}

#[test]
fn keycode_translation_is_injective() {
    let mut seen = std::collections::HashMap::new();
    for vk in 0u16..=0x7F {
        let code = macos_keycode_to_evdev(vk);
        if code != 0 {
            assert!(seen.insert(code, vk).is_none(), "code {} repeated", code);
        }
    }
    assert_eq!(seen.len(), 98);
}

#[test]
fn key_event_translation() {
    let m = ModifierState { shift: true, control: false, option: true, command: true, caps_lock: false };
    assert_eq!(modifier_bits(m), 13);
    assert_eq!(
        translate_key_event(KeyEventKind::KeyDown, 0x00, m),
        Some(KeyPress { key_code: 30, action: 1, modifiers: 13 })
    );
    assert_eq!(
        translate_key_event(KeyEventKind::KeyUp, 0x00, m),
        Some(KeyPress { key_code: 30, action: 0, modifiers: 13 })
    );
    assert_eq!(
        translate_key_event(KeyEventKind::FlagsChanged, 0x38, m),
        Some(KeyPress { key_code: 42, action: 1, modifiers: 0 })
    );
    assert_eq!(
        translate_key_event(KeyEventKind::FlagsChanged, 0x3B, m),
        Some(KeyPress { key_code: 29, action: 0, modifiers: 0 })
    );
    assert_eq!(translate_key_event(KeyEventKind::KeyDown, 0xFF, m), None);
}

#[test]
fn event_queue_drain_and_encoding() {
    let mut q = EventQueue::new();
    assert!(q.drain().is_none());
    push_key_event(&mut q, 30, 1, 8);
    push_pointer_event(&mut q, 1.5f32.to_bits(), 2.0f32.to_bits(), 1);
    push_scroll_event(&mut q, 0, 0, (-0.5f32).to_bits(), 0);
    assert_eq!(q.len(), 3);
    let events = q.drain().unwrap();
    assert_eq!(q.len(), 0);
    assert_eq!(events.len(), 3);

    let (topic, bytes) = encode_event(&events[0]);
    assert_eq!(topic, InputTopic::Keyboard);
    assert_eq!(bytes.len(), 16);
    assert_eq!(&bytes[0..8], &[30, 0, 0, 0, 1, 8, 0, 0]);
    match events[0] {
        InputEvent::Key { ts, .. } => assert_eq!(&bytes[8..16], &ts.to_le_bytes()),
        _ => panic!("expected key"),
    }

    let (topic, bytes) = encode_event(&events[1]);
    assert_eq!(topic, InputTopic::Pointer);
    let mut expected = Vec::new();
    expected.extend_from_slice(&1.5f32.to_le_bytes());
    expected.extend_from_slice(&2.0f32.to_le_bytes());
    expected.push(1);
    expected.extend_from_slice(&0.0f32.to_le_bytes());
    expected.extend_from_slice(&0.0f32.to_le_bytes());
    assert_eq!(bytes, expected);

    let (_, bytes) = encode_event(&events[2]);
    assert_eq!(bytes[8], 0);
    assert_eq!(&bytes[9..13], &(-0.5f32).to_le_bytes());
}

#[test]
fn overlay_background() {
    let mut o = OverlayRenderer::new();
    assert_eq!((o.width(), o.height()), (220, 36));
    assert_eq!(o.buffer().len(), 220 * 36 * 4);
    assert!(o.buffer().iter().all(|&b| b == 0));
    o.clear_background();
    assert_eq!(&o.buffer()[0..8], &[0, 0, 0, 153, 0, 0, 0, 153]);
    o.buffer_mut()[0] = 7;
    assert_eq!(o.buffer()[0], 7);
}

// ── texture upload decisions ───────────────────────────────────────────────

#[test]
fn texture_upload_plan() {
    assert_eq!(plan_texture_upload(0, 10, 1000, 0, 0), UploadPlan::Skip);
    assert_eq!(plan_texture_upload(10, 0, 1000, 0, 0), UploadPlan::Skip);
    // 4x2 frame needs 32 bytes.
    assert_eq!(plan_texture_upload(4, 2, 31, 0, 0), UploadPlan::Skip);
    assert_eq!(
        plan_texture_upload(4, 2, 32, 0, 0),
        UploadPlan::Upload { new_texture: true, bytes_per_row: 16 }
    );
    assert_eq!(
        plan_texture_upload(4, 2, 40, 4, 2),
        UploadPlan::Upload { new_texture: false, bytes_per_row: 16 }
    );
    assert_eq!(
        plan_texture_upload(4, 2, 32, 4, 3),
        UploadPlan::Upload { new_texture: true, bytes_per_row: 16 }
    );
    // Sizes whose byte count exceeds any buffer are skipped, not wrapped.
    assert_eq!(plan_texture_upload(u32::MAX, u32::MAX, usize::MAX, 0, 0), UploadPlan::Skip);
}

#[test]
fn damaged_region_offsets() {
    assert_eq!(damaged_region_offset(Rect::new(3, 2, 1, 1), 40), Some(2 * 40 + 3 * 4));
    assert_eq!(damaged_region_offset(Rect::new(0, 0, 5, 5), 40), Some(0));
    assert_eq!(damaged_region_offset(Rect::new(1, 2, 1, 1), usize::MAX), None);
}

#[test]
fn drawable_size_reports() {
    assert_eq!(drawable_size_with_scale(0, 720, Some(2)), (0, 0, 1));
    assert_eq!(drawable_size_with_scale(1280, 0, None), (0, 0, 1));
    assert_eq!(drawable_size_with_scale(1280, 720, Some(1)), (1280, 720, 1));
    assert_eq!(drawable_size_with_scale(1280, 720, None), (1280, 720, 2));
}

#[test]
fn compositor_commit_tight_stride_copies_pool() {
    let mut c = Compositor::new();
    let raw: Vec<u8> = (0u8..40).collect();
    c.handle_pool_data(1, 2, 2, 8, 0, 40, &raw);
    // 2x2 buffer with 8-byte rows starting at byte 4.
    c.handle_surface_commit(1, 1, 4, 2, 2, 8, 0, 0, 0, 0, 0);
    assert_eq!(c.frame.data, raw[4..20].to_vec());
    assert_eq!(c.frame.stride, 8);
}

// ── key timestamps, pool counts, long LZ4 blocks, error texts ──────────────

#[test]
fn key_event_carries_given_and_current_time() {
    let mut q = EventQueue::new();
    push_key_event_at(&mut q, 30, 1, 8, 1_700_000_000_123);
    let before = std::time::SystemTime::now()
        .duration_since(std::time::UNIX_EPOCH)
        .unwrap()
        .as_millis() as u64;
    push_key_event(&mut q, 31, 0, 0);
    let after = std::time::SystemTime::now()
        .duration_since(std::time::UNIX_EPOCH)
        .unwrap()
        .as_millis() as u64;
    let events = q.drain().unwrap();
    assert_eq!(events[0], InputEvent::Key { key_code: 30, action: 1, modifiers: 8, ts: 1_700_000_000_123 });
    match events[1] {
        InputEvent::Key { key_code: 31, action: 0, modifiers: 0, ts } => {
            assert!(before <= ts && ts <= after, "timestamp {} not in [{}, {}]", ts, before, after);
        }
        other => panic!("expected key, got {:?}", other),
    }
}

#[test]
fn pool_and_surface_counts() {
    let mut c = Compositor::new();
    let raw = vec![0u8; 16];
    c.handle_pool_data(1, 4, 1, 16, 0, 16, &raw);
    c.handle_pool_data(1, 4, 1, 16, 0, 16, &raw);
    assert_eq!(c.pool_count(), 1);
    c.handle_pool_data(2, 4, 1, 16, 0, 16, &raw);
    assert_eq!(c.pool_count(), 2);
    // A failed decompression stores nothing.
    c.handle_pool_data(3, 4, 1, 16, 0, 64, &[0xFF]);
    assert_eq!(c.pool_count(), 2);
    c.handle_surface_create(7);
    c.handle_surface_create(7);
    assert_eq!(c.surface_count(), 1);
    c.handle_surface_destroy(8);
    assert_eq!(c.surface_count(), 1);
}

#[test]
fn overlong_lz4_block_is_ignored() {
    // A literal length made of a very long run of 0xFF bytes.
    let mut block = vec![0xF0u8];
    block.extend(std::iter::repeat(0xFFu8).take(MAX_LZ4_FF_RUN + 1));
    block.push(0x01);
    let mut c = Compositor::new();
    c.handle_pool_data(1, 4, 1, 16, 0, 16, &block);
    assert_eq!(c.pool_count(), 0);
}

#[test]
fn parse_error_messages() {
    assert_eq!(ParseError::SurfaceCreateTooShort.message(), "SURFACE_CREATE: need 4 bytes");
    assert_eq!(ParseError::SurfaceDestroyTooShort.message(), "SURFACE_DESTROY: need 4 bytes");
    assert_eq!(
        ParseError::PoolDataHeaderTooShort { got: 7 }.message(),
        "POOL_DATA: need 24 bytes header, got 7"
    );
    assert_eq!(
        ParseError::PoolDataTruncated { need: 10, got: 3 }.message(),
        "POOL_DATA: need 10 bytes lz4 data, got 3"
    );
    assert_eq!(
        ParseError::SurfaceCommitTooShort { got: 0 }.message(),
        "SURFACE_COMMIT: need 32 bytes, got 0"
    );
    assert_eq!(ParseError::CursorMoveTooShort.message(), "CURSOR_MOVE: need 8 bytes");
    assert_eq!(ParseError::UnknownEventType { event_type: 0xAB }.message(), "Unknown event type 0xab");
    assert_eq!(ParseError::UnknownEventType { event_type: 0x07 }.message(), "Unknown event type 0x07");
    assert_eq!(
        ParseError::PoolDataTruncated { need: usize::MAX, got: 1234567890 }.message(),
        format!("POOL_DATA: need {} bytes lz4 data, got 1234567890", usize::MAX)
    );
}

#[test]
fn long_compressed_block_is_decoded() {
    // Incompressible bytes: the compressed block is longer than MAX_LZ4_FF_RUN.
    let mut state: u64 = 0x2545_F491_4F6C_DD1D;
    let raw: Vec<u8> = (0..17_000_000usize)
        .map(|_| {
            state = state.wrapping_mul(6364136223846793005).wrapping_add(1442695040888963407);
            (state >> 56) as u8
        })
        .collect();
    let block = lz4_flex::compress(&raw);
    assert!(block.len() > MAX_LZ4_FF_RUN);
    assert_ne!(block.len(), raw.len());
    let mut c = Compositor::new();
    c.handle_pool_data(1, 2048, 2075, 8192, 0, raw.len() as u32, &block);
    assert_eq!(c.pool_count(), 1);
    c.handle_surface_commit(1, 1, 0, 2048, 2075, 8192, 0, 0, 0, 0, 0);
    assert!(c.dirty);
    assert!(c.frame.data == raw[..8192 * 2075]);
}

#[test]
fn pointer_actions() {
    assert_eq!(pointer_action(PointerEventKind::Moved), PointerAction::AtEvent { buttons: 0 });
    assert_eq!(pointer_action(PointerEventKind::LeftDown), PointerAction::AtEvent { buttons: 1 });
    assert_eq!(pointer_action(PointerEventKind::RightDown), PointerAction::AtEvent { buttons: 2 });
    assert_eq!(
        pointer_action(PointerEventKind::OtherDown { button_number: 2 }),
        PointerAction::AtEvent { buttons: 4 }
    );
    assert_eq!(pointer_action(PointerEventKind::OtherDown { button_number: 3 }), PointerAction::Ignore);
    assert_eq!(pointer_action(PointerEventKind::ButtonUp), PointerAction::AtLastPosition { buttons: 0 });
}

#[test]
fn zenoh_settings_entries() {
    let s = zenoh_settings(None, None, None, None);
    assert_eq!(s.peer, "tcp/localhost:7447");
    assert!(!s.tls);
    assert_eq!(
        s.entries,
        vec![
            ("mode".to_string(), "\"client\"".to_string(), "Config mode".to_string()),
            (
                "connect/endpoints".to_string(),
                "[\"tcp/localhost:7447\"]".to_string(),
                "Config endpoints".to_string()
            ),
        ]
    );

    let s = zenoh_settings(Some("tls/host:7447"), Some("tcp/other:1"), Some("abc"), None);
    assert_eq!(s.peer, "tls/host:7447");
    assert!(s.tls);
    assert_eq!(s.entries.len(), 5);
    assert_eq!(s.entries[1].1, "[\"tls/host:7447\"]");
    assert_eq!(s.entries[2], (
        "transport/auth/usrpwd/user".to_string(),
        "\"bsdos\"".to_string(),
        "Auth user config".to_string()
    ));
    assert_eq!(s.entries[3].1, "\"abc\"");
    assert_eq!(s.entries[4], (
        "transport/link/tls/verify_name_on_connect".to_string(),
        "false".to_string(),
        "TLS config".to_string()
    ));

    let s = zenoh_settings(None, Some("tls/other:1"), None, Some("0"));
    assert_eq!(s.peer, "tls/other:1");
    assert!(!s.tls);
    assert_eq!(s.entries.len(), 2);
}
