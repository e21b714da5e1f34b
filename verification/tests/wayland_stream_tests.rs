use bsdos_metal_viewer::wayland_stream::compositor::Compositor;
use bsdos_metal_viewer::wayland_stream::stream_parser::{
    is_v1_protocol, parse_events, StreamEvent, EV_CURSOR_MOVE, EV_POOL_DATA, EV_SURFACE_COMMIT,
    EV_SURFACE_CREATE, EV_SURFACE_DESTROY,
};

// ── is_v1_protocol ─────────────────────────────────────────────────────

#[test]
fn is_v1_protocol_rejects_short_buffers() {
    assert!(!is_v1_protocol(&[]));
    assert!(!is_v1_protocol(&[0, 0, 0, 0])); // < 5 bytes
}

#[test]
fn is_v1_protocol_accepts_well_formed_envelope() {
    // [total_size=33][event=0x04]... padded out to 4+33=37 bytes so
    // the condition `total_size <= data.len() - 4` holds.
    let mut buf = vec![0u8; 4 + 33];
    buf[0..4].copy_from_slice(&33u32.to_le_bytes());
    buf[4] = EV_SURFACE_COMMIT;
    assert!(is_v1_protocol(&buf));
}

#[test]
fn is_v1_protocol_rejects_oversized_total_size() {
    // total_size > data.len() - 4 → false
    let mut buf = vec![0u8; 5];
    buf[0..4].copy_from_slice(&1000u32.to_le_bytes());
    buf[4] = EV_POOL_DATA;
    assert!(!is_v1_protocol(&buf));
}

#[test]
fn is_v1_protocol_rejects_unknown_event_type() {
    let mut buf = vec![0u8; 5];
    buf[0..4].copy_from_slice(&1u32.to_le_bytes());
    buf[4] = 0xAB;
    assert!(!is_v1_protocol(&buf));
}

// ── parse_events: surface create / destroy ─────────────────────────────

#[test]
fn parse_events_surface_create_and_destroy() {
    // Wire layout: 4-byte total_size + payload.
    // payload = [type=0x01][surface_id=42][type=0x02][surface_id=99] = 10 bytes
    let mut buf = vec![0u8; 4 + 1 + 4 + 1 + 4];
    let total = (buf.len() - 4) as u32;
    buf[0..4].copy_from_slice(&total.to_le_bytes());
    buf[4] = EV_SURFACE_CREATE;
    buf[5..9].copy_from_slice(&42u32.to_le_bytes());
    buf[9] = EV_SURFACE_DESTROY;
    buf[10..14].copy_from_slice(&99u32.to_le_bytes());

    let events = parse_events(&buf);
    assert_eq!(events.len(), 2);
    match &events[0] {
        Ok(StreamEvent::SurfaceCreate { surface_id }) => assert_eq!(*surface_id, 42),
        other => panic!("expected SurfaceCreate, got {:?}", other),
    }
    match &events[1] {
        Ok(StreamEvent::SurfaceDestroy { surface_id }) => assert_eq!(*surface_id, 99),
        other => panic!("expected SurfaceDestroy, got {:?}", other),
    }
}

// ── parse_events: pool data ────────────────────────────────────────────

#[test]
fn parse_events_pool_data_round_trip() {
    // [total_size=29][type=0x03][pool_id=7][w=8][h=2][stride=32]
    //                   [format=0][raw_len=64][lz4_len=5][5 bytes lz4 data]
    let lz4_data = [0xDE, 0xAD, 0xBE, 0xEF, 0x42];
    let mut buf = vec![0u8; 4 + 1 + 4 + 2 + 2 + 4 + 4 + 4 + 4 + lz4_data.len()];
    let total = (buf.len() - 4) as u32;
    buf[0..4].copy_from_slice(&total.to_le_bytes());
    buf[4] = EV_POOL_DATA;
    buf[5..9].copy_from_slice(&7u32.to_le_bytes());
    buf[9..11].copy_from_slice(&8u16.to_le_bytes());
    buf[11..13].copy_from_slice(&2u16.to_le_bytes());
    buf[13..17].copy_from_slice(&32u32.to_le_bytes());
    buf[17..21].copy_from_slice(&0u32.to_le_bytes());
    buf[21..25].copy_from_slice(&64u32.to_le_bytes());
    buf[25..29].copy_from_slice(&(lz4_data.len() as u32).to_le_bytes());
    buf[29..].copy_from_slice(&lz4_data);

    let events = parse_events(&buf);
    assert_eq!(events.len(), 1);
    match &events[0] {
        Ok(StreamEvent::PoolData {
            pool_id,
            width,
            height,
            stride,
            format,
            raw_len,
            lz4_data: data,
        }) => {
            assert_eq!(*pool_id, 7);
            assert_eq!(*width, 8);
            assert_eq!(*height, 2);
            assert_eq!(*stride, 32);
            assert_eq!(*format, 0);
            assert_eq!(*raw_len, 64);
            assert_eq!(*data, lz4_data);
        }
        other => panic!("expected PoolData, got {:?}", other),
    }
}

#[test]
fn parse_events_pool_data_truncated_returns_error() {
    // Header says lz4_len=10, but only 3 bytes follow
    let mut buf = vec![0u8; 4 + 1 + 4 + 2 + 2 + 4 + 4 + 4 + 4 + 3];
    let total = (buf.len() - 4) as u32;
    buf[0..4].copy_from_slice(&total.to_le_bytes());
    buf[4] = EV_POOL_DATA;
    buf[25..29].copy_from_slice(&10u32.to_le_bytes());

    let events = parse_events(&buf);
    assert_eq!(events.len(), 1);
    assert!(events[0].is_err());
}

// ── parse_events: surface commit ───────────────────────────────────────

#[test]
fn parse_events_surface_commit_round_trip() {
    // [total_size=33][type=0x04][surface_id=1][pool_id=2][offset=0]
    //                   [bw=10][bh=20][bstride=40][format=0]
    //                   [dx=0][dy=0][dw=10][dh=20]
    let mut buf = vec![0u8; 4 + 33];
    buf[0..4].copy_from_slice(&33u32.to_le_bytes());
    buf[4] = EV_SURFACE_COMMIT;
    buf[5..9].copy_from_slice(&1u32.to_le_bytes());
    buf[9..13].copy_from_slice(&2u32.to_le_bytes());
    buf[13..17].copy_from_slice(&0u32.to_le_bytes());
    buf[17..19].copy_from_slice(&10u16.to_le_bytes());
    buf[19..21].copy_from_slice(&20u16.to_le_bytes());
    buf[21..25].copy_from_slice(&40u32.to_le_bytes());
    buf[25..29].copy_from_slice(&0u32.to_le_bytes());
    buf[29..31].copy_from_slice(&0u16.to_le_bytes());
    buf[31..33].copy_from_slice(&0u16.to_le_bytes());
    buf[33..35].copy_from_slice(&10u16.to_le_bytes());
    buf[35..37].copy_from_slice(&20u16.to_le_bytes());

    let events = parse_events(&buf);
    assert_eq!(events.len(), 1);
    match &events[0] {
        Ok(StreamEvent::SurfaceCommit {
            surface_id,
            pool_id,
            buf_width,
            buf_height,
            buf_stride,
            damage_w,
            damage_h,
            ..
        }) => {
            assert_eq!(*surface_id, 1);
            assert_eq!(*pool_id, 2);
            assert_eq!(*buf_width, 10);
            assert_eq!(*buf_height, 20);
            assert_eq!(*buf_stride, 40);
            assert_eq!(*damage_w, 10);
            assert_eq!(*damage_h, 20);
        }
        other => panic!("expected SurfaceCommit, got {:?}", other),
    }
}

// ── parse_events: cursor move ──────────────────────────────────────────

#[test]
fn parse_events_cursor_move() {
    // [total_size=9][type=0x05][x=1234][y=-567]
    let mut buf = vec![0u8; 4 + 1 + 4 + 4];
    buf[0..4].copy_from_slice(&9u32.to_le_bytes());
    buf[4] = EV_CURSOR_MOVE;
    buf[5..9].copy_from_slice(&1234i32.to_le_bytes());
    buf[9..13].copy_from_slice(&(-567i32).to_le_bytes());

    let events = parse_events(&buf);
    assert_eq!(events.len(), 1);
    match &events[0] {
        Ok(StreamEvent::CursorMove { x, y }) => {
            assert_eq!(*x, 1234);
            assert_eq!(*y, -567);
        }
        other => panic!("expected CursorMove, got {:?}", other),
    }
}

// ── parse_events: error handling ───────────────────────────────────────

#[test]
fn parse_events_short_buffer_returns_empty_vec() {
    let events = parse_events(&[0, 0, 0]);
    assert!(events.is_empty());
}

#[test]
fn parse_events_unknown_event_returns_error_and_stops() {
    // [total_size=5][type=0xAB][...]
    let mut buf = vec![0u8; 10];
    buf[0..4].copy_from_slice(&5u32.to_le_bytes());
    buf[4] = 0xAB;

    let events = parse_events(&buf);
    assert_eq!(events.len(), 1);
    assert!(events[0].is_err());
}

// ── Compositor: surface lifecycle ──────────────────────────────────────

#[test]
fn compositor_surface_create_destroy() {
    let mut c = Compositor::new();
    assert_eq!(c.surface_count(), 0);
    c.handle_surface_create(1);
    c.handle_surface_create(2);
    assert_eq!(c.surface_count(), 2);
    c.handle_surface_destroy(1);
    assert_eq!(c.surface_count(), 1);
}

// ── Compositor: pool data uncompressed fast-path ──────────────────────

#[test]
fn compositor_pool_data_uncompressed_path() {
    // lz4_data.len() == raw_len → handle_pool_data treats it as raw bytes
    // (no decompression), so we can avoid the lz4_flex dependency in tests.
    let mut c = Compositor::new();
    let raw = vec![0u8; 16]; // 4 pixels of BGRA zeros
    c.handle_pool_data(1, 4, 1, 16, 0, 16, &raw);
    assert_eq!(c.pool_count(), 1);
}

// ── Compositor: surface commit produces a frame ───────────────────────

#[test]
fn compositor_surface_commit_produces_frame() {
    let mut c = Compositor::new();
    // Pool: 4x1 of zeros, stride=16 (4 px * 4 B/px)
    let raw = vec![0u8; 16];
    c.handle_pool_data(1, 4, 1, 16, 0, 16, &raw);

    c.handle_surface_commit(99, 1, 0, 4, 1, 16, 0, 0, 0, 4, 1);

    assert!(c.dirty);
    assert_eq!(c.frame.width, 4);
    assert_eq!(c.frame.height, 1);
    assert_eq!(c.frame.stride, 16);
    assert_eq!(c.frame.data.len(), 16);
}

#[test]
fn compositor_surface_commit_missing_pool_is_noop() {
    let mut c = Compositor::new();
    // No pool registered — commit should be silently dropped.
    c.handle_surface_commit(1, 999, 0, 4, 1, 16, 0, 0, 0, 4, 1);
    assert!(!c.dirty);
    assert_eq!(c.frame.width, 0);
    assert_eq!(c.frame.data.len(), 0);
}

#[test]
fn compositor_surface_commit_format_1_sets_alpha_to_0xff() {
    // format=1 is XRGB8888 in Wayland — the protocol marks the pad byte
    // as 'X' (don't care). The compositor normalises it to 0xFF so the
    // resulting RGBA is fully opaque.
    let mut c = Compositor::new();
    let mut raw = vec![0u8; 16];
    // Mark pad bytes (index 3, 7, 11, 15) as zero — they should become 0xFF
    raw[3] = 0x00;
    raw[7] = 0x00;
    raw[11] = 0x00;
    raw[15] = 0x00;
    c.handle_pool_data(1, 4, 1, 16, 1, 16, &raw);

    c.handle_surface_commit(1, 1, 0, 4, 1, 16, 1, 0, 0, 4, 1);

    assert_eq!(c.frame.data[3], 0xFF);
    assert_eq!(c.frame.data[7], 0xFF);
    assert_eq!(c.frame.data[11], 0xFF);
    assert_eq!(c.frame.data[15], 0xFF);
}

#[test]
fn compositor_surface_commit_pool_too_small_does_not_panic() {
    let mut c = Compositor::new();
    let raw = vec![0u8; 4]; // not enough for 4x1 stride=16
    c.handle_pool_data(1, 4, 1, 16, 0, 16, &raw);

    c.handle_surface_commit(1, 1, 0, 4, 1, 16, 0, 0, 0, 4, 1);

    // Frame is left untouched (still zero-size from init).
    assert_eq!(c.frame.width, 0);
}

// ── Compositor: cursor move is a no-op placeholder ────────────────────

#[test]
fn compositor_cursor_move_is_noop() {
    let mut c = Compositor::new();
    // Should not panic or change dirty state.
    c.handle_cursor_move(10, 20);
    assert!(!c.dirty);
}

// ── Compositor: damage rect ────────────────────────────────────────────

#[test]
fn compositor_surface_commit_stores_damage() {
    let mut c = Compositor::new();
    let raw = vec![0u8; 16];
    c.handle_pool_data(1, 4, 1, 16, 0, 16, &raw);

    c.handle_surface_commit(99, 1, 0, 4, 1, 16, 0, 1, 0, 2, 1);

    assert!(c.dirty);
    assert_eq!(c.last_damage.x, 1);
    assert_eq!(c.last_damage.y, 0);
    assert_eq!(c.last_damage.w, 2);
    assert_eq!(c.last_damage.h, 1);
}

#[test]
fn compositor_surface_commit_clamps_oversized_damage() {
    let mut c = Compositor::new();
    let raw = vec![0u8; 16];
    c.handle_pool_data(1, 4, 1, 16, 0, 16, &raw);

    // Damage extends beyond surface bounds (4x1)
    c.handle_surface_commit(99, 1, 0, 4, 1, 16, 0, 2, 0, 10, 5);

    assert!(c.dirty);
    // Should be clamped to surface bounds
    assert_eq!(c.last_damage.x, 2);
    assert_eq!(c.last_damage.y, 0);
    assert_eq!(c.last_damage.w, 2); // clamped from 10 to 2
    assert_eq!(c.last_damage.h, 1); // clamped from 5 to 1
}

#[test]
fn compositor_surface_commit_zero_damage_means_full_surface() {
    let mut c = Compositor::new();
    let raw = vec![0u8; 16];
    c.handle_pool_data(1, 4, 1, 16, 0, 16, &raw);

    // Zero-sized damage means full surface (Wayland convention)
    c.handle_surface_commit(99, 1, 0, 4, 1, 16, 0, 0, 0, 0, 0);

    assert!(c.dirty);
    assert_eq!(c.last_damage.x, 0);
    assert_eq!(c.last_damage.y, 0);
    assert_eq!(c.last_damage.w, 4);
    assert_eq!(c.last_damage.h, 1);
}
