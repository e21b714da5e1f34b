//! Decisions of the stream receiver: what one stream packet does to the
//! compositor, the shared frame buffer and the counters, and what a health
//! message carries.

use vstd::prelude::*;
use vstd::slice::slice_to_vec;
use vstd::utf8::valid_utf8;
use crate::wayland_stream::stream_parser::{
    StreamEvent, EventSpec, ParseError, parse_events, is_v1_protocol, spec_parse_events,
    spec_is_v1_protocol, result_view, spec_envelope, spec_encode_stream_events,
    lemma_parse_encoded_events, lemma_envelope_is_v1,
};
use crate::wayland_stream::compositor::{
    Compositor, CompositorView, initial_state, step_surface_create, step_surface_destroy,
    step_pool_data, step_surface_commit, decoded_pool_bytes, PoolView,
};
use crate::frame_buffer::{FrameBuffer, FrameBufferView, updated_frame_buffer};
use crate::packet_stats::{PacketStats, wrapping_inc};
use crate::ping_state::PingState;
use crate::protocol::Rect;

verus! {

/// Event type byte that announces a session reset.
pub const SESSION_RESET: u8 = 0xFE;

/// What kind of packet was received.
#[derive(Debug, Clone, Copy, PartialEq, Eq, Structural)]
pub enum PacketKind {
    /// SESSION_RESET: the compositor was replaced by a fresh one.
    SessionReset,
    /// A v1 payload holding this many parse results (events and errors).
    Events { count: usize },
    /// Neither a reset nor a v1 payload; ignored.
    Unrecognized,
}

/// The state a stream packet acts on.
pub struct ReceiverState {
    pub compositor: CompositorView,
    pub frame_buf: FrameBufferView,
    pub errors: u64,
}

/// The effect of one parse result. A commit that leaves the compositor dirty
/// publishes its frame and damage to the frame buffer and clears the flag; a
/// parse error is counted.
pub open spec fn receive_event(s: ReceiverState, r: Result<EventSpec, ParseError>) -> ReceiverState {
    match r {
        Err(_) => ReceiverState { errors: wrapping_inc(s.errors), ..s },
        Ok(EventSpec::SurfaceCreate { surface_id }) =>
            ReceiverState { compositor: step_surface_create(s.compositor, surface_id), ..s },
        Ok(EventSpec::SurfaceDestroy { surface_id }) =>
            ReceiverState { compositor: step_surface_destroy(s.compositor, surface_id), ..s },
        Ok(EventSpec::PoolData { pool_id, width, height, stride, format, raw_len, lz4_data }) =>
            ReceiverState {
                compositor: step_pool_data(s.compositor, pool_id, width, height, stride, format, raw_len, lz4_data),
                ..s
            },
        Ok(EventSpec::SurfaceCommit {
            surface_id, pool_id, offset, buf_width, buf_height, buf_stride, format,
            damage_x, damage_y, damage_w, damage_h,
        }) => {
            let c = step_surface_commit(s.compositor, surface_id, pool_id, offset, buf_width,
                buf_height, buf_stride, format, damage_x, damage_y, damage_w, damage_h);
            if c.dirty {
                ReceiverState {
                    compositor: CompositorView { dirty: false, ..c },
                    frame_buf: updated_frame_buffer(c.frame.width, c.frame.height, c.frame.stride,
                        c.frame.data, c.last_damage),
                    errors: s.errors,
                }
            } else {
                ReceiverState { compositor: c, ..s }
            }
        },
        Ok(EventSpec::CursorMove { .. }) => s,
    }
}

/// The effect of a sequence of parse results, applied in order.
pub open spec fn receive_events(s: ReceiverState, rs: Seq<Result<EventSpec, ParseError>>) -> ReceiverState
    decreases rs.len(),
{
    if rs.len() == 0 {
        s
    } else {
        receive_event(receive_events(s, rs.drop_last()), rs.last())
    }
}

/// Number of errors among parse results.
pub open spec fn count_errors(rs: Seq<Result<EventSpec, ParseError>>) -> nat
    decreases rs.len(),
{
    if rs.len() == 0 {
        0
    } else {
        count_errors(rs.drop_last()) + if rs.last() is Err { 1nat } else { 0nat }
    }
}

/// The error counter advances by the number of parse errors (modulo 2^64).
pub proof fn lemma_receive_counts_errors(s: ReceiverState, rs: Seq<Result<EventSpec, ParseError>>)
    ensures
        receive_events(s, rs).errors == (s.errors + count_errors(rs)) % 0x1_0000_0000_0000_0000,
    decreases rs.len(),
{
    if rs.len() > 0 {
        lemma_receive_counts_errors(s, rs.drop_last());
        let prev = receive_events(s, rs.drop_last());
        let k = s.errors + count_errors(rs.drop_last());
        assert(prev.errors == k % 0x1_0000_0000_0000_0000);
        if rs.last() is Err {
            assert(wrapping_inc(prev.errors) == (k + 1) % 0x1_0000_0000_0000_0000) by {
                vstd::arithmetic::div_mod::lemma_add_mod_noop(k, 1, 0x1_0000_0000_0000_0000);
            }
        }
    }
}

/// What each parse result does: SURFACE_CREATE tracks the surface with an
/// empty damage, SURFACE_DESTROY stops tracking it, POOL_DATA stores the
/// decoded bytes under the pool id (nothing on a decode failure), a commit
/// acts as the compositor's commit and hands a produced frame to the frame
/// buffer, CURSOR_MOVE changes nothing, and an error is counted. Nothing else
/// changes.
pub proof fn lemma_receive_event_effects(s: ReceiverState, r: Result<EventSpec, ParseError>)
    ensures
        ({
            let t = receive_event(s, r);
            &&& r matches Ok(EventSpec::SurfaceCreate { surface_id }) ==> {
                &&& t.compositor.surfaces == s.compositor.surfaces.insert(surface_id, Rect { x: 0, y: 0, w: 0, h: 0 })
                &&& t.compositor.pools == s.compositor.pools
                &&& t.compositor.frame == s.compositor.frame
                &&& t.compositor.dirty == s.compositor.dirty
                &&& t.compositor.last_damage == s.compositor.last_damage
                &&& t.frame_buf == s.frame_buf
                &&& t.errors == s.errors
            }
            &&& r matches Ok(EventSpec::SurfaceDestroy { surface_id }) ==> {
                &&& t.compositor.surfaces == s.compositor.surfaces.remove(surface_id)
                &&& t.compositor.pools == s.compositor.pools
                &&& t.compositor.frame == s.compositor.frame
                &&& t.compositor.dirty == s.compositor.dirty
                &&& t.compositor.last_damage == s.compositor.last_damage
                &&& t.frame_buf == s.frame_buf
                &&& t.errors == s.errors
            }
            &&& r matches Ok(EventSpec::PoolData { pool_id, width, height, stride, format, raw_len, lz4_data }) ==> {
                &&& t.compositor.pools == match decoded_pool_bytes(lz4_data, raw_len) {
                    Some(d) => s.compositor.pools.insert(pool_id, PoolView { data: d, width, height, stride, format }),
                    None => s.compositor.pools,
                }
                &&& t.compositor.surfaces == s.compositor.surfaces
                &&& t.compositor.frame == s.compositor.frame
                &&& t.compositor.dirty == s.compositor.dirty
                &&& t.compositor.last_damage == s.compositor.last_damage
                &&& t.frame_buf == s.frame_buf
                &&& t.errors == s.errors
            }
            &&& r matches Ok(EventSpec::SurfaceCommit {
                surface_id, pool_id, offset, buf_width, buf_height, buf_stride, format,
                damage_x, damage_y, damage_w, damage_h,
            }) ==> {
                let c = step_surface_commit(s.compositor, surface_id, pool_id, offset, buf_width,
                    buf_height, buf_stride, format, damage_x, damage_y, damage_w, damage_h);
                &&& !t.compositor.dirty
                &&& t.compositor.pools == c.pools
                &&& t.compositor.surfaces == c.surfaces
                &&& t.compositor.frame == c.frame
                &&& t.compositor.last_damage == c.last_damage
                &&& t.errors == s.errors
                &&& c.dirty ==> t.frame_buf.dirty && t.frame_buf.data == c.frame.data
                    && t.frame_buf.width == c.frame.width && t.frame_buf.height == c.frame.height
                    && t.frame_buf.stride == c.frame.stride && t.frame_buf.damage == c.last_damage
                &&& !c.dirty ==> t.frame_buf == s.frame_buf && t.compositor == c
            }
            &&& r matches Ok(EventSpec::CursorMove { .. }) ==> t == s
            &&& r is Err ==> {
                &&& t.compositor == s.compositor
                &&& t.frame_buf == s.frame_buf
                &&& t.errors == (if s.errors == u64::MAX { 0 } else { s.errors + 1 })
            }
        }),
{
}

/// A payload carrying one well-formed event is a v1 payload, not a session
/// reset, and applies exactly that event.
pub proof fn lemma_single_event_packet(s: ReceiverState, e: EventSpec)
    requires
        spec_encode_stream_events(seq![e]).len() <= u32::MAX,
    ensures
        spec_is_v1_protocol(spec_envelope(seq![e])),
        !is_session_reset(spec_envelope(seq![e])),
        spec_parse_events(spec_envelope(seq![e])).len() == 1,
        receive_events(s, spec_parse_events(spec_envelope(seq![e]))) == receive_event(s, Ok(e)),
{
    let evs = seq![e];
    lemma_envelope_is_v1(evs);
    lemma_parse_encoded_events(evs);
    let rs = spec_parse_events(spec_envelope(evs));
    assert(rs =~= seq![Ok::<EventSpec, ParseError>(e)]);
    assert(rs.drop_last() =~= Seq::<Result<EventSpec, ParseError>>::empty());
    assert(rs.last() == Ok::<EventSpec, ParseError>(e));
    assert(receive_events(s, rs.drop_last()) == s);
    assert(receive_events(s, rs) == receive_event(receive_events(s, rs.drop_last()), rs.last()));
}

/// A payload whose fifth byte is SESSION_RESET.
pub open spec fn is_session_reset(data: Seq<u8>) -> bool {
    data.len() >= 5 && data[4] == SESSION_RESET
}

/// Applies one stream packet: counts it; a SESSION_RESET replaces the
/// compositor by a fresh one; a v1 payload has its events applied in order
/// (see `receive_events`); anything else is ignored.
pub fn handle_stream_packet(
    compositor: &mut Compositor,
    frame_buf: &mut FrameBuffer,
    stats: &mut PacketStats,
    data: &[u8],
) -> (kind: PacketKind)
    ensures
        final(stats).packet_count == wrapping_inc(old(stats).packet_count),
        is_session_reset(data@) ==> {
            &&& kind == PacketKind::SessionReset
            &&& final(compositor)@ == initial_state()
            &&& final(frame_buf)@ == old(frame_buf)@
            &&& final(stats).error_count == old(stats).error_count
        },
        !is_session_reset(data@) && spec_is_v1_protocol(data@) ==> {
            let s = receive_events(
                ReceiverState { compositor: old(compositor)@, frame_buf: old(frame_buf)@, errors: old(stats).error_count },
                spec_parse_events(data@));
            &&& kind == (PacketKind::Events { count: spec_parse_events(data@).len() as usize })
            &&& final(compositor)@ == s.compositor
            &&& final(frame_buf)@ == s.frame_buf
            &&& final(stats).error_count == s.errors
        },
        !is_session_reset(data@) && !spec_is_v1_protocol(data@) ==> {
            &&& kind == PacketKind::Unrecognized
            &&& final(compositor)@ == old(compositor)@
            &&& final(frame_buf)@ == old(frame_buf)@
            &&& final(stats).error_count == old(stats).error_count
        },
{
    stats.inc_packet();

    if data.len() >= 5 && data[4] == SESSION_RESET {
        *compositor = Compositor::new();
        return PacketKind::SessionReset;
    }

    if !is_v1_protocol(data) {
        return PacketKind::Unrecognized;
    }

    let events = parse_events(data);
    let ghost evs = spec_parse_events(data@);
    let ghost init = ReceiverState {
        compositor: compositor@, frame_buf: frame_buf@, errors: stats.error_count,
    };
    let n = events.len();
    let mut i: usize = 0;
    while i < n
        invariant
            n == events@.len(),
            n == evs.len(),
            i <= n,
            forall|j: int| 0 <= j < n ==> result_view(#[trigger] events@[j]) == evs[j],
            receive_events(init, evs.take(i as int)) == (ReceiverState {
                compositor: compositor@, frame_buf: frame_buf@, errors: stats.error_count,
            }),
            stats.packet_count == wrapping_inc(old(stats).packet_count),
        decreases n - i,
    {
        let ghost before = ReceiverState {
            compositor: compositor@, frame_buf: frame_buf@, errors: stats.error_count,
        };
        proof {
            assert(evs.take(i + 1).drop_last() =~= evs.take(i as int));
            assert(evs.take(i + 1).last() == evs[i as int]);
        }
        match &events[i] {
            Ok(StreamEvent::SurfaceCreate { surface_id }) => {
                compositor.handle_surface_create(*surface_id);
            },
            Ok(StreamEvent::SurfaceDestroy { surface_id }) => {
                compositor.handle_surface_destroy(*surface_id);
            },
            Ok(StreamEvent::PoolData { pool_id, width, height, stride, format, raw_len, lz4_data }) => {
                compositor.handle_pool_data(*pool_id, *width, *height, *stride, *format, *raw_len, lz4_data);
            },
            Ok(StreamEvent::SurfaceCommit {
                surface_id, pool_id, offset, buf_width, buf_height, buf_stride, format,
                damage_x, damage_y, damage_w, damage_h,
            }) => {
                compositor.handle_surface_commit(*surface_id, *pool_id, *offset, *buf_width,
                    *buf_height, *buf_stride, *format, *damage_x, *damage_y, *damage_w, *damage_h);
                if compositor.is_dirty() {
                    compositor.clear_dirty();
                    let frame = compositor.frame();
                    let pixels = slice_to_vec(frame.data.as_slice());
                    frame_buf.update(frame.width, frame.height, frame.stride, pixels,
                        compositor.last_damage());
                }
            },
            Ok(StreamEvent::CursorMove { x, y }) => {
                compositor.handle_cursor_move(*x, *y);
            },
            Err(_) => {
                stats.inc_error();
            },
        }
        i = i + 1;
    }
    proof {
        assert(evs.take(n as int) =~= evs);
    }
    PacketKind::Events { count: n }
}

/// True for the bytes `'0'..='9'`.
pub open spec fn is_ascii_digit(b: u8) -> bool {
    0x30 <= b <= 0x39
}

/// The four bytes `"ts"` (quotes included) start at `i`.
pub open spec fn is_ts_key_at(b: Seq<u8>, i: int) -> bool {
    &&& 0 <= i
    &&& i + 4 <= b.len()
    &&& b[i] == 0x22
    &&& b[i + 1] == 0x74
    &&& b[i + 2] == 0x73
    &&& b[i + 3] == 0x22
}

/// Position of the first `"ts"` at or after `i`.
pub open spec fn ts_key_from(b: Seq<u8>, i: int) -> Option<int>
    decreases b.len() - i,
{
    if i < 0 || i + 4 > b.len() {
        None
    } else if is_ts_key_at(b, i) {
        Some(i)
    } else {
        ts_key_from(b, i + 1)
    }
}

/// Position of the first digit at or after `i` (`b.len()` if none).
pub open spec fn first_digit_from(b: Seq<u8>, i: int) -> int
    decreases b.len() - i,
{
    if i < 0 || i >= b.len() {
        b.len() as int
    } else if is_ascii_digit(b[i]) {
        i
    } else {
        first_digit_from(b, i + 1)
    }
}

/// End of the run of digits starting at `i`.
pub open spec fn digits_end_from(b: Seq<u8>, i: int) -> int
    decreases b.len() - i,
{
    if i < 0 || i >= b.len() {
        b.len() as int
    } else if !is_ascii_digit(b[i]) {
        i
    } else {
        digits_end_from(b, i + 1)
    }
}

/// Value of a sequence of decimal digits, most significant first.
pub open spec fn decimal_value(d: Seq<u8>) -> int
    decreases d.len(),
{
    if d.len() == 0 {
        0
    } else {
        decimal_value(d.drop_last()) * 10 + (d.last() - 0x30)
    }
}

/// The server timestamp of a health message: the payload must be UTF-8; after
/// the first `"ts"` key, non-digits are skipped and the following run of
/// digits is read as a decimal `u64`. `None` if there is no key, no digit, or
/// the number does not fit.
pub open spec fn spec_health_ts(b: Seq<u8>) -> Option<u64> {
    if !valid_utf8(b) {
        None
    } else {
        match ts_key_from(b, 0) {
            None => None,
            Some(k) => {
                let j = first_digit_from(b, k + 3);
                let e = digits_end_from(b, j);
                if j == e || decimal_value(b.subrange(j, e)) > u64::MAX {
                    None
                } else {
                    Some(decimal_value(b.subrange(j, e)) as u64)
                }
            },
        }
    }
}

proof fn lemma_ts_key_found(b: Seq<u8>, i: int, k: int)
    requires
        0 <= i <= k,
        is_ts_key_at(b, k),
        forall|j: int| i <= j < k ==> !#[trigger] is_ts_key_at(b, j),
    ensures
        ts_key_from(b, i) == Some(k),
    decreases k - i,
{
    if i < k {
        assert(!is_ts_key_at(b, i));
        lemma_ts_key_found(b, i + 1, k);
    }
}

proof fn lemma_first_digit_at(b: Seq<u8>, i: int, j: int)
    requires
        0 <= i <= j <= b.len(),
        forall|m: int| i <= m < j ==> !is_ascii_digit(#[trigger] b[m]),
        j < b.len() ==> is_ascii_digit(b[j]),
    ensures
        first_digit_from(b, i) == j,
    decreases j - i,
{
    if i < j {
        assert(!is_ascii_digit(b[i]));
        lemma_first_digit_at(b, i + 1, j);
    }
}

proof fn lemma_digits_end_at(b: Seq<u8>, i: int, e: int)
    requires
        0 <= i <= e <= b.len(),
        forall|m: int| i <= m < e ==> is_ascii_digit(#[trigger] b[m]),
        e < b.len() ==> !is_ascii_digit(b[e]),
    ensures
        digits_end_from(b, i) == e,
    decreases e - i,
{
    if i < e {
        assert(is_ascii_digit(b[i]));
        lemma_digits_end_at(b, i + 1, e);
    }
}

/// The bytes `"ts"`, quotes included.
pub open spec fn ts_key() -> Seq<u8> {
    seq![0x22u8, 0x74u8, 0x73u8, 0x22u8]
}

/// The timestamp of a health message is the number that follows its first
/// `"ts"` key: for a payload `p + "ts" + sep + d + rest` where no `"ts"` key
/// starts inside `p`, `sep` holds no digit, `d` is a nonempty run of digits
/// and `rest` does not continue it, the timestamp is the decimal value of `d`
/// (none if it does not fit in a `u64`), whatever digits `p` holds.
pub proof fn lemma_health_ts_after_key(p: Seq<u8>, sep: Seq<u8>, d: Seq<u8>, rest: Seq<u8>)
    requires
        forall|i: int| 0 <= i < p.len() ==> !#[trigger] is_ts_key_at(p + ts_key() + sep + d + rest, i),
        forall|i: int| 0 <= i < sep.len() ==> !is_ascii_digit(#[trigger] sep[i]),
        d.len() > 0,
        forall|i: int| 0 <= i < d.len() ==> is_ascii_digit(#[trigger] d[i]),
        rest.len() > 0 ==> !is_ascii_digit(rest[0]),
        valid_utf8(p + ts_key() + sep + d + rest),
    ensures
        spec_health_ts(p + ts_key() + sep + d + rest) == (if decimal_value(d) <= u64::MAX {
            Some(decimal_value(d) as u64)
        } else {
            None
        }),
{
    let b = p + ts_key() + sep + d + rest;
    let k = p.len() as int;
    let j = k + 4 + sep.len();
    let e = j + d.len();
    assert(is_ts_key_at(b, k));
    lemma_ts_key_found(b, 0, k);
    assert forall|m: int| k + 3 <= m < j implies !is_ascii_digit(#[trigger] b[m]) by {
        if m > k + 3 {
            assert(b[m] == sep[m - k - 4]);
        }
    }
    assert(is_ascii_digit(b[j])) by {
        assert(b[j] == d[0]);
    }
    lemma_first_digit_at(b, k + 3, j);
    assert forall|m: int| j <= m < e implies is_ascii_digit(#[trigger] b[m]) by {
        assert(b[m] == d[m - j]);
    }
    if e < b.len() {
        assert(b[e] == rest[0]);
    }
    lemma_digits_end_at(b, j, e);
    assert(b.subrange(j, e) =~= d);
}

/// Whether `b` is valid UTF-8, by `std::str::from_utf8`; the contract claims
/// that its verdict is vstd's `valid_utf8`.
#[verifier::external_body]
fn is_valid_utf8(b: &[u8]) -> (r: bool)
    ensures
        r == valid_utf8(b@),
{
    std::str::from_utf8(b).is_ok()
}

/// Extracts the server timestamp from a health payload (see `spec_health_ts`).
pub fn parse_health_ts(payload: &[u8]) -> (r: Option<u64>)
    ensures
        r == spec_health_ts(payload@),
{
    if !is_valid_utf8(payload) {
        return None;
    }
    let len = payload.len();
    let ghost b = payload@;

    // Find the first "ts" key.
    let mut k: usize = 0;
    let mut found = false;
    while !found && len - k >= 4
        invariant
            len == b.len(),
            b == payload@,
            k <= len,
            found ==> ts_key_from(b, 0) == Some(k as int) && k + 4 <= len,
            !found ==> ts_key_from(b, 0) == ts_key_from(b, k as int),
        decreases len - k, (if found { 0int } else { 1int }),
    {
        if payload[k] == 0x22 && payload[k + 1] == 0x74 && payload[k + 2] == 0x73 && payload[k + 3] == 0x22 {
            found = true;
        } else {
            k = k + 1;
        }
    }
    if !found {
        return None;
    }
    assert(ts_key_from(b, 0) == Some(k as int));

    // Skip to the first digit after the key's opening quote and two letters.
    let mut j: usize = k + 3;
    while j < len && !(payload[j] >= 0x30 && payload[j] <= 0x39)
        invariant
            len == b.len(),
            b == payload@,
            k + 3 <= j <= len,
            first_digit_from(b, k + 3) == first_digit_from(b, j as int),
        decreases len - j,
    {
        j = j + 1;
    }

    // Read the run of digits.
    let mut e: usize = j;
    let mut value: u64 = 0;
    let mut overflow = false;
    while e < len && payload[e] >= 0x30 && payload[e] <= 0x39
        invariant
            len == b.len(),
            b == payload@,
            j <= e <= len,
            digits_end_from(b, j as int) == digits_end_from(b, e as int),
            overflow ==> decimal_value(b.subrange(j as int, e as int)) > u64::MAX,
            !overflow ==> decimal_value(b.subrange(j as int, e as int)) == value,
        decreases len - e,
    {
        let d = (payload[e] - 0x30) as u64;
        proof {
            assert(b.subrange(j as int, e + 1).drop_last() =~= b.subrange(j as int, e as int));
        }
        if !overflow {
            match value.checked_mul(10) {
                Some(v10) => match v10.checked_add(d) {
                    Some(v) => {
                        value = v;
                    },
                    None => {
                        overflow = true;
                    },
                },
                None => {
                    overflow = true;
                },
            }
        }
        e = e + 1;
    }
    if j == e || overflow {
        None
    } else {
        Some(value)
    }
}

/// Handles a health message: when it carries a timestamp, stores it and
/// records the arrival time; returns the timestamp.
pub fn handle_health_payload(ping: &mut PingState, payload: &[u8]) -> (r: Option<u64>)
    ensures
        r == spec_health_ts(payload@),
        r matches Some(ts) ==> final(ping).spec_server_ts() == ts,
        r is None ==> final(ping).spec_server_ts() == old(ping).spec_server_ts()
            && final(ping).spec_last_health() == old(ping).spec_last_health(),
{
    match parse_health_ts(payload) {
        Some(ts) => {
            ping.set_server_ts(ts);
            ping.record_health();
            Some(ts)
        },
        None => None,
    }
}

} // verus!
