//! Parser for the v1 stream envelope and its five event kinds.
//!
//! Wire format: `[total_size: u32 LE][events...]`, each event being
//! `[event_type: u8][payload...]`.

use vstd::prelude::*;
use vstd::slice::slice_subrange;
use vstd::string::StringExecFns;
use crate::le_bytes::{
    le_u16, le_u32, le_i32, read_u16_le, read_u32_le, read_i32_le, u16_le_bytes, u32_le_bytes,
    i32_le_bytes, lemma_u16_le_roundtrip, lemma_u32_le_roundtrip, lemma_i32_le_roundtrip,
};

verus! {

pub const EV_SURFACE_CREATE: u8 = 0x01;
pub const EV_SURFACE_DESTROY: u8 = 0x02;
pub const EV_POOL_DATA: u8 = 0x03;
pub const EV_SURFACE_COMMIT: u8 = 0x04;
pub const EV_CURSOR_MOVE: u8 = 0x05;

/// One decoded stream event; `PoolData` borrows its compressed bytes from the
/// parsed buffer.
#[derive(Debug)]
pub enum StreamEvent<'a> {
    SurfaceCreate { surface_id: u32 },
    SurfaceDestroy { surface_id: u32 },
    PoolData {
        pool_id: u32,
        width: u16,
        height: u16,
        stride: u32,
        format: u32,
        raw_len: u32,
        lz4_data: &'a [u8],
    },
    SurfaceCommit {
        surface_id: u32,
        pool_id: u32,
        offset: u32,
        buf_width: u16,
        buf_height: u16,
        buf_stride: u32,
        format: u32,
        damage_x: u16,
        damage_y: u16,
        damage_w: u16,
        damage_h: u16,
    },
    CursorMove { x: i32, y: i32 },
}

/// Mathematical value of a `StreamEvent`: the same fields, with the
/// compressed pool bytes as a sequence.
pub enum EventSpec {
    SurfaceCreate { surface_id: u32 },
    SurfaceDestroy { surface_id: u32 },
    PoolData {
        pool_id: u32,
        width: u16,
        height: u16,
        stride: u32,
        format: u32,
        raw_len: u32,
        lz4_data: Seq<u8>,
    },
    SurfaceCommit {
        surface_id: u32,
        pool_id: u32,
        offset: u32,
        buf_width: u16,
        buf_height: u16,
        buf_stride: u32,
        format: u32,
        damage_x: u16,
        damage_y: u16,
        damage_w: u16,
        damage_h: u16,
    },
    CursorMove { x: i32, y: i32 },
}

impl<'a> View for StreamEvent<'a> {
    type V = EventSpec;

    open spec fn view(&self) -> EventSpec {
        match *self {
            StreamEvent::SurfaceCreate { surface_id } => EventSpec::SurfaceCreate { surface_id },
            StreamEvent::SurfaceDestroy { surface_id } => EventSpec::SurfaceDestroy { surface_id },
            StreamEvent::PoolData { pool_id, width, height, stride, format, raw_len, lz4_data } =>
                EventSpec::PoolData { pool_id, width, height, stride, format, raw_len, lz4_data: lz4_data@ },
            StreamEvent::SurfaceCommit {
                surface_id, pool_id, offset, buf_width, buf_height, buf_stride, format,
                damage_x, damage_y, damage_w, damage_h,
            } => EventSpec::SurfaceCommit {
                surface_id, pool_id, offset, buf_width, buf_height, buf_stride, format,
                damage_x, damage_y, damage_w, damage_h,
            },
            StreamEvent::CursorMove { x, y } => EventSpec::CursorMove { x, y },
        }
    }
}

/// Why an event could not be decoded.
#[derive(Debug, Clone, Copy, PartialEq, Eq, Structural)]
pub enum ParseError {
    /// SURFACE_CREATE needs 4 payload bytes.
    SurfaceCreateTooShort,
    /// SURFACE_DESTROY needs 4 payload bytes.
    SurfaceDestroyTooShort,
    /// POOL_DATA needs a 24-byte header; `got` bytes were left.
    PoolDataHeaderTooShort { got: usize },
    /// POOL_DATA announced `need` bytes of LZ4 data but only `got` followed the header.
    PoolDataTruncated { need: usize, got: usize },
    /// SURFACE_COMMIT needs 32 payload bytes; `got` bytes were left.
    SurfaceCommitTooShort { got: usize },
    /// CURSOR_MOVE needs 8 payload bytes.
    CursorMoveTooShort,
    /// An event type byte outside 0x01..=0x05; parsing cannot continue past it.
    UnknownEventType { event_type: u8 },
}

/// The character of digit `d` (0 to 15): `'0'..='9'`, then `'a'..='f'`.
pub open spec fn digit_char(d: int) -> char {
    if d < 10 { (0x30 + d) as char } else { (0x61 + d - 10) as char }
}

/// Decimal digits of `n`, most significant first, without leading zeros.
pub open spec fn decimal_chars(n: nat) -> Seq<char>
    decreases n,
{
    if n < 10 {
        seq![digit_char(n as int)]
    } else {
        decimal_chars(n / 10).push(digit_char((n % 10) as int))
    }
}

/// Two lowercase hexadecimal digits of `b`.
pub open spec fn hex2_chars(b: u8) -> Seq<char> {
    seq![digit_char((b / 16) as int), digit_char((b % 16) as int)]
}

/// The text describing a parse error.
pub open spec fn spec_error_message(e: ParseError) -> Seq<char> {
    match e {
        ParseError::SurfaceCreateTooShort => "SURFACE_CREATE: need 4 bytes"@,
        ParseError::SurfaceDestroyTooShort => "SURFACE_DESTROY: need 4 bytes"@,
        ParseError::PoolDataHeaderTooShort { got } =>
            "POOL_DATA: need 24 bytes header, got "@ + decimal_chars(got as nat),
        ParseError::PoolDataTruncated { need, got } =>
            "POOL_DATA: need "@ + decimal_chars(need as nat) + " bytes lz4 data, got "@
                + decimal_chars(got as nat),
        ParseError::SurfaceCommitTooShort { got } =>
            "SURFACE_COMMIT: need 32 bytes, got "@ + decimal_chars(got as nat),
        ParseError::CursorMoveTooShort => "CURSOR_MOVE: need 8 bytes"@,
        ParseError::UnknownEventType { event_type } => "Unknown event type 0x"@ + hex2_chars(event_type),
    }
}

/// The one-character string of digit `d`.
fn digit_str(d: u8) -> (s: &'static str)
    requires
        d < 16,
    ensures
        s@ == seq![digit_char(d as int)],
{
    if d == 0 {
        proof { reveal_strlit("0"); }
        "0"
    } else if d == 1 {
        proof { reveal_strlit("1"); }
        "1"
    } else if d == 2 {
        proof { reveal_strlit("2"); }
        "2"
    } else if d == 3 {
        proof { reveal_strlit("3"); }
        "3"
    } else if d == 4 {
        proof { reveal_strlit("4"); }
        "4"
    } else if d == 5 {
        proof { reveal_strlit("5"); }
        "5"
    } else if d == 6 {
        proof { reveal_strlit("6"); }
        "6"
    } else if d == 7 {
        proof { reveal_strlit("7"); }
        "7"
    } else if d == 8 {
        proof { reveal_strlit("8"); }
        "8"
    } else if d == 9 {
        proof { reveal_strlit("9"); }
        "9"
    } else if d == 10 {
        proof { reveal_strlit("a"); }
        "a"
    } else if d == 11 {
        proof { reveal_strlit("b"); }
        "b"
    } else if d == 12 {
        proof { reveal_strlit("c"); }
        "c"
    } else if d == 13 {
        proof { reveal_strlit("d"); }
        "d"
    } else if d == 14 {
        proof { reveal_strlit("e"); }
        "e"
    } else {
        proof { reveal_strlit("f"); }
        "f"
    }
}

/// Appends the decimal digits of `n`.
fn push_decimal(s: &mut String, n: usize)
    ensures
        final(s)@ == old(s)@ + decimal_chars(n as nat),
    decreases n,
{
    if n >= 10 {
        push_decimal(s, n / 10);
    }
    s.append(digit_str((n % 10) as u8));
    assert(s@ =~= old(s)@ + decimal_chars(n as nat));
}

impl ParseError {
    /// The text describing the error.
    pub fn message(&self) -> (m: String)
        ensures
            m@ == spec_error_message(*self),
    {
        match *self {
            ParseError::SurfaceCreateTooShort => String::from_str("SURFACE_CREATE: need 4 bytes"),
            ParseError::SurfaceDestroyTooShort => String::from_str("SURFACE_DESTROY: need 4 bytes"),
            ParseError::PoolDataHeaderTooShort { got } => {
                let mut m = String::from_str("POOL_DATA: need 24 bytes header, got ");
                push_decimal(&mut m, got);
                m
            },
            ParseError::PoolDataTruncated { need, got } => {
                let mut m = String::from_str("POOL_DATA: need ");
                push_decimal(&mut m, need);
                m.append(" bytes lz4 data, got ");
                push_decimal(&mut m, got);
                m
            },
            ParseError::SurfaceCommitTooShort { got } => {
                let mut m = String::from_str("SURFACE_COMMIT: need 32 bytes, got ");
                push_decimal(&mut m, got);
                m
            },
            ParseError::CursorMoveTooShort => String::from_str("CURSOR_MOVE: need 8 bytes"),
            ParseError::UnknownEventType { event_type } => {
                let mut m = String::from_str("Unknown event type 0x");
                m.append(digit_str(event_type / 16));
                m.append(digit_str(event_type % 16));
                m
            },
        }
    }
}

/// Decoding of one event of type `t` whose payload starts at `b[0]`:
/// the event and the number of payload bytes it occupies, or the error.
pub open spec fn spec_parse_event(t: u8, b: Seq<u8>) -> Result<(EventSpec, nat), ParseError> {
    if t == EV_SURFACE_CREATE {
        if b.len() < 4 {
            Err(ParseError::SurfaceCreateTooShort)
        } else {
            Ok((EventSpec::SurfaceCreate { surface_id: le_u32(b, 0) as u32 }, 4))
        }
    } else if t == EV_SURFACE_DESTROY {
        if b.len() < 4 {
            Err(ParseError::SurfaceDestroyTooShort)
        } else {
            Ok((EventSpec::SurfaceDestroy { surface_id: le_u32(b, 0) as u32 }, 4))
        }
    } else if t == EV_POOL_DATA {
        if b.len() < 24 {
            Err(ParseError::PoolDataHeaderTooShort { got: b.len() as usize })
        } else if b.len() < 24 + le_u32(b, 20) {
            Err(ParseError::PoolDataTruncated { need: le_u32(b, 20) as usize, got: (b.len() - 24) as usize })
        } else {
            Ok((EventSpec::PoolData {
                pool_id: le_u32(b, 0) as u32,
                width: le_u16(b, 4) as u16,
                height: le_u16(b, 6) as u16,
                stride: le_u32(b, 8) as u32,
                format: le_u32(b, 12) as u32,
                raw_len: le_u32(b, 16) as u32,
                lz4_data: b.subrange(24, 24 + le_u32(b, 20)),
            }, (24 + le_u32(b, 20)) as nat))
        }
    } else if t == EV_SURFACE_COMMIT {
        if b.len() < 32 {
            Err(ParseError::SurfaceCommitTooShort { got: b.len() as usize })
        } else {
            Ok((EventSpec::SurfaceCommit {
                surface_id: le_u32(b, 0) as u32,
                pool_id: le_u32(b, 4) as u32,
                offset: le_u32(b, 8) as u32,
                buf_width: le_u16(b, 12) as u16,
                buf_height: le_u16(b, 14) as u16,
                buf_stride: le_u32(b, 16) as u32,
                format: le_u32(b, 20) as u32,
                damage_x: le_u16(b, 24) as u16,
                damage_y: le_u16(b, 26) as u16,
                damage_w: le_u16(b, 28) as u16,
                damage_h: le_u16(b, 30) as u16,
            }, 32))
        }
    } else if t == EV_CURSOR_MOVE {
        if b.len() < 8 {
            Err(ParseError::CursorMoveTooShort)
        } else {
            Ok((EventSpec::CursorMove { x: le_i32(b, 0) as i32, y: le_i32(b, 4) as i32 }, 8))
        }
    } else {
        Err(ParseError::UnknownEventType { event_type: t })
    }
}

/// End of the envelope: `4 + total_size`, but never past the buffer.
pub open spec fn envelope_end(data: Seq<u8>) -> int {
    if 4 + le_u32(data, 0) <= data.len() { 4 + le_u32(data, 0) } else { data.len() as int }
}

/// The events decoded from `data[pos..end]`, in order; decoding stops after
/// the first error, which is the last element.
pub open spec fn spec_events_from(data: Seq<u8>, pos: int, end: int) -> Seq<Result<EventSpec, ParseError>>
    decreases end - pos,
{
    if pos < 0 || end > data.len() || pos >= end {
        Seq::empty()
    } else {
        match spec_parse_event(data[pos], data.subrange(pos + 1, end)) {
            Ok((ev, n)) => seq![Ok(ev)] + spec_events_from(data, pos + 1 + n, end),
            Err(e) => seq![Err(e)],
        }
    }
}

/// All events of a payload: nothing when the buffer is shorter than the
/// 4-byte size field.
pub open spec fn spec_parse_events(data: Seq<u8>) -> Seq<Result<EventSpec, ParseError>> {
    if data.len() < 4 {
        Seq::empty()
    } else {
        spec_events_from(data, 4, envelope_end(data))
    }
}

/// Mathematical value of a parse result.
pub open spec fn result_view(r: Result<StreamEvent<'_>, ParseError>) -> Result<EventSpec, ParseError> {
    match r {
        Ok(ev) => Ok(ev@),
        Err(e) => Err(e),
    }
}

/// Heuristic check that a buffer starts a v1 envelope: at least 5 bytes, a
/// nonzero `total_size` that fits in the buffer, and a known first event type.
pub open spec fn spec_is_v1_protocol(data: Seq<u8>) -> bool {
    &&& data.len() >= 5
    &&& le_u32(data, 0) > 0
    &&& le_u32(data, 0) <= data.len() - 4
    &&& 0x01 <= data[4] <= 0x05
}

/// Parses all events from a payload.
/// Returns the decoded events in order; stops after the first error, which is
/// reported as the last element.
pub fn parse_events(data: &[u8]) -> (results: Vec<Result<StreamEvent<'_>, ParseError>>)
    ensures
        results@.len() == spec_parse_events(data@).len(),
        forall|i: int| 0 <= i < results@.len() ==>
            result_view(#[trigger] results@[i]) == spec_parse_events(data@)[i],
{
    let mut results: Vec<Result<StreamEvent<'_>, ParseError>> = Vec::new();

    if data.len() < 4 {
        return results;
    }

    let total_size = read_u32_le(data, 0) as usize;
    let end: usize = if total_size <= data.len() - 4 { 4 + total_size } else { data.len() };
    let mut pos: usize = 4;
    let ghost full = spec_events_from(data@, 4, end as int);

    while pos < end
        invariant
            4 <= pos <= end <= data@.len(),
            end == envelope_end(data@),
            full == spec_parse_events(data@),
            results@.len() + spec_events_from(data@, pos as int, end as int).len() == full.len(),
            forall|i: int| 0 <= i < results@.len() ==>
                result_view(#[trigger] results@[i]) == full[i],
            forall|i: int| 0 <= i < spec_events_from(data@, pos as int, end as int).len() ==>
                #[trigger] spec_events_from(data@, pos as int, end as int)[i] == full[results@.len() + i],
        decreases end - pos,
    {
        let event_type = data[pos];
        let body = slice_subrange(data, pos + 1, end);
        let ghost rest = spec_events_from(data@, pos as int, end as int);
        assert(body@ == data@.subrange(pos + 1, end as int));
        let result = parse_event(event_type, body);
        match result {
            Ok((event, consumed)) => {
                let ghost next = spec_events_from(data@, pos + 1 + consumed, end as int);
                assert(rest == seq![Ok(event@)] + next);
                assert(rest[0] == Ok::<EventSpec, ParseError>(event@));
                results.push(Ok(event));
                pos = pos + 1 + consumed;
                assert forall|i: int| 0 <= i < next.len() implies
                    #[trigger] next[i] == full[results@.len() + i] by {
                    assert(next[i] == rest[i + 1]);
                }
                assert forall|i: int| 0 <= i < results@.len() implies
                    result_view(#[trigger] results@[i]) == full[i] by {
                    if i == results@.len() - 1 {
                        assert(rest[0] == full[i]);
                    }
                }
            },
            Err(e) => {
                assert(rest == seq![Err::<EventSpec, ParseError>(e)]);
                assert(rest[0] == full[results@.len() as int]);
                results.push(Err(e));
                assert forall|i: int| 0 <= i < results@.len() implies
                    result_view(#[trigger] results@[i]) == full[i] by {
                    if i == results@.len() - 1 {
                        assert(rest[0] == full[i]);
                    }
                }
                return results;
            },
        }
    }
    results
}

/// True if the data looks like a v1 payload: a plausible `total_size` and a
/// valid first event type.
pub fn is_v1_protocol(data: &[u8]) -> (b: bool)
    ensures
        b == spec_is_v1_protocol(data@),
{
    if data.len() < 5 {
        return false;
    }
    let total_size = read_u32_le(data, 0) as usize;
    let first_event = data[4];
    total_size > 0 && total_size <= data.len() - 4 && first_event >= 0x01 && first_event <= 0x05
}

/// Decodes one event of type `event_type` from its payload bytes.
fn parse_event(event_type: u8, data: &[u8]) -> (r: Result<(StreamEvent<'_>, usize), ParseError>)
    ensures
        match r {
            Ok((ev, n)) => spec_parse_event(event_type, data@) == Ok::<(EventSpec, nat), ParseError>((ev@, n as nat))
                && n <= data@.len(),
            Err(e) => spec_parse_event(event_type, data@) == Err::<(EventSpec, nat), ParseError>(e),
        },
{
    if event_type == EV_SURFACE_CREATE {
        parse_surface_create(data)
    } else if event_type == EV_SURFACE_DESTROY {
        parse_surface_destroy(data)
    } else if event_type == EV_POOL_DATA {
        parse_pool_data(data)
    } else if event_type == EV_SURFACE_COMMIT {
        parse_surface_commit(data)
    } else if event_type == EV_CURSOR_MOVE {
        parse_cursor_move(data)
    } else {
        Err(ParseError::UnknownEventType { event_type })
    }
}

/// SURFACE_CREATE: `[surface_id: u32]`.
fn parse_surface_create(data: &[u8]) -> (r: Result<(StreamEvent<'_>, usize), ParseError>)
    ensures
        match r {
            Ok((ev, n)) => spec_parse_event(EV_SURFACE_CREATE, data@) == Ok::<(EventSpec, nat), ParseError>((ev@, n as nat))
                && n <= data@.len(),
            Err(e) => spec_parse_event(EV_SURFACE_CREATE, data@) == Err::<(EventSpec, nat), ParseError>(e),
        },
{
    if data.len() < 4 {
        return Err(ParseError::SurfaceCreateTooShort);
    }
    let surface_id = read_u32_le(data, 0);
    Ok((StreamEvent::SurfaceCreate { surface_id }, 4))
}

/// SURFACE_DESTROY: `[surface_id: u32]`.
fn parse_surface_destroy(data: &[u8]) -> (r: Result<(StreamEvent<'_>, usize), ParseError>)
    ensures
        match r {
            Ok((ev, n)) => spec_parse_event(EV_SURFACE_DESTROY, data@) == Ok::<(EventSpec, nat), ParseError>((ev@, n as nat))
                && n <= data@.len(),
            Err(e) => spec_parse_event(EV_SURFACE_DESTROY, data@) == Err::<(EventSpec, nat), ParseError>(e),
        },
{
    if data.len() < 4 {
        return Err(ParseError::SurfaceDestroyTooShort);
    }
    let surface_id = read_u32_le(data, 0);
    Ok((StreamEvent::SurfaceDestroy { surface_id }, 4))
}

/// POOL_DATA: 24-byte header `[pool_id: u32][width: u16][height: u16]
/// [stride: u32][format: u32][raw_len: u32][lz4_len: u32]` followed by
/// `lz4_len` bytes.
fn parse_pool_data(data: &[u8]) -> (r: Result<(StreamEvent<'_>, usize), ParseError>)
    ensures
        match r {
            Ok((ev, n)) => spec_parse_event(EV_POOL_DATA, data@) == Ok::<(EventSpec, nat), ParseError>((ev@, n as nat))
                && n <= data@.len(),
            Err(e) => spec_parse_event(EV_POOL_DATA, data@) == Err::<(EventSpec, nat), ParseError>(e),
        },
{
    if data.len() < 24 {
        return Err(ParseError::PoolDataHeaderTooShort { got: data.len() });
    }
    let pool_id = read_u32_le(data, 0);
    let width = read_u16_le(data, 4);
    let height = read_u16_le(data, 6);
    let stride = read_u32_le(data, 8);
    let format = read_u32_le(data, 12);
    let raw_len = read_u32_le(data, 16);
    let lz4_len = read_u32_le(data, 20) as usize;

    if data.len() - 24 < lz4_len {
        return Err(ParseError::PoolDataTruncated { need: lz4_len, got: data.len() - 24 });
    }

    let lz4_data = slice_subrange(data, 24, 24 + lz4_len);
    Ok((StreamEvent::PoolData { pool_id, width, height, stride, format, raw_len, lz4_data }, 24 + lz4_len))
}

/// SURFACE_COMMIT: 32 bytes `[surface_id: u32][pool_id: u32][offset: u32]
/// [buf_width: u16][buf_height: u16][buf_stride: u32][format: u32]
/// [damage_x: u16][damage_y: u16][damage_w: u16][damage_h: u16]`.
fn parse_surface_commit(data: &[u8]) -> (r: Result<(StreamEvent<'_>, usize), ParseError>)
    ensures
        match r {
            Ok((ev, n)) => spec_parse_event(EV_SURFACE_COMMIT, data@) == Ok::<(EventSpec, nat), ParseError>((ev@, n as nat))
                && n <= data@.len(),
            Err(e) => spec_parse_event(EV_SURFACE_COMMIT, data@) == Err::<(EventSpec, nat), ParseError>(e),
        },
{
    if data.len() < 32 {
        return Err(ParseError::SurfaceCommitTooShort { got: data.len() });
    }
    let surface_id = read_u32_le(data, 0);
    let pool_id = read_u32_le(data, 4);
    let offset = read_u32_le(data, 8);
    let buf_width = read_u16_le(data, 12);
    let buf_height = read_u16_le(data, 14);
    let buf_stride = read_u32_le(data, 16);
    let format = read_u32_le(data, 20);
    let damage_x = read_u16_le(data, 24);
    let damage_y = read_u16_le(data, 26);
    let damage_w = read_u16_le(data, 28);
    let damage_h = read_u16_le(data, 30);

    Ok((StreamEvent::SurfaceCommit {
        surface_id, pool_id, offset, buf_width, buf_height,
        buf_stride, format, damage_x, damage_y, damage_w, damage_h,
    }, 32))
}

/// CURSOR_MOVE: `[x: i32][y: i32]`.
fn parse_cursor_move(data: &[u8]) -> (r: Result<(StreamEvent<'_>, usize), ParseError>)
    ensures
        match r {
            Ok((ev, n)) => spec_parse_event(EV_CURSOR_MOVE, data@) == Ok::<(EventSpec, nat), ParseError>((ev@, n as nat))
                && n <= data@.len(),
            Err(e) => spec_parse_event(EV_CURSOR_MOVE, data@) == Err::<(EventSpec, nat), ParseError>(e),
        },
{
    if data.len() < 8 {
        return Err(ParseError::CursorMoveTooShort);
    }
    let x = read_i32_le(data, 0);
    let y = read_i32_le(data, 4);
    Ok((StreamEvent::CursorMove { x, y }, 8))
}

/// Type byte of an event.
pub open spec fn spec_event_type(e: EventSpec) -> u8 {
    match e {
        EventSpec::SurfaceCreate { .. } => EV_SURFACE_CREATE,
        EventSpec::SurfaceDestroy { .. } => EV_SURFACE_DESTROY,
        EventSpec::PoolData { .. } => EV_POOL_DATA,
        EventSpec::SurfaceCommit { .. } => EV_SURFACE_COMMIT,
        EventSpec::CursorMove { .. } => EV_CURSOR_MOVE,
    }
}

/// Wire bytes of an event after its type byte.
pub open spec fn spec_event_payload(e: EventSpec) -> Seq<u8> {
    match e {
        EventSpec::SurfaceCreate { surface_id } => u32_le_bytes(surface_id),
        EventSpec::SurfaceDestroy { surface_id } => u32_le_bytes(surface_id),
        EventSpec::PoolData { pool_id, width, height, stride, format, raw_len, lz4_data } =>
            u32_le_bytes(pool_id) + u16_le_bytes(width) + u16_le_bytes(height)
                + u32_le_bytes(stride) + u32_le_bytes(format) + u32_le_bytes(raw_len)
                + u32_le_bytes(lz4_data.len() as u32) + lz4_data,
        EventSpec::SurfaceCommit {
            surface_id, pool_id, offset, buf_width, buf_height, buf_stride, format,
            damage_x, damage_y, damage_w, damage_h,
        } =>
            u32_le_bytes(surface_id) + u32_le_bytes(pool_id) + u32_le_bytes(offset)
                + u16_le_bytes(buf_width) + u16_le_bytes(buf_height) + u32_le_bytes(buf_stride)
                + u32_le_bytes(format) + u16_le_bytes(damage_x) + u16_le_bytes(damage_y)
                + u16_le_bytes(damage_w) + u16_le_bytes(damage_h),
        EventSpec::CursorMove { x, y } => i32_le_bytes(x) + i32_le_bytes(y),
    }
}

/// Wire bytes of an event: its type byte, then its payload.
pub open spec fn spec_encode_stream_event(e: EventSpec) -> Seq<u8> {
    seq![spec_event_type(e)] + spec_event_payload(e)
}

/// Wire bytes of a sequence of events, in order.
pub open spec fn spec_encode_stream_events(evs: Seq<EventSpec>) -> Seq<u8>
    decreases evs.len(),
{
    if evs.len() == 0 {
        Seq::empty()
    } else {
        spec_encode_stream_event(evs[0]) + spec_encode_stream_events(evs.drop_first())
    }
}

/// A v1 payload carrying `evs`: the 4-byte size of the encoded events, then
/// the events.
pub open spec fn spec_envelope(evs: Seq<EventSpec>) -> Seq<u8> {
    u32_le_bytes(spec_encode_stream_events(evs).len() as u32) + spec_encode_stream_events(evs)
}

proof fn lemma_parse_pool_payload(e: EventSpec, tail: Seq<u8>)
    requires
        e is PoolData,
        spec_event_payload(e).len() <= u32::MAX,
    ensures
        spec_parse_event(EV_POOL_DATA, spec_event_payload(e) + tail)
            == Ok::<(EventSpec, nat), ParseError>((e, spec_event_payload(e).len())),
{
    let b = spec_event_payload(e) + tail;
    if let EventSpec::PoolData { pool_id, width, height, stride, format, raw_len, lz4_data } = e {
        let n = lz4_data.len() as u32;
        let h = u32_le_bytes(pool_id) + u16_le_bytes(width) + u16_le_bytes(height)
            + u32_le_bytes(stride) + u32_le_bytes(format) + u32_le_bytes(raw_len) + u32_le_bytes(n);
        assert(h.len() == 24);
        assert(b =~= h + (lz4_data + tail));
        lemma_u32_le_roundtrip(pool_id);
        lemma_u16_le_roundtrip(width);
        lemma_u16_le_roundtrip(height);
        lemma_u32_le_roundtrip(stride);
        lemma_u32_le_roundtrip(format);
        lemma_u32_le_roundtrip(raw_len);
        lemma_u32_le_roundtrip(n);
        assert(le_u32(h, 0) == le_u32(u32_le_bytes(pool_id), 0));
        assert(le_u16(h, 4) == le_u16(u16_le_bytes(width), 0));
        assert(le_u16(h, 6) == le_u16(u16_le_bytes(height), 0));
        assert(le_u32(h, 8) == le_u32(u32_le_bytes(stride), 0));
        assert(le_u32(h, 12) == le_u32(u32_le_bytes(format), 0));
        assert(le_u32(h, 16) == le_u32(u32_le_bytes(raw_len), 0));
        assert(le_u32(h, 20) == le_u32(u32_le_bytes(n), 0));
        assert(le_u32(b, 0) == le_u32(h, 0));
        assert(le_u16(b, 4) == le_u16(h, 4));
        assert(le_u16(b, 6) == le_u16(h, 6));
        assert(le_u32(b, 8) == le_u32(h, 8));
        assert(le_u32(b, 12) == le_u32(h, 12));
        assert(le_u32(b, 16) == le_u32(h, 16));
        assert(le_u32(b, 20) == le_u32(h, 20));
        assert(b.subrange(24, 24 + lz4_data.len() as int) =~= lz4_data);
    }
}

#[verifier::spinoff_prover]
#[verifier::rlimit(40)]
proof fn lemma_parse_commit_payload(e: EventSpec, tail: Seq<u8>)
    requires
        e is SurfaceCommit,
    ensures
        spec_parse_event(EV_SURFACE_COMMIT, spec_event_payload(e) + tail)
            == Ok::<(EventSpec, nat), ParseError>((e, spec_event_payload(e).len())),
{
    let b = spec_event_payload(e) + tail;
    if let EventSpec::SurfaceCommit {
        surface_id, pool_id, offset, buf_width, buf_height, buf_stride, format,
        damage_x, damage_y, damage_w, damage_h,
    } = e {
        let p = spec_event_payload(e);
        assert(p.len() == 32);
        lemma_u32_le_roundtrip(surface_id);
        lemma_u32_le_roundtrip(pool_id);
        lemma_u32_le_roundtrip(offset);
        lemma_u16_le_roundtrip(buf_width);
        lemma_u16_le_roundtrip(buf_height);
        lemma_u32_le_roundtrip(buf_stride);
        lemma_u32_le_roundtrip(format);
        lemma_u16_le_roundtrip(damage_x);
        lemma_u16_le_roundtrip(damage_y);
        lemma_u16_le_roundtrip(damage_w);
        lemma_u16_le_roundtrip(damage_h);
        assert(le_u32(p, 0) == le_u32(u32_le_bytes(surface_id), 0));
        assert(le_u32(p, 4) == le_u32(u32_le_bytes(pool_id), 0));
        assert(le_u32(p, 8) == le_u32(u32_le_bytes(offset), 0));
        assert(le_u16(p, 12) == le_u16(u16_le_bytes(buf_width), 0));
        assert(le_u16(p, 14) == le_u16(u16_le_bytes(buf_height), 0));
        assert(le_u32(p, 16) == le_u32(u32_le_bytes(buf_stride), 0));
        assert(le_u32(p, 20) == le_u32(u32_le_bytes(format), 0));
        assert(le_u16(p, 24) == le_u16(u16_le_bytes(damage_x), 0));
        assert(le_u16(p, 26) == le_u16(u16_le_bytes(damage_y), 0));
        assert(le_u16(p, 28) == le_u16(u16_le_bytes(damage_w), 0));
        assert(le_u16(p, 30) == le_u16(u16_le_bytes(damage_h), 0));
        assert forall|i: int| 0 <= i < 32 implies #[trigger] b[i] == p[i] by {}
    }
}

proof fn lemma_parse_event_payload(e: EventSpec, tail: Seq<u8>)
    requires
        spec_event_payload(e).len() <= u32::MAX,
    ensures
        spec_parse_event(spec_event_type(e), spec_event_payload(e) + tail)
            == Ok::<(EventSpec, nat), ParseError>((e, spec_event_payload(e).len())),
{
    let b = spec_event_payload(e) + tail;
    match e {
        EventSpec::SurfaceCreate { surface_id } => {
            lemma_u32_le_roundtrip(surface_id);
            assert(le_u32(b, 0) == le_u32(u32_le_bytes(surface_id), 0));
        },
        EventSpec::SurfaceDestroy { surface_id } => {
            lemma_u32_le_roundtrip(surface_id);
            assert(le_u32(b, 0) == le_u32(u32_le_bytes(surface_id), 0));
        },
        EventSpec::PoolData { .. } => {
            lemma_parse_pool_payload(e, tail);
        },
        EventSpec::SurfaceCommit { .. } => {
            lemma_parse_commit_payload(e, tail);
        },
        EventSpec::CursorMove { x, y } => {
            lemma_i32_le_roundtrip(x);
            lemma_i32_le_roundtrip(y);
            assert(le_u32(b, 0) == le_u32(i32_le_bytes(x), 0));
            assert(le_u32(b, 4) == le_u32(i32_le_bytes(y), 0));
        },
    }
}

proof fn lemma_events_from_encoded(data: Seq<u8>, pos: int, evs: Seq<EventSpec>)
    requires
        0 <= pos <= data.len(),
        data.subrange(pos, data.len() as int) == spec_encode_stream_events(evs),
        spec_encode_stream_events(evs).len() <= u32::MAX,
    ensures
        spec_events_from(data, pos, data.len() as int)
            == evs.map_values(|e: EventSpec| Ok::<EventSpec, ParseError>(e)),
    decreases evs.len(),
{
    let end = data.len() as int;
    let all = spec_encode_stream_events(evs);
    if evs.len() == 0 {
        assert(pos == end);
        assert(evs.map_values(|e: EventSpec| Ok::<EventSpec, ParseError>(e)) =~= Seq::empty());
    } else {
        let e = evs[0];
        let rest = evs.drop_first();
        let p = spec_event_payload(e);
        let tail = spec_encode_stream_events(rest);
        assert(all == spec_encode_stream_event(e) + tail);
        assert(all.len() == 1 + p.len() + tail.len());
        assert(data[pos] == all[0]);
        assert(data[pos] == spec_event_type(e));
        assert(data.subrange(pos + 1, end) =~= p + tail) by {
            assert forall|i: int| 0 <= i < end - pos - 1 implies
                #[trigger] data.subrange(pos + 1, end)[i] == (p + tail)[i] by {
                assert(data.subrange(pos + 1, end)[i] == all[i + 1]);
            }
        }
        lemma_parse_event_payload(e, tail);
        let next = pos + 1 + p.len();
        assert(data.subrange(next, end) =~= tail) by {
            assert forall|i: int| 0 <= i < end - next implies
                #[trigger] data.subrange(next, end)[i] == tail[i] by {
                assert(data.subrange(next, end)[i] == all[i + 1 + p.len()]);
            }
        }
        lemma_events_from_encoded(data, next, rest);
        assert(evs.map_values(|e: EventSpec| Ok::<EventSpec, ParseError>(e))
            =~= seq![Ok::<EventSpec, ParseError>(e)]
                + rest.map_values(|e: EventSpec| Ok::<EventSpec, ParseError>(e)));
    }
}

/// Parsing inverts encoding: a payload built from events by `spec_envelope`
/// parses back to exactly those events, in order, with no error (the encoded
/// events must fit the 32-bit size field).
pub proof fn lemma_parse_encoded_events(evs: Seq<EventSpec>)
    requires
        spec_encode_stream_events(evs).len() <= u32::MAX,
    ensures
        spec_parse_events(spec_envelope(evs))
            == evs.map_values(|e: EventSpec| Ok::<EventSpec, ParseError>(e)),
{
    let body = spec_encode_stream_events(evs);
    let data = spec_envelope(evs);
    lemma_u32_le_roundtrip(body.len() as u32);
    assert(le_u32(data, 0) == le_u32(u32_le_bytes(body.len() as u32), 0));
    assert(envelope_end(data) == data.len());
    assert(data.subrange(4, data.len() as int) =~= body);
    lemma_events_from_encoded(data, 4, evs);
}

/// Every well-formed envelope is recognized as a v1 payload: a payload built
/// by `spec_envelope` from one or more events whose encoding fits the 32-bit
/// size field passes the v1 check, whatever its first event is.
pub proof fn lemma_envelope_is_v1(evs: Seq<EventSpec>)
    requires
        evs.len() > 0,
        spec_encode_stream_events(evs).len() <= u32::MAX,
    ensures
        spec_is_v1_protocol(spec_envelope(evs)),
        spec_envelope(evs)[4] == spec_event_type(evs[0]),
        0x01 <= spec_event_type(evs[0]) <= 0x05,
{
    let body = spec_encode_stream_events(evs);
    let data = spec_envelope(evs);
    assert(body == spec_encode_stream_event(evs[0]) + spec_encode_stream_events(evs.drop_first()));
    assert(body[0] == spec_event_type(evs[0]));
    lemma_u32_le_roundtrip(body.len() as u32);
    assert(le_u32(data, 0) == le_u32(u32_le_bytes(body.len() as u32), 0));
    assert(data[4] == body[0]);
}

proof fn lemma_events_from_error_last(data: Seq<u8>, pos: int, end: int)
    ensures
        forall|i: int| 0 <= i < spec_events_from(data, pos, end).len() - 1
            ==> #[trigger] spec_events_from(data, pos, end)[i] is Ok,
    decreases end - pos,
{
    if !(pos < 0 || end > data.len() || pos >= end) {
        match spec_parse_event(data[pos], data.subrange(pos + 1, end)) {
            Ok((ev, n)) => {
                lemma_events_from_error_last(data, pos + 1 + n, end);
                let rest = spec_events_from(data, pos + 1 + n, end);
                assert forall|i: int| 0 <= i < spec_events_from(data, pos, end).len() - 1
                    implies #[trigger] spec_events_from(data, pos, end)[i] is Ok by {
                    if i > 0 {
                        assert(spec_events_from(data, pos, end)[i] == rest[i - 1]);
                    }
                }
            },
            Err(e) => {},
        }
    }
}

/// Parsing stops at the first error: every result but the last is an event.
pub proof fn lemma_parse_events_error_is_last(data: Seq<u8>)
    ensures
        forall|i: int| 0 <= i < spec_parse_events(data).len() - 1
            ==> #[trigger] spec_parse_events(data)[i] is Ok,
{
    if data.len() >= 4 {
        lemma_events_from_error_last(data, 4, envelope_end(data));
    }
}

/// A payload accepted by the v1 check yields at least one parse result.
pub proof fn lemma_v1_payload_nonempty(data: Seq<u8>)
    requires
        spec_is_v1_protocol(data),
    ensures
        spec_parse_events(data).len() >= 1,
{
}

/// A buffer shorter than the size field yields no results.
pub proof fn lemma_short_buffer_no_events(data: Seq<u8>)
    requires
        data.len() < 4,
    ensures
        spec_parse_events(data).len() == 0,
{
}

} // verus!
